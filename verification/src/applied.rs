//! What a snapshot looks like once position edits have gone through.

use vstd::prelude::*;
use crate::channel::{channel_views, Channel, ChannelView, PositionEdit};

verus! {

/// The channel after one edit: moved if the edit names it, untouched otherwise.
pub open spec fn moved(c: ChannelView, edit: PositionEdit) -> ChannelView {
    if c.id == edit.channel_id {
        ChannelView { position: edit.new_position as int, ..c }
    } else {
        c
    }
}

/// The snapshot after one edit.
pub open spec fn with_edit(cs: Seq<ChannelView>, edit: PositionEdit) -> Seq<ChannelView> {
    Seq::new(cs.len(), |i: int| moved(cs[i], edit))
}

/// The snapshot after the edits have been carried out one after another.
pub open spec fn with_edits(cs: Seq<ChannelView>, edits: Seq<PositionEdit>) -> Seq<ChannelView>
    decreases edits.len(),
{
    if edits.len() == 0 {
        cs
    } else {
        with_edit(with_edits(cs, edits.drop_last()), edits.last())
    }
}

/// Whether a position can be held by a channel snapshot.
pub open spec fn holdable(edit: PositionEdit) -> bool {
    edit.new_position <= i64::MAX
}

/// A second snapshot with the same channels.
fn same_channels(channels: &Vec<Channel>) -> (same: Vec<Channel>)
    ensures
        channel_views(same@) == channel_views(channels@),
{
    let mut same: Vec<Channel> = Vec::new();
    let mut i: usize = 0;
    while i < channels.len()
        invariant
            i <= channels.len(),
            same@.len() == i,
            forall|k: int| 0 <= k < i ==> (#[trigger] same@[k])@ == channels@[k]@,
        decreases channels.len() - i,
    {
        let c = &channels[i];
        same.push(Channel { id: c.id, name: c.name.clone(), kind: c.kind, position: c.position });
        i = i + 1;
    }
    assert(channel_views(same@) =~= channel_views(channels@));
    same
}

/// Carries out one edit on a snapshot.
pub fn apply_edit(channels: &Vec<Channel>, edit: PositionEdit) -> (after: Vec<Channel>)
    requires
        holdable(edit),
    ensures
        channel_views(after@) == with_edit(channel_views(channels@), edit),
{
    let mut after: Vec<Channel> = Vec::new();
    let mut i: usize = 0;
    while i < channels.len()
        invariant
            i <= channels.len(),
            holdable(edit),
            after@.len() == i,
            forall|k: int| 0 <= k < i ==> (#[trigger] after@[k])@ == moved(channels@[k]@, edit),
        decreases channels.len() - i,
    {
        let c = &channels[i];
        let position = if c.id == edit.channel_id {
            edit.new_position as i64
        } else {
            c.position
        };
        after.push(Channel { id: c.id, name: c.name.clone(), kind: c.kind, position });
        i = i + 1;
    }
    assert(channel_views(after@) =~= with_edit(channel_views(channels@), edit));
    after
}

/// Carries out the edits on a snapshot, one after another, as the platform
/// would: a later edit of the same channel overrides an earlier one.
pub fn apply_edits(channels: &Vec<Channel>, edits: &Vec<PositionEdit>) -> (after: Vec<Channel>)
    requires
        forall|k: int| 0 <= k < edits@.len() ==> holdable(#[trigger] edits@[k]),
    ensures
        channel_views(after@) == with_edits(channel_views(channels@), edits@),
{
    let mut after: Vec<Channel> = same_channels(channels);
    proof {
        assert(edits@.take(0) =~= Seq::<PositionEdit>::empty());
    }
    let mut k: usize = 0;
    while k < edits.len()
        invariant
            k <= edits.len(),
            forall|j: int| 0 <= j < edits@.len() ==> holdable(#[trigger] edits@[j]),
            channel_views(after@) == with_edits(channel_views(channels@), edits@.take(k as int)),
        decreases edits.len() - k,
    {
        after = apply_edit(&after, edits[k]);
        proof {
            let upto = edits@.take(k + 1);
            assert(upto.drop_last() =~= edits@.take(k as int));
            assert(upto.last() == edits@[k as int]);
        }
        k = k + 1;
    }
    proof {
        assert(edits@.take(edits@.len() as int) =~= edits@);
    }
    after
}

} // verus!
