//! The target order of a guild's text channels and the edits that reach it.
//!
//! A text channel's target position is its rank: the number of text channels
//! of the same snapshot that go ahead of it. One channel goes ahead of another
//! when its name is less in the natural order; between names that the natural
//! order holds equal, the smaller identifier goes first, and between equal
//! identifiers the one that stands earlier in the snapshot.

use vstd::prelude::*;
use crate::channel::{channel_views, Channel, ChannelKind, ChannelView, PositionEdit};
use crate::natural::{compare_names, natural_order, NameOrder};
use crate::order_laws::{
    lemma_edits_are_minimal, lemma_only_text_channels_move, lemma_ordered_needs_no_edits,
    lemma_rank_below_len,
};

verus! {

/// Whether a channel takes part in ordering.
pub open spec fn is_text(c: ChannelView) -> bool {
    c.kind == ChannelKind::Text
}

/// Whether `other`, standing at `other_index`, goes ahead of `subject`,
/// standing at `subject_index`, given how the name of `other` stands to the
/// name of `subject`.
pub open spec fn goes_ahead(
    order: NameOrder,
    other: ChannelView,
    other_index: int,
    subject: ChannelView,
    subject_index: int,
) -> bool {
    &&& other_index != subject_index
    &&& is_text(other)
    &&& match order {
        NameOrder::Less => true,
        NameOrder::Equal => other.id < subject.id || (other.id == subject.id && other_index
            < subject_index),
        NameOrder::Greater => false,
    }
}

/// Whether the channel at `j` goes ahead of the channel at `i`.
pub open spec fn ahead_of(cs: Seq<ChannelView>, j: int, i: int) -> bool {
    goes_ahead(natural_order(cs[j].name, cs[i].name), cs[j], j, cs[i], i)
}

/// The number of channels among the first `n` that go ahead of the channel at `i`.
pub open spec fn count_ahead(cs: Seq<ChannelView>, i: int, n: int) -> nat
    decreases n,
{
    if n <= 0 {
        0
    } else {
        count_ahead(cs, i, n - 1) + if ahead_of(cs, n - 1, i) {
            1nat
        } else {
            0nat
        }
    }
}

/// The rank of the channel at `i`: how many text channels go ahead of it.
pub open spec fn rank(cs: Seq<ChannelView>, i: int) -> nat {
    count_ahead(cs, i, cs.len() as int)
}

/// The edit that a channel of the given rank needs: none for a channel that is
/// not a text channel or already stands at its rank.
pub open spec fn edit_of(c: ChannelView, rank: nat) -> Option<PositionEdit> {
    if is_text(c) && c.position != rank {
        Some(PositionEdit { channel_id: c.id, new_position: rank as u64 })
    } else {
        None
    }
}

/// Whether the channel at `i` is a text channel that does not stand at its rank.
pub open spec fn misplaced(cs: Seq<ChannelView>, i: int) -> bool {
    is_text(cs[i]) && cs[i].position != rank(cs, i)
}

/// The edits for the first `n` channels, in the order of the snapshot.
pub open spec fn edits_upto(cs: Seq<ChannelView>, n: int) -> Seq<PositionEdit>
    decreases n,
{
    if n <= 0 {
        Seq::empty()
    } else {
        match edit_of(cs[n - 1], rank(cs, n - 1)) {
            Some(edit) => edits_upto(cs, n - 1).push(edit),
            None => edits_upto(cs, n - 1),
        }
    }
}

/// The edits that bring every text channel of the snapshot to its rank.
pub open spec fn target_edits(cs: Seq<ChannelView>) -> Seq<PositionEdit> {
    edits_upto(cs, cs.len() as int)
}

/// Whether every text channel of the snapshot stands at its rank.
pub open spec fn in_target_order(cs: Seq<ChannelView>) -> bool {
    forall|i: int| 0 <= i < cs.len() && is_text(cs[i]) ==> cs[i].position == #[trigger] rank(cs, i)
}

/// The edit that moves the channel at `i` to its rank.
pub open spec fn edit_at(cs: Seq<ChannelView>, i: int) -> PositionEdit {
    PositionEdit { channel_id: cs[i].id, new_position: rank(cs, i) as u64 }
}

/// The index of the channel that the edit at `k` moves, among the edits for
/// the first `n` channels.
pub open spec fn edit_source(cs: Seq<ChannelView>, n: int, k: int) -> int
    decreases n,
{
    if n <= 0 {
        -1
    } else if k < edits_upto(cs, n - 1).len() {
        edit_source(cs, n - 1, k)
    } else {
        n - 1
    }
}

/// The indices below `n` of the channels that do not stand at their rank.
pub open spec fn misplaced_below(cs: Seq<ChannelView>, n: int) -> Set<int> {
    Set::new(|i: int| 0 <= i < n && misplaced(cs, i))
}

/// Decides whether `other` goes ahead of `subject` once their names have been
/// compared: `order` says how the name of `other` stands to that of `subject`.
pub fn ranks_ahead(
    order: NameOrder,
    other: &Channel,
    other_index: usize,
    subject: &Channel,
    subject_index: usize,
) -> (ahead: bool)
    ensures
        ahead == goes_ahead(order, other@, other_index as int, subject@, subject_index as int),
{
    if other_index == subject_index || other.kind != ChannelKind::Text {
        return false;
    }
    match order {
        NameOrder::Less => true,
        NameOrder::Equal => other.id < subject.id || (other.id == subject.id && other_index
            < subject_index),
        NameOrder::Greater => false,
    }
}

/// The rank of the channel at `index` among the text channels of the snapshot.
pub fn rank_of(channels: &Vec<Channel>, index: usize) -> (r: usize)
    requires
        index < channels.len(),
    ensures
        r == rank(channel_views(channels@), index as int),
        r < channels.len(),
{
    let ghost cs = channel_views(channels@);
    let subject = &channels[index];
    let mut count: usize = 0;
    let mut j: usize = 0;
    while j < channels.len()
        invariant
            j <= channels.len(),
            index < channels.len(),
            cs == channel_views(channels@),
            subject == channels[index as int],
            count == count_ahead(cs, index as int, j as int),
            count <= j,
        decreases channels.len() - j,
    {
        let other = &channels[j];
        let order = compare_names(other.name.as_str(), subject.name.as_str());
        if ranks_ahead(order, other, j, subject, index) {
            count = count + 1;
        }
        j = j + 1;
    }
    proof {
        lemma_rank_below_len(cs, index as int);
    }
    count
}

/// The edit that takes a channel to the given rank, if it needs one.
pub fn edit_for(channel: &Channel, rank: usize) -> (edit: Option<PositionEdit>)
    ensures
        edit == edit_of(channel@, rank as nat),
{
    if channel.kind != ChannelKind::Text {
        return None;
    }
    if channel.position >= 0 && channel.position as u64 == rank as u64 {
        return None;
    }
    Some(PositionEdit { channel_id: channel.id, new_position: rank as u64 })
}

/// Computes the position changes that put the text channels of a snapshot in
/// natural-sort order of their names.
///
/// Each text channel whose position differs from its rank gets one edit, which
/// moves it to that rank; the edits come in the order of the snapshot. Channels
/// of other kinds are neither counted nor moved.
pub fn compute_target_order(channels: &Vec<Channel>) -> (edits: Vec<PositionEdit>)
    ensures
        edits@ == target_edits(channel_views(channels@)),
        forall|k: int| 0 <= k < edits@.len() ==> (#[trigger] edits@[k]).new_position < channels@.len(),
        in_target_order(channel_views(channels@)) ==> edits@.len() == 0,
        misplaced_below(channel_views(channels@), channels@.len() as int).finite(),
        edits@.len() == misplaced_below(channel_views(channels@), channels@.len() as int).len(),
        forall|k: int|
            0 <= k < edits@.len() ==> {
                let i = #[trigger] edit_source(
                    channel_views(channels@),
                    channels@.len() as int,
                    k,
                );
                &&& 0 <= i < channels@.len()
                &&& channels@[i].kind == ChannelKind::Text
                &&& edits@[k].channel_id == channels@[i].id
                &&& edits@[k].new_position == rank(channel_views(channels@), i)
                &&& edits@[k].new_position != channels@[i].position
            },
{
    let ghost cs = channel_views(channels@);
    let mut edits: Vec<PositionEdit> = Vec::new();
    let mut i: usize = 0;
    while i < channels.len()
        invariant
            i <= channels.len(),
            cs == channel_views(channels@),
            edits@ == edits_upto(cs, i as int),
        decreases channels.len() - i,
    {
        let r = rank_of(channels, i);
        match edit_for(&channels[i], r) {
            Some(edit) => {
                edits.push(edit);
            },
            None => {},
        }
        i = i + 1;
    }
    proof {
        lemma_edits_are_minimal(cs);
        lemma_only_text_channels_move(cs);
        assert forall|k: int| 0 <= k < edits@.len() implies (#[trigger] edits@[k]).new_position
            < channels@.len() by {
            lemma_rank_below_len(cs, edit_source(cs, cs.len() as int, k));
        }
        if in_target_order(cs) {
            lemma_ordered_needs_no_edits(cs);
        }
    }
    edits
}

} // verus!
