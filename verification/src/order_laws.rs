//! What holds of the target order whatever the snapshot.

use vstd::prelude::*;
use crate::applied::{with_edit, with_edits};
use crate::channel::{ChannelView, PositionEdit};
use crate::natural::{natural_order, NameOrder};
use crate::order::{
    ahead_of, count_ahead, edit_at, edit_source, edits_upto, in_target_order, is_text, misplaced,
    misplaced_below, rank, target_edits,
};

verus! {

/// Whether no two channels of the snapshot share an identifier.
pub open spec fn ids_identify(cs: Seq<ChannelView>) -> bool {
    forall|i: int, j: int| 0 <= i < j < cs.len() ==> cs[i].id != cs[j].id
}

/// Whether the two snapshots hold the same channels, positions aside.
pub open spec fn same_but_positions(a: Seq<ChannelView>, b: Seq<ChannelView>) -> bool {
    &&& a.len() == b.len()
    &&& forall|i: int|
        0 <= i < a.len() ==> (#[trigger] a[i]).id == b[i].id && a[i].name == b[i].name && a[i].kind
            == b[i].kind
}

/// A rank is less than the number of channels: a channel does not go ahead
/// of itself.
pub proof fn lemma_rank_below_len(cs: Seq<ChannelView>, i: int)
    requires
        0 <= i < cs.len(),
    ensures
        rank(cs, i) < cs.len(),
{
    lemma_count_without_self(cs, i, cs.len() as int);
}

proof fn lemma_count_without_self(cs: Seq<ChannelView>, i: int, n: int)
    requires
        0 <= i,
        0 <= n,
    ensures
        count_ahead(cs, i, n) <= n,
        i < n ==> count_ahead(cs, i, n) < n,
    decreases n,
{
    if n > 0 {
        lemma_count_without_self(cs, i, n - 1);
        assert(!ahead_of(cs, i, i));
    }
}

/// The rank of a channel does not depend on any position.
pub proof fn lemma_rank_ignores_positions(a: Seq<ChannelView>, b: Seq<ChannelView>, i: int)
    requires
        same_but_positions(a, b),
        0 <= i < a.len(),
    ensures
        rank(a, i) == rank(b, i),
{
    lemma_count_ignores_positions(a, b, i, a.len() as int);
}

proof fn lemma_count_ignores_positions(
    a: Seq<ChannelView>,
    b: Seq<ChannelView>,
    i: int,
    n: int,
)
    requires
        same_but_positions(a, b),
        0 <= i < a.len(),
        0 <= n <= a.len(),
    ensures
        count_ahead(a, i, n) == count_ahead(b, i, n),
    decreases n,
{
    if n > 0 {
        lemma_count_ignores_positions(a, b, i, n - 1);
        assert(a[n - 1].id == b[n - 1].id);
        assert(a[i].id == b[i].id);
    }
}

/// Every edit among those for the first `n` channels moves a misplaced text
/// channel to its rank: the one that `edit_source` names.
pub proof fn lemma_edits_have_sources(cs: Seq<ChannelView>, n: int)
    requires
        0 <= n <= cs.len(),
    ensures
        forall|k: int|
            0 <= k < edits_upto(cs, n).len() ==> {
                let i = #[trigger] edit_source(cs, n, k);
                0 <= i < n && misplaced(cs, i) && edits_upto(cs, n)[k] == edit_at(cs, i)
            },
    decreases n,
{
    if n > 0 {
        lemma_edits_have_sources(cs, n - 1);
        let before = edits_upto(cs, n - 1);
        let now = edits_upto(cs, n);
        assert forall|k: int| 0 <= k < now.len() implies {
            let i = #[trigger] edit_source(cs, n, k);
            0 <= i < n && misplaced(cs, i) && now[k] == edit_at(cs, i)
        } by {
            if k < before.len() {
                assert(now[k] == before[k]);
                assert(edit_source(cs, n, k) == edit_source(cs, n - 1, k));
            } else {
                assert(edit_source(cs, n, k) == n - 1);
            }
        }
    }
}

/// Every misplaced text channel among the first `n` has its edit, which stands
/// behind the edits of the channels before it.
pub proof fn lemma_misplaced_have_edits(cs: Seq<ChannelView>, n: int)
    requires
        0 <= n <= cs.len(),
    ensures
        forall|i: int|
            0 <= i < n && #[trigger] misplaced(cs, i) ==> {
                let k = edits_upto(cs, i).len() as int;
                k < edits_upto(cs, n).len() && edits_upto(cs, n)[k] == edit_at(cs, i)
            },
        forall|i: int| 0 <= i <= n ==> (#[trigger] edits_upto(cs, i)).len() <= edits_upto(cs, n).len(),
    decreases n,
{
    if n > 0 {
        lemma_misplaced_have_edits(cs, n - 1);
        let before = edits_upto(cs, n - 1);
        let now = edits_upto(cs, n);
        assert forall|i: int| 0 <= i < n && #[trigger] misplaced(cs, i) implies {
            let k = edits_upto(cs, i).len() as int;
            k < now.len() && now[k] == edit_at(cs, i)
        } by {
            let k = edits_upto(cs, i).len() as int;
            if i < n - 1 {
                assert(before[k] == edit_at(cs, i));
                assert(now[k] == before[k]);
            } else {
                assert(now == before.push(edit_at(cs, i)));
            }
        }
    }
}

/// There are as many edits as misplaced channels.
pub proof fn lemma_edit_count(cs: Seq<ChannelView>, n: int)
    requires
        0 <= n <= cs.len(),
    ensures
        misplaced_below(cs, n).finite(),
        edits_upto(cs, n).len() == misplaced_below(cs, n).len(),
    decreases n,
{
    if n == 0 {
        assert(misplaced_below(cs, n) =~= Set::<int>::empty());
    } else {
        lemma_edit_count(cs, n - 1);
        let before = misplaced_below(cs, n - 1);
        if misplaced(cs, n - 1) {
            assert(misplaced_below(cs, n) =~= before.insert(n - 1));
            assert(!before.contains(n - 1));
        } else {
            assert(misplaced_below(cs, n) =~= before);
        }
    }
}

/// Where every text channel among the first `n` stands at its rank, they need
/// no edit.
proof fn lemma_no_edits_upto(cs: Seq<ChannelView>, n: int)
    requires
        0 <= n <= cs.len(),
        in_target_order(cs),
    ensures
        edits_upto(cs, n) == Seq::<PositionEdit>::empty(),
    decreases n,
{
    if n > 0 {
        lemma_no_edits_upto(cs, n - 1);
        assert(is_text(cs[n - 1]) ==> cs[n - 1].position == rank(cs, n - 1));
    }
}

/// Where the edits for the first `n` channels have been carried out, each of
/// those channels that was misplaced stands at its rank, and nothing else has
/// changed.
proof fn lemma_positions_after_edits(cs: Seq<ChannelView>, n: int)
    requires
        0 <= n <= cs.len() <= u64::MAX,
        ids_identify(cs),
    ensures
        same_but_positions(cs, with_edits(cs, edits_upto(cs, n))),
        forall|i: int|
            0 <= i < cs.len() ==> (#[trigger] with_edits(cs, edits_upto(cs, n))[i]).position == (if i
                < n && misplaced(cs, i) {
                rank(cs, i) as int
            } else {
                cs[i].position
            }),
    decreases n,
{
    if n > 0 {
        lemma_positions_after_edits(cs, n - 1);
        let before = edits_upto(cs, n - 1);
        let now = edits_upto(cs, n);
        if misplaced(cs, n - 1) {
            let edit = edit_at(cs, n - 1);
            lemma_rank_below_len(cs, n - 1);
            assert(now == before.push(edit));
            assert(now.drop_last() =~= before);
            assert(now.last() == edit);
            let earlier = with_edits(cs, before);
            assert(with_edits(cs, now) == with_edit(earlier, edit));
            assert forall|i: int| 0 <= i < cs.len() implies (#[trigger] with_edits(
                cs,
                now,
            )[i]).position == (if i < n && misplaced(cs, i) {
                rank(cs, i) as int
            } else {
                cs[i].position
            }) by {
                assert(earlier[i].id == cs[i].id);
                if i < n - 1 {
                    assert(cs[i].id != cs[n - 1].id);
                } else if i > n - 1 {
                    assert(cs[n - 1].id != cs[i].id);
                }
            }
            assert forall|i: int| 0 <= i < cs.len() implies (#[trigger] cs[i]).id == with_edits(
                cs,
                now,
            )[i].id && cs[i].name == with_edits(cs, now)[i].name && cs[i].kind == with_edits(
                cs,
                now,
            )[i].kind by {
                assert(earlier[i].id == cs[i].id);
            }
        } else {
            assert(now == before);
        }
    } else {
        assert(edits_upto(cs, n).len() == 0);
    }
}

/// A snapshot whose text channels all stand at their ranks needs
/// no edit.
pub proof fn lemma_ordered_needs_no_edits(cs: Seq<ChannelView>)
    requires
        in_target_order(cs),
    ensures
        target_edits(cs) == Seq::<PositionEdit>::empty(),
{
    lemma_no_edits_upto(cs, cs.len() as int);
}

/// Once the edits of a snapshot have been carried out, every text
/// channel stands at its rank, and the snapshot that results needs no edit.
///
/// The snapshot is one that a list can hold, and its identifiers tell its
/// channels apart, as the platform's do.
pub proof fn lemma_edits_converge(cs: Seq<ChannelView>)
    requires
        cs.len() <= usize::MAX,
        ids_identify(cs),
    ensures
        same_but_positions(cs, with_edits(cs, target_edits(cs))),
        in_target_order(with_edits(cs, target_edits(cs))),
        target_edits(with_edits(cs, target_edits(cs))) == Seq::<PositionEdit>::empty(),
{
    let after = with_edits(cs, target_edits(cs));
    lemma_positions_after_edits(cs, cs.len() as int);
    assert forall|i: int| 0 <= i < after.len() && is_text(after[i]) implies after[i].position
        == #[trigger] rank(after, i) by {
        lemma_rank_ignores_positions(cs, after, i);
        assert(after[i].kind == cs[i].kind);
    }
    lemma_ordered_needs_no_edits(after);
}

/// There are as many edits as text channels that do not stand at
/// their rank, and each edit moves one of them, from a position that is not its
/// rank to its rank.
pub proof fn lemma_edits_are_minimal(cs: Seq<ChannelView>)
    requires
        cs.len() <= usize::MAX,
    ensures
        misplaced_below(cs, cs.len() as int).finite(),
        target_edits(cs).len() == misplaced_below(cs, cs.len() as int).len(),
        forall|k: int|
            0 <= k < target_edits(cs).len() ==> {
                let i = #[trigger] edit_source(cs, cs.len() as int, k);
                &&& 0 <= i < cs.len()
                &&& target_edits(cs)[k].channel_id == cs[i].id
                &&& target_edits(cs)[k].new_position == rank(cs, i)
                &&& target_edits(cs)[k].new_position != cs[i].position
            },
        forall|i: int|
            0 <= i < cs.len() && is_text(cs[i]) && cs[i].position != rank(cs, i) ==> {
                let k = (#[trigger] edits_upto(cs, i)).len() as int;
                &&& k < target_edits(cs).len()
                &&& target_edits(cs)[k].channel_id == cs[i].id
                &&& target_edits(cs)[k].new_position == rank(cs, i)
            },
{
    let n = cs.len() as int;
    lemma_edit_count(cs, n);
    lemma_edits_have_sources(cs, n);
    lemma_misplaced_have_edits(cs, n);
    assert forall|k: int| 0 <= k < target_edits(cs).len() implies {
        let i = #[trigger] edit_source(cs, n, k);
        &&& 0 <= i < cs.len()
        &&& target_edits(cs)[k].channel_id == cs[i].id
        &&& target_edits(cs)[k].new_position == rank(cs, i)
        &&& target_edits(cs)[k].new_position != cs[i].position
    } by {
        let i = edit_source(cs, n, k);
        lemma_rank_below_len(cs, i);
    }
    assert forall|i: int|
        0 <= i < cs.len() && is_text(cs[i]) && cs[i].position != rank(cs, i) implies {
        let k = (#[trigger] edits_upto(cs, i)).len() as int;
        &&& k < target_edits(cs).len()
        &&& target_edits(cs)[k].channel_id == cs[i].id
        &&& target_edits(cs)[k].new_position == rank(cs, i)
    } by {
        assert(misplaced(cs, i));
        lemma_rank_below_len(cs, i);
    }
}

/// Every edit names a text channel of the snapshot,
/// whatever the names and positions of the other channels.
pub proof fn lemma_only_text_channels_move(cs: Seq<ChannelView>)
    ensures
        forall|k: int|
            0 <= k < target_edits(cs).len() ==> {
                let i = #[trigger] edit_source(cs, cs.len() as int, k);
                0 <= i < cs.len() && is_text(cs[i]) && target_edits(cs)[k].channel_id == cs[i].id
            },
{
    lemma_edits_have_sources(cs, cs.len() as int);
}

/// Where identifiers tell the channels
/// apart, no edit names a channel that is not a text channel.
pub proof fn lemma_other_channels_stay(cs: Seq<ChannelView>, j: int, k: int)
    requires
        ids_identify(cs),
        0 <= j < cs.len(),
        !is_text(cs[j]),
        0 <= k < target_edits(cs).len(),
    ensures
        target_edits(cs)[k].channel_id != cs[j].id,
{
    lemma_edits_have_sources(cs, cs.len() as int);
    let i = edit_source(cs, cs.len() as int, k);
    assert(is_text(cs[i]));
    if i < j {
        assert(cs[i].id != cs[j].id);
    } else {
        assert(cs[j].id != cs[i].id);
    }
}

/// Whether the name at `i` comes no later than the name at `j`.
pub open spec fn no_later(cs: Seq<ChannelView>, i: int, j: int) -> bool {
    natural_order(cs[i].name, cs[j].name) != NameOrder::Greater
}

/// The order seen from the other side.
pub open spec fn turned(order: NameOrder) -> NameOrder {
    match order {
        NameOrder::Less => NameOrder::Greater,
        NameOrder::Equal => NameOrder::Equal,
        NameOrder::Greater => NameOrder::Less,
    }
}

/// Whether the natural order puts the names of the snapshot's text channels in
/// a line: comparing two of them either way round gives answers that agree,
/// and a name that comes no later than a second, which comes no later than a
/// third, comes no later than the third.
pub open spec fn names_line_up(cs: Seq<ChannelView>) -> bool {
    &&& forall|i: int, j: int|
        0 <= i < cs.len() && 0 <= j < cs.len() && is_text(cs[i]) && is_text(cs[j])
            ==> #[trigger] natural_order(cs[j].name, cs[i].name) == turned(
            natural_order(cs[i].name, cs[j].name),
        )
    &&& forall|i: int, j: int, k: int|
        0 <= i < cs.len() && 0 <= j < cs.len() && 0 <= k < cs.len() && is_text(cs[i]) && is_text(
            cs[j],
        ) && is_text(cs[k]) && #[trigger] no_later(cs, i, j) && #[trigger] no_later(cs, j, k)
            ==> no_later(cs, i, k)
}

/// The number of text channels among the first `n`.
pub open spec fn text_count(cs: Seq<ChannelView>, n: int) -> nat
    decreases n,
{
    if n <= 0 {
        0
    } else {
        text_count(cs, n - 1) + if is_text(cs[n - 1]) {
            1nat
        } else {
            0nat
        }
    }
}

/// Of two different text channels exactly one goes ahead of the other.
proof fn lemma_one_goes_ahead(cs: Seq<ChannelView>, i: int, j: int)
    requires
        names_line_up(cs),
        0 <= i < cs.len(),
        0 <= j < cs.len(),
        i != j,
        is_text(cs[i]),
        is_text(cs[j]),
    ensures
        ahead_of(cs, i, j) != ahead_of(cs, j, i),
{
    assert(natural_order(cs[j].name, cs[i].name) == turned(natural_order(cs[i].name, cs[j].name)));
}

/// A name that comes before a second, which comes no later than a third,
/// comes before the third; and likewise with the strict step second.
proof fn lemma_strict_steps(cs: Seq<ChannelView>, i: int, j: int, k: int)
    requires
        names_line_up(cs),
        0 <= i < cs.len(),
        0 <= j < cs.len(),
        0 <= k < cs.len(),
        is_text(cs[i]),
        is_text(cs[j]),
        is_text(cs[k]),
        no_later(cs, i, j),
        no_later(cs, j, k),
    ensures
        no_later(cs, i, k),
        natural_order(cs[i].name, cs[j].name) == NameOrder::Less ==> natural_order(
            cs[i].name,
            cs[k].name,
        ) == NameOrder::Less,
        natural_order(cs[j].name, cs[k].name) == NameOrder::Less ==> natural_order(
            cs[i].name,
            cs[k].name,
        ) == NameOrder::Less,
{
    assert(no_later(cs, i, k));
    if natural_order(cs[i].name, cs[k].name) == NameOrder::Equal {
        assert(natural_order(cs[k].name, cs[i].name) == turned(
            natural_order(cs[i].name, cs[k].name),
        ));
        assert(no_later(cs, k, i));
        assert(no_later(cs, k, j));
        assert(no_later(cs, j, i));
        assert(natural_order(cs[j].name, cs[i].name) == turned(
            natural_order(cs[i].name, cs[j].name),
        ));
        assert(natural_order(cs[k].name, cs[j].name) == turned(
            natural_order(cs[j].name, cs[k].name),
        ));
    }
}

/// Going ahead carries over: where the channel at `k` goes ahead of the one
/// at `j`, and that one ahead of the one at `i`, the channel at `k` goes ahead
/// of the one at `i`.
proof fn lemma_ahead_carries_over(cs: Seq<ChannelView>, k: int, j: int, i: int)
    requires
        names_line_up(cs),
        0 <= i < cs.len(),
        0 <= j < cs.len(),
        0 <= k < cs.len(),
        is_text(cs[i]),
        ahead_of(cs, k, j),
        ahead_of(cs, j, i),
    ensures
        ahead_of(cs, k, i),
{
    assert(no_later(cs, k, j));
    assert(no_later(cs, j, i));
    lemma_strict_steps(cs, k, j, i);
    if k == i {
        lemma_one_goes_ahead(cs, i, j);
    }
}

/// Where one text channel goes ahead of another, every channel that goes
/// ahead of the first goes ahead of the second, and so does the first.
proof fn lemma_count_grows(cs: Seq<ChannelView>, i: int, j: int, n: int)
    requires
        names_line_up(cs),
        0 <= i < cs.len(),
        0 <= j < cs.len(),
        is_text(cs[j]),
        ahead_of(cs, i, j),
        0 <= n <= cs.len(),
    ensures
        count_ahead(cs, i, n) + (if i < n {
            1nat
        } else {
            0nat
        }) <= count_ahead(cs, j, n),
    decreases n,
{
    if n > 0 {
        lemma_count_grows(cs, i, j, n - 1);
        let k = n - 1;
        if ahead_of(cs, k, i) {
            lemma_ahead_carries_over(cs, k, i, j);
        }
    }
}

/// The channels that go ahead of a text channel are text channels other than
/// itself.
proof fn lemma_count_below_text_count(cs: Seq<ChannelView>, i: int, n: int)
    requires
        0 <= i < cs.len(),
        is_text(cs[i]),
        0 <= n <= cs.len(),
    ensures
        count_ahead(cs, i, n) + (if i < n {
            1nat
        } else {
            0nat
        }) <= text_count(cs, n),
    decreases n,
{
    if n > 0 {
        lemma_count_below_text_count(cs, i, n - 1);
    }
}

/// The ranks of the text channels are below the number of text channels,
/// whatever the natural order is.
pub proof fn lemma_rank_below_text_count(cs: Seq<ChannelView>, i: int)
    requires
        0 <= i < cs.len(),
        is_text(cs[i]),
    ensures
        rank(cs, i) < text_count(cs, cs.len() as int),
{
    lemma_count_below_text_count(cs, i, cs.len() as int);
}

/// Where the natural order puts the names in a line, the ranks are the places
/// in the sorted list of names: no two text channels share a rank, and a text
/// channel of lower rank has a name that comes no later than that of one of
/// higher rank. Between names that the natural order holds equal the lower
/// rank goes to the smaller identifier.
pub proof fn lemma_ranks_sort_the_names(cs: Seq<ChannelView>, i: int, j: int)
    requires
        names_line_up(cs),
        0 <= i < cs.len(),
        0 <= j < cs.len(),
        i != j,
        is_text(cs[i]),
        is_text(cs[j]),
    ensures
        rank(cs, i) != rank(cs, j),
        rank(cs, i) < rank(cs, j) <==> ahead_of(cs, i, j),
        rank(cs, i) < rank(cs, j) ==> no_later(cs, i, j),
        rank(cs, i) < rank(cs, j) && natural_order(cs[i].name, cs[j].name) == NameOrder::Equal
            ==> cs[i].id <= cs[j].id,
{
    lemma_one_goes_ahead(cs, i, j);
    if ahead_of(cs, i, j) {
        lemma_count_grows(cs, i, j, cs.len() as int);
    } else {
        lemma_count_grows(cs, j, i, cs.len() as int);
    }
}

} // verus!
