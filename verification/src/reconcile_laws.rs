//! What holds of every reconciliation pass.

use vstd::prelude::*;
use crate::applied::with_edits;
use crate::channel::{ChannelView, PositionEdit};
use crate::order::{in_target_order, target_edits};
use crate::order_laws::{ids_identify, lemma_edits_converge, lemma_ordered_needs_no_edits};
use crate::reconcile::{
    step_of, PassActionView, PassEventView, PassReportView, PassView, Phase, ReconcileError,
};

verus! {

/// The event that reports the outcome of an edit.
pub open spec fn outcome_event(applied: bool) -> PassEventView {
    if applied {
        PassEventView::EditApplied
    } else {
        PassEventView::EditFailed
    }
}

/// The registry and the pass after the outcomes of that many edits have been
/// handed in, one after another.
pub open spec fn after_outcomes(locked: Set<u64>, pass: PassView, outcomes: Seq<bool>) -> (
    Set<u64>,
    PassView,
)
    decreases outcomes.len(),
{
    if outcomes.len() == 0 {
        (locked, pass)
    } else {
        let earlier = after_outcomes(locked, pass, outcomes.drop_last());
        let next = step_of(earlier.0, earlier.1, outcome_event(outcomes.last()));
        (next.0, next.1)
    }
}

/// The edits among `edits[from..from + outcomes.len()]` whose outcome was a
/// failure, in order.
pub open spec fn refused(edits: Seq<PositionEdit>, from: int, outcomes: Seq<bool>) -> Seq<
    PositionEdit,
>
    decreases outcomes.len(),
{
    if outcomes.len() == 0 {
        Seq::empty()
    } else {
        let earlier = refused(edits, from, outcomes.drop_last());
        if outcomes.last() {
            earlier
        } else {
            earlier.push(edits[from + outcomes.len() - 1])
        }
    }
}

/// The lock follows the pass: a pass that is well formed stays so; a pass in
/// flight holds its guild's lock after every event; the lock is given back on
/// every way out of the flight; the pass says that it is over exactly when it
/// ends; and a pass that holds no lock never gives one back.
pub proof fn lemma_lock_follows_pass(locked: Set<u64>, pass: PassView, event: PassEventView)
    requires
        pass.wf(),
        pass.in_flight() ==> locked.contains(pass.guild_id),
    ensures
        step_of(locked, pass, event).1.wf(),
        step_of(locked, pass, event).1.guild_id == pass.guild_id,
        step_of(locked, pass, event).1.in_flight() ==> step_of(locked, pass, event).0.contains(
            pass.guild_id,
        ),
        pass.in_flight() && !step_of(locked, pass, event).1.in_flight() ==> !step_of(
            locked,
            pass,
            event,
        ).0.contains(pass.guild_id),
        step_of(locked, pass, event).2 is Finish <==> pass.phase != Phase::Finished && step_of(
            locked,
            pass,
            event,
        ).1.phase == Phase::Finished,
        !pass.in_flight() && !step_of(locked, pass, event).1.in_flight() ==> step_of(
            locked,
            pass,
            event,
        ).0 == locked,
        pass.phase == Phase::Finished ==> step_of(locked, pass, event) == (
            locked,
            pass,
            PassActionView::Nothing,
        ),
{
}

/// A pass changes the lock of no guild but its own.
pub proof fn lemma_step_keeps_other_locks(
    locked: Set<u64>,
    pass: PassView,
    event: PassEventView,
    other: u64,
)
    requires
        other != pass.guild_id,
    ensures
        step_of(locked, pass, event).0.contains(other) == locked.contains(other),
{
}

/// Of two passes that are triggered on one guild whose lock
/// is free, the one that comes first is told to fetch and the other ends with
/// `AlreadyInProgress`, leaving registry untouched.
pub proof fn lemma_second_pass_is_turned_away(locked: Set<u64>, guild_id: u64)
    requires
        !locked.contains(guild_id),
    ensures
        ({
            let first = step_of(locked, PassView::idle(guild_id), PassEventView::Triggered);
            let second = step_of(first.0, PassView::idle(guild_id), PassEventView::Triggered);
            &&& first.2 == PassActionView::FetchChannels { guild_id }
            &&& first.1.in_flight()
            &&& second.2 == PassActionView::Finish(Err(ReconcileError::AlreadyInProgress))
            &&& second.1.phase == Phase::Finished
            &&& second.0 == first.0
        }),
{
}

/// A pass that is triggered while its guild is locked is turned away however
/// far the pass that holds the lock has come.
pub proof fn lemma_locked_guild_turns_away(locked: Set<u64>, guild_id: u64)
    requires
        locked.contains(guild_id),
    ensures
        step_of(locked, PassView::idle(guild_id), PassEventView::Triggered) == (
            locked,
            PassView { phase: Phase::Finished, ..PassView::idle(guild_id) },
            PassActionView::Finish(Err(ReconcileError::AlreadyInProgress)),
        ),
{
}

/// Two passes that are triggered on two different guilds whose
/// locks are free are both told to fetch, in either order.
pub proof fn lemma_passes_on_two_guilds_proceed(locked: Set<u64>, one: u64, other: u64)
    requires
        one != other,
        !locked.contains(one),
        !locked.contains(other),
    ensures
        ({
            let first = step_of(locked, PassView::idle(one), PassEventView::Triggered);
            let second = step_of(first.0, PassView::idle(other), PassEventView::Triggered);
            &&& first.2 == PassActionView::FetchChannels { guild_id: one }
            &&& second.2 == PassActionView::FetchChannels { guild_id: other }
            &&& second.0 == locked.insert(one).insert(other)
        }),
        locked.insert(one).insert(other) == locked.insert(other).insert(one),
{
    assert(locked.insert(one).insert(other) =~= locked.insert(other).insert(one));
}

/// A pass that finds every text channel at its rank asks for no edit: it ends
/// at once, with an empty report, and gives the lock back.
pub proof fn lemma_settled_guild_gets_no_edit(
    locked: Set<u64>,
    pass: PassView,
    channels: Seq<ChannelView>,
)
    requires
        pass.wf(),
        pass.phase == Phase::Fetching,
        in_target_order(channels),
    ensures
        step_of(locked, pass, PassEventView::ChannelsFetched(channels)).2
            == PassActionView::Finish(
            Ok(PassReportView { attempted: 0, failed: Seq::<PositionEdit>::empty() }),
        ),
        !step_of(locked, pass, PassEventView::ChannelsFetched(channels)).0.contains(pass.guild_id),
{
    lemma_ordered_needs_no_edits(channels);
    assert(pass.failed =~= Seq::<PositionEdit>::empty());
}

/// The pass that a guild's own edits set off finds the
/// channels as those edits left them, and asks for no further edit.
pub proof fn lemma_edits_set_off_no_edits(
    locked: Set<u64>,
    pass: PassView,
    channels: Seq<ChannelView>,
)
    requires
        pass.wf(),
        pass.phase == Phase::Fetching,
        channels.len() <= usize::MAX,
        ids_identify(channels),
    ensures
        step_of(
            locked,
            pass,
            PassEventView::ChannelsFetched(with_edits(channels, target_edits(channels))),
        ).2 == PassActionView::Finish(
            Ok(PassReportView { attempted: 0, failed: Seq::<PositionEdit>::empty() }),
        ),
{
    lemma_edits_converge(channels);
    lemma_settled_guild_gets_no_edit(locked, pass, with_edits(channels, target_edits(channels)));
}

/// A pass that has begun to edit goes through its edits in order: after the
/// outcomes of some of them it waits for the next, with the failures noted and
/// the lock held; after the outcome of the last it is over and the lock is
/// given back, whatever the outcomes were.
pub proof fn lemma_pass_runs_to_its_end(locked: Set<u64>, pass: PassView, outcomes: Seq<bool>)
    requires
        pass.wf(),
        pass.phase == Phase::Applying,
        locked.contains(pass.guild_id),
        outcomes.len() <= pass.edits.len() - pass.cursor,
    ensures
        ({
            let end = after_outcomes(locked, pass, outcomes);
            &&& end.1.wf()
            &&& end.1.guild_id == pass.guild_id
            &&& end.1.edits == pass.edits
            &&& end.1.cursor == pass.cursor + outcomes.len()
            &&& end.1.failed == pass.failed + refused(pass.edits, pass.cursor as int, outcomes)
            &&& if outcomes.len() < pass.edits.len() - pass.cursor {
                end.1.phase == Phase::Applying && end.0 == locked
            } else {
                end.1.phase == Phase::Finished && end.0 == locked.remove(pass.guild_id)
            }
        }),
    decreases outcomes.len(),
{
    if outcomes.len() == 0 {
        assert(pass.failed + refused(pass.edits, pass.cursor as int, outcomes) =~= pass.failed);
    } else {
        let earlier = outcomes.drop_last();
        lemma_pass_runs_to_its_end(locked, pass, earlier);
        let mid = after_outcomes(locked, pass, earlier);
        let end = after_outcomes(locked, pass, outcomes);
        assert(mid.1.phase == Phase::Applying);
        assert(end.1.failed =~= pass.failed + refused(pass.edits, pass.cursor as int, outcomes));
    }
}

/// No lock is left behind: a pass that finds its guild free, gets the channel
/// list and then the outcome of every edit it asks for ends with the registry
/// as it found it, whatever the channels and whatever the outcomes.
pub proof fn lemma_whole_pass_restores_registry(
    locked: Set<u64>,
    guild_id: u64,
    channels: Seq<ChannelView>,
    outcomes: Seq<bool>,
)
    requires
        !locked.contains(guild_id),
        outcomes.len() == target_edits(channels).len(),
    ensures
        ({
            let started = step_of(locked, PassView::idle(guild_id), PassEventView::Triggered);
            let fetched = step_of(started.0, started.1, PassEventView::ChannelsFetched(channels));
            let end = after_outcomes(fetched.0, fetched.1, outcomes);
            &&& end.0 == locked
            &&& end.1.phase == Phase::Finished
            &&& end.1.edits == target_edits(channels)
            &&& end.1.failed == refused(target_edits(channels), 0, outcomes)
        }),
{
    let started = step_of(locked, PassView::idle(guild_id), PassEventView::Triggered);
    let fetched = step_of(started.0, started.1, PassEventView::ChannelsFetched(channels));
    assert(locked.insert(guild_id).remove(guild_id) =~= locked);
    if outcomes.len() > 0 {
        lemma_pass_runs_to_its_end(fetched.0, fetched.1, outcomes);
        let end = after_outcomes(fetched.0, fetched.1, outcomes);
        assert(end.1.failed =~= refused(target_edits(channels), 0, outcomes));
    } else {
        assert(refused(target_edits(channels), 0, outcomes) =~= Seq::<PositionEdit>::empty());
    }
}

/// A pass whose fetch fails gives the lock back too.
pub proof fn lemma_failed_fetch_restores_registry(locked: Set<u64>, guild_id: u64)
    requires
        !locked.contains(guild_id),
    ensures
        ({
            let started = step_of(locked, PassView::idle(guild_id), PassEventView::Triggered);
            let failed = step_of(started.0, started.1, PassEventView::FetchFailed);
            &&& failed.0 == locked
            &&& failed.1.phase == Phase::Finished
            &&& failed.2 == PassActionView::Finish(Err(ReconcileError::FetchFailed))
        }),
{
    assert(locked.insert(guild_id).remove(guild_id) =~= locked);
}

} // verus!
