//! One reconciliation pass on a guild, as a machine that the caller drives.
//!
//! The caller hands the pass what has happened (the trigger, the channel list
//! that was fetched, the outcome of an edit) and gets back what to do next:
//! fetch the channels, set one channel's position, or finish. The pass takes
//! the guild's lock when it starts and gives it back on every way out.

use vstd::prelude::*;
use crate::channel::{channel_views, Channel, ChannelView, PositionEdit};
use crate::locks::GuildLockRegistry;
use crate::order::{compute_target_order, target_edits};

verus! {

/// Why a pass ended without reconciling.
#[derive(Clone, Copy, Debug, PartialEq, Eq, Structural)]
pub enum ReconcileError {
    /// Another pass on the same guild was in flight.
    AlreadyInProgress,
    /// The channel list could not be fetched.
    FetchFailed,
}

/// How far a pass has come.
#[derive(Clone, Copy, Debug, PartialEq, Eq, Structural)]
pub enum Phase {
    /// Not started.
    Idle,
    /// Holds the lock and waits for the channel list.
    Fetching,
    /// Holds the lock and waits for the outcome of an edit.
    Applying,
    /// Over; holds no lock.
    Finished,
}

/// What a pass that ran to its end has done.
#[derive(Clone, Debug, PartialEq, Eq)]
pub struct PassReport {
    /// The number of edits that were asked for.
    pub attempted: usize,
    /// The edits that the platform refused, in the order they were asked.
    pub failed: Vec<PositionEdit>,
}

/// The mathematical value of a [`PassReport`].
pub struct PassReportView {
    pub attempted: nat,
    pub failed: Seq<PositionEdit>,
}

impl View for PassReport {
    type V = PassReportView;

    open spec fn view(&self) -> PassReportView {
        PassReportView { attempted: self.attempted as nat, failed: self.failed@ }
    }
}

/// What has happened since the pass last said what to do.
#[derive(Debug, PartialEq, Eq)]
pub enum PassEvent {
    /// A channel changed, a channel was created, or a user asked for a sort.
    Triggered,
    /// The channel list has arrived.
    ChannelsFetched(Vec<Channel>),
    /// The channel list could not be had.
    FetchFailed,
    /// The edit that was asked for went through.
    EditApplied,
    /// The edit that was asked for was refused.
    EditFailed,
}

/// The mathematical value of a [`PassEvent`].
pub enum PassEventView {
    Triggered,
    ChannelsFetched(Seq<ChannelView>),
    FetchFailed,
    EditApplied,
    EditFailed,
}

impl View for PassEvent {
    type V = PassEventView;

    open spec fn view(&self) -> PassEventView {
        match self {
            PassEvent::Triggered => PassEventView::Triggered,
            PassEvent::ChannelsFetched(channels) => PassEventView::ChannelsFetched(
                channel_views(channels@),
            ),
            PassEvent::FetchFailed => PassEventView::FetchFailed,
            PassEvent::EditApplied => PassEventView::EditApplied,
            PassEvent::EditFailed => PassEventView::EditFailed,
        }
    }
}

/// What the caller is to do next.
#[derive(Debug, PartialEq, Eq)]
pub enum PassAction {
    /// Fetch the channel list of the guild and hand it in.
    FetchChannels { guild_id: u64 },
    /// Set the position of one channel and hand in the outcome.
    SetPosition(PositionEdit),
    /// The pass is over, with this result.
    Finish(Result<PassReport, ReconcileError>),
    /// The event does not belong to the phase the pass is in; nothing changed.
    Nothing,
}

/// The mathematical value of a [`PassAction`].
pub enum PassActionView {
    FetchChannels { guild_id: u64 },
    SetPosition(PositionEdit),
    Finish(Result<PassReportView, ReconcileError>),
    Nothing,
}

impl View for PassAction {
    type V = PassActionView;

    open spec fn view(&self) -> PassActionView {
        match self {
            PassAction::FetchChannels { guild_id } => PassActionView::FetchChannels {
                guild_id: *guild_id,
            },
            PassAction::SetPosition(edit) => PassActionView::SetPosition(*edit),
            PassAction::Finish(Ok(report)) => PassActionView::Finish(Ok(report@)),
            PassAction::Finish(Err(e)) => PassActionView::Finish(Err(*e)),
            PassAction::Nothing => PassActionView::Nothing,
        }
    }
}

/// The mathematical value of a [`Pass`].
pub struct PassView {
    pub guild_id: u64,
    pub phase: Phase,
    /// The edits of this pass, known once the channel list has arrived.
    pub edits: Seq<PositionEdit>,
    /// How many of the edits have had their outcome.
    pub cursor: nat,
    /// The edits that were refused so far.
    pub failed: Seq<PositionEdit>,
}

impl PassView {
    /// A pass on the guild that has not started.
    pub open spec fn idle(guild_id: u64) -> PassView {
        PassView { guild_id, phase: Phase::Idle, edits: Seq::empty(), cursor: 0, failed: Seq::empty() }
    }

    /// What every pass satisfies: it has not gone past its edits, it waits for
    /// an outcome only while an edit is left, and it knows of no edit before the
    /// channel list has arrived.
    pub open spec fn wf(self) -> bool {
        &&& self.cursor <= self.edits.len()
        &&& self.failed.len() <= self.cursor
        &&& self.phase == Phase::Applying ==> self.cursor < self.edits.len()
        &&& self.phase == Phase::Idle || self.phase == Phase::Fetching ==> self.edits.len() == 0
    }

    /// Whether the pass holds the lock of its guild.
    pub open spec fn in_flight(self) -> bool {
        self.phase == Phase::Fetching || self.phase == Phase::Applying
    }

    /// The report of the pass as it stands.
    pub open spec fn report(self) -> PassReportView {
        PassReportView { attempted: self.edits.len(), failed: self.failed }
    }
}

/// The state of the lock registry and of the pass after an event, and what the
/// caller is to do next.
pub open spec fn step_of(locked: Set<u64>, pass: PassView, event: PassEventView) -> (
    Set<u64>,
    PassView,
    PassActionView,
) {
    match (pass.phase, event) {
        (Phase::Idle, PassEventView::Triggered) => {
            if locked.contains(pass.guild_id) {
                (
                    locked,
                    PassView { phase: Phase::Finished, ..pass },
                    PassActionView::Finish(Err(ReconcileError::AlreadyInProgress)),
                )
            } else {
                (
                    locked.insert(pass.guild_id),
                    PassView { phase: Phase::Fetching, ..pass },
                    PassActionView::FetchChannels { guild_id: pass.guild_id },
                )
            }
        },
        (Phase::Fetching, PassEventView::FetchFailed) => (
            locked.remove(pass.guild_id),
            PassView { phase: Phase::Finished, ..pass },
            PassActionView::Finish(Err(ReconcileError::FetchFailed)),
        ),
        (Phase::Fetching, PassEventView::ChannelsFetched(channels)) => {
            let edits = target_edits(channels);
            if edits.len() == 0 {
                let done = PassView { phase: Phase::Finished, edits, ..pass };
                (locked.remove(pass.guild_id), done, PassActionView::Finish(Ok(done.report())))
            } else {
                (
                    locked,
                    PassView { phase: Phase::Applying, edits, ..pass },
                    PassActionView::SetPosition(edits[0]),
                )
            }
        },
        (Phase::Applying, PassEventView::EditApplied) => after_outcome(locked, pass, pass.failed),
        (Phase::Applying, PassEventView::EditFailed) => after_outcome(
            locked,
            pass,
            pass.failed.push(pass.edits[pass.cursor as int]),
        ),
        _ => (locked, pass, PassActionView::Nothing),
    }
}

/// Where a pass goes once the edit it waited for has had its outcome: on to
/// the next edit, or to its end when none is left.
pub open spec fn after_outcome(locked: Set<u64>, pass: PassView, failed: Seq<PositionEdit>) -> (
    Set<u64>,
    PassView,
    PassActionView,
) {
    let cursor = pass.cursor + 1;
    if cursor < pass.edits.len() {
        (
            locked,
            PassView { cursor, failed, ..pass },
            PassActionView::SetPosition(pass.edits[cursor as int]),
        )
    } else {
        let done = PassView { phase: Phase::Finished, cursor, failed, ..pass };
        (locked.remove(pass.guild_id), done, PassActionView::Finish(Ok(done.report())))
    }
}

/// One reconciliation pass on one guild.
pub struct Pass {
    guild_id: u64,
    phase: Phase,
    edits: Vec<PositionEdit>,
    cursor: usize,
    failed: Vec<PositionEdit>,
}

impl View for Pass {
    type V = PassView;

    closed spec fn view(&self) -> PassView {
        PassView {
            guild_id: self.guild_id,
            phase: self.phase,
            edits: self.edits@,
            cursor: self.cursor as nat,
            failed: self.failed@,
        }
    }
}

impl Pass {
    #[verifier::type_invariant]
    spec fn well_formed(self) -> bool {
        self@.wf()
    }

    /// A pass on the guild that has not started.
    pub fn new(guild_id: u64) -> (pass: Pass)
        ensures
            pass@ == PassView::idle(guild_id),
            pass@.wf(),
    {
        Pass { guild_id, phase: Phase::Idle, edits: Vec::new(), cursor: 0, failed: Vec::new() }
    }

    /// The guild that the pass is on.
    pub fn guild_id(&self) -> (guild_id: u64)
        ensures
            guild_id == self@.guild_id,
    {
        self.guild_id
    }

    /// How far the pass has come.
    pub fn phase(&self) -> (phase: Phase)
        ensures
            phase == self@.phase,
            self@.wf(),
    {
        proof {
            use_type_invariant(self);
        }
        self.phase
    }

    /// Whether the pass holds the lock of its guild.
    pub fn in_flight(&self) -> (held: bool)
        ensures
            held == self@.in_flight(),
    {
        match self.phase {
            Phase::Fetching => true,
            Phase::Applying => true,
            _ => false,
        }
    }

    /// Takes an event and says what to do next.
    ///
    /// A trigger starts an idle pass if the guild's lock is free and ends it
    /// with `AlreadyInProgress` if not. The channel list gives the pass its
    /// edits, which it then asks for one at a time, in order; an edit that
    /// fails is noted and the pass goes on. The lock is given back when the
    /// fetch fails, when there is nothing to edit and when the last edit has
    /// had its outcome. An event that does not belong to the phase changes
    /// nothing.
    pub fn step(&mut self, registry: &mut GuildLockRegistry, event: PassEvent) -> (action:
        PassAction)
        ensures
            old(self)@.wf(),
            final(self)@.wf(),
            final(registry)@ == step_of(old(registry)@, old(self)@, event@).0,
            final(self)@ == step_of(old(registry)@, old(self)@, event@).1,
            action@ == step_of(old(registry)@, old(self)@, event@).2,
    {
        proof {
            use_type_invariant(&*self);
        }
        let guild_id = self.guild_id;
        match self.phase {
            Phase::Idle => match event {
                PassEvent::Triggered => {
                    if registry.try_acquire(guild_id) {
                        self.phase = Phase::Fetching;
                        PassAction::FetchChannels { guild_id }
                    } else {
                        self.phase = Phase::Finished;
                        PassAction::Finish(Err(ReconcileError::AlreadyInProgress))
                    }
                },
                _ => PassAction::Nothing,
            },
            Phase::Fetching => match event {
                PassEvent::FetchFailed => {
                    registry.release(guild_id);
                    self.phase = Phase::Finished;
                    PassAction::Finish(Err(ReconcileError::FetchFailed))
                },
                PassEvent::ChannelsFetched(channels) => {
                    assert(self.failed@ =~= Seq::<PositionEdit>::empty());
                    let edits = compute_target_order(&channels);
                    if edits.len() == 0 {
                        registry.release(guild_id);
                        self.phase = Phase::Finished;
                        self.edits = edits;
                        PassAction::Finish(Ok(PassReport { attempted: 0, failed: Vec::new() }))
                    } else {
                        let first = edits[0];
                        *self = Pass {
                            guild_id,
                            phase: Phase::Applying,
                            edits,
                            cursor: 0,
                            failed: Vec::new(),
                        };
                        PassAction::SetPosition(first)
                    }
                },
                _ => PassAction::Nothing,
            },
            Phase::Applying => match event {
                PassEvent::EditApplied => self.advance(registry, None),
                PassEvent::EditFailed => {
                    let refused = self.edits[self.cursor];
                    self.advance(registry, Some(refused))
                },
                _ => PassAction::Nothing,
            },
            Phase::Finished => PassAction::Nothing,
        }
    }

    fn advance(&mut self, registry: &mut GuildLockRegistry, refused: Option<PositionEdit>) -> (action:
        PassAction)
        requires
            old(self).phase == Phase::Applying,
        ensures
            final(self)@.wf(),
            ({
                let failed = match refused {
                    Some(edit) => old(self).failed@.push(edit),
                    None => old(self).failed@,
                };
                &&& final(registry)@ == after_outcome(old(registry)@, old(self)@, failed).0
                &&& final(self)@ == after_outcome(old(registry)@, old(self)@, failed).1
                &&& action@ == after_outcome(old(registry)@, old(self)@, failed).2
            }),
    {
        proof {
            use_type_invariant(&*self);
        }
        let mut taken = Pass::new(self.guild_id);
        core::mem::swap(self, &mut taken);
        let Pass { guild_id, phase: _, edits, cursor, failed } = taken;
        let mut failed = failed;
        match refused {
            Some(edit) => {
                failed.push(edit);
            },
            None => {},
        }
        let total = edits.len();
        let next = cursor + 1;
        if next < total {
            let edit = edits[next];
            *self = Pass { guild_id, phase: Phase::Applying, edits, cursor: next, failed };
            PassAction::SetPosition(edit)
        } else {
            registry.release(guild_id);
            let report = PassReport { attempted: total, failed: failed.clone() };
            *self = Pass { guild_id, phase: Phase::Finished, edits, cursor: next, failed };
            PassAction::Finish(Ok(report))
        }
    }
}

} // verus!
