//! Which guilds have a reconciliation pass in flight.

use std::collections::HashSet;
use vstd::prelude::*;

verus! {

broadcast use vstd::std_specs::hash::group_hash_axioms;

/// The guilds that are under reconciliation. A guild enters when a pass
/// starts and leaves when the pass ends; while it is in, no second pass on it
/// is admitted.
pub struct GuildLockRegistry {
    locked: HashSet<u64>,
}

impl View for GuildLockRegistry {
    type V = Set<u64>;

    closed spec fn view(&self) -> Set<u64> {
        self.locked@
    }
}

/// The guilds that are locked once `guild_id` has asked for the lock.
pub open spec fn after_acquire(locked: Set<u64>, guild_id: u64) -> Set<u64> {
    locked.insert(guild_id)
}

/// Whether a request for the lock of `guild_id` is granted.
pub open spec fn grants(locked: Set<u64>, guild_id: u64) -> bool {
    !locked.contains(guild_id)
}

/// The guilds that are locked once the lock of `guild_id` has been given back.
pub open spec fn after_release(locked: Set<u64>, guild_id: u64) -> Set<u64> {
    locked.remove(guild_id)
}

impl GuildLockRegistry {
    /// A registry in which no guild is locked.
    pub fn new() -> (registry: GuildLockRegistry)
        ensures
            registry@ == Set::<u64>::empty(),
    {
        GuildLockRegistry { locked: HashSet::new() }
    }

    /// Whether a pass on the guild is in flight.
    pub fn is_locked(&self, guild_id: u64) -> (locked: bool)
        ensures
            locked == self@.contains(guild_id),
    {
        self.locked.contains(&guild_id)
    }

    /// Asks for the lock of a guild. The lock is granted, and the guild
    /// entered, exactly when the guild was not locked; a request that is
    /// denied changes nothing.
    pub fn try_acquire(&mut self, guild_id: u64) -> (granted: bool)
        ensures
            granted == grants(old(self)@, guild_id),
            final(self)@ == after_acquire(old(self)@, guild_id),
            final(self)@.contains(guild_id),
            !granted ==> final(self)@ == old(self)@,
    {
        let granted = self.locked.insert(guild_id);
        proof {
            if !granted {
                assert(old(self)@.insert(guild_id) =~= old(self)@);
            }
        }
        granted
    }

    /// Gives the lock of a guild back. Nothing happens if the guild was not
    /// locked.
    pub fn release(&mut self, guild_id: u64)
        ensures
            final(self)@ == after_release(old(self)@, guild_id),
            !final(self)@.contains(guild_id),
            !old(self)@.contains(guild_id) ==> final(self)@ == old(self)@,
    {
        self.locked.remove(&guild_id);
        proof {
            if !old(self)@.contains(guild_id) {
                assert(old(self)@.remove(guild_id) =~= old(self)@);
            }
        }
    }
}

/// Of two requests for the lock of one guild, with no
/// release between them, the second is always denied; so where the guild was
/// free exactly one of the two is granted, whichever caller comes first.
pub proof fn lemma_one_pass_per_guild(locked: Set<u64>, guild_id: u64)
    ensures
        grants(locked, guild_id) == !locked.contains(guild_id),
        !grants(after_acquire(locked, guild_id), guild_id),
        after_acquire(after_acquire(locked, guild_id), guild_id) == after_acquire(locked, guild_id),
{
    assert(after_acquire(after_acquire(locked, guild_id), guild_id) =~= after_acquire(
        locked,
        guild_id,
    ));
}

/// The lock of one guild neither grants nor denies the lock of
/// another, and two different guilds can be locked in either order with the
/// same outcome.
pub proof fn lemma_guilds_do_not_interfere(locked: Set<u64>, first: u64, second: u64)
    requires
        first != second,
    ensures
        grants(after_acquire(locked, first), second) == grants(locked, second),
        grants(after_release(locked, first), second) == grants(locked, second),
        after_acquire(after_acquire(locked, first), second) == after_acquire(
            after_acquire(locked, second),
            first,
        ),
        after_release(after_acquire(locked, first), second) == after_acquire(
            after_release(locked, second),
            first,
        ),
{
    assert(after_acquire(after_acquire(locked, first), second) =~= after_acquire(
        after_acquire(locked, second),
        first,
    ));
    assert(after_release(after_acquire(locked, first), second) =~= after_acquire(
        after_release(locked, second),
        first,
    ));
}

/// A release undoes a granted request: the registry is as it was.
pub proof fn lemma_release_restores(locked: Set<u64>, guild_id: u64)
    requires
        grants(locked, guild_id),
    ensures
        after_release(after_acquire(locked, guild_id), guild_id) == locked,
        after_release(after_release(locked, guild_id), guild_id) == after_release(locked, guild_id),
{
    assert(after_release(after_acquire(locked, guild_id), guild_id) =~= locked);
    assert(after_release(after_release(locked, guild_id), guild_id) =~= after_release(
        locked,
        guild_id,
    ));
}

} // verus!
