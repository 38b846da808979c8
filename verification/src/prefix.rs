//! The command prefix of each guild, as last read from or written to the store.

use std::collections::HashMap;
use vstd::prelude::*;
use vstd::string::*;

verus! {

broadcast use vstd::std_specs::hash::group_hash_axioms;

/// The prefix of a guild that has none of its own.
pub const DEFAULT_PREFIX: &'static str = ".";

/// The characters of the default prefix.
pub open spec fn default_prefix() -> Seq<char> {
    seq!['.']
}

/// Why the persistent store did not do what it was asked.
#[derive(Clone, Copy, Debug, PartialEq, Eq, Structural)]
pub enum StoreError {
    /// A record could not be written.
    WriteFailed,
    /// The records could not be read.
    ReadFailed,
}

/// What the store holds of one guild's prefix.
#[derive(Clone, Debug, PartialEq, Eq)]
pub struct StoredPrefix {
    pub guild_id: u64,
    /// The recorded prefix; `None` where the record has none.
    pub prefix: Option<String>,
}

/// The mathematical value of a [`StoredPrefix`].
pub struct StoredPrefixView {
    pub guild_id: u64,
    pub prefix: Option<Seq<char>>,
}

impl View for StoredPrefix {
    type V = StoredPrefixView;

    open spec fn view(&self) -> StoredPrefixView {
        StoredPrefixView {
            guild_id: self.guild_id,
            prefix: match self.prefix {
                Some(p) => Some(p@),
                None => None,
            },
        }
    }
}

/// The values of a list of stored records, one by one.
pub open spec fn stored_views(records: Seq<StoredPrefix>) -> Seq<StoredPrefixView> {
    Seq::new(records.len(), |i: int| records[i]@)
}

/// The prefixes that a bulk read yields: each record that has a prefix gives
/// its guild that prefix, a later record overriding an earlier one; a record
/// without a prefix gives nothing.
pub open spec fn loaded(records: Seq<StoredPrefixView>) -> Map<u64, Seq<char>>
    decreases records.len(),
{
    if records.len() == 0 {
        Map::empty()
    } else {
        let earlier = loaded(records.drop_last());
        match records.last().prefix {
            Some(p) => earlier.insert(records.last().guild_id, p),
            None => earlier,
        }
    }
}

/// The prefix that the guild uses, given the prefixes that are known.
pub open spec fn resolved(prefixes: Map<u64, Seq<char>>, guild_id: u64) -> Seq<char> {
    if prefixes.contains_key(guild_id) {
        prefixes[guild_id]
    } else {
        default_prefix()
    }
}

/// The prefixes that are known after an attempt to give the guild a new one,
/// which the store has answered with `stored`.
pub open spec fn after_set(
    prefixes: Map<u64, Seq<char>>,
    guild_id: u64,
    new_prefix: Seq<char>,
    stored: Result<(), StoreError>,
) -> Map<u64, Seq<char>> {
    match stored {
        Ok(_) => prefixes.insert(guild_id, new_prefix),
        Err(_) => prefixes,
    }
}

/// The prefixes of the guilds that have one of their own.
pub struct PrefixCache {
    prefixes: HashMap<u64, String>,
}

impl View for PrefixCache {
    type V = Map<u64, Seq<char>>;

    closed spec fn view(&self) -> Map<u64, Seq<char>> {
        self.prefixes@.map_values(|s: String| s@)
    }
}

impl PrefixCache {
    /// A cache that knows of no prefix.
    pub fn new() -> (cache: PrefixCache)
        ensures
            cache@ == Map::<u64, Seq<char>>::empty(),
    {
        let cache = PrefixCache { prefixes: HashMap::new() };
        assert(cache@ =~= Map::<u64, Seq<char>>::empty());
        cache
    }

    /// Seeds a cache with what a bulk read of the store has yielded.
    pub fn load_all(records: &Vec<StoredPrefix>) -> (cache: PrefixCache)
        ensures
            cache@ == loaded(stored_views(records@)),
    {
        let ghost all = stored_views(records@);
        let mut cache = PrefixCache::new();
        let mut i: usize = 0;
        proof {
            assert(all.take(0) =~= Seq::<StoredPrefixView>::empty());
        }
        while i < records.len()
            invariant
                i <= records.len(),
                all == stored_views(records@),
                cache@ == loaded(all.take(i as int)),
            decreases records.len() - i,
        {
            proof {
                let upto = all.take(i + 1);
                assert(upto.drop_last() =~= all.take(i as int));
                assert(upto.last() == records@[i as int]@);
            }
            match &records[i].prefix {
                Some(p) => {
                    cache.remember(records[i].guild_id, p.clone());
                },
                None => {},
            }
            i = i + 1;
        }
        proof {
            assert(all.take(all.len() as int) =~= all);
        }
        cache
    }

    /// Whether the guild has a prefix of its own.
    pub fn knows(&self, guild_id: u64) -> (known: bool)
        ensures
            known == self@.contains_key(guild_id),
    {
        self.prefixes.contains_key(&guild_id)
    }

    /// The prefix that the guild uses: its own if it has one, the default
    /// otherwise.
    pub fn resolve_prefix(&self, guild_id: u64) -> (prefix: String)
        ensures
            prefix@ == resolved(self@, guild_id),
    {
        match self.prefixes.get(&guild_id) {
            Some(p) => p.clone(),
            None => {
                proof {
                    reveal_strlit(".");
                    assert(DEFAULT_PREFIX@ =~= default_prefix());
                }
                String::from_str(DEFAULT_PREFIX)
            },
        }
    }

    /// Records the outcome of writing a new prefix to the store. The write
    /// comes first: where it succeeded the guild has the new prefix from now
    /// on, where it failed the cache stays as it was and the error is handed
    /// back.
    pub fn set_prefix(
        &mut self,
        guild_id: u64,
        new_prefix: String,
        stored: Result<(), StoreError>,
    ) -> (outcome: Result<(), StoreError>)
        ensures
            outcome == stored,
            final(self)@ == after_set(old(self)@, guild_id, new_prefix@, stored),
    {
        if stored.is_ok() {
            self.remember(guild_id, new_prefix);
        }
        stored
    }

    fn remember(&mut self, guild_id: u64, prefix: String)
        ensures
            final(self)@ == old(self)@.insert(guild_id, prefix@),
    {
        self.prefixes.insert(guild_id, prefix);
        assert(self@ =~= old(self)@.insert(guild_id, prefix@));
    }
}

/// A guild without a prefix of its own uses the default; a
/// guild whose new prefix the store has taken uses that prefix; a write that
/// failed changes the prefix of no guild; and a write for one guild leaves the
/// prefixes of the others alone.
pub proof fn lemma_prefix_fallback(
    prefixes: Map<u64, Seq<char>>,
    guild_id: u64,
    new_prefix: Seq<char>,
    stored: Result<(), StoreError>,
    other: u64,
)
    ensures
        !prefixes.contains_key(guild_id) ==> resolved(prefixes, guild_id) == default_prefix(),
        stored is Ok ==> resolved(after_set(prefixes, guild_id, new_prefix, stored), guild_id)
            == new_prefix,
        stored is Err ==> after_set(prefixes, guild_id, new_prefix, stored) == prefixes,
        other != guild_id ==> resolved(after_set(prefixes, guild_id, new_prefix, stored), other)
            == resolved(prefixes, other),
{
}

/// A guild of which no record holds a prefix has none after a bulk read, and
/// so uses the default.
pub proof fn lemma_reload_without_prefix(records: Seq<StoredPrefixView>, guild_id: u64)
    requires
        forall|j: int|
            0 <= j < records.len() && (#[trigger] records[j]).guild_id == guild_id
                ==> records[j].prefix is None,
    ensures
        !loaded(records).contains_key(guild_id),
        resolved(loaded(records), guild_id) == default_prefix(),
    decreases records.len(),
{
    if records.len() > 0 {
        let earlier = records.drop_last();
        assert forall|j: int|
            0 <= j < earlier.len() && (#[trigger] earlier[j]).guild_id
                == guild_id implies earlier[j].prefix is None by {
            assert(earlier[j] == records[j]);
        }
        lemma_reload_without_prefix(earlier, guild_id);
        assert(records.last() == records[records.len() - 1]);
    }
}

/// A bulk read gives a guild the prefix of the last record that holds one for
/// it: what was written last is what a reload resolves to.
pub proof fn lemma_reload_resolves(
    records: Seq<StoredPrefixView>,
    i: int,
    guild_id: u64,
    prefix: Seq<char>,
)
    requires
        0 <= i < records.len(),
        records[i].guild_id == guild_id,
        records[i].prefix == Some(prefix),
        forall|j: int|
            i < j < records.len() && (#[trigger] records[j]).guild_id == guild_id
                ==> records[j].prefix is None,
    ensures
        loaded(records).contains_key(guild_id),
        resolved(loaded(records), guild_id) == prefix,
    decreases records.len(),
{
    let earlier = records.drop_last();
    let last = records.last();
    assert(last == records[records.len() - 1]);
    if i < records.len() - 1 {
        assert(earlier[i] == records[i]);
        assert forall|j: int|
            i < j < earlier.len() && (#[trigger] earlier[j]).guild_id
                == guild_id implies earlier[j].prefix is None by {
            assert(earlier[j] == records[j]);
        }
        lemma_reload_resolves(earlier, i, guild_id, prefix);
    }
}

} // verus!
