//! The item cache: one entry per id, served while it is younger than the
//! time-to-live and dropped when a lookup finds it older.
//!
//! A lookup that misses is completed by the caller, who asks the upstream and
//! reports what came back. The cache itself never waits, and it reads no
//! clock: every call is told the time, in seconds since a moment of the
//! caller's choice.

use crate::domain::{maybe_view, Item, ItemView};
use crate::result::Error;
use std::collections::HashMap;
use vstd::prelude::*;

verus! {

broadcast use vstd::std_specs::hash::group_hash_axioms;

/// The recommended time-to-live, in seconds.
pub const DEFAULT_TTL: u64 = 300;

/// An item and the time at which it was fetched.
pub struct CacheEntry {
    item: Item,
    fetched_at: u64,
}

/// What a [`CacheEntry`] holds, as mathematical values.
pub struct EntryView {
    pub item: ItemView,
    pub fetched_at: u64,
}

impl View for CacheEntry {
    type V = EntryView;

    closed spec fn view(&self) -> EntryView {
        EntryView { item: self.item@, fetched_at: self.fetched_at }
    }
}

/// The time that has passed at `now` since `fetched_at`; none where the clock
/// has gone back.
pub open spec fn age(fetched_at: u64, now: u64) -> int {
    if now >= fetched_at {
        now - fetched_at
    } else {
        0
    }
}

/// What a [`Cache`] holds, as mathematical values.
pub struct CacheView {
    pub entries: Map<u32, EntryView>,
    pub ttl: u64,
}

impl CacheView {
    /// Whether the cache holds an entry for `id` that is younger at `now`
    /// than the time-to-live.
    pub open spec fn fresh(self, id: u32, now: u64) -> bool {
        self.entries.contains_key(id) && age(self.entries[id].fetched_at, now) < self.ttl
    }

    /// What a lookup of `id` at `now` answers: the cached item where the
    /// entry is fresh.
    pub open spec fn served(self, id: u32, now: u64) -> Option<ItemView> {
        if self.fresh(id, now) {
            Some(self.entries[id].item)
        } else {
            None
        }
    }

    /// The cache after a lookup of `id` at `now`: an entry that is no longer
    /// fresh is gone.
    pub open spec fn after_lookup(self, id: u32, now: u64) -> CacheView {
        if self.fresh(id, now) {
            self
        } else {
            CacheView { entries: self.entries.remove(id), ttl: self.ttl }
        }
    }

    /// The cache after the upstream's answer for `id` has arrived at `now`:
    /// an item replaces the entry, "not found" removes it, and a failure
    /// leaves the cache as it was.
    pub open spec fn after_answer(
        self,
        id: u32,
        answer: Result<Option<ItemView>, Error>,
        now: u64,
    ) -> CacheView {
        match answer {
            Ok(Some(item)) => CacheView {
                entries: self.entries.insert(id, EntryView { item, fetched_at: now }),
                ttl: self.ttl,
            },
            Ok(None) => CacheView { entries: self.entries.remove(id), ttl: self.ttl },
            Err(_) => self,
        }
    }
}

/// The view of the upstream's answer.
pub open spec fn answer_view(answer: Result<Option<Item>, Error>) -> Result<
    Option<ItemView>,
    Error,
> {
    match answer {
        Ok(found) => Ok(maybe_view(found)),
        Err(error) => Err(error),
    }
}

/// The item cache.
pub struct Cache {
    entries: HashMap<u32, CacheEntry>,
    ttl: u64,
}

impl View for Cache {
    type V = CacheView;

    closed spec fn view(&self) -> CacheView {
        CacheView { entries: self.entries@.map_values(|entry: CacheEntry| entry@), ttl: self.ttl }
    }
}

impl Cache {
    /// An empty cache whose entries stay fresh for `ttl` seconds.
    pub fn new(ttl: u64) -> (out: Cache)
        ensures
            out@.entries == Map::<u32, EntryView>::empty(),
            out@.ttl == ttl,
    {
        let out = Cache { entries: HashMap::new(), ttl };
        assert(out@.entries =~= Map::<u32, EntryView>::empty());
        out
    }

    /// The time-to-live, in seconds.
    pub fn ttl(&self) -> (out: u64)
        ensures
            out == self@.ttl,
    {
        self.ttl
    }

    /// The number of entries, fresh or not.
    pub fn len(&self) -> (out: usize)
        ensures
            out == self@.entries.len(),
    {
        assert(self@.entries.dom() =~= self.entries@.dom());
        self.entries.len()
    }

    /// Looks `id` up at time `now`. A fresh entry is answered with a copy of
    /// its item. Any other lookup is a miss: it answers `None`, drops the
    /// entry if there is one, and leaves it to the caller to ask the upstream
    /// and to report the answer through [`Cache::complete`].
    pub fn lookup(&mut self, id: u32, now: u64) -> (out: Option<Item>)
        ensures
            maybe_view(out) == old(self)@.served(id, now),
            final(self)@ == old(self)@.after_lookup(id, now),
    {
        let hit: Option<Item> = match self.entries.get(&id) {
            Some(entry) => {
                let elapsed: u64 = if now >= entry.fetched_at {
                    now - entry.fetched_at
                } else {
                    0
                };
                if elapsed < self.ttl {
                    Some(entry.item.clone())
                } else {
                    None
                }
            },
            None => None,
        };
        if hit.is_none() {
            self.entries.remove(&id);
            assert(self@.entries =~= old(self)@.entries.remove(id));
        }
        hit
    }

    /// Takes the upstream's answer for `id`, which arrived at time `now`, and
    /// hands it on. An item is stored under `id` with `now` as its time of
    /// fetch, in place of any entry before it. "Not found" removes the entry,
    /// so that what the upstream has removed is not served again. A failure
    /// leaves the cache as it was.
    pub fn complete(&mut self, id: u32, answer: Result<Option<Item>, Error>, now: u64) -> (out:
        Result<Option<Item>, Error>)
        ensures
            out == answer,
            final(self)@ == old(self)@.after_answer(id, answer_view(answer), now),
    {
        match &answer {
            Ok(Some(item)) => {
                self.entries.insert(id, CacheEntry { item: item.clone(), fetched_at: now });
                assert(self@.entries =~= old(self)@.entries.insert(
                    id,
                    EntryView { item: item@, fetched_at: now },
                ));
            },
            Ok(None) => {
                self.entries.remove(&id);
                assert(self@.entries =~= old(self)@.entries.remove(id));
            },
            Err(_) => {},
        }
        answer
    }
}

/// An item that the upstream has answered with is served from the cache, as
/// it was answered, by every lookup that comes less than one time-to-live
/// after the answer. Such a lookup leaves the cache as it is, so the next one
/// is served in the same way, and neither of them asks the upstream.
pub proof fn answered_item_is_served_within_ttl(
    cache: CacheView,
    id: u32,
    item: ItemView,
    fetched_at: u64,
    now: u64,
)
    requires
        age(fetched_at, now) < cache.ttl,
    ensures
        cache.after_answer(id, Ok(Some(item)), fetched_at).served(id, now) == Some(item),
        cache.after_answer(id, Ok(Some(item)), fetched_at).after_lookup(id, now)
            == cache.after_answer(id, Ok(Some(item)), fetched_at),
{
}

/// Once the upstream has answered "not found" for an id, the cache holds
/// nothing under it: whatever it held before, no later lookup serves it.
pub proof fn missing_item_is_not_served(cache: CacheView, id: u32, now: u64, later: u64)
    ensures
        !cache.after_answer(id, Ok(None), now).entries.contains_key(id),
        cache.after_answer(id, Ok(None), now).served(id, later) is None,
{
}

/// What the cache serves is never staler than the time-to-live: an item is
/// served only from an entry, as the entry holds it, and only while less
/// than one time-to-live has passed since it was fetched.
pub proof fn served_item_is_younger_than_ttl(cache: CacheView, id: u32, now: u64)
    requires
        cache.served(id, now) is Some,
    ensures
        cache.entries.contains_key(id),
        cache.served(id, now) == Some(cache.entries[id].item),
        age(cache.entries[id].fetched_at, now) < cache.ttl,
{
}

/// An entry that has reached the time-to-live is not served, and the lookup
/// that finds it removes it.
pub proof fn stale_entry_is_evicted(cache: CacheView, id: u32, now: u64)
    requires
        cache.entries.contains_key(id),
        age(cache.entries[id].fetched_at, now) >= cache.ttl,
    ensures
        cache.served(id, now) is None,
        !cache.after_lookup(id, now).entries.contains_key(id),
{
}

/// A lookup or an answer for one id leaves the entries of every other id as
/// they were.
pub proof fn other_entries_are_untouched(
    cache: CacheView,
    id: u32,
    other: u32,
    answer: Result<Option<ItemView>, Error>,
    now: u64,
)
    requires
        id != other,
    ensures
        cache.after_lookup(id, now).entries.contains_key(other) == cache.entries.contains_key(
            other,
        ),
        cache.after_lookup(id, now).entries[other] == cache.entries[other],
        cache.after_answer(id, answer, now).entries.contains_key(other)
            == cache.entries.contains_key(other),
        cache.after_answer(id, answer, now).entries[other] == cache.entries[other],
{
}

} // verus!
