//! A store of player records by cache key, each with the time it was stored.
//!
//! Time is a count of milliseconds that the caller reads from a clock of its
//! choice. An entry is served while it is fresh, and is removed by the first
//! write that finds it expired.

use crate::record::{PlayerRecord, PlayerRecordView};
use crate::text::same_text;
use vstd::prelude::*;

verus! {

/// For how many milliseconds after it was stored an entry is served.
pub const FRESH_FOR_MS: u64 = 60_000;

/// After how many milliseconds a write removes an entry.
pub const EVICT_AFTER_MS: u64 = 120_000;

/// The age at `now` of what was stored at `stored_at`; zero if the clock has
/// gone back since.
pub open spec fn age(now: u64, stored_at: u64) -> int {
    if now >= stored_at {
        now - stored_at
    } else {
        0
    }
}

/// Whether what was stored at `stored_at` is still served at `now`.
pub open spec fn is_fresh(now: u64, stored_at: u64) -> bool {
    age(now, stored_at) < FRESH_FOR_MS
}

/// Whether a write at `now` removes what was stored at `stored_at`.
pub open spec fn is_expired(now: u64, stored_at: u64) -> bool {
    age(now, stored_at) >= EVICT_AFTER_MS
}

/// What the store holds under one key.
pub struct Cached<R> {
    pub record: PlayerRecordView<R>,
    pub stored_at: u64,
}

/// The store as a map from key to record and time.
pub type Contents<R> = Map<Seq<char>, Cached<R>>;

/// What a lookup of `key` at `now` finds in `contents`: the record under the
/// key, if there is one and it is fresh.
pub open spec fn looked_up<R>(contents: Contents<R>, key: Seq<char>, now: u64) -> Option<
    PlayerRecordView<R>,
> {
    if contents.contains_key(key) && is_fresh(now, contents[key].stored_at) {
        Some(contents[key].record)
    } else {
        None
    }
}

/// `contents` without the entries that have expired at `now`.
pub open spec fn swept<R>(contents: Contents<R>, now: u64) -> Contents<R> {
    Map::new(
        |k: Seq<char>| contents.contains_key(k) && !is_expired(now, contents[k].stored_at),
        |k: Seq<char>| contents[k],
    )
}

/// `contents` after `record` was stored under `key` at `now`: the entry is
/// put in, replacing an earlier one, and then the expired entries are removed.
pub open spec fn stored<R>(
    contents: Contents<R>,
    key: Seq<char>,
    record: PlayerRecordView<R>,
    now: u64,
) -> Contents<R> {
    swept(contents.insert(key, Cached { record, stored_at: now }), now)
}

/// The view of an optional record.
pub open spec fn record_view<R>(record: Option<PlayerRecord<R>>) -> Option<PlayerRecordView<R>> {
    match record {
        Some(r) => Some(r@),
        None => None,
    }
}

struct CacheEntry<R> {
    key: String,
    value: PlayerRecord<R>,
    stored_at: u64,
}

impl<R> CacheEntry<R> {
    spec fn cached(self) -> Cached<R> {
        Cached { record: self.value@, stored_at: self.stored_at }
    }
}

spec fn holds_key<R>(entries: Seq<CacheEntry<R>>, key: Seq<char>) -> bool {
    exists|i: int| 0 <= i < entries.len() && #[trigger] entries[i].key@ == key
}

spec fn index_of<R>(entries: Seq<CacheEntry<R>>, key: Seq<char>) -> int {
    choose|i: int| 0 <= i < entries.len() && #[trigger] entries[i].key@ == key
}

spec fn distinct_keys<R>(entries: Seq<CacheEntry<R>>) -> bool {
    forall|i: int, j: int|
        0 <= i < entries.len() && 0 <= j < entries.len() && i != j ==> #[trigger] entries[i].key@
            != #[trigger] entries[j].key@
}

spec fn contents_of<R>(entries: Seq<CacheEntry<R>>) -> Contents<R> {
    Map::new(
        |k: Seq<char>| holds_key(entries, k),
        |k: Seq<char>| entries[index_of(entries, k)].cached(),
    )
}

/// With distinct keys, the entry at a position is what the contents hold
/// under that entry's key.
proof fn lemma_entry_in_contents<R>(entries: Seq<CacheEntry<R>>, i: int)
    requires
        distinct_keys(entries),
        0 <= i < entries.len(),
    ensures
        contents_of(entries).contains_key(entries[i].key@),
        contents_of(entries)[entries[i].key@] == entries[i].cached(),
{
    let k = entries[i].key@;
    assert(holds_key(entries, k));
    let j = index_of(entries, k);
    assert(entries[j].key@ == k);
}

/// Entries with distinct keys stay so when one with a new key is added.
proof fn lemma_distinct_push<R>(entries: Seq<CacheEntry<R>>, entry: CacheEntry<R>)
    requires
        distinct_keys(entries),
        forall|j: int| 0 <= j < entries.len() ==> (#[trigger] entries[j]).key@ != entry.key@,
    ensures
        distinct_keys(entries.push(entry)),
{
    let all = entries.push(entry);
    assert forall|i: int, j: int|
        0 <= i < all.len() && 0 <= j < all.len() && i != j implies #[trigger] all[i].key@
        != #[trigger] all[j].key@ by {
        if i < entries.len() {
            assert(all[i] == entries[i]);
        }
        if j < entries.len() {
            assert(all[j] == entries[j]);
        }
    }
}

/// A store of player records with the times they were stored, at most one
/// entry for each key.
pub struct TtlCache<R> {
    entries: Vec<CacheEntry<R>>,
}

impl<R> View for TtlCache<R> {
    type V = Contents<R>;

    closed spec fn view(&self) -> Contents<R> {
        contents_of(self.entries@)
    }
}

impl<R> TtlCache<R> {
    #[verifier::type_invariant]
    spec fn keys_are_distinct(self) -> bool {
        distinct_keys(self.entries@)
    }

    /// An empty store.
    pub fn new() -> (cache: Self)
        ensures
            cache@ == Map::<Seq<char>, Cached<R>>::empty(),
    {
        let cache = TtlCache { entries: Vec::new() };
        assert(cache@ =~= Map::<Seq<char>, Cached<R>>::empty());
        cache
    }

    fn position(&self, key: &str) -> (r: Option<usize>)
        ensures
            match r {
                Some(i) => i < self.entries.len() && self.entries@[i as int].key@ == key@,
                None => !holds_key(self.entries@, key@),
            },
    {
        let mut i: usize = 0;
        while i < self.entries.len()
            invariant
                i <= self.entries.len(),
                forall|j: int| 0 <= j < i ==> self.entries@[j].key@ != key@,
            decreases self.entries.len() - i,
        {
            if same_text(self.entries[i].key.as_str(), key) {
                return Some(i);
            }
            i += 1;
        }
        None
    }

    /// Whether the store holds an entry under `key`, fresh or not.
    pub fn holds(&self, key: &str) -> (r: bool)
        ensures
            r == self@.contains_key(key@),
    {
        self.position(key).is_some()
    }

    /// The time at which the entry under `key` was stored, if there is one.
    pub fn stored_at(&self, key: &str) -> (r: Option<u64>)
        ensures
            r == if self@.contains_key(key@) {
                Some(self@[key@].stored_at)
            } else {
                None
            },
    {
        proof {
            use_type_invariant(self);
        }
        match self.position(key) {
            Some(i) => {
                proof {
                    lemma_entry_in_contents(self.entries@, i as int);
                }
                Some(self.entries[i].stored_at)
            },
            None => None,
        }
    }
}

impl<R: Copy> TtlCache<R> {
    /// The record stored under `key`, if there is one and it is fresh at
    /// `now`. The store is left as it is: a stale entry stays where it is.
    pub fn lookup(&self, key: &str, now: u64) -> (r: Option<PlayerRecord<R>>)
        ensures
            record_view(r) == looked_up(self@, key@, now),
    {
        proof {
            use_type_invariant(self);
        }
        match self.position(key) {
            Some(i) => {
                proof {
                    lemma_entry_in_contents(self.entries@, i as int);
                }
                let entry = &self.entries[i];
                let fresh = now < entry.stored_at || now - entry.stored_at < FRESH_FOR_MS;
                if fresh {
                    Some(entry.value.clone())
                } else {
                    None
                }
            },
            None => None,
        }
    }
}

impl<R> TtlCache<R> {
    /// Stores `record` under `key` with the time `now`, in place of an
    /// earlier entry under that key, and removes every entry that has
    /// expired at `now`.
    pub fn store(&mut self, key: String, record: PlayerRecord<R>, now: u64)
        ensures
            final(self)@ == stored(old(self)@, key@, record@, now),
    {
        proof {
            use_type_invariant(&*self);
        }
        let mut rest: Vec<CacheEntry<R>> = Vec::new();
        core::mem::swap(&mut self.entries, &mut rest);
        let ghost orig = rest@;
        let ghost mut origin: Seq<int> = Seq::empty();
        let mut kept: Vec<CacheEntry<R>> = Vec::new();
        while rest.len() > 0
            invariant
                distinct_keys(orig),
                rest@ == orig.take(rest.len() as int),
                rest.len() <= orig.len(),
                origin.len() == kept.len(),
                forall|j: int|
                    0 <= j < kept.len() ==> rest.len() <= #[trigger] origin[j] < orig.len()
                        && kept@[j] == orig[origin[j]] && orig[origin[j]].key@ != key@
                        && !is_expired(now, orig[origin[j]].stored_at),
                forall|i: int|
                    rest.len() <= i < orig.len() && (#[trigger] orig[i]).key@ != key@
                        && !is_expired(now, orig[i].stored_at) ==> exists|j: int|
                        0 <= j < kept.len() && #[trigger] origin[j] == i,
                distinct_keys(kept@),
            decreases rest.len(),
        {
            let ghost at = rest.len() - 1;
            let entry = rest.pop().unwrap();
            assert(entry == orig[at]);
            let expired = now >= entry.stored_at && now - entry.stored_at >= EVICT_AFTER_MS;
            if !expired && !same_text(entry.key.as_str(), key.as_str()) {
                proof {
                    let ghost before = origin;
                    origin = origin.push(at);
                    assert forall|i: int|
                        at <= i < orig.len() && (#[trigger] orig[i]).key@ != key@ && !is_expired(
                            now,
                            orig[i].stored_at,
                        ) implies exists|j: int|
                        0 <= j < kept.len() + 1 && #[trigger] origin[j] == i by {
                        if i == at {
                            assert(origin[kept.len() as int] == at);
                        } else {
                            let j = choose|j: int| 0 <= j < kept.len() && #[trigger] before[j] == i;
                            assert(origin[j] == i);
                        }
                    }
                    assert forall|j: int| 0 <= j < kept.len() implies kept@[j].key@
                        != entry.key@ by {
                        assert(orig[origin[j]].key@ != orig[at].key@);
                    }
                }
                let ghost held = kept@;
                kept.push(entry);
                proof {
                    lemma_distinct_push(held, entry);
                }
            }
        }
        let ghost held = kept@;
        let entry = CacheEntry { key, value: record, stored_at: now };
        proof {
            assert forall|j: int| 0 <= j < held.len() implies held[j].key@ != entry.key@ by {
                assert(held[j] == orig[origin[j]]);
            }
            lemma_distinct_push(held, entry);
        }
        kept.push(entry);
        proof {
            let fin = kept@;
            let last = fin.len() - 1;
            let target = stored(contents_of(orig), key@, record@, now);
            assert forall|k: Seq<char>| contents_of(fin).contains_key(k) == target.contains_key(
                k,
            ) by {
                if contents_of(fin).contains_key(k) {
                    let j = index_of(fin, k);
                    if j < last {
                        lemma_entry_in_contents(orig, origin[j]);
                    }
                }
                if target.contains_key(k) && k != key@ {
                    let i = index_of(orig, k);
                    lemma_entry_in_contents(orig, i);
                    let j = choose|j: int| 0 <= j < last && #[trigger] origin[j] == i;
                    assert(fin[j].key@ == k);
                }
                if k == key@ {
                    assert(fin[last].key@ == k);
                }
            }
            assert forall|k: Seq<char>| contents_of(fin).contains_key(k) implies contents_of(
                fin,
            )[k] == target[k] by {
                let j = index_of(fin, k);
                lemma_entry_in_contents(fin, j);
                if j < last {
                    lemma_entry_in_contents(orig, origin[j]);
                }
            }
            assert(contents_of(fin) =~= target);
        }
        self.entries = kept;
    }
}

/// A lookup right after a store, at the same time and for the same key,
/// finds the record that was stored.
pub proof fn lemma_store_then_lookup<R>(
    contents: Contents<R>,
    key: Seq<char>,
    record: PlayerRecordView<R>,
    now: u64,
)
    ensures
        looked_up(stored(contents, key, record, now), key, now) == Some(record),
{
}

/// Once the freshness window has passed since a store, a lookup of that key
/// finds nothing, though the entry is still held.
pub proof fn lemma_stale_after_window<R>(
    contents: Contents<R>,
    key: Seq<char>,
    record: PlayerRecordView<R>,
    now: u64,
    later: u64,
)
    requires
        later - now >= FRESH_FOR_MS,
    ensures
        stored(contents, key, record, now).contains_key(key),
        looked_up(stored(contents, key, record, now), key, later) is None,
{
}

/// Within the freshness window after a store, a lookup of that key finds the
/// record that was stored.
pub proof fn lemma_fresh_within_window<R>(
    contents: Contents<R>,
    key: Seq<char>,
    record: PlayerRecordView<R>,
    now: u64,
    later: u64,
)
    requires
        later - now < FRESH_FOR_MS,
    ensures
        looked_up(stored(contents, key, record, now), key, later) == Some(record),
{
}

/// A store removes every other entry that has reached the eviction age,
/// keeps every younger one as it was, and adds no key but its own.
pub proof fn lemma_store_sweeps<R>(
    contents: Contents<R>,
    key: Seq<char>,
    record: PlayerRecordView<R>,
    now: u64,
    other: Seq<char>,
)
    requires
        other != key,
    ensures
        ({
            let after = stored(contents, key, record, now);
            &&& after.contains_key(other) <==> contents.contains_key(other) && age(
                now,
                contents[other].stored_at,
            ) < EVICT_AFTER_MS
            &&& after.contains_key(other) ==> after[other] == contents[other]
        }),
{
}

/// Right after a store, nothing that the store holds has expired.
pub proof fn lemma_store_leaves_nothing_expired<R>(
    contents: Contents<R>,
    key: Seq<char>,
    record: PlayerRecordView<R>,
    now: u64,
    any: Seq<char>,
)
    requires
        stored(contents, key, record, now).contains_key(any),
    ensures
        !is_expired(now, stored(contents, key, record, now)[any].stored_at),
{
}

} // verus!
