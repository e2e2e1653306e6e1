//! The credential cache: at most one session token for each account key.

use crate::clock::{is_clock_reading, unix_now};
use crate::session::{
    issued, AccountKey, AccountKeyModel, SessionToken, SessionTokenModel, SECONDS_PER_HOUR,
};
use vstd::prelude::*;

verus! {

/// The cache after `token` was stored for `key` at `now`, to stay valid for
/// `ttl_hours` hours: whatever the key had before is gone.
pub open spec fn stored(
    cache: Map<AccountKeyModel, SessionTokenModel>,
    key: AccountKeyModel,
    token: Seq<char>,
    ttl_hours: nat,
    now: int,
) -> Map<AccountKeyModel, SessionTokenModel> {
    cache.insert(key, issued(token, now, ttl_hours))
}

/// The entries of `cache` that are fresh at `now`, unchanged.
pub open spec fn fresh_part(cache: Map<AccountKeyModel, SessionTokenModel>, now: int) -> Map<
    AccountKeyModel,
    SessionTokenModel,
> {
    Map::new(
        |key: AccountKeyModel| cache.contains_key(key) && cache[key].is_fresh_at(now),
        |key: AccountKeyModel| cache[key],
    )
}

/// After a token is stored for a key, the key's entry holds that token,
/// and the entry is fresh at every instant strictly before the instant of
/// issue plus the validity window, and stale at every instant from then on.
pub proof fn lemma_stored_token_fresh_until_expiry(
    cache: Map<AccountKeyModel, SessionTokenModel>,
    key: AccountKeyModel,
    token: Seq<char>,
    ttl_hours: nat,
    issued_at: int,
    now: int,
)
    ensures
        stored(cache, key, token, ttl_hours, issued_at).contains_key(key),
        stored(cache, key, token, ttl_hours, issued_at)[key].token == token,
        stored(cache, key, token, ttl_hours, issued_at)[key].issued_at == issued_at,
        stored(cache, key, token, ttl_hours, issued_at)[key].is_fresh_at(now) <==> now < issued_at
            + ttl_hours * SECONDS_PER_HOUR,
{
}

/// Storing twice for one key leaves only what the second store wrote: the
/// cache is the same as if the first store had never happened.
pub proof fn lemma_second_store_overwrites(
    cache: Map<AccountKeyModel, SessionTokenModel>,
    key: AccountKeyModel,
    first: Seq<char>,
    first_ttl_hours: nat,
    first_now: int,
    second: Seq<char>,
    second_ttl_hours: nat,
    second_now: int,
)
    ensures
        stored(
            stored(cache, key, first, first_ttl_hours, first_now),
            key,
            second,
            second_ttl_hours,
            second_now,
        ) == stored(cache, key, second, second_ttl_hours, second_now),
{
    assert(stored(
        stored(cache, key, first, first_ttl_hours, first_now),
        key,
        second,
        second_ttl_hours,
        second_now,
    ) =~= stored(cache, key, second, second_ttl_hours, second_now));
}

/// Storing for one key leaves every other key's entry as it was.
pub proof fn lemma_store_leaves_other_keys(
    cache: Map<AccountKeyModel, SessionTokenModel>,
    key: AccountKeyModel,
    token: Seq<char>,
    ttl_hours: nat,
    now: int,
    other: AccountKeyModel,
)
    requires
        other != key,
    ensures
        stored(cache, key, token, ttl_hours, now).contains_key(other) == cache.contains_key(other),
        cache.contains_key(other) ==> stored(cache, key, token, ttl_hours, now)[other]
            == cache[other],
{
}

/// After eviction no stale entry can be retrieved, and every fresh entry
/// is still there, unchanged.
pub proof fn lemma_eviction_keeps_exactly_the_fresh(
    cache: Map<AccountKeyModel, SessionTokenModel>,
    now: int,
    key: AccountKeyModel,
)
    ensures
        fresh_part(cache, now).contains_key(key) <==> cache.contains_key(key)
            && cache[key].is_fresh_at(now),
        fresh_part(cache, now).contains_key(key) ==> fresh_part(cache, now)[key] == cache[key],
{
}

/// Evicting a second time at the same instant changes nothing.
pub proof fn lemma_eviction_is_idempotent(cache: Map<AccountKeyModel, SessionTokenModel>, now: int)
    ensures
        fresh_part(fresh_part(cache, now), now) == fresh_part(cache, now),
{
    assert(fresh_part(fresh_part(cache, now), now) =~= fresh_part(cache, now));
}

/// One account's place in the cache.
pub struct CacheEntry {
    key: AccountKey,
    token: SessionToken,
}

/// Whether some entry is kept for `key`.
spec fn holds(entries: Seq<CacheEntry>, key: AccountKeyModel) -> bool {
    exists|i: int| 0 <= i < entries.len() && #[trigger] entries[i].key@ == key
}

/// The place of the entry kept for `key`.
spec fn place_of(entries: Seq<CacheEntry>, key: AccountKeyModel) -> int {
    choose|i: int| 0 <= i < entries.len() && #[trigger] entries[i].key@ == key
}

/// No key is kept twice.
spec fn distinct_keys(entries: Seq<CacheEntry>) -> bool {
    forall|i: int, j: int|
        0 <= i < j < entries.len() ==> #[trigger] entries[i].key@ != #[trigger] entries[j].key@
}

/// The map from keys to tokens that a run of entries stands for.
spec fn entries_map(entries: Seq<CacheEntry>) -> Map<AccountKeyModel, SessionTokenModel> {
    Map::new(
        |key: AccountKeyModel| holds(entries, key),
        |key: AccountKeyModel| entries[place_of(entries, key)].token@,
    )
}

/// With distinct keys, each entry is found under its own key.
proof fn lemma_entry_found(entries: Seq<CacheEntry>, i: int)
    requires
        distinct_keys(entries),
        0 <= i < entries.len(),
    ensures
        holds(entries, entries[i].key@),
        place_of(entries, entries[i].key@) == i,
        entries_map(entries).contains_key(entries[i].key@),
        entries_map(entries)[entries[i].key@] == entries[i].token@,
{
    let key = entries[i].key@;
    assert(entries[i].key@ == key);
    let j = place_of(entries, key);
    assert(0 <= j < entries.len() && entries[j].key@ == key);
    if j < i {
        assert(entries[j].key@ != entries[i].key@);
    } else if i < j {
        assert(entries[i].key@ != entries[j].key@);
    }
}

/// A run of entries with distinct keys stands for a finite map with one
/// key for each entry.
proof fn lemma_entries_counted(entries: Seq<CacheEntry>)
    requires
        distinct_keys(entries),
    ensures
        entries_map(entries).dom().finite(),
        entries_map(entries).dom().len() == entries.len(),
    decreases entries.len(),
{
    if entries.len() == 0 {
        assert(entries_map(entries).dom() =~= Set::empty());
    } else {
        let front = entries.drop_last();
        let last = entries.last();
        assert(distinct_keys(front)) by {
            assert forall|i: int, j: int| 0 <= i < j < front.len() implies #[trigger] front[i].key@
                != #[trigger] front[j].key@ by {
                assert(entries[i].key@ != entries[j].key@);
            }
        }
        lemma_entries_counted(front);
        assert(!holds(front, last.key@)) by {
            if holds(front, last.key@) {
                let i = place_of(front, last.key@);
                assert(entries[i].key@ != entries[entries.len() - 1].key@);
            }
        }
        assert(entries_map(entries).dom() =~= entries_map(front).dom().insert(last.key@)) by {
            assert forall|key: AccountKeyModel|
                entries_map(entries).dom().contains(key) <==> entries_map(front).dom().insert(
                    last.key@,
                ).contains(key) by {
                if holds(entries, key) {
                    let i = place_of(entries, key);
                    if i < front.len() {
                        assert(front[i].key@ == key);
                    }
                }
                if holds(front, key) {
                    let i = place_of(front, key);
                    assert(entries[i].key@ == key);
                }
                if key == last.key@ {
                    assert(entries[entries.len() - 1].key@ == key);
                }
            }
        }
    }
}

/// A store of session tokens by account key. It lives in memory only and
/// starts empty.
pub struct CredentialCache {
    entries: Vec<CacheEntry>,
}

impl View for CredentialCache {
    type V = Map<AccountKeyModel, SessionTokenModel>;

    closed spec fn view(&self) -> Map<AccountKeyModel, SessionTokenModel> {
        entries_map(self.entries@)
    }
}

impl CredentialCache {
    #[verifier::type_invariant]
    spec fn one_entry_per_key(self) -> bool {
        distinct_keys(self.entries@)
    }

    /// An empty cache.
    pub fn new() -> (cache: CredentialCache)
        ensures
            cache@ == Map::<AccountKeyModel, SessionTokenModel>::empty(),
    {
        let cache = CredentialCache { entries: Vec::new() };
        assert(cache@ =~= Map::<AccountKeyModel, SessionTokenModel>::empty());
        cache
    }

    /// The number of accounts that have an entry.
    pub fn len(&self) -> (n: usize)
        ensures
            self@.dom().finite(),
            n == self@.dom().len(),
    {
        proof {
            use_type_invariant(self);
            lemma_entries_counted(self.entries@);
        }
        self.entries.len()
    }

    fn find(&self, key: &AccountKey) -> (r: Option<usize>)
        ensures
            match r {
                Some(i) => i < self.entries.len() && self.entries[i as int].key@ == key@,
                None => !holds(self.entries@, key@),
            },
    {
        let mut i: usize = 0;
        while i < self.entries.len()
            invariant
                i <= self.entries.len(),
                forall|k: int| 0 <= k < i ==> self.entries[k].key@ != key@,
            decreases self.entries.len() - i,
        {
            if self.entries[i].key.same_as(key) {
                return Some(i);
            }
            i += 1;
        }
        None
    }

    /// The entry kept for `key`, if there is one. Whether the token is still
    /// fresh is for the caller to judge.
    pub fn get(&self, key: &AccountKey) -> (r: Option<SessionToken>)
        ensures
            match r {
                Some(token) => self@.contains_key(key@) && self@[key@] == token@,
                None => !self@.contains_key(key@),
            },
    {
        proof {
            use_type_invariant(self);
        }
        match self.find(key) {
            Some(i) => {
                proof {
                    lemma_entry_found(self.entries@, i as int);
                }
                Some(self.entries[i].token.clone())
            },
            None => None,
        }
    }

    /// Takes the entries out, leaving the cache empty.
    fn take_entries(&mut self) -> (entries: Vec<CacheEntry>)
        ensures
            entries@ == old(self).entries@,
            distinct_keys(entries@),
            final(self).entries@.len() == 0,
    {
        proof {
            use_type_invariant(&*self);
        }
        let mut taken = CredentialCache { entries: Vec::new() };
        core::mem::swap(self, &mut taken);
        taken.entries
    }

    /// Stores `token` for `key` as issued at `now` and valid for `ttl_hours`
    /// hours, in place of whatever the key had.
    pub fn put_at(&mut self, key: AccountKey, token: String, ttl_hours: u32, now: i64)
        requires
            ttl_hours >= 1,
            now + ttl_hours * SECONDS_PER_HOUR <= i64::MAX,
        ensures
            final(self)@ == stored(old(self)@, key@, token@, ttl_hours as nat, now as int),
    {
        let session = SessionToken::issue(token, now, ttl_hours);
        let found = self.find(&key);
        let mut entries = self.take_entries();
        let ghost before = entries@;
        match found {
            Some(i) => {
                entries.set(i, CacheEntry { key, token: session });
                proof {
                    let after = entries@;
                    assert(after == before.update(i as int, after[i as int]));
                    assert(distinct_keys(after)) by {
                        assert forall|a: int, b: int| 0 <= a < b < after.len() implies #[trigger] after[a].key@
                            != #[trigger] after[b].key@ by {
                            assert(before[a].key@ != before[b].key@);
                        }
                    }
                    lemma_replaced(before, after, i as int);
                }
            },
            None => {
                entries.push(CacheEntry { key, token: session });
                proof {
                    let after = entries@;
                    assert(distinct_keys(after)) by {
                        assert forall|a: int, b: int| 0 <= a < b < after.len() implies #[trigger] after[a].key@
                            != #[trigger] after[b].key@ by {
                            if b < before.len() {
                                assert(before[a].key@ != before[b].key@);
                            } else {
                                assert(before[a].key@ == after[a].key@);
                            }
                        }
                    }
                    assert(after.drop_last() =~= before);
                    lemma_appended(before, after);
                }
            },
        }
        self.entries = entries;
    }

    /// Stores `token` for `key` as issued now, by the clock, and valid for
    /// `ttl_hours` hours, in place of whatever the key had. Returns the
    /// token as stored, with its instants.
    pub fn put(&mut self, key: AccountKey, token: String, ttl_hours: u32) -> (session:
        SessionToken)
        requires
            ttl_hours >= 1,
        ensures
            is_clock_reading(session@.issued_at),
            session@ == issued(token@, session@.issued_at, ttl_hours as nat),
            final(self)@ == stored(
                old(self)@,
                key@,
                token@,
                ttl_hours as nat,
                session@.issued_at,
            ),
    {
        let now = unix_now();
        let session = SessionToken::issue(token.clone(), now, ttl_hours);
        self.put_at(key, token, ttl_hours, now);
        session
    }

    /// Removes every entry whose token is stale at `now` and returns how
    /// many were removed. Fresh entries stay as they are.
    pub fn evict_expired_at(&mut self, now: i64) -> (removed: usize)
        ensures
            final(self)@ == fresh_part(old(self)@, now as int),
            old(self)@.dom().finite(),
            final(self)@.dom().finite(),
            removed == old(self)@.dom().len() - final(self)@.dom().len(),
    {
        let mut entries = self.take_entries();
        let ghost before = entries@;
        assert(before.len() == entries.len());
        let mut kept: Vec<CacheEntry> = Vec::new();
        let ghost mut origin: Seq<int> = Seq::empty();
        let mut removed: usize = 0;
        while entries.len() > 0
            invariant
                before.len() <= usize::MAX,
                distinct_keys(before),
                entries@ == before.take(entries@.len() as int),
                kept@.len() == origin.len(),
                kept@.len() + removed + entries@.len() == before.len(),
                forall|k: int|
                    0 <= k < kept@.len() ==> entries@.len() <= #[trigger] origin[k] < before.len()
                        && kept@[k] == before[origin[k]],
                forall|k: int, l: int|
                    0 <= k < l < kept@.len() ==> #[trigger] origin[k] != #[trigger] origin[l],
                forall|k: int| 0 <= k < kept@.len() ==> (#[trigger] kept@[k]).token@.is_fresh_at(now as int),
                forall|i: int|
                    entries@.len() <= i < before.len() && (#[trigger] before[i]).token@.is_fresh_at(
                        now as int,
                    ) ==> exists|k: int| 0 <= k < kept@.len() && #[trigger] origin[k] == i,
            decreases entries@.len(),
        {
            let ghost at = entries@.len() - 1;
            let entry = entries.pop().unwrap();
            assert(entry == before[at]);
            assert(entries@ =~= before.take(at));
            if entry.token.is_fresh_at(now) {
                let ghost earlier = origin;
                kept.push(entry);
                proof {
                    origin = earlier.push(at);
                    assert forall|i: int|
                        entries@.len() <= i < before.len() && (#[trigger] before[i]).token@.is_fresh_at(
                            now as int,
                        ) implies exists|k: int| 0 <= k < kept@.len() && #[trigger] origin[k]
                        == i by {
                        if i == at {
                            assert(origin[kept@.len() - 1] == i);
                        } else {
                            let k = choose|k: int|
                                0 <= k < earlier.len() && #[trigger] earlier[k] == i;
                            assert(origin[k] == earlier[k]);
                        }
                    }
                }
            } else {
                removed += 1;
                proof {
                    assert forall|i: int|
                        entries@.len() <= i < before.len() && (#[trigger] before[i]).token@.is_fresh_at(
                            now as int,
                        ) implies exists|k: int| 0 <= k < kept@.len() && #[trigger] origin[k]
                        == i by {
                        let k = choose|k: int| 0 <= k < kept@.len() && #[trigger] origin[k] == i;
                        assert(origin[k] == i);
                    }
                }
            }
        }
        proof {
            lemma_selected(before, kept@, origin, now as int);
            lemma_entries_counted(before);
            lemma_entries_counted(kept@);
        }
        self.entries = kept;
        removed
    }

    /// Removes every entry whose token is stale now, by the clock, and
    /// returns the instant that was read and how many entries were removed.
    pub fn evict_expired(&mut self) -> (r: (i64, usize))
        ensures
            is_clock_reading(r.0 as int),
            final(self)@ == fresh_part(old(self)@, r.0 as int),
            old(self)@.dom().finite(),
            final(self)@.dom().finite(),
            r.1 == old(self)@.dom().len() - final(self)@.dom().len(),
    {
        let now = unix_now();
        let removed = self.evict_expired_at(now);
        (now, removed)
    }
}

/// Keeping exactly the entries that are fresh, each once, gives the fresh
/// part of the map.
proof fn lemma_selected(
    before: Seq<CacheEntry>,
    kept: Seq<CacheEntry>,
    origin: Seq<int>,
    now: int,
)
    requires
        distinct_keys(before),
        kept.len() == origin.len(),
        forall|k: int|
            0 <= k < kept.len() ==> 0 <= #[trigger] origin[k] < before.len() && kept[k]
                == before[origin[k]],
        forall|k: int, l: int|
            0 <= k < l < kept.len() ==> #[trigger] origin[k] != #[trigger] origin[l],
        forall|k: int| 0 <= k < kept.len() ==> (#[trigger] kept[k]).token@.is_fresh_at(now),
        forall|i: int|
            0 <= i < before.len() && (#[trigger] before[i]).token@.is_fresh_at(now) ==> exists|
                k: int,
            | 0 <= k < kept.len() && #[trigger] origin[k] == i,
    ensures
        distinct_keys(kept),
        entries_map(kept) == fresh_part(entries_map(before), now),
{
    assert(distinct_keys(kept)) by {
        assert forall|a: int, b: int| 0 <= a < b < kept.len() implies #[trigger] kept[a].key@
            != #[trigger] kept[b].key@ by {
            let i = origin[a];
            let j = origin[b];
            assert(i != j);
            if i < j {
                assert(before[i].key@ != before[j].key@);
            } else {
                assert(before[j].key@ != before[i].key@);
            }
        }
    }
    let expected = fresh_part(entries_map(before), now);
    assert forall|key: AccountKeyModel| entries_map(kept).contains_key(key)
        <==> expected.contains_key(key) by {
        if holds(kept, key) {
            let k = place_of(kept, key);
            assert(kept[k].token@.is_fresh_at(now));
            lemma_entry_found(before, origin[k]);
        }
        if holds(before, key) {
            let i = place_of(before, key);
            lemma_entry_found(before, i);
            if before[i].token@.is_fresh_at(now) {
                let k = choose|k: int| 0 <= k < kept.len() && #[trigger] origin[k] == i;
                assert(kept[k].key@ == key);
            }
        }
    }
    assert forall|key: AccountKeyModel| entries_map(kept).contains_key(key) implies entries_map(
        kept,
    )[key] == expected[key] by {
        let k = place_of(kept, key);
        lemma_entry_found(kept, k);
        lemma_entry_found(before, origin[k]);
    }
    assert(entries_map(kept) =~= expected);
}

/// Replacing the entry at `i` by one with the same key stores its token
/// under that key and leaves the other keys alone.
proof fn lemma_replaced(before: Seq<CacheEntry>, after: Seq<CacheEntry>, i: int)
    requires
        distinct_keys(before),
        distinct_keys(after),
        0 <= i < before.len(),
        after == before.update(i, after[i]),
        after[i].key@ == before[i].key@,
    ensures
        entries_map(after) == entries_map(before).insert(after[i].key@, after[i].token@),
{
    let expected = entries_map(before).insert(after[i].key@, after[i].token@);
    assert forall|key: AccountKeyModel| entries_map(after).contains_key(key)
        <==> expected.contains_key(key) by {
        if holds(after, key) {
            let j = place_of(after, key);
            assert(before[j].key@ == key);
        }
        if holds(before, key) {
            let j = place_of(before, key);
            assert(after[j].key@ == key);
        }
        if key == after[i].key@ {
            assert(after[i].key@ == key);
        }
    }
    assert forall|key: AccountKeyModel| entries_map(after).contains_key(key) implies entries_map(
        after,
    )[key] == expected[key] by {
        let j = place_of(after, key);
        lemma_entry_found(after, j);
        if j != i {
            lemma_entry_found(before, j);
        }
    }
    assert(entries_map(after) =~= expected);
}

/// Appending an entry under a key that was not kept stores its token under
/// that key and leaves the other keys alone.
proof fn lemma_appended(before: Seq<CacheEntry>, after: Seq<CacheEntry>)
    requires
        distinct_keys(before),
        distinct_keys(after),
        after.len() == before.len() + 1,
        after.drop_last() == before,
    ensures
        entries_map(after) == entries_map(before).insert(after.last().key@, after.last().token@),
{
    let last = after.last();
    let expected = entries_map(before).insert(last.key@, last.token@);
    assert forall|key: AccountKeyModel| entries_map(after).contains_key(key)
        <==> expected.contains_key(key) by {
        if holds(after, key) {
            let j = place_of(after, key);
            if j < before.len() {
                assert(before[j].key@ == key);
            }
        }
        if holds(before, key) {
            let j = place_of(before, key);
            assert(after[j].key@ == key);
        }
        if key == last.key@ {
            assert(after[after.len() - 1].key@ == key);
        }
    }
    assert forall|key: AccountKeyModel| entries_map(after).contains_key(key) implies entries_map(
        after,
    )[key] == expected[key] by {
        let j = place_of(after, key);
        lemma_entry_found(after, j);
        if j < before.len() {
            lemma_entry_found(before, j);
        }
    }
    assert(entries_map(after) =~= expected);
}

} // verus!
