//! Handing out valid session tokens, re-authenticating when none is cached.
//!
//! The orchestrator never talks to the remote endpoint itself. A caller
//! asks it what to do for an account, performs the exchange where one is
//! due, and hands back how the exchange ended. While an exchange for an
//! account is outstanding, further callers for that account are told to
//! wait for its result instead of starting another.

use crate::backend::{interpret, interpreted, AuthError, AuthErrorModel, BackendOutcome};
use crate::cache::{fresh_part, stored, CredentialCache};
use crate::clock::{is_clock_reading, unix_now};
use crate::session::{
    issued, AccountKey, AccountKeyModel, SessionToken, SessionTokenModel, SECONDS_PER_HOUR,
};
use vstd::prelude::*;

verus! {

/// The mathematical value of an [`AuthOrchestrator`].
pub struct OrchestratorModel {
    /// The cached tokens.
    pub cache: Map<AccountKeyModel, SessionTokenModel>,
    /// The accounts for which an exchange is outstanding.
    pub in_flight: Set<AccountKeyModel>,
    /// The validity, in hours, assumed of every token.
    pub ttl_hours: nat,
}

/// The mathematical value of a [`Step`].
pub enum StepModel {
    Ready { session: SessionTokenModel },
    Authenticate,
    Pending,
}

/// What a caller that asked for a token is to do.
#[derive(Debug, PartialEq, Eq)]
pub enum Step {
    /// A fresh token was cached: use it.
    Ready { session: SessionToken },
    /// No fresh token is cached and no exchange is outstanding: perform the
    /// exchange, then report its outcome.
    Authenticate,
    /// An exchange for this account is outstanding: wait until it has
    /// ended, then ask again.
    Pending,
}

impl View for Step {
    type V = StepModel;

    open spec fn view(&self) -> StepModel {
        match self {
            Step::Ready { session } => StepModel::Ready { session: session@ },
            Step::Authenticate => StepModel::Authenticate,
            Step::Pending => StepModel::Pending,
        }
    }
}

/// The answer to a caller that asks at `now` for a token for `key`, and
/// the state after it. Stale entries are evicted first. A cached token is
/// served; failing that, the caller waits if an exchange for the key is
/// outstanding, and otherwise is sent to authenticate, which makes its
/// exchange the outstanding one.
pub open spec fn begin_model(state: OrchestratorModel, key: AccountKeyModel, now: int) -> (
    OrchestratorModel,
    StepModel,
) {
    let swept = fresh_part(state.cache, now);
    if swept.contains_key(key) {
        (
            OrchestratorModel { cache: swept, ..state },
            StepModel::Ready { session: swept[key] },
        )
    } else if state.in_flight.contains(key) {
        (OrchestratorModel { cache: swept, ..state }, StepModel::Pending)
    } else {
        (
            OrchestratorModel { cache: swept, in_flight: state.in_flight.insert(key), ..state },
            StepModel::Authenticate,
        )
    }
}

/// The state after the exchange for `key` ended at `now` with `result`:
/// the exchange is no longer outstanding, and a token, if one came, is
/// cached for the key.
pub open spec fn complete_model(
    state: OrchestratorModel,
    key: AccountKeyModel,
    result: Result<Seq<char>, AuthErrorModel>,
    now: int,
) -> OrchestratorModel {
    OrchestratorModel {
        cache: match result {
            Ok(token) => stored(state.cache, key, token, state.ttl_hours, now),
            Err(_) => state.cache,
        },
        in_flight: state.in_flight.remove(key),
        ttl_hours: state.ttl_hours,
    }
}

/// The state after a token that a caller obtained by itself was stored for
/// `key` at `now`: stale entries are evicted, then the token is cached.
/// Outstanding exchanges are not touched.
pub open spec fn store_model(
    state: OrchestratorModel,
    key: AccountKeyModel,
    token: Seq<char>,
    now: int,
) -> OrchestratorModel {
    OrchestratorModel {
        cache: stored(fresh_part(state.cache, now), key, token, state.ttl_hours, now),
        ..state
    }
}

/// What the caller that performed the exchange gets: the token as cached,
/// or the error.
pub open spec fn granted(
    result: Result<Seq<char>, AuthErrorModel>,
    ttl_hours: nat,
    now: int,
) -> Result<SessionTokenModel, AuthErrorModel> {
    match result {
        Ok(token) => Ok(issued(token, now, ttl_hours)),
        Err(e) => Err(e),
    }
}

/// Whether a result stands for the given token or error.
pub open spec fn grant_is(
    r: Result<SessionToken, AuthError>,
    model: Result<SessionTokenModel, AuthErrorModel>,
) -> bool {
    match r {
        Ok(session) => model == Ok::<SessionTokenModel, AuthErrorModel>(session@),
        Err(e) => model == Err::<SessionTokenModel, AuthErrorModel>(e@),
    }
}

/// A token together with where it came from.
#[derive(Debug, PartialEq, Eq)]
pub struct Grant {
    pub session: SessionToken,
    /// Whether the token was obtained by an exchange just now, rather than
    /// served from the cache.
    pub freshly_minted: bool,
}

/// Whether `after` and `r` are what asking at `now` for a token for `key`
/// leaves and returns, where `backend` performs the exchange.
///
/// Stale entries are evicted. A cached token is then served as it is, and
/// no exchange takes place. Otherwise the exchange takes place once, and
/// whatever outcome it has decides: a token is cached as issued at `now`
/// and returned; an error is returned and nothing is cached.
pub open spec fn ensured<F: FnOnce(&AccountKey, u32) -> BackendOutcome>(
    before: OrchestratorModel,
    after: OrchestratorModel,
    key: &AccountKey,
    now: int,
    backend: F,
    r: Result<Grant, AuthError>,
) -> bool {
    let swept = fresh_part(before.cache, now);
    &&& after.ttl_hours == before.ttl_hours
    &&& after.in_flight == before.in_flight
    &&& if swept.contains_key(key@) {
        &&& after.cache == swept
        &&& r matches Ok(grant)
        &&& grant.session@ == swept[key@]
        &&& !grant.freshly_minted
    } else {
        exists|outcome: BackendOutcome|
            {
                &&& #[trigger] call_ensures(backend, (key, before.ttl_hours as u32), outcome)
                &&& match interpreted(outcome@) {
                    Ok(token) => {
                        &&& after.cache == stored(swept, key@, token, before.ttl_hours, now)
                        &&& r matches Ok(grant)
                        &&& grant.session@ == issued(token, now, before.ttl_hours)
                        &&& grant.freshly_minted
                    },
                    Err(e) => {
                        &&& after.cache == swept
                        &&& r matches Err(got)
                        &&& got@ == e
                    },
                }
            }
    }
}

/// The accounts that a run of keys names.
spec fn key_set(keys: Seq<AccountKey>) -> Set<AccountKeyModel> {
    Set::new(|key: AccountKeyModel| exists|i: int| 0 <= i < keys.len() && #[trigger] keys[i]@ == key)
}

/// The façade that request handlers use to obtain a valid token.
pub struct AuthOrchestrator {
    cache: CredentialCache,
    in_flight: Vec<AccountKey>,
    ttl_hours: u32,
}

impl View for AuthOrchestrator {
    type V = OrchestratorModel;

    closed spec fn view(&self) -> OrchestratorModel {
        OrchestratorModel {
            cache: self.cache@,
            in_flight: key_set(self.in_flight@),
            ttl_hours: self.ttl_hours as nat,
        }
    }
}

fn names(keys: &Vec<AccountKey>, key: &AccountKey) -> (r: bool)
    ensures
        r == key_set(keys@).contains(key@),
{
    let mut i: usize = 0;
    while i < keys.len()
        invariant
            i <= keys.len(),
            forall|k: int| 0 <= k < i ==> keys@[k]@ != key@,
        decreases keys.len() - i,
    {
        if keys[i].same_as(key) {
            return true;
        }
        i += 1;
    }
    false
}

/// One more key at the end names one more account.
proof fn lemma_key_set_push(keys: Seq<AccountKey>, key: AccountKey)
    ensures
        key_set(keys.push(key)) == key_set(keys).insert(key@),
{
    let longer = keys.push(key);
    assert forall|k: AccountKeyModel| key_set(longer).contains(k) <==> key_set(keys).insert(
        key@,
    ).contains(k) by {
        if key_set(longer).contains(k) {
            let i = choose|i: int| 0 <= i < longer.len() && #[trigger] longer[i]@ == k;
            if i < keys.len() {
                assert(keys[i]@ == k);
            }
        }
        if key_set(keys).contains(k) {
            let i = choose|i: int| 0 <= i < keys.len() && #[trigger] keys[i]@ == k;
            assert(longer[i]@ == k);
        }
        if k == key@ {
            assert(longer[longer.len() - 1]@ == k);
        }
    }
    assert(key_set(longer) =~= key_set(keys).insert(key@));
}

fn without(keys: Vec<AccountKey>, key: &AccountKey) -> (r: Vec<AccountKey>)
    ensures
        key_set(r@) == key_set(keys@).remove(key@),
{
    let mut keys = keys;
    let ghost all = keys@;
    let mut kept: Vec<AccountKey> = Vec::new();
    assert(key_set(kept@) =~= Set::<AccountKeyModel>::empty());
    assert(key_set(kept@).union(key_set(keys@).remove(key@)) =~= key_set(all).remove(key@));
    while keys.len() > 0
        invariant
            key_set(kept@).union(key_set(keys@).remove(key@)) == key_set(all).remove(key@),
        decreases keys@.len(),
    {
        let ghost longer = keys@;
        let ghost earlier = kept@;
        let candidate = keys.pop().unwrap();
        proof {
            assert(longer =~= keys@.push(candidate));
            lemma_key_set_push(keys@, candidate);
        }
        if !candidate.same_as(key) {
            proof {
                lemma_key_set_push(kept@, candidate);
            }
            kept.push(candidate);
        }
        assert(key_set(kept@).union(key_set(keys@).remove(key@)) =~= key_set(earlier).union(
            key_set(longer).remove(key@),
        ));
    }
    proof {
        assert(key_set(keys@) =~= Set::<AccountKeyModel>::empty());
        assert(key_set(kept@) =~= key_set(kept@).union(key_set(keys@).remove(key@)));
    }
    kept
}

impl AuthOrchestrator {
    #[verifier::type_invariant]
    spec fn window_is_positive(self) -> bool {
        self.ttl_hours >= 1
    }

    /// An orchestrator with an empty cache that assumes `ttl_hours` hours
    /// of validity for every token.
    pub fn new(ttl_hours: u32) -> (r: AuthOrchestrator)
        requires
            ttl_hours >= 1,
        ensures
            r@ == (OrchestratorModel {
                cache: Map::empty(),
                in_flight: Set::empty(),
                ttl_hours: ttl_hours as nat,
            }),
    {
        let r = AuthOrchestrator { cache: CredentialCache::new(), in_flight: Vec::new(), ttl_hours };
        assert(key_set(r.in_flight@) =~= Set::<AccountKeyModel>::empty());
        r
    }

    /// The validity, in hours, assumed of every token.
    pub fn ttl_hours(&self) -> (r: u32)
        ensures
            r == self@.ttl_hours,
            r >= 1,
    {
        proof {
            use_type_invariant(self);
        }
        self.ttl_hours
    }

    /// The entry cached for `key`, fresh or not.
    pub fn cached(&self, key: &AccountKey) -> (r: Option<SessionToken>)
        ensures
            match r {
                Some(session) => self@.cache.contains_key(key@) && self@.cache[key@] == session@,
                None => !self@.cache.contains_key(key@),
            },
    {
        self.cache.get(key)
    }

    /// Whether an exchange for `key` is outstanding.
    pub fn is_in_flight(&self, key: &AccountKey) -> (r: bool)
        ensures
            r == self@.in_flight.contains(key@),
    {
        names(&self.in_flight, key)
    }

    fn take_apart(&mut self) -> (parts: (CredentialCache, Vec<AccountKey>, u32))
        ensures
            parts.0@ == old(self)@.cache,
            key_set(parts.1@) == old(self)@.in_flight,
            parts.2 == old(self)@.ttl_hours,
            parts.2 >= 1,
    {
        proof {
            use_type_invariant(&*self);
        }
        let mut taken = AuthOrchestrator {
            cache: CredentialCache::new(),
            in_flight: Vec::new(),
            ttl_hours: 1,
        };
        core::mem::swap(self, &mut taken);
        (taken.cache, taken.in_flight, taken.ttl_hours)
    }

    /// Answers a caller that asks at `now` for a token for `key`.
    pub fn begin_at(&mut self, key: &AccountKey, now: i64) -> (step: Step)
        ensures
            (final(self)@, step@) == begin_model(old(self)@, key@, now as int),
    {
        let (mut cache, mut in_flight, ttl_hours) = self.take_apart();
        cache.evict_expired_at(now);
        let step = match cache.get(key) {
            Some(session) => Step::Ready { session },
            None => {
                if names(&in_flight, key) {
                    Step::Pending
                } else {
                    let added = key.clone();
                    proof {
                        lemma_key_set_push(in_flight@, added);
                    }
                    in_flight.push(added);
                    Step::Authenticate
                }
            },
        };
        *self = AuthOrchestrator { cache, in_flight, ttl_hours };
        step
    }

    /// Takes in the result of the exchange for `key`, which ended at `now`:
    /// the exchange is no longer outstanding, and a token, if one came, is
    /// cached for the key and returned as cached.
    pub fn conclude_at(&mut self, key: &AccountKey, result: Result<String, AuthError>, now: i64) -> (r:
        Result<SessionToken, AuthError>)
        requires
            now + old(self)@.ttl_hours * SECONDS_PER_HOUR <= i64::MAX,
        ensures
            final(self)@ == complete_model(
                old(self)@,
                key@,
                match result {
                    Ok(token) => Ok(token@),
                    Err(e) => Err(e@),
                },
                now as int,
            ),
            grant_is(
                r,
                granted(
                    match result {
                        Ok(token) => Ok(token@),
                        Err(e) => Err(e@),
                    },
                    old(self)@.ttl_hours,
                    now as int,
                ),
            ),
    {
        let (mut cache, in_flight, ttl_hours) = self.take_apart();
        let in_flight = without(in_flight, key);
        let r = match result {
            Ok(token) => {
                let session = SessionToken::issue(token.clone(), now, ttl_hours);
                cache.put_at(key.clone(), token, ttl_hours, now);
                Ok(session)
            },
            Err(e) => Err(e),
        };
        *self = AuthOrchestrator { cache, in_flight, ttl_hours };
        r
    }

    /// Takes in the outcome of the exchange for `key`, which ended at
    /// `now`. A body is read as a document and searched for the token.
    pub fn complete_at(&mut self, key: &AccountKey, outcome: BackendOutcome, now: i64) -> (r: Result<
        SessionToken,
        AuthError,
    >)
        requires
            now + old(self)@.ttl_hours * SECONDS_PER_HOUR <= i64::MAX,
        ensures
            final(self)@ == complete_model(old(self)@, key@, interpreted(outcome@), now as int),
            grant_is(r, granted(interpreted(outcome@), old(self)@.ttl_hours, now as int)),
    {
        let result = interpret(outcome);
        self.conclude_at(key, result, now)
    }

    /// Stores a token that the caller obtained by itself for `key` at
    /// `now`, after evicting the stale entries, and returns it as cached.
    pub fn store_at(&mut self, key: &AccountKey, token: String, now: i64) -> (session:
        SessionToken)
        requires
            now + old(self)@.ttl_hours * SECONDS_PER_HOUR <= i64::MAX,
        ensures
            final(self)@ == store_model(old(self)@, key@, token@, now as int),
            session@ == issued(token@, now as int, old(self)@.ttl_hours),
    {
        let (mut cache, in_flight, ttl_hours) = self.take_apart();
        cache.evict_expired_at(now);
        let session = SessionToken::issue(token.clone(), now, ttl_hours);
        cache.put_at(key.clone(), token, ttl_hours, now);
        *self = AuthOrchestrator { cache, in_flight, ttl_hours };
        session
    }

    /// Stores a token that the caller obtained by itself for `key` now, by
    /// the clock, and returns it as cached.
    pub fn store(&mut self, key: &AccountKey, token: String) -> (session: SessionToken)
        ensures
            is_clock_reading(session@.issued_at),
            final(self)@ == store_model(old(self)@, key@, token@, session@.issued_at),
            session@ == issued(token@, session@.issued_at, old(self)@.ttl_hours),
    {
        let now = unix_now();
        self.store_at(key, token, now)
    }

    /// Answers a caller that asks now, by the clock, for a token for `key`,
    /// and returns the instant that was read with the answer.
    pub fn begin(&mut self, key: &AccountKey) -> (r: (i64, Step))
        ensures
            is_clock_reading(r.0 as int),
            (final(self)@, r.1@) == begin_model(old(self)@, key@, r.0 as int),
    {
        let now = unix_now();
        let step = self.begin_at(key, now);
        (now, step)
    }

    /// Takes in the outcome of the exchange for `key` as ended now, by the
    /// clock.
    pub fn complete(&mut self, key: &AccountKey, outcome: BackendOutcome) -> (r: Result<
        SessionToken,
        AuthError,
    >)
        ensures
            exists|now: int|
                {
                    &&& is_clock_reading(now)
                    &&& final(self)@ == #[trigger] complete_model(
                        old(self)@,
                        key@,
                        interpreted(outcome@),
                        now,
                    )
                    &&& grant_is(r, granted(interpreted(outcome@), old(self)@.ttl_hours, now))
                },
    {
        let now = unix_now();
        let ghost before = self@;
        let r = self.complete_at(key, outcome, now);
        assert(self@ == complete_model(before, key@, interpreted(outcome@), now as int));
        r
    }

    /// Obtains a valid token for `key` at `now`, for a caller that holds
    /// the orchestrator for the whole exchange: serves a fresh cached token,
    /// or else has `backend` perform the exchange, once, caches the token it
    /// brings and returns it. A failed exchange is not tried again.
    pub fn ensure_token_at<F: FnOnce(&AccountKey, u32) -> BackendOutcome>(
        &mut self,
        key: &AccountKey,
        now: i64,
        backend: F,
    ) -> (r: Result<Grant, AuthError>)
        requires
            now + old(self)@.ttl_hours * SECONDS_PER_HOUR <= i64::MAX,
            call_requires(backend, (key, old(self)@.ttl_hours as u32)),
        ensures
            ensured(old(self)@, final(self)@, key, now as int, backend, r),
    {
        let (mut cache, in_flight, ttl_hours) = self.take_apart();
        cache.evict_expired_at(now);
        let r = match cache.get(key) {
            Some(session) => Ok(Grant { session, freshly_minted: false }),
            None => {
                let outcome = backend(key, ttl_hours);
                assert(call_ensures(backend, (key, ttl_hours), outcome));
                match interpret(outcome) {
                    Ok(token) => {
                        let session = SessionToken::issue(token.clone(), now, ttl_hours);
                        cache.put_at(key.clone(), token, ttl_hours, now);
                        Ok(Grant { session, freshly_minted: true })
                    },
                    Err(e) => Err(e),
                }
            },
        };
        *self = AuthOrchestrator { cache, in_flight, ttl_hours };
        r
    }

    /// Obtains a valid token for `key` now, by the clock. See
    /// [`AuthOrchestrator::ensure_token_at`].
    pub fn ensure_token<F: FnOnce(&AccountKey, u32) -> BackendOutcome>(
        &mut self,
        key: &AccountKey,
        backend: F,
    ) -> (r: Result<Grant, AuthError>)
        requires
            call_requires(backend, (key, old(self)@.ttl_hours as u32)),
        ensures
            exists|now: int|
                is_clock_reading(now) && #[trigger] ensured(
                    old(self)@,
                    final(self)@,
                    key,
                    now,
                    backend,
                    r,
                ),
    {
        let now = unix_now();
        let ghost before = self@;
        let r = self.ensure_token_at(key, now, backend);
        assert(ensured(before, self@, key, now as int, backend, r));
        r
    }
}

/// The state after one caller after another has asked for a token for
/// `key`, each at its own instant.
pub open spec fn after_callers(state: OrchestratorModel, key: AccountKeyModel, instants: Seq<int>)
    -> OrchestratorModel
    decreases instants.len(),
{
    if instants.len() == 0 {
        state
    } else {
        begin_model(after_callers(state, key, instants.drop_last()), key, instants.last()).0
    }
}

/// The answer that the caller with the given index gets, the first caller
/// having index 0.
pub open spec fn answer_to_caller(
    state: OrchestratorModel,
    key: AccountKeyModel,
    instants: Seq<int>,
    index: int,
) -> StepModel {
    begin_model(after_callers(state, key, instants.take(index)), key, instants[index]).1
}

/// A token that is served is the cached one and is fresh at the instant
/// of asking: a stale entry is never served.
pub proof fn lemma_served_token_is_fresh(state: OrchestratorModel, key: AccountKeyModel, now: int)
    ensures
        begin_model(state, key, now).1 matches StepModel::Ready { session } ==> {
            &&& state.cache.contains_key(key)
            &&& state.cache[key] == session
            &&& session.is_fresh_at(now)
        },
        state.cache.contains_key(key) && state.cache[key].is_fresh_at(now) ==> begin_model(
            state,
            key,
            now,
        ).1 == (StepModel::Ready { session: state.cache[key] }),
{
}

/// An outstanding exchange for one account never makes a caller for
/// another account wait.
pub proof fn lemma_other_accounts_do_not_block(
    state: OrchestratorModel,
    key: AccountKeyModel,
    now: int,
)
    requires
        !state.in_flight.contains(key),
    ensures
        begin_model(state, key, now).1 != StepModel::Pending,
{
}

/// After the first caller, the exchange for the account is outstanding and
/// the account has no cached token.
proof fn lemma_outstanding_after_first(
    state: OrchestratorModel,
    key: AccountKeyModel,
    instants: Seq<int>,
)
    requires
        !state.cache.contains_key(key),
        !state.in_flight.contains(key),
        instants.len() >= 1,
    ensures
        !after_callers(state, key, instants).cache.contains_key(key),
        after_callers(state, key, instants).in_flight.contains(key),
        after_callers(state, key, instants).ttl_hours == state.ttl_hours,
    decreases instants.len(),
{
    if instants.len() == 1 {
        assert(instants.drop_last().len() == 0);
        assert(after_callers(state, key, instants.drop_last()) == state);
    } else {
        lemma_outstanding_after_first(state, key, instants.drop_last());
    }
}

/// Any number of callers that ask for a token for an account that has
/// none, while no exchange for it is outstanding, cause exactly one
/// exchange: the first caller is sent to authenticate, and every later
/// one is told to wait for that exchange.
pub proof fn lemma_one_exchange_for_many_callers(
    state: OrchestratorModel,
    key: AccountKeyModel,
    instants: Seq<int>,
)
    requires
        !state.cache.contains_key(key),
        !state.in_flight.contains(key),
        instants.len() >= 1,
    ensures
        answer_to_caller(state, key, instants, 0) == StepModel::Authenticate,
        forall|index: int|
            1 <= index < instants.len() ==> #[trigger] answer_to_caller(
                state,
                key,
                instants,
                index,
            ) == StepModel::Pending,
        after_callers(state, key, instants).in_flight.contains(key),
        !after_callers(state, key, instants).cache.contains_key(key),
        after_callers(state, key, instants).ttl_hours == state.ttl_hours,
{
    assert(instants.take(0).len() == 0);
    assert(after_callers(state, key, instants.take(0)) == state);
    assert forall|index: int| 1 <= index < instants.len() implies #[trigger] answer_to_caller(
        state,
        key,
        instants,
        index,
    ) == StepModel::Pending by {
        lemma_outstanding_after_first(state, key, instants.take(index));
    }
    lemma_outstanding_after_first(state, key, instants);
}

/// Once the one exchange has brought a token, every caller that asks
/// before the token expires is served that same token, and the exchange
/// is no longer outstanding.
pub proof fn lemma_callers_share_the_token(
    state: OrchestratorModel,
    key: AccountKeyModel,
    token: Seq<char>,
    completed_at: int,
    asked_at: int,
)
    requires
        asked_at < completed_at + state.ttl_hours * SECONDS_PER_HOUR,
    ensures
        !complete_model(state, key, Ok(token), completed_at).in_flight.contains(key),
        begin_model(complete_model(state, key, Ok(token), completed_at), key, asked_at).1 == (
        StepModel::Ready { session: issued(token, completed_at, state.ttl_hours) }),
        begin_model(complete_model(state, key, Ok(token), completed_at), key, asked_at).0.cache[key]
            == issued(token, completed_at, state.ttl_hours),
{
}

/// A cached token is served, unchanged, to each of any number of callers
/// that ask before it expires, and stays cached.
proof fn lemma_token_stays(state: OrchestratorModel, key: AccountKeyModel, instants: Seq<int>)
    requires
        state.cache.contains_key(key),
        forall|i: int| 0 <= i < instants.len() ==> instants[i] < state.cache[key].expires_at,
    ensures
        after_callers(state, key, instants).cache.contains_key(key),
        after_callers(state, key, instants).cache[key] == state.cache[key],
        after_callers(state, key, instants).in_flight == state.in_flight,
        after_callers(state, key, instants).ttl_hours == state.ttl_hours,
    decreases instants.len(),
{
    if instants.len() > 0 {
        let earlier = instants.drop_last();
        assert forall|i: int| 0 <= i < earlier.len() implies earlier[i] < state.cache[key].expires_at by {
            assert(earlier[i] == instants[i]);
        }
        lemma_token_stays(state, key, earlier);
        assert(instants.last() == instants[instants.len() - 1]);
    }
}

/// Once an exchange has brought a token, each of any number of callers
/// that ask before the token expires, whether for the first time or again
/// after waiting, is served that same token, and the token stays cached.
pub proof fn lemma_all_later_callers_share_the_token(
    state: OrchestratorModel,
    key: AccountKeyModel,
    token: Seq<char>,
    completed_at: int,
    instants: Seq<int>,
)
    requires
        forall|i: int|
            0 <= i < instants.len() ==> instants[i] < completed_at + state.ttl_hours
                * SECONDS_PER_HOUR,
    ensures
        forall|index: int|
            0 <= index < instants.len() ==> #[trigger] answer_to_caller(
                complete_model(state, key, Ok(token), completed_at),
                key,
                instants,
                index,
            ) == (StepModel::Ready { session: issued(token, completed_at, state.ttl_hours) }),
        after_callers(
            complete_model(state, key, Ok(token), completed_at),
            key,
            instants,
        ).cache.contains_key(key),
        after_callers(complete_model(state, key, Ok(token), completed_at), key, instants).cache[key]
            == issued(token, completed_at, state.ttl_hours),
        !after_callers(
            complete_model(state, key, Ok(token), completed_at),
            key,
            instants,
        ).in_flight.contains(key),
{
    let settled = complete_model(state, key, Ok(token), completed_at);
    assert forall|index: int| 0 <= index < instants.len() implies #[trigger] answer_to_caller(
        settled,
        key,
        instants,
        index,
    ) == (StepModel::Ready { session: issued(token, completed_at, state.ttl_hours) }) by {
        let earlier = instants.take(index);
        assert forall|i: int| 0 <= i < earlier.len() implies earlier[i]
            < settled.cache[key].expires_at by {
            assert(earlier[i] == instants[i]);
        }
        lemma_token_stays(settled, key, earlier);
    }
    lemma_token_stays(settled, key, instants);
}

/// Callers that ask together for a token for an account that has none
/// share one exchange and one token. Of those that ask while no exchange
/// for the account is outstanding and before one has ended, the first is
/// sent to authenticate and every other is told to wait. When that one
/// exchange brings a token, the caller that performed it receives the
/// token as cached, and every caller that asks after that and before the
/// token expires, among them those that waited and ask again, is served
/// the very same token, which the cache then holds.
pub proof fn lemma_coalesced_callers_receive_one_token(
    state: OrchestratorModel,
    key: AccountKeyModel,
    first_asked: Seq<int>,
    token: Seq<char>,
    completed_at: int,
    asked_again: Seq<int>,
)
    requires
        !state.cache.contains_key(key),
        !state.in_flight.contains(key),
        first_asked.len() >= 1,
        forall|i: int|
            0 <= i < asked_again.len() ==> asked_again[i] < completed_at + state.ttl_hours
                * SECONDS_PER_HOUR,
    ensures
        answer_to_caller(state, key, first_asked, 0) == StepModel::Authenticate,
        forall|index: int|
            1 <= index < first_asked.len() ==> #[trigger] answer_to_caller(
                state,
                key,
                first_asked,
                index,
            ) == StepModel::Pending,
        granted(Ok(token), state.ttl_hours, completed_at) == Ok::<
            SessionTokenModel,
            AuthErrorModel,
        >(issued(token, completed_at, state.ttl_hours)),
        forall|index: int|
            0 <= index < asked_again.len() ==> #[trigger] answer_to_caller(
                complete_model(
                    after_callers(state, key, first_asked),
                    key,
                    Ok(token),
                    completed_at,
                ),
                key,
                asked_again,
                index,
            ) == (StepModel::Ready { session: issued(token, completed_at, state.ttl_hours) }),
        after_callers(
            complete_model(after_callers(state, key, first_asked), key, Ok(token), completed_at),
            key,
            asked_again,
        ).cache.contains_key(key),
        after_callers(
            complete_model(after_callers(state, key, first_asked), key, Ok(token), completed_at),
            key,
            asked_again,
        ).cache[key] == issued(token, completed_at, state.ttl_hours),
{
    lemma_one_exchange_for_many_callers(state, key, first_asked);
    lemma_all_later_callers_share_the_token(
        after_callers(state, key, first_asked),
        key,
        token,
        completed_at,
        asked_again,
    );
}

/// After an exchange that failed for an account without a cached token,
/// no exchange for the account is outstanding. Of the callers that ask
/// after that, among them those that waited and ask again, the first is
/// sent to authenticate in its turn and every other is told to wait: there
/// is never more than one exchange for the account at a time.
pub proof fn lemma_failed_exchange_hands_over(
    state: OrchestratorModel,
    key: AccountKeyModel,
    error: AuthErrorModel,
    completed_at: int,
    asked_again: Seq<int>,
)
    requires
        !state.cache.contains_key(key),
        asked_again.len() >= 1,
    ensures
        !complete_model(state, key, Err(error), completed_at).in_flight.contains(key),
        answer_to_caller(
            complete_model(state, key, Err(error), completed_at),
            key,
            asked_again,
            0,
        ) == StepModel::Authenticate,
        forall|index: int|
            1 <= index < asked_again.len() ==> #[trigger] answer_to_caller(
                complete_model(state, key, Err(error), completed_at),
                key,
                asked_again,
                index,
            ) == StepModel::Pending,
{
    lemma_one_exchange_for_many_callers(
        complete_model(state, key, Err(error), completed_at),
        key,
        asked_again,
    );
}

/// From the instant at which a cached token expires, a caller is no
/// longer served it: the caller is sent to authenticate afresh, or to wait
/// for an exchange that is outstanding.
pub proof fn lemma_expired_token_forces_exchange(
    state: OrchestratorModel,
    key: AccountKeyModel,
    now: int,
)
    requires
        state.cache.contains_key(key),
        !state.cache[key].is_fresh_at(now),
    ensures
        !(begin_model(state, key, now).1 is Ready),
        !begin_model(state, key, now).0.cache.contains_key(key),
        !state.in_flight.contains(key) ==> begin_model(state, key, now).1
            == StepModel::Authenticate,
{
}

/// A failed exchange caches nothing and is not tried again: the account's
/// entry is what it was, and the error is what the caller gets.
pub proof fn lemma_failure_is_surfaced(
    state: OrchestratorModel,
    key: AccountKeyModel,
    error: AuthErrorModel,
    now: int,
)
    ensures
        complete_model(state, key, Err(error), now).cache == state.cache,
        granted(Err(error), state.ttl_hours, now) == Err::<SessionTokenModel, AuthErrorModel>(
            error,
        ),
{
}

} // verus!
