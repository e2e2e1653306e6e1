//! Account keys and the session tokens issued for them.

use vstd::prelude::*;

verus! {

/// Seconds in one hour of validity.
pub const SECONDS_PER_HOUR: i64 = 3600;

/// The mathematical value of an [`AccountKey`].
pub struct AccountKeyModel {
    pub operator_id: Seq<char>,
    pub carrier_account_id: Seq<char>,
}

/// Identifies one account on the courier platform: the operator and the
/// carrier account it works for. Two keys are the same when both parts
/// match exactly.
#[derive(Debug, PartialEq, Eq)]
pub struct AccountKey {
    pub operator_id: String,
    pub carrier_account_id: String,
}

impl View for AccountKey {
    type V = AccountKeyModel;

    open spec fn view(&self) -> AccountKeyModel {
        AccountKeyModel {
            operator_id: self.operator_id@,
            carrier_account_id: self.carrier_account_id@,
        }
    }
}

impl AccountKey {
    /// The key of an operator working for a carrier account.
    pub fn new(operator_id: &str, carrier_account_id: &str) -> (key: AccountKey)
        ensures
            key@.operator_id == operator_id@,
            key@.carrier_account_id == carrier_account_id@,
    {
        AccountKey {
            operator_id: operator_id.to_owned(),
            carrier_account_id: carrier_account_id.to_owned(),
        }
    }

    /// Whether two keys name the same account.
    pub fn same_as(&self, other: &AccountKey) -> (r: bool)
        ensures
            r == (self@ == other@),
    {
        self.operator_id == other.operator_id && self.carrier_account_id
            == other.carrier_account_id
    }

}

impl Clone for AccountKey {
    fn clone(&self) -> (key: AccountKey)
        ensures
            key@ == self@,
    {
        AccountKey {
            operator_id: self.operator_id.clone(),
            carrier_account_id: self.carrier_account_id.clone(),
        }
    }
}

/// The mathematical value of a [`SessionToken`]. Instants are seconds since
/// the Unix epoch.
pub struct SessionTokenModel {
    pub token: Seq<char>,
    pub issued_at: int,
    pub expires_at: int,
}

impl SessionTokenModel {
    /// A token is fresh while the current instant is strictly before its
    /// expiry.
    pub open spec fn is_fresh_at(self, now: int) -> bool {
        now < self.expires_at
    }
}

/// The token that is issued at `now` for `ttl_hours` hours.
pub open spec fn issued(token: Seq<char>, now: int, ttl_hours: nat) -> SessionTokenModel {
    SessionTokenModel { token, issued_at: now, expires_at: now + ttl_hours * SECONDS_PER_HOUR }
}

/// A session credential with the instants at which it was issued and at
/// which it expires. It always expires after it was issued.
#[derive(Debug, PartialEq, Eq)]
pub struct SessionToken {
    token: String,
    issued_at: i64,
    expires_at: i64,
}

impl View for SessionToken {
    type V = SessionTokenModel;

    closed spec fn view(&self) -> SessionTokenModel {
        SessionTokenModel {
            token: self.token@,
            issued_at: self.issued_at as int,
            expires_at: self.expires_at as int,
        }
    }
}

impl SessionToken {
    #[verifier::type_invariant]
    spec fn expires_after_issue(self) -> bool {
        self.issued_at < self.expires_at
    }

    /// Issues a token at `now` that stays valid for `ttl_hours` hours.
    pub fn issue(token: String, now: i64, ttl_hours: u32) -> (r: SessionToken)
        requires
            ttl_hours >= 1,
            now + ttl_hours * SECONDS_PER_HOUR <= i64::MAX,
        ensures
            r@ == issued(token@, now as int, ttl_hours as nat),
    {
        let lifetime: i64 = (ttl_hours as i64) * SECONDS_PER_HOUR;
        SessionToken { token, issued_at: now, expires_at: now + lifetime }
    }

    /// The credential itself.
    pub fn token(&self) -> (r: &str)
        ensures
            r@ == self@.token,
    {
        self.token.as_str()
    }

    /// The instant at which the token was issued.
    pub fn issued_at(&self) -> (r: i64)
        ensures
            r == self@.issued_at,
    {
        self.issued_at
    }

    /// The instant from which the token is stale.
    pub fn expires_at(&self) -> (r: i64)
        ensures
            r == self@.expires_at,
            self@.issued_at < r,
    {
        proof {
            use_type_invariant(self);
        }
        self.expires_at
    }

    /// Whether the token may still be served at `now`.
    pub fn is_fresh_at(&self, now: i64) -> (r: bool)
        ensures
            r == self@.is_fresh_at(now as int),
    {
        now < self.expires_at
    }

    /// Whether the token is stale at `now`.
    pub fn is_expired_at(&self, now: i64) -> (r: bool)
        ensures
            r == !self@.is_fresh_at(now as int),
    {
        now >= self.expires_at
    }

}

impl Clone for SessionToken {
    fn clone(&self) -> (r: SessionToken)
        ensures
            r@ == self@,
    {
        proof {
            use_type_invariant(self);
        }
        SessionToken {
            token: self.token.clone(),
            issued_at: self.issued_at,
            expires_at: self.expires_at,
        }
    }
}

} // verus!
