//! WalletConnect sessions, session proposals and their lifetimes.
use vstd::prelude::*;

verus! {

#[verifier::external_type_specification]
#[verifier::external_body]
pub struct ExJsonValue(serde_json::Value);

/// `Clone` of `serde_json::Value`, which serde_json derives: the copy equals the value cloned.
pub assume_specification[ <serde_json::Value as std::clone::Clone>::clone ](v: &serde_json::Value) -> (r: serde_json::Value)
    ensures
        r == *v,
;

/// Storage key of the session topic.
pub const SESSION_TOPIC: &'static str = "sessionTopic";

/// Storage key of the wallet accounts.
pub const WC_ACCOUNTS: &'static str = "wc_accounts";

/// Storage key of the selected wallet account.
pub const WC_SELECTED_ACCOUNT: &'static str = "wc_selectedAccount";

/// An established WalletConnect session.
#[derive(Debug)]
pub struct Session {
    pub topic: String,
    /// Expiry time in seconds since the Unix epoch.
    pub expiry: u64,
    pub acknowledged: bool,
    pub controller: String,
    pub namespaces: serde_json::Value,
    pub relay_protocol: String,
}

impl Clone for Session {
    fn clone(&self) -> (r: Self)
        ensures
            r == *self,
    {
        Session {
            topic: self.topic.clone(),
            expiry: self.expiry,
            acknowledged: self.acknowledged,
            controller: self.controller.clone(),
            namespaces: self.namespaces.clone(),
            relay_protocol: self.relay_protocol.clone(),
        }
    }
}

/// Reads the system clock through `std::time::SystemTime::now().duration_since(UNIX_EPOCH)`
/// and returns the whole seconds, or `None` when the clock reads before the epoch. The value
/// depends on the machine and the moment, so nothing is claimed of it.
#[verifier::external_body]
pub(crate) fn unix_time_secs() -> (r: Option<u64>) {
    match std::time::SystemTime::now().duration_since(std::time::UNIX_EPOCH) {
        Ok(d) => Some(d.as_secs()),
        Err(_) => None,
    }
}

/// The current Unix time in seconds; a clock that reads before the epoch counts as time 0.
pub(crate) fn now_secs() -> (r: u64) {
    match unix_time_secs() {
        Some(t) => t,
        None => 0,
    }
}

impl Session {
    /// Whether the session has expired at Unix time `now`.
    pub open spec fn expired_at(&self, now: u64) -> bool {
        self.expiry < now
    }

    /// Whether the session is acknowledged and unexpired at Unix time `now`.
    pub open spec fn active_at(&self, now: u64) -> bool {
        self.acknowledged && !self.expired_at(now)
    }

    /// The seconds left until expiry at Unix time `now`, if any.
    pub open spec fn remaining_at(&self, now: u64) -> Option<u64> {
        if self.expiry > now {
            Some((self.expiry - now) as u64)
        } else {
            None
        }
    }

    /// Whether the session has expired at Unix time `now`.
    pub fn is_expired_at(&self, now: u64) -> (r: bool)
        ensures
            r == self.expired_at(now),
    {
        self.expiry < now
    }

    /// Whether the session is acknowledged and unexpired at Unix time `now`.
    pub fn is_active_at(&self, now: u64) -> (r: bool)
        ensures
            r == self.active_at(now),
    {
        self.acknowledged && !self.is_expired_at(now)
    }

    /// The seconds left until expiry at Unix time `now`; `None` once it is reached.
    pub fn time_until_expiry_at(&self, now: u64) -> (r: Option<u64>)
        ensures
            r == self.remaining_at(now),
    {
        if self.expiry > now {
            Some(self.expiry - now)
        } else {
            None
        }
    }

    /// Away from the expiry instant itself, a session has time left exactly when it has not
    /// expired; at `now == expiry` it has neither expired nor any time left.
    pub proof fn lemma_time_left_iff_unexpired(&self, now: u64)
        ensures
            now != self.expiry ==> (self.remaining_at(now) is Some <==> !self.expired_at(now)),
            now == self.expiry ==> (self.remaining_at(now) is None && !self.expired_at(now)),
            self.active_at(now) ==> !self.expired_at(now),
    {
    }

    /// Whether the session has expired now, by the system clock.
    pub fn is_expired(&self) -> (r: bool)
        ensures
            exists|now: u64| r == self.expired_at(now),
            self.expiry == u64::MAX ==> !r,
    {
        let now = now_secs();
        self.is_expired_at(now)
    }

    /// Whether the session is acknowledged and unexpired now, by the system clock.
    pub fn is_active(&self) -> (r: bool)
        ensures
            exists|now: u64| r == self.active_at(now),
            r ==> self.acknowledged,
    {
        let now = now_secs();
        self.is_active_at(now)
    }

    /// The seconds left until expiry now, by the system clock.
    pub fn time_until_expiry(&self) -> (r: Option<u64>)
        ensures
            exists|now: u64| r == self.remaining_at(now),
            r matches Some(d) ==> 0 < d <= self.expiry,
    {
        let now = now_secs();
        self.time_until_expiry_at(now)
    }
}

/// Metadata of the party that proposes a session.
#[derive(Debug, Clone)]
pub struct ProposerMetadata {
    pub name: String,
    pub description: String,
    pub url: String,
    pub icons: Vec<String>,
}

/// The party that proposes a session.
#[derive(Debug, Clone)]
pub struct Proposer {
    pub public_key: String,
    pub metadata: ProposerMetadata,
}

/// The parameters of a session proposal.
#[derive(Debug, Clone)]
pub struct SessionProposalParams {
    pub proposer: Proposer,
    pub required_namespaces: serde_json::Value,
    pub relay_protocol: String,
}

/// A session proposal.
#[derive(Debug, Clone)]
pub struct SessionProposal {
    pub id: u64,
    pub params: SessionProposalParams,
}

} // verus!
