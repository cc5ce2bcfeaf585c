//! Stored records: legal holds, incidents, break-glass credentials,
//! workspaces and users. Instants are milliseconds since the Unix epoch.

use vstd::prelude::*;
use crate::user::{Role, AuthProvider};
use crate::text::str_eq;

verus! {

/// A legal hold on a range of audit sequence numbers.
#[derive(Debug, Clone)]
pub struct HoldRecord {
    pub id: String,
    pub placed_at: i64,
    pub placed_by: String,
    pub reason: String,
    pub seq_from: u64,
    pub seq_to: u64,
    pub expires_at: Option<i64>,
    /// Base64 Ed25519 verifying key of the hold.
    pub hold_key_pubkey: String,
    /// Base64 Ed25519 signature over the placement payload.
    pub placement_sig: String,
    pub released_at: Option<i64>,
    pub released_by: Option<String>,
    /// Base64 Ed25519 signature over the release payload.
    pub release_sig: Option<String>,
    pub tpm_sealed: bool,
}

/// A hold is in force until released, and until its expiry if it has one.
pub open spec fn spec_hold_active(h: HoldRecord, now: i64) -> bool {
    h.released_at is None && match h.expires_at {
        Some(exp) => now < exp,
        None => true,
    }
}

impl HoldRecord {
    /// Whether the hold is in force at `now`.
    pub fn is_active(&self, now: i64) -> (r: bool)
        ensures
            r == spec_hold_active(*self, now),
    {
        if self.released_at.is_some() {
            return false;
        }
        match self.expires_at {
            Some(exp) => now < exp,
            None => true,
        }
    }

    /// Whether the hold protects the entry with sequence number `seq` at `now`.
    pub fn covers_seq(&self, seq: u64, now: i64) -> (r: bool)
        ensures
            r == (spec_hold_active(*self, now) && self.seq_from <= seq && seq <= self.seq_to),
    {
        self.is_active(now) && seq >= self.seq_from && seq <= self.seq_to
    }
}

/// A released hold protects nothing, and an expired one protects nothing
/// from its expiry on.
pub proof fn lemma_released_hold_covers_nothing(h: HoldRecord, now: i64, later: i64)
    ensures
        h.released_at is Some ==> !spec_hold_active(h, now),
        h.expires_at matches Some(exp) && exp <= now && now <= later ==> !spec_hold_active(h, later),
{
}

/// The stage of an incident.
#[derive(Debug, Clone, Copy, PartialEq, Eq, Structural)]
pub enum IncidentPhase {
    Declared,
    Investigating,
    Resolved,
}

impl IncidentPhase {
    /// The phase's name.
    pub fn as_str(&self) -> (r: &'static str)
        ensures
            r@ == match *self {
                IncidentPhase::Declared => "declared"@,
                IncidentPhase::Investigating => "investigating"@,
                IncidentPhase::Resolved => "resolved"@,
            },
    {
        match self {
            IncidentPhase::Declared => "declared",
            IncidentPhase::Investigating => "investigating",
            IncidentPhase::Resolved => "resolved",
        }
    }
}

/// One step in an incident's history.
#[derive(Debug, Clone)]
pub struct PhaseEntry {
    pub phase: IncidentPhase,
    pub at: i64,
    pub by: String,
    pub note: Option<String>,
}

/// An open or closed incident.
#[derive(Debug, Clone)]
pub struct IncidentState {
    pub id: String,
    pub declared_at: i64,
    pub declared_by: String,
    pub reason: String,
    pub phase: IncidentPhase,
    pub audit_frozen: bool,
    pub resolved_at: Option<i64>,
    pub resolution_summary: Option<String>,
    pub phase_log: Vec<PhaseEntry>,
    pub webhook_urls: Vec<String>,
}

impl IncidentState {
    /// A newly declared incident: the audit log is frozen and the history
    /// starts with the declaration, noted with its reason.
    pub fn new(id: String, declared_by: String, reason: String, webhook_urls: Vec<String>, now: i64) -> (r: IncidentState)
        ensures
            r.id == id,
            r.declared_at == now,
            r.declared_by == declared_by,
            r.reason == reason,
            r.phase == IncidentPhase::Declared,
            r.audit_frozen,
            r.resolved_at is None,
            r.resolution_summary is None,
            r.phase_log@.len() == 1,
            r.phase_log@[0].phase == IncidentPhase::Declared,
            r.phase_log@[0].at == now,
            r.phase_log@[0].by == declared_by,
            r.phase_log@[0].note == Some(reason),
            r.webhook_urls == webhook_urls,
    {
        let entry = PhaseEntry {
            phase: IncidentPhase::Declared,
            at: now,
            by: declared_by.clone(),
            note: Some(reason.clone()),
        };
        IncidentState {
            id,
            declared_at: now,
            declared_by,
            reason,
            phase: IncidentPhase::Declared,
            audit_frozen: true,
            resolved_at: None,
            resolution_summary: None,
            phase_log: vec![entry],
            webhook_urls,
        }
    }
}

/// An emergency credential.
#[derive(Debug, Clone)]
pub struct BreakGlassCred {
    pub id: String,
    pub purpose: String,
    /// SHA-256 of the token itself.
    pub token_hash: String,
    pub created_at: i64,
    pub used_at: Option<i64>,
    pub used_by: Option<String>,
}

impl BreakGlassCred {
    /// A credential is spent once it has been used.
    pub fn is_used(&self) -> (r: bool)
        ensures
            r == self.used_at is Some,
    {
        self.used_at.is_some()
    }
}

/// A tenant of the daemon.
#[derive(Debug, Clone)]
pub struct Workspace {
    pub id: u128,
    pub slug: String,
    pub name: String,
    pub api_key_hash: Option<String>,
    pub model_allowlist: Vec<String>,
    pub rate_limit_rpm: Option<u32>,
    pub system_prompt: Option<String>,
    pub created_at: i64,
    /// Whether the network namespace of this workspace exists.
    pub net_namespace: bool,
    pub max_concurrent_requests: Option<u32>,
    pub max_models: Option<u32>,
    pub max_memory_bytes: Option<u64>,
    /// Hex-encoded data-encryption key; `None` once shredded.
    pub dek: Option<String>,
}

impl Workspace {
    /// A workspace may use any model when its allowlist is empty, else only
    /// the listed ones (by `name:tag`).
    pub fn allows_model(&self, name_tag: &str) -> (r: bool)
        ensures
            r == (self.model_allowlist@.len() == 0
                || exists|i: int| 0 <= i < self.model_allowlist@.len() && #[trigger] self.model_allowlist@[i]@ == name_tag@),
    {
        if self.model_allowlist.len() == 0 {
            return true;
        }
        let mut i: usize = 0;
        while i < self.model_allowlist.len()
            invariant
                0 <= i <= self.model_allowlist@.len(),
                forall|j: int| 0 <= j < i ==> #[trigger] self.model_allowlist@[j]@ != name_tag@,
            decreases self.model_allowlist@.len() - i,
        {
            if str_eq(self.model_allowlist[i].as_str(), name_tag) {
                return true;
            }
            i = i + 1;
        }
        false
    }
}

/// A user account.
#[derive(Debug, Clone)]
pub struct User {
    pub id: u128,
    pub username: String,
    pub email: Option<String>,
    /// Password hash; `None` for users who only sign in through SSO.
    pub password_hash: Option<String>,
    pub role: Role,
    pub provider: AuthProvider,
    /// The subject at the external provider.
    pub provider_sub: Option<String>,
    pub active: bool,
    pub created_at: i64,
    pub last_login: Option<i64>,
}

impl User {
    /// Whether the user signs in with a local password.
    pub fn is_local(&self) -> (r: bool)
        ensures
            r == (self.provider == AuthProvider::Local),
    {
        matches!(self.provider, AuthProvider::Local)
    }
}

} // verus!
