use maranode::error::MaranodeError;
use maranode::paths::{default_data_dir, default_models_dir, default_unix_socket};
use maranode::records::{BreakGlassCred, HoldRecord, IncidentPhase, IncidentState, User, Workspace};
use maranode::types::AirGapMode;
use maranode::user::{AuthProvider, Role};

fn hold(released: bool, expires: Option<i64>) -> HoldRecord {
    HoldRecord {
        id: "h1".to_string(),
        placed_at: 0,
        placed_by: "admin".to_string(),
        reason: "litigation".to_string(),
        seq_from: 10,
        seq_to: 20,
        expires_at: expires,
        hold_key_pubkey: String::new(),
        placement_sig: String::new(),
        released_at: if released { Some(5) } else { None },
        released_by: None,
        release_sig: None,
        tpm_sealed: false,
    }
}

#[test]
fn holds_cover_their_range_while_active() {
    let h = hold(false, None);
    assert!(h.is_active(100));
    assert!(h.covers_seq(10, 100));
    assert!(h.covers_seq(20, 100));
    assert!(!h.covers_seq(21, 100));
    assert!(!hold(true, None).covers_seq(15, 100));
    let exp = hold(false, Some(50));
    assert!(exp.covers_seq(15, 49));
    assert!(!exp.covers_seq(15, 50));
}

#[test]
fn incidents_start_frozen() {
    let i = IncidentState::new("i1".to_string(), "alice".to_string(), "breach".to_string(), vec![], 7);
    assert_eq!(i.phase, IncidentPhase::Declared);
    assert!(i.audit_frozen);
    assert_eq!(i.phase_log.len(), 1);
    assert_eq!(i.phase_log[0].note.as_deref(), Some("breach"));
    assert_eq!(IncidentPhase::Investigating.as_str(), "investigating");
    let c = BreakGlassCred { id: "c".to_string(), purpose: "p".to_string(), token_hash: String::new(), created_at: 0, used_at: Some(3), used_by: None };
    assert!(c.is_used());
}

#[test]
fn workspaces_and_users() {
    let mut w = Workspace {
        id: 1, slug: "acme".to_string(), name: "Acme".to_string(), api_key_hash: None, model_allowlist: vec![],
        rate_limit_rpm: None, system_prompt: None, created_at: 0, net_namespace: false,
        max_concurrent_requests: None, max_models: None, max_memory_bytes: None, dek: None,
    };
    assert!(w.allows_model("anything:1"));
    w.model_allowlist = vec!["llama3:8b".to_string()];
    assert!(w.allows_model("llama3:8b"));
    assert!(!w.allows_model("llama3:70b"));
    let u = User {
        id: 2, username: "bob".to_string(), email: None, password_hash: None, role: Role::Viewer,
        provider: AuthProvider::Oidc, provider_sub: None, active: true, created_at: 0, last_login: None,
    };
    assert!(!u.is_local());
}

#[test]
fn default_paths() {
    assert_eq!(default_models_dir(Some("/m")), "/m");
    assert_eq!(default_models_dir(None), "models");
    assert_eq!(default_data_dir(None, Some("/home/u")), "/home/u/.local/share/maranode");
    assert_eq!(default_data_dir(None, None), ".maranode-data");
    assert_eq!(default_unix_socket(true, "/d"), Some("/run/maranode/api.sock".to_string()));
    assert_eq!(default_unix_socket(false, "/d"), Some("/d/api.sock".to_string()));
    assert_eq!(AirGapMode::default(), AirGapMode::AirGap);
}

#[test]
fn error_messages() {
    assert_eq!(MaranodeError::ModelNotFound("x:1".to_string()).message(), "Model not found: x:1");
    assert_eq!(
        MaranodeError::AuditIntegrityViolation { seq: 9, detail: "hmac mismatch".to_string() }.message(),
        "Audit log integrity violation at sequence 9: hmac mismatch"
    );
    assert_eq!(MaranodeError::AirGapViolation.message(), "Air-gap mode is active: outbound network access is not allowed");
    assert_eq!(MaranodeError::Other("boom".to_string()).message(), "boom");
}
