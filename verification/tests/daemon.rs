use maranode::daemon::{approval_block_reason, approval_expired, approval_token_path, approval_tokens_dir, check_admin,
    iptables_fingerprint, probe_isolated, probe_targets, AdminDenied, ProbeResult};
use maranode::daemon::{check_approval_token, ApprovalCheckError};
use maranode::signing::{sign_payload_b64, signer_pubkey_b64, SignatureCheckError};
use maranode::daemon::{audit_key_plan, check_unsealed_kek, kek_plan, pcr_selection, KeyPlan};

#[test]
fn admin_access_needs_the_configured_key() {
    assert_eq!(check_admin(None, Some("Bearer k"), None), Err(AdminDenied::NotConfigured));
    assert_eq!(check_admin(Some(""), Some("Bearer "), None), Err(AdminDenied::WrongKey));
    assert_eq!(check_admin(Some("s3cret"), Some("Bearer s3cret"), None), Ok(()));
    assert_eq!(check_admin(Some("s3cret"), None, Some("s3cret")), Ok(()));
    assert_eq!(check_admin(Some("s3cret"), Some("Basic s3cret"), Some("s3cret")), Ok(()));
    assert_eq!(check_admin(Some("s3cret"), Some("Bearer wrong"), Some("s3cret")), Err(AdminDenied::WrongKey));
    assert_eq!(check_admin(Some("s3cret"), None, None), Err(AdminDenied::WrongKey));
    assert_eq!(AdminDenied::WrongKey.message(), "admin key required");
}

#[test]
fn probing_verdicts() {
    assert_eq!(probe_targets().len(), 3);
    let blocked = vec![ProbeResult { host: "1.1.1.1".to_string(), port: 53, reachable: false }];
    assert!(probe_isolated(&blocked));
    let open = vec![
        ProbeResult { host: "1.1.1.1".to_string(), port: 53, reachable: false },
        ProbeResult { host: "8.8.8.8".to_string(), port: 53, reachable: true },
    ];
    assert!(!probe_isolated(&open));
    assert_eq!(iptables_fingerprint(None), "");
    assert_eq!(iptables_fingerprint(Some(b"abc")), "ba7816bf8f01cfea414140de5dae2223b00361a396177a9cb410ff61f20015ad");
}

#[test]
fn approval_decisions() {
    let sha = "0123456789abcdef0123456789abcdef0123456789abcdef0123456789abcdef";
    assert_eq!(approval_block_reason(sha, false, Ok(())), Some("no approval token for sha256 0123456789ab".to_string()));
    assert_eq!(approval_block_reason(sha, true, Ok(())), None);
    assert_eq!(
        approval_block_reason(sha, true, Err("expired".to_string())),
        Some("approval token invalid: expired".to_string())
    );
    assert!(approval_expired(Some(10), 11));
    assert!(!approval_expired(Some(10), 10));
    assert!(!approval_expired(None, 99));
    assert_eq!(approval_tokens_dir(None, "/data"), "/data/approval-tokens");
    assert_eq!(approval_tokens_dir(Some("/t"), "/data"), "/t");
    assert_eq!(approval_token_path("/t", "ab"), "/t/ab.mrn-token");
}

#[test]
fn approval_tokens_check_signature_then_expiry() {
    let secret = [3u8; 32];
    let pk = signer_pubkey_b64(&secret);
    let payload = b"{\"token_id\":\"t\"}";
    let sig = sign_payload_b64(&secret, payload);
    assert_eq!(check_approval_token(&pk, &sig, payload, None, 10), Ok(()));
    assert_eq!(check_approval_token(&pk, &sig, payload, Some(10), 10), Ok(()));
    assert_eq!(check_approval_token(&pk, &sig, payload, Some(10), 11), Err(ApprovalCheckError::Expired));
    assert_eq!(
        check_approval_token(&pk, &sig, b"{\"token_id\":\"u\"}", Some(10), 11),
        Err(ApprovalCheckError::Signature(SignatureCheckError::SignatureInvalid))
    );
}

#[test]
fn key_plans_follow_tpm_and_seal_state() {
    assert_eq!(kek_plan(false, true), KeyPlan::PlainFile);
    assert_eq!(kek_plan(true, true), KeyPlan::Unseal);
    assert_eq!(kek_plan(true, false), KeyPlan::CreateAndSeal);
    let purposes = vec!["workspace-kek".to_string(), "audit-hmac".to_string()];
    assert_eq!(audit_key_plan(true, &purposes, false), KeyPlan::CreateAndSeal);
    assert_eq!(audit_key_plan(true, &purposes[..1], true), KeyPlan::PlainFile);
    assert_eq!(audit_key_plan(false, &purposes, true), KeyPlan::PlainFile);
    assert_eq!(pcr_selection("0,2,4,7"), "sha256:0,2,4,7");
    assert_eq!(check_unsealed_kek(vec![1; 32]), Ok(vec![1; 32]));
    assert_eq!(check_unsealed_kek(vec![1; 16]).err().unwrap(), "unsealed workspace-kek is 16 bytes, expected 32");
}
