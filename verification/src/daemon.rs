//! Daemon-side decisions: admin access, egress probing, and whether a model
//! may be loaded.

use vstd::prelude::*;
use crate::secure::ct_eq_str;
use crate::digest::{sha256, hex_encode, spec_sha256, spec_hex};
use crate::signing::{SignatureCheckError, spec_check_signature, verify_signed_payload};
use crate::text::{chars_of, string_of, starts_with_chars, spec_starts_with, append_str, join_path, spec_join_path, concat2,
    str_eq, append_decimal, spec_decimal};

verus! {

/// Why an admin request was refused.
#[derive(Debug, Clone, Copy, PartialEq, Eq, Structural)]
pub enum AdminDenied {
    /// No admin key is configured.
    NotConfigured,
    /// The configured key is empty, or the request carried another key.
    WrongKey,
}

impl AdminDenied {
    /// The message returned with the refusal.
    pub fn message(&self) -> (r: &'static str)
        ensures
            r@ == match *self {
                AdminDenied::NotConfigured => "admin key required: set auth.admin_key before using admin endpoints"@,
                AdminDenied::WrongKey => "admin key required"@,
            },
    {
        match self {
            AdminDenied::NotConfigured => "admin key required: set auth.admin_key before using admin endpoints",
            AdminDenied::WrongKey => "admin key required",
        }
    }
}

/// The key a request presents: the bearer token of its `Authorization`
/// header, else its `X-Api-Key` header, else nothing.
pub open spec fn presented_key(authorization: Option<Seq<char>>, x_api_key: Option<Seq<char>>) -> Seq<char> {
    match authorization {
        Some(a) if spec_starts_with(a, "Bearer "@) => a.skip(7),
        _ => match x_api_key {
            Some(k) => k,
            None => Seq::empty(),
        },
    }
}

/// The verdict on an admin request.
pub open spec fn spec_check_admin(admin_key: Option<Seq<char>>, authorization: Option<Seq<char>>, x_api_key: Option<Seq<char>>) -> Result<(), AdminDenied> {
    match admin_key {
        None => Err(AdminDenied::NotConfigured),
        Some(k) => if k.len() == 0 {
            Err(AdminDenied::WrongKey)
        } else if presented_key(authorization, x_api_key) != k {
            Err(AdminDenied::WrongKey)
        } else {
            Ok(())
        },
    }
}

/// Admits an admin request only when an admin key is configured, is not
/// empty, and equals (compared in constant time) the key the request
/// presents. Headers that are not valid text are passed as absent.
pub fn check_admin(admin_key: Option<&str>, authorization: Option<&str>, x_api_key: Option<&str>) -> (r: Result<(), AdminDenied>)
    ensures
        r == spec_check_admin(
            match admin_key { Some(k) => Some(k@), None => None },
            match authorization { Some(a) => Some(a@), None => None },
            match x_api_key { Some(x) => Some(x@), None => None },
        ),
{
    let key = match admin_key {
        None => return Err(AdminDenied::NotConfigured),
        Some(k) => k,
    };
    if key.unicode_len() == 0 {
        return Err(AdminDenied::WrongKey);
    }
    let from_bearer: Option<String> = match authorization {
        Some(a) => {
            let cs = chars_of(a);
            let prefix = chars_of("Bearer ");
            if starts_with_chars(cs.as_slice(), prefix.as_slice()) {
                proof { reveal_strlit("Bearer "); }
                let rest = string_of(&cs.as_slice()[7..cs.len()]);
                proof { assert(cs@.subrange(7, cs@.len() as int) =~= a@.skip(7)); }
                Some(rest)
            } else {
                None
            }
        },
        None => None,
    };
    let provided: String = match from_bearer {
        Some(p) => p,
        None => match x_api_key {
            Some(x) => x.to_owned(),
            None => String::new(),
        },
    };
    if !ct_eq_str(provided.as_str(), key) {
        return Err(AdminDenied::WrongKey);
    }
    Ok(())
}

/// An admin request is admitted exactly when it presents the configured,
/// non-empty key.
pub proof fn lemma_admin_needs_the_key(admin_key: Option<Seq<char>>, authorization: Option<Seq<char>>, x_api_key: Option<Seq<char>>)
    ensures
        spec_check_admin(admin_key, authorization, x_api_key) is Ok <==> (admin_key matches Some(k)
            && k.len() > 0 && presented_key(authorization, x_api_key) == k),
{
}

/// One egress probe: whether a host and port could be reached.
#[derive(Debug, Clone)]
pub struct ProbeResult {
    pub host: String,
    pub port: u16,
    pub reachable: bool,
}

/// The hosts the daemon tries to reach; reaching any means egress is open.
pub fn probe_targets() -> (r: Vec<(&'static str, u16)>)
    ensures
        r@.len() == 3,
        r@[0].0@ == "1.1.1.1"@ && r@[0].1 == 53,
        r@[1].0@ == "8.8.8.8"@ && r@[1].1 == 53,
        r@[2].0@ == "93.184.216.34"@ && r@[2].1 == 80,
{
    vec![("1.1.1.1", 53), ("8.8.8.8", 53), ("93.184.216.34", 80)]
}

/// The machine is isolated when no probe reached its target.
pub fn probe_isolated(results: &[ProbeResult]) -> (r: bool)
    ensures
        r == forall|i: int| 0 <= i < results@.len() ==> !(#[trigger] results@[i]).reachable,
{
    let mut i: usize = 0;
    while i < results.len()
        invariant
            0 <= i <= results@.len(),
            forall|j: int| 0 <= j < i ==> !(#[trigger] results@[j]).reachable,
        decreases results@.len() - i,
    {
        if results[i].reachable {
            return false;
        }
        i = i + 1;
    }
    true
}

/// The fingerprint of the firewall recorded with a probe: the lowercase hex
/// SHA-256 of the `iptables-save` output, or empty when it could not be had.
pub fn iptables_fingerprint(iptables_save_stdout: Option<&[u8]>) -> (r: String)
    ensures
        r@ == match iptables_save_stdout {
            Some(out) => spec_hex(spec_sha256(out@)),
            None => Seq::empty(),
        },
{
    match iptables_save_stdout {
        Some(out) => {
            let d = sha256(out);
            hex_encode(d.as_slice())
        },
        None => String::new(),
    }
}

/// Where approval tokens are looked for: the configured directory, or
/// `approval-tokens` under the data directory.
pub fn approval_tokens_dir(configured: Option<&str>, data_dir: &str) -> (r: String)
    ensures
        r@ == match configured {
            Some(d) => d@,
            None => spec_join_path(data_dir@, "approval-tokens"@),
        },
{
    match configured {
        Some(d) => d.to_owned(),
        None => join_path(data_dir, "approval-tokens"),
    }
}

/// The file holding the approval token of the model with a given digest.
pub fn approval_token_path(tokens_dir: &str, model_sha256: &str) -> (r: String)
    ensures
        r@ == spec_join_path(tokens_dir@, model_sha256@ + ".mrn-token"@),
{
    let name = concat2(model_sha256, ".mrn-token");
    join_path(tokens_dir, name.as_str())
}

/// Why a model whose approval is required may not be loaded, if it may not:
/// its token is missing (named by the first twelve characters of its digest),
/// or does not check out.
pub fn approval_block_reason(model_sha256: &str, token_found: bool, token_check: Result<(), String>) -> (r: Option<String>)
    requires
        model_sha256@.len() >= 12,
    ensures
        !token_found ==> (r matches Some(m) && m@ == "no approval token for sha256 "@ + model_sha256@.take(12)),
        token_found && token_check is Ok ==> r is None,
        token_found ==> (token_check matches Err(e) ==> (r matches Some(m) && m@ == "approval token invalid: "@ + e@)),
{
    if !token_found {
        let cs = chars_of(model_sha256);
        let head = string_of(&cs.as_slice()[0..12]);
        let mut m = String::new();
        append_str(&mut m, "no approval token for sha256 ");
        append_str(&mut m, head.as_str());
        proof { assert(cs@.subrange(0, 12) =~= model_sha256@.take(12)); }
        Some(m)
    } else {
        match token_check {
            Ok(()) => None,
            Err(e) => {
                let mut m = String::new();
                append_str(&mut m, "approval token invalid: ");
                append_str(&mut m, e.as_str());
                Some(m)
            },
        }
    }
}

/// Whether an approval that expires at `expires_at` (milliseconds since the
/// epoch) has expired at `now`: only strictly after the expiry instant.
pub fn approval_expired(expires_at: Option<i64>, now: i64) -> (r: bool)
    ensures
        r == match expires_at {
            Some(e) => now > e,
            None => false,
        },
{
    match expires_at {
        Some(e) => now > e,
        None => false,
    }
}

/// Why an approval token is refused.
#[derive(Debug, Clone, Copy, PartialEq, Eq, Structural)]
pub enum ApprovalCheckError {
    /// Its signature does not hold.
    Signature(SignatureCheckError),
    /// It verifies but has expired.
    Expired,
}

/// The verdict on an approval token: its signature over the payload first,
/// then its expiry.
pub open spec fn spec_check_approval(signer_pubkey_b64: Seq<char>, signature_b64: Seq<char>, payload: Seq<u8>,
    expires_at: Option<i64>, now: i64) -> Result<(), ApprovalCheckError> {
    match spec_check_signature(signer_pubkey_b64, signature_b64, payload) {
        Err(e) => Err(ApprovalCheckError::Signature(e)),
        Ok(()) => match expires_at {
            Some(e) => if now > e { Err(ApprovalCheckError::Expired) } else { Ok(()) },
            None => Ok(()),
        },
    }
}

/// Checks an approval token given the bytes of its signed payload: the
/// signature under the recorded signer key, then that it has not expired.
pub fn check_approval_token(signer_pubkey_b64: &str, signature_b64: &str, payload: &[u8],
    expires_at: Option<i64>, now: i64) -> (r: Result<(), ApprovalCheckError>)
    ensures
        r == spec_check_approval(signer_pubkey_b64@, signature_b64@, payload@, expires_at, now),
{
    match verify_signed_payload(signer_pubkey_b64, signature_b64, payload) {
        Err(e) => Err(ApprovalCheckError::Signature(e)),
        Ok(()) => if approval_expired(expires_at, now) { Err(ApprovalCheckError::Expired) } else { Ok(()) },
    }
}

/// How the daemon obtains a key at start-up.
#[derive(Debug, Clone, Copy, PartialEq, Eq, Structural)]
pub enum KeyPlan {
    /// Read (or create) the plain key file; the TPM is not involved.
    PlainFile,
    /// Unseal the key that an earlier run sealed.
    Unseal,
    /// First run under the TPM: read or create the plain key, then seal it.
    CreateAndSeal,
}

/// The plan for a key whose sealing is on exactly when `sealing_on`.
pub open spec fn spec_key_plan(sealing_on: bool, sealed: bool) -> KeyPlan {
    if !sealing_on {
        KeyPlan::PlainFile
    } else if sealed {
        KeyPlan::Unseal
    } else {
        KeyPlan::CreateAndSeal
    }
}

/// The plan for the master workspace key: sealing follows the TPM switch.
pub fn kek_plan(tpm_enabled: bool, sealed: bool) -> (r: KeyPlan)
    ensures
        r == spec_key_plan(tpm_enabled, sealed),
{
    if !tpm_enabled {
        KeyPlan::PlainFile
    } else if sealed {
        KeyPlan::Unseal
    } else {
        KeyPlan::CreateAndSeal
    }
}

/// The plan for the audit HMAC key: sealed only when the TPM is on and
/// `audit-hmac` is among the purposes to seal.
pub fn audit_key_plan(tpm_enabled: bool, seal_purposes: &[String], sealed: bool) -> (r: KeyPlan)
    ensures
        r == spec_key_plan(tpm_enabled && seal_purposes@.map_values(|p: String| p@).contains("audit-hmac"@), sealed),
{
    let ghost views = seal_purposes@.map_values(|p: String| p@);
    let mut listed = false;
    let mut i: usize = 0;
    while i < seal_purposes.len()
        invariant
            0 <= i <= seal_purposes@.len(),
            views == seal_purposes@.map_values(|p: String| p@),
            listed <==> views.take(i as int).contains("audit-hmac"@),
        decreases seal_purposes@.len() - i,
    {
        let hit = str_eq(seal_purposes[i].as_str(), "audit-hmac");
        proof {
            assert(views.take(i + 1) =~= views.take(i as int).push(views[i as int]));
            if hit {
                assert(views.take(i + 1)[i as int] == "audit-hmac"@);
            }
            if views.take(i + 1).contains("audit-hmac"@) && !hit {
                let j = choose|j: int| 0 <= j < views.take(i + 1).len() && #[trigger] views.take(i + 1)[j] == "audit-hmac"@;
                assert(j < i);
                assert(views.take(i as int)[j] == "audit-hmac"@);
            }
        }
        listed = listed || hit;
        i = i + 1;
    }
    proof {
        assert(views.take(seal_purposes@.len() as int) =~= views);
    }
    kek_plan(tpm_enabled && listed, sealed)
}

/// The PCR selection handed to sealing: the configured indices under SHA-256.
pub fn pcr_selection(pcr_indices: &str) -> (r: String)
    ensures
        r@ == "sha256:"@ + pcr_indices@,
{
    concat2("sha256:", pcr_indices)
}

/// An unsealed master key must be exactly 32 bytes.
pub fn check_unsealed_kek(bytes: Vec<u8>) -> (r: Result<Vec<u8>, String>)
    ensures
        bytes@.len() == 32 ==> r == Ok::<Vec<u8>, String>(bytes),
        bytes@.len() != 32 ==> (r matches Err(m) && m@ == "unsealed workspace-kek is "@
            + spec_decimal(bytes@.len()) + " bytes, expected 32"@),
{
    if bytes.len() == 32 {
        Ok(bytes)
    } else {
        let mut m = String::new();
        append_str(&mut m, "unsealed workspace-kek is ");
        append_decimal(&mut m, bytes.len() as u64);
        append_str(&mut m, " bytes, expected 32");
        Err(m)
    }
}

} // verus!
