//! Constant-time comparison of secrets and validation of SHA-256 hex digests.

use vstd::prelude::*;
use subtle::ConstantTimeEq;
use vstd::string::StringSliceAdditionalSpecFns;

verus! {

/// Equality of two byte slices computed by `subtle::ConstantTimeEq` on `[u8]`.
/// The contract claims that the returned flag is exactly slice equality: the
/// crate returns a zero `Choice` on a length mismatch and otherwise folds the
/// per-byte comparisons.
#[verifier::external_body]
fn subtle_slices_equal(a: &[u8], b: &[u8]) -> (r: bool)
    ensures
        r == (a@ == b@),
{
    a.ct_eq(b).into()
}

/// Compares two byte slices without a data-dependent early exit on contents.
pub fn ct_eq(a: &[u8], b: &[u8]) -> (r: bool)
    ensures
        r == (a@ == b@),
{
    if a.len() != b.len() {
        return false;
    }
    subtle_slices_equal(a, b)
}

/// Compares two secret strings (API keys, tokens, HMAC hex) in constant time.
pub fn ct_eq_str(a: &str, b: &str) -> (r: bool)
    ensures
        r == (a@ == b@),
{
    let r = ct_eq(a.as_bytes(), b.as_bytes());
    proof {
        if r {
            vstd::utf8::encode_utf8_decode_utf8(a@);
            vstd::utf8::encode_utf8_decode_utf8(b@);
        }
    }
    r
}

/// A lowercase hexadecimal digit: `0-9` or `a-f`.
pub open spec fn is_lower_hex_byte(b: u8) -> bool {
    (48 <= b <= 57) || (97 <= b <= 102)
}

/// Exactly 64 bytes, each a lowercase hexadecimal digit.
pub open spec fn spec_is_sha256_hex(bytes: Seq<u8>) -> bool {
    bytes.len() == 64 && forall|i: int| 0 <= i < bytes.len() ==> is_lower_hex_byte(#[trigger] bytes[i])
}

/// Accepts exactly the 64-character lowercase hex encodings of a SHA-256 digest.
pub fn is_sha256_hex(s: &str) -> (r: bool)
    ensures
        r == spec_is_sha256_hex(s.spec_bytes()),
{
    let bytes = s.as_bytes();
    if bytes.len() != 64 {
        return false;
    }
    let mut i: usize = 0;
    while i < bytes.len()
        invariant
            bytes@ == s.spec_bytes(),
            bytes@.len() == 64,
            0 <= i <= bytes@.len(),
            forall|j: int| 0 <= j < i ==> is_lower_hex_byte(#[trigger] bytes@[j]),
        decreases bytes@.len() - i,
    {
        let b = bytes[i];
        if !((b >= 48 && b <= 57) || (b >= 97 && b <= 102)) {
            return false;
        }
        i = i + 1;
    }
    true
}

} // verus!
