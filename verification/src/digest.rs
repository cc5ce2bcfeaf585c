//! SHA-256 digests and their lowercase hexadecimal text.

use vstd::prelude::*;
use vstd::string::StringSliceAdditionalSpecFns;
use vstd::utf8::{encode_utf8, is_ascii_chars, is_ascii_chars_encode_utf8};
use crate::text::push_char;
use crate::secure::{spec_is_sha256_hex, is_lower_hex_byte};

verus! {

/// The SHA-256 digest of a byte sequence, as `sha2::Sha256` computes it.
pub uninterp spec fn spec_sha256(data: Seq<u8>) -> Seq<u8>;

/// Calls `sha2::Sha256::digest`. The contract names the 32-byte result by
/// `spec_sha256`, a function of the input bytes alone.
#[verifier::external_body]
pub(crate) fn sha256(data: &[u8]) -> (r: Vec<u8>)
    ensures
        r@ == spec_sha256(data@),
        r@.len() == 32,
{
    <sha2::Sha256 as sha2::Digest>::digest(data).to_vec()
}

/// The lowercase hexadecimal digit for `n < 16`.
pub open spec fn hex_digit(n: int) -> char {
    if n == 0 { '0' } else if n == 1 { '1' } else if n == 2 { '2' } else if n == 3 { '3' }
    else if n == 4 { '4' } else if n == 5 { '5' } else if n == 6 { '6' } else if n == 7 { '7' }
    else if n == 8 { '8' } else if n == 9 { '9' } else if n == 10 { 'a' } else if n == 11 { 'b' }
    else if n == 12 { 'c' } else if n == 13 { 'd' } else if n == 14 { 'e' } else { 'f' }
}

/// One of the sixteen lowercase hexadecimal digit characters.
pub open spec fn is_hex_digit_char(c: char) -> bool {
    exists|n: int| 0 <= n < 16 && hex_digit(n) == c
}

/// Two lowercase hexadecimal digits per byte, high nibble first.
pub open spec fn spec_hex(bytes: Seq<u8>) -> Seq<char>
    decreases bytes.len(),
{
    if bytes.len() == 0 {
        Seq::empty()
    } else {
        let b = bytes.last();
        spec_hex(bytes.drop_last()) + seq![hex_digit(b as int / 16), hex_digit(b as int % 16)]
    }
}

fn hex_char(n: u8) -> (c: char)
    requires
        n < 16,
    ensures
        c == hex_digit(n as int),
{
    if n == 0 { '0' } else if n == 1 { '1' } else if n == 2 { '2' } else if n == 3 { '3' }
    else if n == 4 { '4' } else if n == 5 { '5' } else if n == 6 { '6' } else if n == 7 { '7' }
    else if n == 8 { '8' } else if n == 9 { '9' } else if n == 10 { 'a' } else if n == 11 { 'b' }
    else if n == 12 { 'c' } else if n == 13 { 'd' } else if n == 14 { 'e' } else { 'f' }
}

/// Lowercase hexadecimal text of a byte sequence, as `hex::encode` gives it.
pub fn hex_encode(bytes: &[u8]) -> (r: String)
    ensures
        r@ == spec_hex(bytes@),
{
    let mut r = String::new();
    let mut i: usize = 0;
    while i < bytes.len()
        invariant
            0 <= i <= bytes@.len(),
            r@ == spec_hex(bytes@.take(i as int)),
        decreases bytes@.len() - i,
    {
        let b = bytes[i];
        push_char(&mut r, hex_char(b / 16));
        push_char(&mut r, hex_char(b % 16));
        assert(bytes@.take(i + 1).drop_last() =~= bytes@.take(i as int));
        i = i + 1;
    }
    assert(bytes@.take(bytes@.len() as int) =~= bytes@);
    r
}

/// The hex text has two digits per byte, each a lowercase hexadecimal digit.
pub proof fn lemma_hex_shape(bytes: Seq<u8>)
    ensures
        spec_hex(bytes).len() == 2 * bytes.len(),
        forall|i: int| 0 <= i < spec_hex(bytes).len() ==> is_hex_digit_char(#[trigger] spec_hex(bytes)[i]),
    decreases bytes.len(),
{
    if bytes.len() > 0 {
        lemma_hex_shape(bytes.drop_last());
        let b = bytes.last();
        let prev = spec_hex(bytes.drop_last());
        let s = spec_hex(bytes);
        assert forall|i: int| 0 <= i < s.len() implies is_hex_digit_char(#[trigger] s[i]) by {
            if i < prev.len() {
                assert(s[i] == prev[i]);
            } else if i == prev.len() {
                assert(s[i] == hex_digit(b as int / 16));
                assert(0 <= b as int / 16 < 16);
            } else {
                assert(s[i] == hex_digit(b as int % 16));
                assert(0 <= b as int % 16 < 16);
            }
        }
    }
}

/// The value of one hexadecimal digit byte, either case.
pub open spec fn spec_hex_val(b: u8) -> Option<u8> {
    if 0x30 <= b <= 0x39 {
        Some((b - 0x30) as u8)
    } else if 0x61 <= b <= 0x66 {
        Some((b - 0x61 + 10) as u8)
    } else if 0x41 <= b <= 0x46 {
        Some((b - 0x41 + 10) as u8)
    } else {
        None
    }
}

/// Why hexadecimal text does not decode.
#[derive(Debug, Clone, Copy, PartialEq, Eq, Structural)]
pub enum HexError {
    /// The text has an odd number of bytes.
    OddLength,
    /// The byte at `index` is not a hexadecimal digit.
    InvalidByte { byte: u8, index: usize },
}

/// The first index from `from` on whose byte is not a hexadecimal digit.
pub open spec fn first_non_hex(s: Seq<u8>, from: int) -> Option<int>
    decreases s.len() - from,
{
    if from < 0 || from >= s.len() {
        None
    } else if spec_hex_val(s[from]) is None {
        Some(from)
    } else {
        first_non_hex(s, from + 1)
    }
}

/// Hexadecimal text decoded as `hex::decode` does: an odd length is refused
/// first, then the first byte that is not a digit (either case); else each
/// pair of digits, high nibble first, gives one byte.
pub open spec fn spec_hex_decode(s: Seq<u8>) -> Result<Seq<u8>, HexError> {
    if s.len() % 2 != 0 {
        Err(HexError::OddLength)
    } else {
        match first_non_hex(s, 0) {
            Some(i) => Err(HexError::InvalidByte { byte: s[i], index: i as usize }),
            None => Ok(Seq::new(s.len() / 2, |k: int|
                (spec_hex_val(s[2 * k])->0 * 16 + spec_hex_val(s[2 * k + 1])->0) as u8)),
        }
    }
}

fn hex_val(b: u8) -> (r: Option<u8>)
    ensures
        r == spec_hex_val(b),
        r matches Some(v) ==> v < 16,
{
    if 0x30 <= b && b <= 0x39 {
        Some(b - 0x30)
    } else if 0x61 <= b && b <= 0x66 {
        Some(b - 0x61 + 10)
    } else if 0x41 <= b && b <= 0x46 {
        Some(b - 0x41 + 10)
    } else {
        None
    }
}

/// Decodes hexadecimal text into bytes.
pub fn hex_decode(s: &[u8]) -> (r: Result<Vec<u8>, HexError>)
    ensures
        match r {
            Ok(v) => spec_hex_decode(s@) == Ok::<Seq<u8>, HexError>(v@),
            Err(e) => spec_hex_decode(s@) == Err::<Seq<u8>, HexError>(e),
        },
{
    let n = s.len();
    if n % 2 != 0 {
        return Err(HexError::OddLength);
    }
    let mut out: Vec<u8> = Vec::new();
    let mut i: usize = 0;
    while i < n
        invariant
            n == s@.len(),
            n % 2 == 0,
            i % 2 == 0,
            0 <= i <= n,
            forall|j: int| 0 <= j < i ==> spec_hex_val(#[trigger] s@[j]) is Some,
            out@.len() == i / 2,
            forall|k: int| 0 <= k < i / 2 ==> #[trigger] out@[k]
                == (spec_hex_val(s@[2 * k])->0 * 16 + spec_hex_val(s@[2 * k + 1])->0) as u8,
            first_non_hex(s@, 0) == first_non_hex(s@, i as int),
        decreases n - i,
    {
        let hi = hex_val(s[i]);
        match hi {
            None => {
                return Err(HexError::InvalidByte { byte: s[i], index: i });
            },
            Some(h) => {
                proof {
                    assert(first_non_hex(s@, i as int) == first_non_hex(s@, i + 1));
                }
                let lo = hex_val(s[i + 1]);
                match lo {
                    None => {
                        return Err(HexError::InvalidByte { byte: s[i + 1], index: i + 1 });
                    },
                    Some(l) => {
                        proof {
                            assert(first_non_hex(s@, i + 1) == first_non_hex(s@, i + 2));
                        }
                        out.push(h * 16 + l);
                        i = i + 2;
                    },
                }
            },
        }
    }
    proof {
        assert(first_non_hex(s@, n as int) is None);
        assert(out@ =~= Seq::new(n as nat / 2, |k: int|
            (spec_hex_val(s@[2 * k])->0 * 16 + spec_hex_val(s@[2 * k + 1])->0) as u8));
    }
    Ok(out)
}

proof fn lemma_hex_pairs(bytes: Seq<u8>)
    ensures
        forall|k: int| 0 <= k < bytes.len() ==> spec_hex(bytes)[2 * k] == hex_digit(#[trigger] bytes[k] as int / 16)
            && spec_hex(bytes)[2 * k + 1] == hex_digit(bytes[k] as int % 16),
    decreases bytes.len(),
{
    if bytes.len() > 0 {
        lemma_hex_shape(bytes.drop_last());
        lemma_hex_pairs(bytes.drop_last());
        let prev = bytes.drop_last();
        assert forall|k: int| 0 <= k < bytes.len() implies spec_hex(bytes)[2 * k] == hex_digit(#[trigger] bytes[k] as int / 16)
            && spec_hex(bytes)[2 * k + 1] == hex_digit(bytes[k] as int % 16) by {
            if k < prev.len() {
                assert(prev[k] == bytes[k]);
            }
        }
    }
}

proof fn lemma_hex_digit_val(n: int)
    requires
        0 <= n < 16,
    ensures
        '\0' <= hex_digit(n) <= '\u{7f}',
        spec_hex_val(hex_digit(n) as u8) == Some(n as u8),
{
}

/// Decoding the hexadecimal text of a byte sequence gives the bytes back.
pub proof fn lemma_hex_decode_inverts_encode(bytes: Seq<u8>)
    ensures
        spec_hex_decode(encode_utf8(spec_hex(bytes))) == Ok::<Seq<u8>, HexError>(bytes),
{
    let h = spec_hex(bytes);
    lemma_hex_shape(bytes);
    lemma_hex_pairs(bytes);
    assert forall|i: int| 0 <= i < h.len() implies '\0' <= #[trigger] h[i] <= '\u{7f}'
        && spec_hex_val(h[i] as u8) is Some by {
        let k = i / 2;
        assert(0 <= k < bytes.len());
        if i % 2 == 0 {
            assert(i == 2 * k);
            lemma_hex_digit_val(bytes[k] as int / 16);
        } else {
            assert(i == 2 * k + 1);
            lemma_hex_digit_val(bytes[k] as int % 16);
        }
    }
    assert(is_ascii_chars(h));
    is_ascii_chars_encode_utf8(h);
    let e = encode_utf8(h);
    assert forall|j: int| 0 <= j < e.len() implies spec_hex_val(#[trigger] e[j]) is Some by {
        assert(h[j] as u8 == e[j]);
    }
    lemma_all_hex_first_non_hex(e, 0);
    assert forall|k: int| 0 <= k < bytes.len() implies
        (spec_hex_val(e[2 * k])->0 * 16 + spec_hex_val(e[2 * k + 1])->0) as u8 == #[trigger] bytes[k] by {
        assert(h[2 * k] as u8 == e[2 * k]);
        assert(h[2 * k + 1] as u8 == e[2 * k + 1]);
        lemma_hex_digit_val(bytes[k] as int / 16);
        lemma_hex_digit_val(bytes[k] as int % 16);
    }
    assert(Seq::new(e.len() / 2, |k: int| (spec_hex_val(e[2 * k])->0 * 16 + spec_hex_val(e[2 * k + 1])->0) as u8)
        =~= bytes);
}

proof fn lemma_all_hex_first_non_hex(s: Seq<u8>, from: int)
    requires
        0 <= from <= s.len(),
        forall|j: int| 0 <= j < s.len() ==> spec_hex_val(#[trigger] s[j]) is Some,
    ensures
        first_non_hex(s, from) is None,
    decreases s.len() - from,
{
    if from < s.len() {
        lemma_all_hex_first_non_hex(s, from + 1);
    }
}

/// SHA-256 of the UTF-8 bytes of `text`, as lowercase hex.
pub open spec fn spec_text_sha256(text: Seq<char>) -> Seq<char> {
    spec_hex(spec_sha256(vstd::utf8::encode_utf8(text)))
}

/// Lowercase hex SHA-256 of a text's UTF-8 bytes: the digest compared
/// against the expected hashes of baseline vectors.
pub fn output_sha256(text: &str) -> (r: String)
    ensures
        r@ == spec_text_sha256(text@),
        spec_is_sha256_hex(vstd::utf8::encode_utf8(r@)),
{
    let d = sha256(text.as_bytes());
    proof { lemma_digest_hex_is_sha256_hex(d@); }
    hex_encode(d.as_slice())
}

/// Lowercase hex SHA-256 of an inference output, recorded in receipts as `output_sha256`.
pub fn hash_output(text: &str) -> (r: String)
    ensures
        r@ == spec_text_sha256(text@),
        spec_is_sha256_hex(vstd::utf8::encode_utf8(r@)),
{
    output_sha256(text)
}

/// The concatenation of byte parts, in order.
pub open spec fn concat_parts(parts: Seq<Vec<u8>>) -> Seq<u8>
    decreases parts.len(),
{
    if parts.len() == 0 {
        Seq::empty()
    } else {
        concat_parts(parts.drop_last()) + parts.last()@
    }
}

/// Lowercase hex SHA-256 over the serialized messages of a conversation, fed
/// to the hash one after another; recorded in receipts as `input_sha256`.
pub fn hash_messages(serialized: &[Vec<u8>]) -> (r: String)
    ensures
        r@ == spec_hex(spec_sha256(concat_parts(serialized@))),
        spec_is_sha256_hex(vstd::utf8::encode_utf8(r@)),
{
    let mut all: Vec<u8> = Vec::new();
    let mut i: usize = 0;
    while i < serialized.len()
        invariant
            0 <= i <= serialized@.len(),
            all@ == concat_parts(serialized@.take(i as int)),
        decreases serialized@.len() - i,
    {
        let part = &serialized[i];
        let mut j: usize = 0;
        let ghost before = all@;
        while j < part.len()
            invariant
                0 <= j <= part@.len(),
                all@ == before + part@.take(j as int),
            decreases part@.len() - j,
        {
            all.push(part[j]);
            assert(before + part@.take(j + 1) =~= before + part@.take(j as int) + seq![part@[j as int]]);
            j = j + 1;
        }
        assert(part@.take(part@.len() as int) =~= part@);
        assert(serialized@.take(i + 1).drop_last() =~= serialized@.take(i as int));
        i = i + 1;
    }
    assert(serialized@.take(serialized@.len() as int) =~= serialized@);
    let d = sha256(all.as_slice());
    proof { lemma_digest_hex_is_sha256_hex(d@); }
    hex_encode(d.as_slice())
}

proof fn lemma_hex_digit_ascii(n: int)
    requires
        0 <= n < 16,
    ensures
        '\0' <= hex_digit(n) <= '\u{7f}',
        is_lower_hex_byte(hex_digit(n) as u8),
{
}

/// The hex text of a 32-byte digest is a well-formed SHA-256 hex string.
pub proof fn lemma_digest_hex_is_sha256_hex(d: Seq<u8>)
    requires
        d.len() == 32,
    ensures
        spec_is_sha256_hex(vstd::utf8::encode_utf8(spec_hex(d))),
{
    lemma_hex_shape(d);
    let h = spec_hex(d);
    assert(vstd::utf8::is_ascii_chars(h)) by {
        assert forall|i: int| 0 <= i < h.len() implies '\0' <= #[trigger] h[i] <= '\u{7f}' by {
            assert(is_hex_digit_char(h[i]));
            let n = choose|n: int| 0 <= n < 16 && hex_digit(n) == h[i];
            lemma_hex_digit_ascii(n);
        }
    }
    vstd::utf8::is_ascii_chars_encode_utf8(h);
    let b = vstd::utf8::encode_utf8(h);
    assert forall|i: int| 0 <= i < b.len() implies is_lower_hex_byte(#[trigger] b[i]) by {
        assert(b[i] == h[i] as u8);
        assert(is_hex_digit_char(h[i]));
        let n = choose|n: int| 0 <= n < 16 && hex_digit(n) == h[i];
        lemma_hex_digit_ascii(n);
    }
}

} // verus!
