//! Little-endian integer reads at a byte offset, and `str::from_utf8`.

use vstd::prelude::*;

verus! {

/// The little-endian `u32` stored in the four bytes at `pos`, if they are all present.
pub open spec fn u32_at(data: Seq<u8>, pos: int) -> Option<u32> {
    if 0 <= pos && pos + 4 <= data.len() {
        Some((data[pos] as int + 256 * data[pos + 1] as int + 65536 * data[pos + 2] as int
            + 16777216 * data[pos + 3] as int) as u32)
    } else {
        None
    }
}

/// The little-endian `u64` stored in the eight bytes at `pos`, if they are all present.
pub open spec fn u64_at(data: Seq<u8>, pos: int) -> Option<u64> {
    if 0 <= pos && pos + 8 <= data.len() {
        Some((data[pos] as int + 0x100 * data[pos + 1] as int + 0x10000 * data[pos + 2] as int
            + 0x1000000 * data[pos + 3] as int + 0x100000000 * data[pos + 4] as int
            + 0x10000000000 * data[pos + 5] as int + 0x1000000000000 * data[pos + 6] as int
            + 0x100000000000000 * data[pos + 7] as int) as u64)
    } else {
        None
    }
}

/// The little-endian `i32` stored in the four bytes at `pos`, if they are all present.
pub open spec fn i32_at(data: Seq<u8>, pos: int) -> Option<i32> {
    match u32_at(data, pos) {
        Some(u) => Some(if u < 0x80000000 { u as int } else { u as int - 0x100000000 } as i32),
        None => None,
    }
}

/// Reads a little-endian `u32` at `off`, or `None` when the four bytes are not all there.
pub fn u32_le(data: &[u8], off: usize) -> (r: Option<u32>)
    ensures
        r == u32_at(data@, off as int),
{
    if off > data.len() || data.len() - off < 4 {
        return None;
    }
    let v: u32 = data[off] as u32 + 256 * (data[off + 1] as u32) + 65536 * (data[off + 2] as u32)
        + 16777216 * (data[off + 3] as u32);
    Some(v)
}

/// Reads a little-endian `u64` at `off`, or `None` when the eight bytes are not all there.
pub fn u64_le(data: &[u8], off: usize) -> (r: Option<u64>)
    ensures
        r == u64_at(data@, off as int),
{
    if off > data.len() || data.len() - off < 8 {
        return None;
    }
    let v: u64 = data[off] as u64 + 0x100 * (data[off + 1] as u64) + 0x10000 * (data[off + 2] as u64)
        + 0x1000000 * (data[off + 3] as u64) + 0x100000000 * (data[off + 4] as u64)
        + 0x10000000000 * (data[off + 5] as u64) + 0x1000000000000 * (data[off + 6] as u64)
        + 0x100000000000000 * (data[off + 7] as u64);
    Some(v)
}

/// Reads a little-endian `i32` at `off`, or `None` when the four bytes are not all there.
pub fn i32_le(data: &[u8], off: usize) -> (r: Option<i32>)
    ensures
        r == i32_at(data@, off as int),
{
    match u32_le(data, off) {
        Some(u) => {
            if u < 0x80000000 {
                Some(u as i32)
            } else {
                let neg: i64 = u as i64 - 0x100000000;
                Some(neg as i32)
            }
        },
        None => None,
    }
}

/// Calls `std::str::from_utf8`; the contract claims it succeeds exactly on
/// well-formed UTF-8 (vstd's `valid_utf8`) and then decodes it.
#[verifier::external_body]
pub(crate) fn str_from_utf8(b: &[u8]) -> (r: Option<&str>)
    ensures
        r is Some <==> vstd::utf8::valid_utf8(b@),
        r matches Some(s) ==> s@ == vstd::utf8::decode_utf8(b@),
{
    std::str::from_utf8(b).ok()
}

/// A read position capped at one past the end: every position beyond the end
/// behaves alike, since no read can succeed there.
pub open spec fn capped(p: int, len: int) -> int {
    if p <= len { p } else { len + 1 }
}

/// `pos + n`, capped at one past the end.
pub(crate) fn advance(pos: u64, n: u64, len: u64) -> (r: u64)
    requires
        pos <= len + 1,
        len < u64::MAX,
    ensures
        r == capped(pos + n, len as int),
{
    if n > len + 1 - pos {
        len + 1
    } else {
        pos + n
    }
}

/// `pos + n * size`, capped at one past the end.
pub(crate) fn advance_mul(pos: u64, n: u64, size: u64, len: u64) -> (r: u64)
    requires
        pos <= len + 1,
        len < u64::MAX,
        size == 1 || size == 2 || size == 4 || size == 8,
    ensures
        r == capped(pos + n * size, len as int),
{
    let room = len + 1 - pos;
    if size == 1 {
        advance(pos, n, len)
    } else if size == 2 {
        if n > room / 2 { len + 1 } else { pos + n * 2 }
    } else if size == 4 {
        if n > room / 4 { len + 1 } else { pos + n * 4 }
    } else {
        if n > room / 8 { len + 1 } else { pos + n * 8 }
    }
}

/// Reads at a capped position agree with reads at the exact position.
pub proof fn lemma_capped_reads(data: Seq<u8>, p: int)
    requires
        p >= 0,
    ensures
        u32_at(data, capped(p, data.len() as int)) == u32_at(data, p),
        u64_at(data, capped(p, data.len() as int)) == u64_at(data, p),
{
}

/// Tests two byte sequences for equality.
pub fn bytes_equal(a: &[u8], b: &[u8]) -> (r: bool)
    ensures
        r == (a@ == b@),
{
    if a.len() != b.len() {
        return false;
    }
    let mut i: usize = 0;
    while i < a.len()
        invariant
            a@.len() == b@.len(),
            0 <= i <= a@.len(),
            forall|j: int| 0 <= j < i ==> a@[j] == b@[j],
        decreases a@.len() - i,
    {
        if a[i] != b[i] {
            return false;
        }
        i = i + 1;
    }
    assert(a@ =~= b@);
    true
}

} // verus!
