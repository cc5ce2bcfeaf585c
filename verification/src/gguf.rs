//! Reads the context length recorded in a GGUF model file, walking the
//! metadata the way a reader that seeks over values it does not need would.

use vstd::prelude::*;
use vstd::string::StringSliceAdditionalSpecFns;
use crate::bytes::{u32_at, u64_at, u32_le, u64_le, capped, advance, advance_mul, bytes_equal};
use crate::quant::GGUF_MAGIC;

verus! {

/// Why the metadata walk stopped.
#[derive(Debug, Clone, Copy, PartialEq, Eq, Structural)]
pub enum GgufReadError {
    /// A read ran past the end of the file.
    UnexpectedEof,
    /// A string length above 4096 bytes.
    KeyTooLong,
    /// A value type code that GGUF does not define.
    UnknownValueType,
}

/// How far a read position is from running off the end: positions past the
/// end all count as zero.
pub open spec fn room(d: Seq<u8>, p: int) -> nat {
    if 0 <= p <= d.len() + 1 { (d.len() + 1 - p) as nat } else { 0 }
}

/// A count or length field: a `u32` in version 1 files, a `u64` after.
/// Gives the value and the position after it.
pub open spec fn read_count(d: Seq<u8>, p: int, version: u32) -> Option<(u64, int)> {
    if version == 1 {
        match u32_at(d, p) {
            Some(v) => Some((v as u64, p + 4)),
            None => None,
        }
    } else {
        match u64_at(d, p) {
            Some(v) => Some((v, p + 8)),
            None => None,
        }
    }
}

/// A length-prefixed string at `p`: its bytes and the position after it.
pub open spec fn read_str(d: Seq<u8>, p: int, version: u32) -> Result<(Seq<u8>, int), GgufReadError> {
    match read_count(d, p, version) {
        None => Err(GgufReadError::UnexpectedEof),
        Some((l, q)) => if l > 4096 {
            Err(GgufReadError::KeyTooLong)
        } else if q + l > d.len() {
            Err(GgufReadError::UnexpectedEof)
        } else {
            Ok((d.subrange(q, q + l), q + l))
        },
    }
}

/// Size of a value of a fixed-size type code.
pub open spec fn fixed_width(t: u32) -> Option<int> {
    if t == 0 || t == 1 || t == 7 {
        Some(1)
    } else if t == 2 || t == 3 {
        Some(2)
    } else if t == 4 || t == 5 || t == 6 {
        Some(4)
    } else if t == 10 || t == 11 || t == 12 {
        Some(8)
    } else {
        None
    }
}

/// The position after a value of type `t` at `p`. Fixed-size values are
/// seeked over, so they may leave the position past the end.
pub open spec fn skip_val(d: Seq<u8>, p: int, t: u32, version: u32) -> Result<int, GgufReadError>
    decreases room(d, p), 1int,
{
    match fixed_width(t) {
        Some(w) => Ok(capped(p + w, d.len() as int)),
        None => if t == 8 {
            match read_str(d, p, version) {
                Ok((_, q)) => Ok(q),
                Err(e) => Err(e),
            }
        } else if t == 9 {
            skip_arr(d, p, version)
        } else {
            Err(GgufReadError::UnknownValueType)
        },
    }
}

/// The position after an array value at `p`: element type, count, elements.
pub open spec fn skip_arr(d: Seq<u8>, p: int, version: u32) -> Result<int, GgufReadError>
    decreases room(d, p), 0int,
{
    match u32_at(d, p) {
        None => Err(GgufReadError::UnexpectedEof),
        Some(et) => match read_count(d, p + 4, version) {
            None => Err(GgufReadError::UnexpectedEof),
            Some((n, q)) => skip_elems(d, q, et, version, n as nat),
        },
    }
}

/// The position after `n` values of type `t` at `p`.
pub open spec fn skip_elems(d: Seq<u8>, p: int, t: u32, version: u32, n: nat) -> Result<int, GgufReadError>
    decreases room(d, p), 2int,
{
    if n == 0 {
        Ok(p)
    } else {
        match fixed_width(t) {
            Some(w) => Ok(capped(p + n * w, d.len() as int)),
            None => if t != 8 && t != 9 {
                Err(GgufReadError::UnknownValueType)
            } else {
                match skip_val(d, p, t, version) {
                    Err(e) => Err(e),
                    Ok(q) => if room(d, q) < room(d, p) {
                        skip_elems(d, q, t, version, (n - 1) as nat)
                    } else {
                        Ok(q)
                    },
                }
            },
        }
    }
}

/// The bytes of the key that records the context length.
pub open spec fn context_key() -> Seq<u8> {
    "llama.context_length".spec_bytes()
}

/// Walks at most `n` key/value records from `p` looking for the context length.
pub open spec fn kv_walk(d: Seq<u8>, p: int, version: u32, n: nat) -> Result<Option<u32>, GgufReadError>
    decreases room(d, p),
{
    if n == 0 {
        Ok(None)
    } else {
        match read_str(d, p, version) {
            Err(e) => Err(e),
            Ok((key, q)) => match u32_at(d, q) {
                None => Err(GgufReadError::UnexpectedEof),
                Some(vt) => if key == context_key() && vt == 4 {
                    match u32_at(d, q + 4) {
                        Some(v) => Ok(Some(v)),
                        None => Err(GgufReadError::UnexpectedEof),
                    }
                } else {
                    match skip_val(d, q + 4, vt, version) {
                        Err(e) => Err(e),
                        Ok(r) => if room(d, r) < room(d, p) {
                            kv_walk(d, r, version, (n - 1) as nat)
                        } else {
                            Ok(None)
                        },
                    }
                },
            },
        }
    }
}

/// The context length a GGUF file records, `None` when the file is not GGUF
/// of version 1 to 3 or has no such key, or why the walk failed.
pub open spec fn spec_context_length(d: Seq<u8>) -> Result<Option<u32>, GgufReadError> {
    match u32_at(d, 0) {
        None => Err(GgufReadError::UnexpectedEof),
        Some(magic) => if magic != GGUF_MAGIC {
            Ok(None)
        } else {
            match u32_at(d, 4) {
                None => Err(GgufReadError::UnexpectedEof),
                Some(version) => if version == 0 || version > 3 {
                    Ok(None)
                } else {
                    match read_count(d, 8, version) {
                        None => Err(GgufReadError::UnexpectedEof),
                        Some((_, p1)) => match read_count(d, p1, version) {
                            None => Err(GgufReadError::UnexpectedEof),
                            Some((n_kv, p2)) => kv_walk(d, p2, version, n_kv as nat),
                        },
                    }
                },
            }
        },
    }
}

/// A successful skip never moves backwards nor beyond one past the end, and
/// skipping a string or an array reads at least one byte in range.
proof fn lemma_skip_val_bounds(d: Seq<u8>, p: int, t: u32, version: u32)
    requires
        0 <= p <= d.len() + 1,
    ensures
        skip_val(d, p, t, version) matches Ok(q) ==> p <= q <= d.len() + 1
            && ((t == 8 || t == 9) ==> p < q && p <= d.len()),
    decreases room(d, p), 1int,
{
    if fixed_width(t) is None && t == 9 {
        lemma_skip_arr_bounds(d, p, version);
    }
}

proof fn lemma_skip_arr_bounds(d: Seq<u8>, p: int, version: u32)
    requires
        0 <= p <= d.len() + 1,
    ensures
        skip_arr(d, p, version) matches Ok(q) ==> p < q <= d.len() + 1 && p <= d.len(),
    decreases room(d, p), 0int,
{
    if let Some(et) = u32_at(d, p) {
        if let Some((n, q)) = read_count(d, p + 4, version) {
            lemma_skip_elems_bounds(d, q, et, version, n as nat);
        }
    }
}

proof fn lemma_skip_elems_bounds(d: Seq<u8>, p: int, t: u32, version: u32, n: nat)
    requires
        0 <= p <= d.len() + 1,
    ensures
        skip_elems(d, p, t, version, n) matches Ok(q) ==> p <= q <= d.len() + 1,
    decreases room(d, p), 2int,
{
    if n > 0 && fixed_width(t) is None && (t == 8 || t == 9) {
        lemma_skip_val_bounds(d, p, t, version);
        if let Ok(q) = skip_val(d, p, t, version) {
            if room(d, q) < room(d, p) {
                lemma_skip_elems_bounds(d, q, t, version, (n - 1) as nat);
            }
        }
    }
}

/// Reads a little-endian `u32` at `pos`, giving it and the position after it.
pub fn read_u32(data: &[u8], pos: u64) -> (r: Result<(u32, u64), GgufReadError>)
    requires
        data@.len() < u64::MAX,
    ensures
        match r {
            Ok((v, q)) => u32_at(data@, pos as int) == Some(v) && q == pos + 4,
            Err(e) => u32_at(data@, pos as int) is None && e == GgufReadError::UnexpectedEof,
        },
{
    if pos > data.len() as u64 {
        return Err(GgufReadError::UnexpectedEof);
    }
    match u32_le(data, pos as usize) {
        Some(v) => Ok((v, pos + 4)),
        None => Err(GgufReadError::UnexpectedEof),
    }
}

/// Reads a little-endian `u64` at `pos`, giving it and the position after it.
pub fn read_u64(data: &[u8], pos: u64) -> (r: Result<(u64, u64), GgufReadError>)
    requires
        data@.len() < u64::MAX,
    ensures
        match r {
            Ok((v, q)) => u64_at(data@, pos as int) == Some(v) && q == pos + 8,
            Err(e) => u64_at(data@, pos as int) is None && e == GgufReadError::UnexpectedEof,
        },
{
    if pos > data.len() as u64 {
        return Err(GgufReadError::UnexpectedEof);
    }
    match u64_le(data, pos as usize) {
        Some(v) => Ok((v, pos + 8)),
        None => Err(GgufReadError::UnexpectedEof),
    }
}

fn read_count_at(data: &[u8], pos: u64, version: u32) -> (r: Option<(u64, u64)>)
    requires
        data@.len() < u64::MAX,
    ensures
        match r {
            Some((v, q)) => read_count(data@, pos as int, version) == Some((v, q as int)),
            None => read_count(data@, pos as int, version) is None,
        },
{
    if version == 1 {
        match read_u32(data, pos) {
            Ok((v, q)) => Some((v as u64, q)),
            Err(_) => None,
        }
    } else {
        match read_u64(data, pos) {
            Ok((v, q)) => Some((v, q)),
            Err(_) => None,
        }
    }
}

/// Reads a length-prefixed string at `pos`: its bytes and the position after
/// it. Lengths above 4096 are refused. The bytes are kept as they are; for an
/// ASCII key, comparing them is the same as comparing their lossy UTF-8 text.
pub fn read_string(data: &[u8], pos: u64, version: u32) -> (r: Result<(Vec<u8>, u64), GgufReadError>)
    requires
        data@.len() < u64::MAX,
    ensures
        match r {
            Ok((b, q)) => read_str(data@, pos as int, version) == Ok::<(Seq<u8>, int), GgufReadError>((b@, q as int)),
            Err(e) => read_str(data@, pos as int, version) == Err::<(Seq<u8>, int), GgufReadError>(e),
        },
{
    match read_count_at(data, pos, version) {
        None => Err(GgufReadError::UnexpectedEof),
        Some((l, q)) => {
            if l > 4096 {
                return Err(GgufReadError::KeyTooLong);
            }
            let len = data.len() as u64;
            if q > len || l > len - q {
                return Err(GgufReadError::UnexpectedEof);
            }
            let start = q as usize;
            let end = (q + l) as usize;
            let mut b: Vec<u8> = Vec::new();
            let mut i: usize = start;
            while i < end
                invariant
                    start <= i <= end,
                    end <= data@.len(),
                    b@ == data@.subrange(start as int, i as int),
                decreases end - i,
            {
                b.push(data[i]);
                assert(data@.subrange(start as int, i + 1) =~= data@.subrange(start as int, i as int).push(data@[i as int]));
                i = i + 1;
            }
            Ok((b, q + l))
        },
    }
}

/// Skips a value of type `val_type` at `pos`, giving the position after it.
pub fn skip_value(data: &[u8], pos: u64, val_type: u32, version: u32) -> (r: Result<u64, GgufReadError>)
    requires
        data@.len() < u64::MAX,
        pos <= data@.len() + 1,
    ensures
        match r {
            Ok(q) => skip_val(data@, pos as int, val_type, version) == Ok::<int, GgufReadError>(q as int),
            Err(e) => skip_val(data@, pos as int, val_type, version) == Err::<int, GgufReadError>(e),
        },
    decreases room(data@, pos as int), 1int,
{
    let len = data.len() as u64;
    if val_type == 0 || val_type == 1 || val_type == 7 {
        Ok(advance(pos, 1, len))
    } else if val_type == 2 || val_type == 3 {
        Ok(advance(pos, 2, len))
    } else if val_type == 4 || val_type == 5 || val_type == 6 {
        Ok(advance(pos, 4, len))
    } else if val_type == 10 || val_type == 11 || val_type == 12 {
        Ok(advance(pos, 8, len))
    } else if val_type == 8 {
        match read_string(data, pos, version) {
            Ok((_, q)) => Ok(q),
            Err(e) => Err(e),
        }
    } else if val_type == 9 {
        skip_array(data, pos, version)
    } else {
        Err(GgufReadError::UnknownValueType)
    }
}

/// Skips an array value at `pos`: its element type, its count, then each element.
pub fn skip_array(data: &[u8], pos: u64, version: u32) -> (r: Result<u64, GgufReadError>)
    requires
        data@.len() < u64::MAX,
        pos <= data@.len() + 1,
    ensures
        match r {
            Ok(q) => skip_arr(data@, pos as int, version) == Ok::<int, GgufReadError>(q as int),
            Err(e) => skip_arr(data@, pos as int, version) == Err::<int, GgufReadError>(e),
        },
    decreases room(data@, pos as int), 0int,
{
    let len = data.len() as u64;
    let elem_type = match read_u32(data, pos) {
        Ok((v, _)) => v,
        Err(e) => return Err(e),
    };
    let (count, start) = match read_count_at(data, pos + 4, version) {
        Some(x) => x,
        None => return Err(GgufReadError::UnexpectedEof),
    };
    let ghost d = data@;
    if count == 0 {
        return Ok(start);
    }
    if elem_type == 0 || elem_type == 1 || elem_type == 7 {
        return Ok(advance_mul(start, count, 1, len));
    } else if elem_type == 2 || elem_type == 3 {
        return Ok(advance_mul(start, count, 2, len));
    } else if elem_type == 4 || elem_type == 5 || elem_type == 6 {
        return Ok(advance_mul(start, count, 4, len));
    } else if elem_type == 10 || elem_type == 11 || elem_type == 12 {
        return Ok(advance_mul(start, count, 8, len));
    } else if elem_type != 8 && elem_type != 9 {
        return Err(GgufReadError::UnknownValueType);
    }
    let mut cur = start;
    let mut i: u64 = 0;
    while i < count
        invariant
            d == data@,
            d.len() < u64::MAX,
            fixed_width(elem_type) is None,
            elem_type == 8 || elem_type == 9,
            pos <= d.len(),
            start <= cur <= d.len() + 1,
            pos < start,
            0 <= i <= count,
            skip_arr(d, pos as int, version) == skip_elems(d, start as int, elem_type, version, count as nat),
            skip_elems(d, start as int, elem_type, version, count as nat)
                == skip_elems(d, cur as int, elem_type, version, (count - i) as nat),
        decreases count - i,
    {
        proof { lemma_skip_val_bounds(d, cur as int, elem_type, version); }
        match skip_value(data, cur, elem_type, version) {
            Err(e) => return Err(e),
            Ok(q) => {
                cur = q;
            },
        }
        i = i + 1;
    }
    Ok(cur)
}

/// Finds the context length recorded in GGUF metadata: `Ok(None)` when the
/// data is not GGUF of version 1 to 3 or records none.
pub fn read_context_length_from(data: &[u8]) -> (r: Result<Option<u32>, GgufReadError>)
    requires
        data@.len() < u64::MAX,
    ensures
        r == spec_context_length(data@),
{
    let magic = match read_u32(data, 0) {
        Ok((v, _)) => v,
        Err(e) => return Err(e),
    };
    if magic != GGUF_MAGIC {
        return Ok(None);
    }
    let version = match read_u32(data, 4) {
        Ok((v, _)) => v,
        Err(e) => return Err(e),
    };
    if version == 0 || version > 3 {
        return Ok(None);
    }
    let p1 = match read_count_at(data, 8, version) {
        Some((_, q)) => q,
        None => return Err(GgufReadError::UnexpectedEof),
    };
    let (n_kv, p2) = match read_count_at(data, p1, version) {
        Some(x) => x,
        None => return Err(GgufReadError::UnexpectedEof),
    };
    let key_name = "llama.context_length".as_bytes();
    let ghost d = data@;
    let mut pos = p2;
    let mut i: u64 = 0;
    while i < n_kv
        invariant
            d == data@,
            d.len() < u64::MAX,
            pos <= d.len() + 1,
            0 <= i <= n_kv,
            key_name@ == context_key(),
            spec_context_length(d) == kv_walk(d, pos as int, version, (n_kv - i) as nat),
        decreases n_kv - i,
    {
        let (key, q) = match read_string(data, pos, version) {
            Ok(x) => x,
            Err(e) => return Err(e),
        };
        let (vt, q1) = match read_u32(data, q) {
            Ok(x) => x,
            Err(e) => return Err(e),
        };
        if bytes_equal(key.as_slice(), key_name) && vt == 4 {
            return match read_u32(data, q1) {
                Ok((v, _)) => Ok(Some(v)),
                Err(e) => Err(e),
            };
        }
        proof { lemma_skip_val_bounds(d, q1 as int, vt, version); }
        match skip_value(data, q1, vt, version) {
            Err(e) => return Err(e),
            Ok(r) => {
                pos = r;
            },
        }
        i = i + 1;
    }
    Ok(None)
}

/// The context length recorded in GGUF data, or `None` when it cannot be found.
pub fn read_context_length(data: &[u8]) -> (r: Option<u32>)
    requires
        data@.len() < u64::MAX,
    ensures
        r == match spec_context_length(data@) {
            Ok(Some(v)) => Some(v),
            _ => None::<u32>,
        },
{
    match read_context_length_from(data) {
        Ok(Some(v)) => Some(v),
        _ => None,
    }
}

/// Seeking over a scalar value moves by the width its GGUF type code fixes:
/// one byte for u8, i8 and bool (0, 1, 7), two for u16 and i16 (2, 3), four
/// for u32, i32 and f32 (4, 5, 6), eight for u64, i64 and f64 (10, 11, 12).
/// A seek past the end leaves the position one past the end.
pub proof fn lemma_scalar_value_widths(d: Seq<u8>, p: int, t: u32, version: u32)
    ensures
        (t == 0 || t == 1 || t == 7) ==> skip_val(d, p, t, version)
            == Ok::<int, GgufReadError>(if p + 1 <= d.len() { p + 1 } else { d.len() + 1int }),
        (t == 2 || t == 3) ==> skip_val(d, p, t, version)
            == Ok::<int, GgufReadError>(if p + 2 <= d.len() { p + 2 } else { d.len() + 1int }),
        (t == 4 || t == 5 || t == 6) ==> skip_val(d, p, t, version)
            == Ok::<int, GgufReadError>(if p + 4 <= d.len() { p + 4 } else { d.len() + 1int }),
        (t == 10 || t == 11 || t == 12) ==> skip_val(d, p, t, version)
            == Ok::<int, GgufReadError>(if p + 8 <= d.len() { p + 8 } else { d.len() + 1int }),
        t > 12 ==> skip_val(d, p, t, version) == Err::<int, GgufReadError>(GgufReadError::UnknownValueType),
{
}

} // verus!
