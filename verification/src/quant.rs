//! GGUF metadata inspection for quantization tooling: header fields,
//! quantization type, context length and architecture.

use vstd::prelude::*;
use crate::bytes::{u32_at, u64_at, u32_le, u64_le, i32_le, str_from_utf8, capped, advance, advance_mul, lemma_capped_reads};
use vstd::string::StringSliceAdditionalSpecFns;
use crate::text::{chars_of, chars_equal, string_of, spec_ends_with, ends_with_chars};

verus! {

/// `GGUF` read as a little-endian `u32`.
pub const GGUF_MAGIC: u32 = 0x4655_4747;

/// Why a file is not inspectable as GGUF.
#[derive(Debug, Clone, PartialEq, Eq, Structural)]
pub enum GgufMetaError {
    /// Fewer than the 24 bytes of a GGUF header.
    TooSmall,
    /// The first four bytes are not `GGUF`.
    NotGguf,
    /// A version other than 2 or 3.
    UnsupportedVersion(u32),
}

/// Header and selected metadata of a GGUF file.
#[derive(Debug, Clone)]
pub struct GgufMeta {
    pub version: u32,
    pub tensor_count: u64,
    pub kv_count: u64,
    pub file_type: Option<u32>,
    pub quantization_name: String,
    pub context_length: Option<u64>,
    pub architecture: Option<String>,
}

/// What a `GgufMeta` holds, with strings as character sequences.
pub struct GgufMetaView {
    pub version: u32,
    pub tensor_count: u64,
    pub kv_count: u64,
    pub file_type: Option<u32>,
    pub quantization_name: Seq<char>,
    pub context_length: Option<u64>,
    pub architecture: Option<Seq<char>>,
}

pub open spec fn opt_string_view(o: Option<String>) -> Option<Seq<char>> {
    match o {
        Some(s) => Some(s@),
        None => None,
    }
}

impl View for GgufMeta {
    type V = GgufMetaView;

    open spec fn view(&self) -> GgufMetaView {
        GgufMetaView {
            version: self.version,
            tensor_count: self.tensor_count,
            kv_count: self.kv_count,
            file_type: self.file_type,
            quantization_name: self.quantization_name@,
            context_length: self.context_length,
            architecture: opt_string_view(self.architecture),
        }
    }
}

/// The name llama.cpp gives to a `general.file_type` value.
pub open spec fn spec_file_type_name(t: u32) -> Seq<char> {
    if t == 0 { "F32"@ } else if t == 1 { "F16"@ } else if t == 2 { "Q4_0"@ }
    else if t == 3 { "Q4_1"@ } else if t == 7 { "Q8_0"@ } else if t == 8 { "Q5_0"@ }
    else if t == 9 { "Q5_1"@ } else if t == 10 { "Q2_K"@ } else if t == 11 { "Q3_K_S"@ }
    else if t == 12 { "Q3_K_M"@ } else if t == 13 { "Q3_K_L"@ } else if t == 14 { "Q4_K_S"@ }
    else if t == 15 { "Q4_K_M"@ } else if t == 16 { "Q5_K_S"@ } else if t == 17 { "Q5_K_M"@ }
    else if t == 18 { "Q6_K"@ } else if t == 19 { "IQ2_XXS"@ } else if t == 20 { "IQ2_XS"@ }
    else if t == 21 { "Q2_K_S"@ } else if t == 22 { "IQ3_XS"@ } else if t == 23 { "IQ3_S"@ }
    else if t == 24 { "IQ3_M"@ } else if t == 25 { "IQ4_NL"@ } else if t == 26 { "IQ4_XS"@ }
    else if t == 27 { "IQ1_S"@ } else if t == 28 { "IQ1_M"@ } else { "unknown"@ }
}

/// Maps a GGUF `general.file_type` code to its quantization name.
pub fn gguf_file_type_name(file_type: u32) -> (r: &'static str)
    ensures
        r@ == spec_file_type_name(file_type),
{
    match file_type {
        0 => "F32",
        1 => "F16",
        2 => "Q4_0",
        3 => "Q4_1",
        7 => "Q8_0",
        8 => "Q5_0",
        9 => "Q5_1",
        10 => "Q2_K",
        11 => "Q3_K_S",
        12 => "Q3_K_M",
        13 => "Q3_K_L",
        14 => "Q4_K_S",
        15 => "Q4_K_M",
        16 => "Q5_K_S",
        17 => "Q5_K_M",
        18 => "Q6_K",
        19 => "IQ2_XXS",
        20 => "IQ2_XS",
        21 => "Q2_K_S",
        22 => "IQ3_XS",
        23 => "IQ3_S",
        24 => "IQ3_M",
        25 => "IQ4_NL",
        26 => "IQ4_XS",
        27 => "IQ1_S",
        28 => "IQ1_M",
        _ => "unknown",
    }
}

/// The metadata collected while walking the key/value section.
pub struct MetaScan {
    pub file_type: Option<u32>,
    pub context_length: Option<u64>,
    pub architecture: Option<Seq<char>>,
}

/// A key's bytes read as text: its UTF-8 decoding, or empty when malformed.
pub open spec fn key_text(key: Seq<u8>) -> Seq<char> {
    if vstd::utf8::valid_utf8(key) { vstd::utf8::decode_utf8(key) } else { Seq::empty() }
}

/// The architecture string stored at `pos`, when present and well-formed UTF-8.
pub open spec fn string_value(data: Seq<u8>, pos: int, len: int) -> Option<Seq<char>> {
    if pos + len <= data.len() && vstd::utf8::valid_utf8(data.subrange(pos, pos + len)) {
        Some(vstd::utf8::decode_utf8(data.subrange(pos, pos + len)))
    } else {
        None
    }
}

/// Size in bytes of one fixed-size array element of the given type code.
pub open spec fn elem_size(t: u32) -> Option<int> {
    if t == 0 || t == 1 || t == 7 { Some(1) }
    else if t == 2 || t == 3 { Some(2) }
    else if t == 4 || t == 5 || t == 6 || t == 8 { Some(4) }
    else if t == 9 || t == 10 { Some(8) }
    else { None }
}

/// Position after skipping `n` length-prefixed strings at `pos`; the walk
/// stops early at the first length that cannot be read.
pub open spec fn skip_strings(data: Seq<u8>, pos: int, n: nat) -> int
    decreases n,
{
    if n == 0 {
        pos
    } else {
        match u64_at(data, pos) {
            None => pos,
            Some(l) => skip_strings(data, pos + 8 + l, (n - 1) as nat),
        }
    }
}

/// One key/value record at `pos`: the position after it and the updated
/// metadata, or `None` where the walk stops.
pub open spec fn kv_step(data: Seq<u8>, pos: int, st: MetaScan) -> Option<(int, MetaScan)> {
    match u64_at(data, pos) {
        None => None,
        Some(kl) => {
            let p1 = pos + 8;
            if p1 + kl > data.len() {
                None
            } else {
                let key = key_text(data.subrange(p1, p1 + kl));
                let p2 = p1 + kl;
                match u32_at(data, p2) {
                    None => None,
                    Some(vt) => {
                        let p3 = p2 + 4;
                        if vt == 8 {
                            match u32_at(data, p3) {
                                None => None,
                                Some(v) => Some((p3 + 4, if key == "general.file_type"@ {
                                    MetaScan { file_type: Some(v), ..st }
                                } else { st })),
                            }
                        } else if vt == 4 {
                            match u64_at(data, p3) {
                                None => None,
                                Some(v) => Some((p3 + 8, if spec_ends_with(key, ".context_length"@) {
                                    MetaScan { context_length: Some(v), ..st }
                                } else { st })),
                            }
                        } else if vt == 0 || vt == 1 || vt == 7 {
                            Some((p3 + 1, st))
                        } else if vt == 2 || vt == 3 {
                            Some((p3 + 2, st))
                        } else if vt == 5 || vt == 6 {
                            Some((p3 + 4, st))
                        } else if vt == 9 || vt == 10 {
                            Some((p3 + 8, st))
                        } else if vt == 11 {
                            match u64_at(data, p3) {
                                None => None,
                                Some(sl) => Some((p3 + 8 + sl, if key == "general.architecture"@ {
                                    MetaScan { architecture: string_value(data, p3 + 8, sl as int), ..st }
                                } else { st })),
                            }
                        } else if vt == 12 {
                            match u32_at(data, p3) {
                                None => None,
                                Some(et) => match u64_at(data, p3 + 4) {
                                    None => None,
                                    Some(n) => {
                                        let p5 = p3 + 12;
                                        if et == 11 {
                                            Some((skip_strings(data, p5, n as nat), st))
                                        } else {
                                            match elem_size(et) {
                                                None => None,
                                                Some(sz) => Some((p5 + n * sz, st)),
                                            }
                                        }
                                    },
                                },
                            }
                        } else {
                            None
                        }
                    },
                }
            }
        },
    }
}

/// Walks at most `n` key/value records from `pos`, stopping at the first
/// record that cannot be read.
pub open spec fn kv_scan(data: Seq<u8>, pos: int, n: nat, st: MetaScan) -> MetaScan
    decreases n,
{
    if n == 0 {
        st
    } else {
        match kv_step(data, pos, st) {
            None => st,
            Some((p, s)) => kv_scan(data, p, (n - 1) as nat, s),
        }
    }
}

/// The metadata a GGUF file yields, or why it is rejected.
pub open spec fn spec_parse_gguf_meta(data: Seq<u8>) -> Result<GgufMetaView, GgufMetaError> {
    if data.len() < 24 {
        Err(GgufMetaError::TooSmall)
    } else if u32_at(data, 0) != Some(GGUF_MAGIC) {
        Err(GgufMetaError::NotGguf)
    } else {
        let version = u32_at(data, 4)->0;
        if !(2 <= version <= 3) {
            Err(GgufMetaError::UnsupportedVersion(version))
        } else {
            let kv_count = u64_at(data, 16)->0;
            let st = kv_scan(data, 24, kv_count as nat,
                MetaScan { file_type: None, context_length: None, architecture: None });
            Ok(GgufMetaView {
                version,
                tensor_count: u64_at(data, 8)->0,
                kv_count,
                file_type: st.file_type,
                quantization_name: match st.file_type {
                    Some(t) => spec_file_type_name(t),
                    None => "unknown"@,
                },
                context_length: st.context_length,
                architecture: st.architecture,
            })
        }
    }
}

fn exec_key_text(key: &[u8]) -> (r: Vec<char>)
    ensures
        r@ == key_text(key@),
{
    match str_from_utf8(key) {
        Some(s) => chars_of(s),
        None => Vec::new(),
    }
}

/// The exec image of `MetaScan`.
struct ScanState {
    file_type: Option<u32>,
    context_length: Option<u64>,
    architecture: Option<String>,
}

spec fn scan_matches(s: ScanState, m: MetaScan) -> bool {
    s.file_type == m.file_type && s.context_length == m.context_length
        && opt_string_view(s.architecture) == m.architecture
}

fn skip_strings_exec(data: &[u8], pos: u64, n: u64) -> (r: u64)
    requires
        data@.len() < u64::MAX,
        pos <= data@.len() + 1,
    ensures
        forall|sp: int| sp >= 0 && capped(sp, data@.len() as int) == pos ==>
            r == capped(#[trigger] skip_strings(data@, sp, n as nat), data@.len() as int),
{
    let len = data.len() as u64;
    let mut p = pos;
    let mut k: u64 = 0;
    while k < n
        invariant
            len == data@.len(),
            data@.len() <= usize::MAX,
            len < u64::MAX,
            p <= len + 1,
            k <= n,
            forall|sp: int| sp >= 0 && capped(sp, len as int) == pos ==>
                exists|cur: int| cur >= 0 && capped(cur, len as int) == p
                    && #[trigger] skip_strings(data@, sp, n as nat) == skip_strings(data@, cur, (n - k) as nat),
        decreases n - k,
    {
        let l = if p <= len { u64_le(data, p as usize) } else { None };
        match l {
            None => {
                proof {
                    assert forall|sp: int| sp >= 0 && capped(sp, len as int) == pos implies
                        p == capped(#[trigger] skip_strings(data@, sp, n as nat), len as int) by {
                        let cur = choose|cur: int| cur >= 0 && capped(cur, len as int) == p
                            && skip_strings(data@, sp, n as nat) == skip_strings(data@, cur, (n - k) as nat);
                        lemma_capped_reads(data@, cur);
                        assert(u64_at(data@, cur) is None);
                    }
                }
                return p;
            },
            Some(v) => {
                let p2 = advance(p, 8, len);
                let p3 = advance(p2, v, len);
                proof {
                    assert forall|sp: int| sp >= 0 && capped(sp, len as int) == pos implies
                        exists|cur: int| cur >= 0 && capped(cur, len as int) == p3
                            && #[trigger] skip_strings(data@, sp, n as nat) == skip_strings(data@, cur, (n - (k + 1)) as nat) by {
                        let cur = choose|cur: int| cur >= 0 && capped(cur, len as int) == p
                            && skip_strings(data@, sp, n as nat) == skip_strings(data@, cur, (n - k) as nat);
                        lemma_capped_reads(data@, cur);
                        assert(u64_at(data@, cur) == Some(v));
                        let next = cur + 8 + v;
                        assert(capped(next, len as int) == p3);
                        assert(skip_strings(data@, cur, (n - k) as nat) == skip_strings(data@, next, (n - k - 1) as nat));
                    }
                }
                p = p3;
            },
        }
        k = k + 1;
    }
    proof {
        assert forall|sp: int| sp >= 0 && capped(sp, len as int) == pos implies
            p == capped(#[trigger] skip_strings(data@, sp, n as nat), len as int) by {
            let cur = choose|cur: int| cur >= 0 && capped(cur, len as int) == p
                && skip_strings(data@, sp, n as nat) == skip_strings(data@, cur, (n - k) as nat);
        }
    }
    p
}


proof fn lemma_skip_strings_forward(data: Seq<u8>, pos: int, n: nat)
    ensures
        skip_strings(data, pos, n) >= pos,
    decreases n,
{
    if n > 0 {
        match u64_at(data, pos) {
            None => {},
            Some(l) => lemma_skip_strings_forward(data, pos + 8 + l, (n - 1) as nat),
        }
    }
}

proof fn lemma_kv_step_forward(data: Seq<u8>, pos: int, st: MetaScan)
    ensures
        kv_step(data, pos, st) matches Some((np, _)) ==> np >= pos,
{
    if let Some(kl) = u64_at(data, pos) {
        let p3 = pos + 8 + kl + 4;
        if let Some(n) = u64_at(data, p3 + 4) {
            lemma_skip_strings_forward(data, p3 + 12, n as nat);
            if let Some(sz) = elem_size(u32_at(data, p3)->0) {
                assert(n * sz >= 0) by (nonlinear_arith) requires n >= 0, sz >= 0;
            }
        }
    }
}

fn kv_step_exec(data: &[u8], p: u64, st: &mut ScanState, Ghost(sp): Ghost<int>, Ghost(m): Ghost<MetaScan>) -> (r: Option<u64>)
    requires
        data@.len() < u64::MAX,
        data@.len() <= usize::MAX,
        p <= data@.len() + 1,
        sp >= 0,
        capped(sp, data@.len() as int) == p,
        scan_matches(*old(st), m),
    ensures
        match kv_step(data@, sp, m) {
            None => r is None && *final(st) == *old(st),
            Some((np, nm)) => r == Some(capped(np, data@.len() as int) as u64) && scan_matches(*final(st), nm),
        },
{
    let len = data.len() as u64;
    proof {
        lemma_capped_reads(data@, sp);
    }
    if p > len {
        return None;
    }
    assert(sp == p);
    let kl = match u64_le(data, p as usize) {
        None => return None,
        Some(v) => v,
    };
    let p1 = p + 8;
    if kl > len - p1 {
        return None;
    }
    let p2 = p1 + kl;
    let key = exec_key_text(&data[p1 as usize..p2 as usize]);
    let vt = match u32_le(data, p2 as usize) {
        None => return None,
        Some(v) => v,
    };
    if p2 + 4 > len {
        return None;
    }
    let p3 = p2 + 4;
    let ghost key_spec = key_text(data@.subrange(p1 as int, p2 as int));
    assert(key@ == key_spec);
    if vt == 8 {
        let v = match u32_le(data, p3 as usize) {
            None => return None,
            Some(v) => v,
        };
        let target = chars_of("general.file_type");
        if chars_equal(key.as_slice(), target.as_slice()) {
            st.file_type = Some(v);
        }
        return Some(p3 + 4);
    } else if vt == 4 {
        let v = match u64_le(data, p3 as usize) {
            None => return None,
            Some(v) => v,
        };
        let suffix = chars_of(".context_length");
        if ends_with_chars(key.as_slice(), suffix.as_slice()) {
            st.context_length = Some(v);
        }
        return Some(p3 + 8);
    } else if vt == 0 || vt == 1 || vt == 7 {
        return Some(advance(p3, 1, len));
    } else if vt == 2 || vt == 3 {
        return Some(advance(p3, 2, len));
    } else if vt == 5 {
        let _ = i32_le(data, p3 as usize);
        return Some(advance(p3, 4, len));
    } else if vt == 6 {
        return Some(advance(p3, 4, len));
    } else if vt == 9 || vt == 10 {
        return Some(advance(p3, 8, len));
    } else if vt == 11 {
        let sl = match u64_le(data, p3 as usize) {
            None => return None,
            Some(v) => v,
        };
        let p4 = p3 + 8;
        let target = chars_of("general.architecture");
        if chars_equal(key.as_slice(), target.as_slice()) {
            if sl <= len - p4 {
                match str_from_utf8(&data[p4 as usize..(p4 + sl) as usize]) {
                    Some(t) => {
                        let v = chars_of(t);
                        st.architecture = Some(string_of(v.as_slice()));
                    },
                    None => {
                        st.architecture = None;
                    },
                }
            } else {
                st.architecture = None;
            }
        }
        return Some(advance(p4, sl, len));
    } else if vt == 12 {
        let et = match u32_le(data, p3 as usize) {
            None => return None,
            Some(v) => v,
        };
        if p3 + 4 > len {
            return None;
        }
        let n = match u64_le(data, (p3 + 4) as usize) {
            None => return None,
            Some(v) => v,
        };
        let p5 = p3 + 12;
        if et == 11 {
            return Some(skip_strings_exec(data, p5, n));
        }
        let size: u64 = if et == 0 || et == 1 || et == 7 {
            1
        } else if et == 2 || et == 3 {
            2
        } else if et == 4 || et == 5 || et == 6 || et == 8 {
            4
        } else if et == 9 || et == 10 {
            8
        } else {
            return None;
        };
        return Some(advance_mul(p5, n, size, len));
    } else {
        return None;
    }
}

/// Parses the header and metadata of a GGUF file held in memory.
///
/// Positions are exact: a length that runs past the end of the data makes
/// every later read fail, which ends the walk of the key/value section.
pub fn parse_gguf_meta(data: &[u8]) -> (r: Result<GgufMeta, GgufMetaError>)
    requires
        data@.len() <= isize::MAX,
    ensures
        match r {
            Ok(m) => spec_parse_gguf_meta(data@) == Ok::<GgufMetaView, GgufMetaError>(m@),
            Err(e) => spec_parse_gguf_meta(data@) == Err::<GgufMetaView, GgufMetaError>(e),
        },
{
    if data.len() < 24 {
        return Err(GgufMetaError::TooSmall);
    }
    if u32_le(data, 0) != Some(GGUF_MAGIC) {
        return Err(GgufMetaError::NotGguf);
    }
    let version = match u32_le(data, 4) {
        Some(v) => v,
        None => return Err(GgufMetaError::TooSmall),
    };
    if !(2 <= version && version <= 3) {
        return Err(GgufMetaError::UnsupportedVersion(version));
    }
    let tensor_count = match u64_le(data, 8) {
        Some(v) => v,
        None => return Err(GgufMetaError::TooSmall),
    };
    let kv_count = match u64_le(data, 16) {
        Some(v) => v,
        None => return Err(GgufMetaError::TooSmall),
    };
    let len = data.len() as u64;
    let mut st = ScanState { file_type: None, context_length: None, architecture: None };
    let ghost init = MetaScan { file_type: None, context_length: None, architecture: None };
    let ghost mut sp: int = 24;
    let ghost mut m: MetaScan = init;
    let mut pos: u64 = 24;
    let mut i: u64 = 0;
    while i < kv_count
        invariant
            len == data@.len(),
            data@.len() <= isize::MAX,
            data@.len() <= usize::MAX,
            pos <= len + 1,
            sp >= 0,
            capped(sp, len as int) == pos,
            scan_matches(st, m),
            i <= kv_count,
            kv_scan(data@, 24, kv_count as nat, init) == kv_scan(data@, sp, (kv_count - i) as nat, m),
        ensures
            kv_scan(data@, 24, kv_count as nat, init) == m,
            scan_matches(st, m),
        decreases kv_count - i,
    {
        match kv_step_exec(data, pos, &mut st, Ghost(sp), Ghost(m)) {
            None => {
                break;
            },
            Some(np) => {
                proof {
                    lemma_kv_step_forward(data@, sp, m);
                    let (nsp, nm) = kv_step(data@, sp, m)->0;
                    assert(kv_scan(data@, sp, (kv_count - i) as nat, m) == kv_scan(data@, nsp, (kv_count - i - 1) as nat, nm));
                    sp = nsp;
                    m = nm;
                }
                pos = np;
            },
        }
        i = i + 1;
    }
    let file_type = st.file_type;
    let quantization_name = match file_type {
        Some(t) => {
            let v = chars_of(gguf_file_type_name(t));
            string_of(v.as_slice())
        },
        None => {
            let v = chars_of("unknown");
            string_of(v.as_slice())
        },
    };
    Ok(GgufMeta {
        version,
        tensor_count,
        kv_count,
        file_type,
        quantization_name,
        context_length: st.context_length,
        architecture: st.architecture,
    })
}

/// A GGUF quantization format with its approximate storage cost, in tenths
/// of a bit per weight.
#[derive(Debug, Clone, Copy)]
pub struct QuantFormat {
    pub name: &'static str,
    pub bits_per_weight_tenths: u32,
    pub blurb: &'static str,
    pub default_pick: bool,
}

/// The known formats, in the order the tooling lists them.
pub open spec fn spec_quant_formats() -> Seq<QuantFormat> {
    seq![
        QuantFormat { name: "F32", bits_per_weight_tenths: 320, blurb: "full precision", default_pick: false },
        QuantFormat { name: "F16", bits_per_weight_tenths: 160, blurb: "half, still large", default_pick: false },
        QuantFormat { name: "Q8_0", bits_per_weight_tenths: 85, blurb: "near lossless", default_pick: false },
        QuantFormat { name: "Q6_K", bits_per_weight_tenths: 66, blurb: "high quality", default_pick: false },
        QuantFormat { name: "Q5_K_M", bits_per_weight_tenths: 57, blurb: "high quality, needs ram", default_pick: false },
        QuantFormat { name: "Q5_K_S", bits_per_weight_tenths: 55, blurb: "q5 small", default_pick: false },
        QuantFormat { name: "Q5_0", bits_per_weight_tenths: 55, blurb: "legacy q5", default_pick: false },
        QuantFormat { name: "Q5_1", bits_per_weight_tenths: 58, blurb: "legacy q5 + scale", default_pick: false },
        QuantFormat { name: "Q4_K_M", bits_per_weight_tenths: 48, blurb: "usual default", default_pick: true },
        QuantFormat { name: "Q4_K_S", bits_per_weight_tenths: 46, blurb: "slightly smaller q4", default_pick: false },
        QuantFormat { name: "Q4_0", bits_per_weight_tenths: 45, blurb: "legacy q4", default_pick: false },
        QuantFormat { name: "Q4_1", bits_per_weight_tenths: 48, blurb: "legacy q4 + scale", default_pick: false },
        QuantFormat { name: "Q3_K_L", bits_per_weight_tenths: 36, blurb: "low ram", default_pick: false },
        QuantFormat { name: "Q3_K_M", bits_per_weight_tenths: 34, blurb: "low ram", default_pick: false },
        QuantFormat { name: "Q3_K_S", bits_per_weight_tenths: 30, blurb: "very low ram", default_pick: false },
        QuantFormat { name: "Q2_K", bits_per_weight_tenths: 26, blurb: "smallest, noisy", default_pick: false },
        QuantFormat { name: "IQ4_XS", bits_per_weight_tenths: 43, blurb: "imatrix q4", default_pick: false },
        QuantFormat { name: "IQ3_M", bits_per_weight_tenths: 37, blurb: "imatrix q3", default_pick: false },
        QuantFormat { name: "IQ2_M", bits_per_weight_tenths: 27, blurb: "imatrix q2", default_pick: false },
    ]
}

/// The table of known quantization formats.
pub fn quant_formats() -> (v: Vec<QuantFormat>)
    ensures
        v@ == spec_quant_formats(),
{
    let v = vec![
        QuantFormat { name: "F32", bits_per_weight_tenths: 320, blurb: "full precision", default_pick: false },
        QuantFormat { name: "F16", bits_per_weight_tenths: 160, blurb: "half, still large", default_pick: false },
        QuantFormat { name: "Q8_0", bits_per_weight_tenths: 85, blurb: "near lossless", default_pick: false },
        QuantFormat { name: "Q6_K", bits_per_weight_tenths: 66, blurb: "high quality", default_pick: false },
        QuantFormat { name: "Q5_K_M", bits_per_weight_tenths: 57, blurb: "high quality, needs ram", default_pick: false },
        QuantFormat { name: "Q5_K_S", bits_per_weight_tenths: 55, blurb: "q5 small", default_pick: false },
        QuantFormat { name: "Q5_0", bits_per_weight_tenths: 55, blurb: "legacy q5", default_pick: false },
        QuantFormat { name: "Q5_1", bits_per_weight_tenths: 58, blurb: "legacy q5 + scale", default_pick: false },
        QuantFormat { name: "Q4_K_M", bits_per_weight_tenths: 48, blurb: "usual default", default_pick: true },
        QuantFormat { name: "Q4_K_S", bits_per_weight_tenths: 46, blurb: "slightly smaller q4", default_pick: false },
        QuantFormat { name: "Q4_0", bits_per_weight_tenths: 45, blurb: "legacy q4", default_pick: false },
        QuantFormat { name: "Q4_1", bits_per_weight_tenths: 48, blurb: "legacy q4 + scale", default_pick: false },
        QuantFormat { name: "Q3_K_L", bits_per_weight_tenths: 36, blurb: "low ram", default_pick: false },
        QuantFormat { name: "Q3_K_M", bits_per_weight_tenths: 34, blurb: "low ram", default_pick: false },
        QuantFormat { name: "Q3_K_S", bits_per_weight_tenths: 30, blurb: "very low ram", default_pick: false },
        QuantFormat { name: "Q2_K", bits_per_weight_tenths: 26, blurb: "smallest, noisy", default_pick: false },
        QuantFormat { name: "IQ4_XS", bits_per_weight_tenths: 43, blurb: "imatrix q4", default_pick: false },
        QuantFormat { name: "IQ3_M", bits_per_weight_tenths: 37, blurb: "imatrix q3", default_pick: false },
        QuantFormat { name: "IQ2_M", bits_per_weight_tenths: 27, blurb: "imatrix q2", default_pick: false },
    ];
    assert(v@ =~= spec_quant_formats());
    v
}

/// Whether a format is listed in the size table: at most sixteen bits per weight.
pub open spec fn in_size_table(f: QuantFormat) -> bool {
    f.bits_per_weight_tenths <= 160
}

/// The formats of the size table, in table order: full precision is left out.
pub fn size_table_formats() -> (v: Vec<QuantFormat>)
    ensures
        v@ == spec_quant_formats().filter(|f: QuantFormat| in_size_table(f)),
{
    let all = quant_formats();
    let ghost pred = |f: QuantFormat| in_size_table(f);
    let mut out: Vec<QuantFormat> = Vec::new();
    let mut i: usize = 0;
    while i < all.len()
        invariant
            0 <= i <= all@.len(),
            all@ == spec_quant_formats(),
            pred == (|f: QuantFormat| in_size_table(f)),
            out@ == all@.take(i as int).filter(pred),
        decreases all@.len() - i,
    {
        let f = all[i];
        proof {
            reveal(Seq::filter);
            assert(all@.take(i + 1).drop_last() =~= all@.take(i as int));
            assert(all@.take(i + 1).last() == f);
        }
        if f.bits_per_weight_tenths <= 160 {
            out.push(f);
        }
        i = i + 1;
    }
    proof {
        assert(all@.take(all@.len() as int) =~= all@);
    }
    out
}

/// ASCII letters folded to lowercase; other bytes unchanged.
pub open spec fn ascii_lower(b: u8) -> u8 {
    if 65 <= b <= 90 { (b + 32) as u8 } else { b }
}

/// Equal up to ASCII case, as `str::eq_ignore_ascii_case` compares.
pub open spec fn spec_eq_ignore_ascii_case(a: Seq<u8>, b: Seq<u8>) -> bool {
    a.len() == b.len() && forall|i: int| 0 <= i < a.len() ==> ascii_lower(#[trigger] a[i]) == ascii_lower(b[i])
}

/// Compares two strings ignoring ASCII case.
pub fn eq_ignore_ascii_case(a: &str, b: &str) -> (r: bool)
    ensures
        r == spec_eq_ignore_ascii_case(a.spec_bytes(), b.spec_bytes()),
{
    let x = a.as_bytes();
    let y = b.as_bytes();
    if x.len() != y.len() {
        return false;
    }
    let mut i: usize = 0;
    while i < x.len()
        invariant
            x@ == a.spec_bytes(),
            y@ == b.spec_bytes(),
            x@.len() == y@.len(),
            0 <= i <= x@.len(),
            forall|j: int| 0 <= j < i ==> ascii_lower(#[trigger] x@[j]) == ascii_lower(y@[j]),
        decreases x@.len() - i,
    {
        let p = x[i];
        let q = y[i];
        let lp = if 65 <= p && p <= 90 { p + 32 } else { p };
        let lq = if 65 <= q && q <= 90 { q + 32 } else { q };
        if lp != lq {
            return false;
        }
        i = i + 1;
    }
    true
}

/// Index of the first format whose name matches `name` ignoring ASCII case.
pub open spec fn first_format_match(name: Seq<u8>, from: int) -> Option<int>
    decreases 19 - from,
{
    if from >= 19 || from < 0 {
        None
    } else if spec_eq_ignore_ascii_case(spec_quant_formats()[from].name.spec_bytes(), name) {
        Some(from)
    } else {
        first_format_match(name, from + 1)
    }
}

/// The first known format whose name equals `name` ignoring ASCII case.
pub fn lookup_format(name: &str) -> (r: Option<QuantFormat>)
    ensures
        r == (match first_format_match(name.spec_bytes(), 0) {
            Some(i) => Some(spec_quant_formats()[i]),
            None => None::<QuantFormat>,
        }),
{
    let formats = quant_formats();
    let mut i: usize = 0;
    while i < formats.len()
        invariant
            formats@ == spec_quant_formats(),
            0 <= i <= 19,
            first_format_match(name.spec_bytes(), 0) == first_format_match(name.spec_bytes(), i as int),
        decreases 19 - i,
    {
        if eq_ignore_ascii_case(formats[i].name, name) {
            return Some(formats[i]);
        }
        i = i + 1;
    }
    None
}

/// A type-4 record whose key is any architecture name followed by
/// `.context_length` sets the context length to the record's 8-byte value
/// and changes nothing else; the walk goes on right after the value.
pub proof fn lemma_context_length_record(data: Seq<u8>, pos: int, st: MetaScan, arch: Seq<char>, kl: u64, v: u64)
    requires
        u64_at(data, pos) == Some(kl),
        pos + 8 + kl <= data.len(),
        key_text(data.subrange(pos + 8, pos + 8 + kl)) == arch + ".context_length"@,
        u32_at(data, pos + 8 + kl) == Some(4u32),
        u64_at(data, pos + 12 + kl) == Some(v),
    ensures
        kv_step(data, pos, st) == Some((pos + 20 + kl, MetaScan { context_length: Some(v), ..st })),
{
    let key = arch + ".context_length"@;
    let suffix = ".context_length"@;
    assert(key.subrange(key.len() - suffix.len(), key.len() as int) =~= suffix);
    assert(spec_ends_with(key, suffix));
}

} // verus!
