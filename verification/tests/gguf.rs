use maranode::gguf::{read_context_length, read_context_length_from, read_string, read_u32, read_u64, skip_array, skip_value, GgufReadError};
use maranode::quant::{gguf_file_type_name, lookup_format, parse_gguf_meta, quant_formats, GgufMetaError};

fn header(version: u32, n_kv: u64) -> Vec<u8> {
    let mut d = b"GGUF".to_vec();
    d.extend_from_slice(&version.to_le_bytes());
    d.extend_from_slice(&0u64.to_le_bytes());
    d.extend_from_slice(&n_kv.to_le_bytes());
    d
}

fn key(d: &mut Vec<u8>, k: &str) {
    d.extend_from_slice(&(k.len() as u64).to_le_bytes());
    d.extend_from_slice(k.as_bytes());
}

#[test]
fn context_length_is_found_after_other_values() {
    let mut d = header(3, 3);
    key(&mut d, "general.name");
    d.extend_from_slice(&8u32.to_le_bytes());
    key(&mut d, "tiny");
    key(&mut d, "tokenizer.scores");
    d.extend_from_slice(&9u32.to_le_bytes());
    d.extend_from_slice(&6u32.to_le_bytes());
    d.extend_from_slice(&3u64.to_le_bytes());
    d.extend_from_slice(&[0u8; 12]);
    key(&mut d, "llama.context_length");
    d.extend_from_slice(&4u32.to_le_bytes());
    d.extend_from_slice(&8192u32.to_le_bytes());
    assert_eq!(read_context_length_from(&d), Ok(Some(8192)));
    assert_eq!(read_context_length(&d), Some(8192));
}

#[test]
fn context_length_absent_or_not_gguf() {
    let d = header(3, 0);
    assert_eq!(read_context_length_from(&d), Ok(None));
    assert_eq!(read_context_length_from(b"NOPE0000"), Ok(None));
    let d4 = header(4, 0);
    assert_eq!(read_context_length_from(&d4), Ok(None));
    assert_eq!(read_context_length_from(b"GG"), Err(GgufReadError::UnexpectedEof));
}

#[test]
fn context_length_walk_errors() {
    let mut long = header(3, 1);
    long.extend_from_slice(&5000u64.to_le_bytes());
    assert_eq!(read_context_length_from(&long), Err(GgufReadError::KeyTooLong));
    assert_eq!(read_context_length(&long), None);

    let mut unknown = header(3, 1);
    key(&mut unknown, "x");
    unknown.extend_from_slice(&99u32.to_le_bytes());
    assert_eq!(read_context_length_from(&unknown), Err(GgufReadError::UnknownValueType));

    let mut short = header(3, 2);
    key(&mut short, "a");
    short.extend_from_slice(&10u32.to_le_bytes());
    assert_eq!(read_context_length_from(&short), Err(GgufReadError::UnexpectedEof));
}

#[test]
fn version_one_uses_u32_counts() {
    let mut d = b"GGUF".to_vec();
    d.extend_from_slice(&1u32.to_le_bytes());
    d.extend_from_slice(&0u32.to_le_bytes());
    d.extend_from_slice(&1u32.to_le_bytes());
    let k = "llama.context_length";
    d.extend_from_slice(&(k.len() as u32).to_le_bytes());
    d.extend_from_slice(k.as_bytes());
    d.extend_from_slice(&4u32.to_le_bytes());
    d.extend_from_slice(&2048u32.to_le_bytes());
    assert_eq!(read_context_length_from(&d), Ok(Some(2048)));
}

#[test]
fn primitive_reads_and_skips() {
    let d = [1u8, 0, 0, 0, 2, 0, 0, 0, 0, 0, 0, 0];
    assert_eq!(read_u32(&d, 0), Ok((1, 4)));
    assert_eq!(read_u64(&d, 4), Ok((2, 12)));
    assert_eq!(read_u32(&d, 10), Err(GgufReadError::UnexpectedEof));
    let mut s = Vec::new();
    s.extend_from_slice(&3u64.to_le_bytes());
    s.extend_from_slice(b"abc");
    assert_eq!(read_string(&s, 0, 3), Ok((b"abc".to_vec(), 11)));
    assert_eq!(skip_value(&s, 0, 10, 3), Ok(8));
    assert_eq!(skip_value(&s, 0, 13, 3), Err(GgufReadError::UnknownValueType));
    let mut a = Vec::new();
    a.extend_from_slice(&8u32.to_le_bytes());
    a.extend_from_slice(&2u64.to_le_bytes());
    a.extend_from_slice(&1u64.to_le_bytes());
    a.extend_from_slice(b"x");
    a.extend_from_slice(&0u64.to_le_bytes());
    assert_eq!(skip_array(&a, 0, 3), Ok(a.len() as u64));
}

fn meta_file() -> Vec<u8> {
    let mut d = header(3, 3);
    key(&mut d, "general.architecture");
    d.extend_from_slice(&11u32.to_le_bytes());
    d.extend_from_slice(&5u64.to_le_bytes());
    d.extend_from_slice(b"llama");
    key(&mut d, "llama.context_length");
    d.extend_from_slice(&4u32.to_le_bytes());
    d.extend_from_slice(&4096u64.to_le_bytes());
    key(&mut d, "general.file_type");
    d.extend_from_slice(&8u32.to_le_bytes());
    d.extend_from_slice(&15u32.to_le_bytes());
    d
}

#[test]
fn gguf_meta_is_read() {
    let m = parse_gguf_meta(&meta_file()).unwrap();
    assert_eq!(m.version, 3);
    assert_eq!(m.kv_count, 3);
    assert_eq!(m.architecture.as_deref(), Some("llama"));
    assert_eq!(m.context_length, Some(4096));
    assert_eq!(m.file_type, Some(15));
    assert_eq!(m.quantization_name, "Q4_K_M");
}

#[test]
fn gguf_meta_refusals() {
    assert_eq!(parse_gguf_meta(&[0u8; 10]).unwrap_err(), GgufMetaError::TooSmall);
    assert_eq!(parse_gguf_meta(&[0u8; 24]).unwrap_err(), GgufMetaError::NotGguf);
    let d = header(1, 0);
    assert_eq!(parse_gguf_meta(&d).unwrap_err(), GgufMetaError::UnsupportedVersion(1));
}

#[test]
fn quant_tables() {
    assert_eq!(gguf_file_type_name(15), "Q4_K_M");
    assert_eq!(gguf_file_type_name(200), "unknown");
    assert_eq!(lookup_format("q4_k_m").map(|f| f.name), Some("Q4_K_M"));
    assert!(lookup_format("q9").is_none());
    assert_eq!(quant_formats().iter().filter(|f| f.default_pick).count(), 1);
}
