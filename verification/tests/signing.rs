use base64::Engine;
use maranode::digest::{hash_messages, hash_output, hex_encode, output_sha256};
use maranode::secure::is_sha256_hex;
use maranode::signing::{sign_payload_b64, signer_pubkey_b64, verify_signed_payload, SignatureCheckError};
use maranode::digest::{hex_decode, HexError};

fn hex(s: &str) -> Vec<u8> {
    (0..s.len()).step_by(2).map(|i| u8::from_str_radix(&s[i..i + 2], 16).unwrap()).collect()
}

const SECRET: &str = "9d61b19deffd5a60ba844af492ec2cc44449c5697b326919703bac031cae7f60";
const PUBLIC: &str = "d75a980182b10ab7d54bfed3c964073a0ee172f3daa62325af021a68f707511a";
const SIG: &str = "e5564300c360ac729086e2cc806e828a84877f1eb8e5d974d873e065224901555fb8821590a33bacc61e39701cf9b46bd25bf5f0595bbe24655141438e7a100b";

#[test]
fn rfc8032_vector_signs_and_verifies() {
    let secret = hex(SECRET);
    let pk = signer_pubkey_b64(&secret);
    let sig = sign_payload_b64(&secret, b"");
    let std = base64::engine::general_purpose::STANDARD;
    assert_eq!(std.decode(&pk).unwrap(), hex(PUBLIC));
    assert_eq!(std.decode(&sig).unwrap(), hex(SIG));
    assert_eq!(verify_signed_payload(&pk, &sig, b""), Ok(()));
}

#[test]
fn signatures_bind_the_payload_and_key() {
    let secret = [7u8; 32];
    let pk = signer_pubkey_b64(&secret);
    let sig = sign_payload_b64(&secret, b"{\"a\":1}");
    assert_eq!(verify_signed_payload(&pk, &sig, b"{\"a\":1}"), Ok(()));
    assert_eq!(verify_signed_payload(&pk, &sig, b"{\"a\":2}"), Err(SignatureCheckError::SignatureInvalid));
    let other = signer_pubkey_b64(&[8u8; 32]);
    assert_eq!(verify_signed_payload(&other, &sig, b"{\"a\":1}"), Err(SignatureCheckError::SignatureInvalid));
}

#[test]
fn malformed_keys_and_signatures_are_refused_in_order() {
    let secret = [1u8; 32];
    let pk = signer_pubkey_b64(&secret);
    let sig = sign_payload_b64(&secret, b"x");
    assert_eq!(verify_signed_payload("%%%", "%%%", b"x"), Err(SignatureCheckError::PubkeyNotBase64));
    assert_eq!(verify_signed_payload("AAAA", &sig, b"x"), Err(SignatureCheckError::PubkeyWrongLength));
    assert_eq!(verify_signed_payload(&pk, "%%%", b"x"), Err(SignatureCheckError::SignatureNotBase64));
    assert_eq!(verify_signed_payload(&pk, "AAAA", b"x"), Err(SignatureCheckError::SignatureWrongLength));
}

#[test]
fn digests_are_lowercase_sha256_hex() {
    assert_eq!(output_sha256(""), "e3b0c44298fc1c149afbf4c8996fb92427ae41e4649b934ca495991b7852b855");
    assert_eq!(hash_output("abc"), "ba7816bf8f01cfea414140de5dae2223b00361a396177a9cb410ff61f20015ad");
    assert!(is_sha256_hex(&output_sha256("anything")));
    assert_eq!(hex_encode(&[0x00, 0xab, 0x10]), "00ab10");
    let parts = vec![b"a".to_vec(), b"bc".to_vec()];
    assert_eq!(hash_messages(&parts), hash_output("abc"));
    assert_eq!(hash_messages(&[]), output_sha256(""));
}

#[test]
fn hex_text_decodes_back_to_its_bytes() {
    let bytes = vec![0u8, 1, 0x7f, 0x80, 0xfe, 0xff];
    let text = hex_encode(&bytes);
    assert_eq!(text, "00017f80feff");
    assert_eq!(hex_decode(text.as_bytes()), Ok(bytes));
    assert_eq!(hex_decode(b"ABCDEF"), Ok(vec![0xab, 0xcd, 0xef]));
    assert_eq!(hex_decode(b"zz"), Err(HexError::InvalidByte { byte: b'z', index: 0 }));
}
