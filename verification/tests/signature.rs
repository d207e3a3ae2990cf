use eddsa_poseidon::curve::Point;
use eddsa_poseidon::digest::DigestKind;
use eddsa_poseidon::field::{FieldElement, Scalar};
use eddsa_poseidon::{Signature, SigningKey, VerifyingKey};

fn signature_hex(text: &str) -> [u8; 32] {
    let mut out = [0u8; 32];
    for i in 0..32 {
        out[i] = u8::from_str_radix(&text[2 * i..2 * i + 2], 16).unwrap();
    }
    out
}

const SIG_GX: &str = "326c87820d81d2594d347ead9a42bce37e924adfdee7411de3ca05b991fd8c2b";
const SIG_GY: &str = "1f861a672cfc76c26ae1c0db15117c2a767b27101fedac909e2058a7246caa2a";
const SIG_MODULUS: &str = "010000f093f5e1439170b97948e833285d588181b64550b829a031e1724e6430";
const SIG_MINUS_ONE: &str = "000000f093f5e1439170b97948e833285d588181b64550b829a031e1724e6430";
const SIG_ORDER: &str = "f1262139dc9772670aee2039b8ed3eab0b2b30d0b6080a370534265cce890c06";

fn encoding(x: &str, y: &str, s: &str) -> Vec<u8> {
    let mut bytes = Vec::new();
    bytes.extend_from_slice(&signature_hex(x));
    bytes.extend_from_slice(&signature_hex(y));
    bytes.extend_from_slice(&signature_hex(s));
    bytes
}

#[test]
fn signature_is_three_fields_of_32_bytes() {
    let s = Scalar::from_le_bytes_mod_order(&[5, 6, 7]);
    let signature = Signature::new(Point::generator(), s).unwrap();
    let bytes = signature.to_bytes();
    assert_eq!(bytes.len(), 96);
    assert_eq!(bytes[..32], signature_hex(SIG_GX));
    assert_eq!(bytes[32..64], signature_hex(SIG_GY));
    assert_eq!(bytes[64..67], [5, 6, 7]);
    assert!(bytes[67..].iter().all(|b| *b == 0));
}

#[test]
fn signature_survives_its_encoding() {
    let s = Scalar::from_le_bytes_mod_order(&[0xff; 32]);
    let signature = Signature::new(Point::generator().mul(&s), s).unwrap();
    let decoded = Signature::from_bytes(&signature.to_bytes()).unwrap();
    assert_eq!(decoded, signature);
    assert!(decoded.r().equals(&signature.r()));
    assert!(decoded.s().equals(&signature.s()));
    assert_eq!(decoded.to_bytes(), signature.to_bytes());
}

#[test]
fn signature_of_wrong_length_is_refused() {
    let good = encoding(
        SIG_GX,
        SIG_GY,
        "f0262139dc9772670aee2039b8ed3eab0b2b30d0b6080a370534265cce890c06",
    );
    assert!(Signature::from_bytes(&good).is_some());
    assert!(Signature::from_bytes(&good[..95]).is_none());
    assert!(Signature::from_bytes(&[]).is_none());
    let mut long = good.clone();
    long.push(0);
    assert!(Signature::from_bytes(&long).is_none());
}

#[test]
fn signature_with_unreduced_fields_is_refused() {
    // S is the group order
    assert!(Signature::from_bytes(&encoding(SIG_GX, SIG_GY, SIG_ORDER)).is_none());
    // x is zero plus the modulus: the neutral element, not reduced
    let zero = "0000000000000000000000000000000000000000000000000000000000000000";
    let one = "0100000000000000000000000000000000000000000000000000000000000000";
    assert!(Signature::from_bytes(&encoding(zero, one, zero)).is_some());
    assert!(Signature::from_bytes(&encoding(SIG_MODULUS, one, zero)).is_none());
    assert!(Signature::from_bytes(&encoding(zero, SIG_MODULUS, zero)).is_none());
}

#[test]
fn signature_off_the_curve_is_refused() {
    let one = "0100000000000000000000000000000000000000000000000000000000000000";
    assert!(Signature::from_bytes(&encoding(one, one, one)).is_none());
    assert!(Signature::from_bytes(&encoding(SIG_GX, one, one)).is_none());
}

#[test]
fn signature_outside_the_subgroup_is_refused() {
    // R = (0, -1), a point of the curve of order two
    let zero = "0000000000000000000000000000000000000000000000000000000000000000";
    let one = "0100000000000000000000000000000000000000000000000000000000000000";
    assert!(Signature::from_bytes(&encoding(zero, SIG_MINUS_ONE, one)).is_none());
    assert!(Signature::from_bytes(&encoding(zero, one, one)).is_some());
}

#[test]
fn parts_of_a_signature() {
    let s = Scalar::from_le_bytes_mod_order(&[9]);
    let r = Point::generator().add(&Point::generator());
    let signature = Signature::new(r, s).unwrap();
    assert!(signature.r().equals(&r));
    assert!(signature.s().equals(&s));
    assert!(!signature.r().equals(&Point::generator()));
}

#[test]
fn verifying_key_survives_its_encoding() {
    let key = SigningKey::generate([3u8; 32], DigestKind::Sha512).unwrap().public_key();
    let bytes = key.to_bytes();
    assert_eq!(bytes.len(), 64);
    assert_eq!(bytes[..32], key.xy().0.to_le_bytes());
    assert_eq!(bytes[32..], key.xy().1.to_le_bytes());
    let decoded = VerifyingKey::from_bytes(&bytes).unwrap();
    assert_eq!(decoded, key);
    assert_eq!(decoded.to_bytes(), bytes);
}

#[test]
fn verifying_key_outside_the_subgroup_is_refused() {
    let zero = "0000000000000000000000000000000000000000000000000000000000000000";
    let mut bytes = Vec::new();
    bytes.extend_from_slice(&signature_hex(zero));
    bytes.extend_from_slice(&signature_hex(SIG_MINUS_ONE));
    // a point of the curve, of order two
    let x = FieldElement::from_le_bytes(&signature_hex(zero)).unwrap();
    let y = FieldElement::from_le_bytes(&signature_hex(SIG_MINUS_ONE)).unwrap();
    assert!(Point::new(x, y).is_some());
    assert!(VerifyingKey::from_bytes(&bytes).is_none());
}

#[test]
fn malformed_verifying_key_is_refused() {
    let mut good = Vec::new();
    good.extend_from_slice(&signature_hex(SIG_GX));
    good.extend_from_slice(&signature_hex(SIG_GY));
    assert!(VerifyingKey::from_bytes(&good).is_some());
    assert!(VerifyingKey::from_bytes(&good[..63]).is_none());
    let mut off = good.clone();
    off[0] ^= 1;
    assert!(VerifyingKey::from_bytes(&off).is_none());
    let mut unreduced = Vec::new();
    unreduced.extend_from_slice(&signature_hex(SIG_MODULUS));
    unreduced.extend_from_slice(&signature_hex("0100000000000000000000000000000000000000000000000000000000000000"));
    assert!(VerifyingKey::from_bytes(&unreduced).is_none());
}
