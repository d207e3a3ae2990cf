use ark_crypto_primitives::sponge::poseidon::{find_poseidon_ark_and_mds, PoseidonConfig, PoseidonSponge};
use ark_crypto_primitives::sponge::{CryptographicSponge, FieldBasedCryptographicSponge};
use ark_ec::{AffineRepr, CurveGroup};
use ark_ed_on_bn254::{EdwardsAffine, Fq, Fr};
use ark_ff::{BigInteger, PrimeField};
use eddsa_poseidon::curve::Point;
use eddsa_poseidon::digest::{from_digest, DigestKind};
use eddsa_poseidon::eddsa::challenge;
use eddsa_poseidon::field::{FieldElement, Scalar};
use eddsa_poseidon::sponge::SpongeConfig;
use eddsa_poseidon::{Error, Signature, SigningKey, VerifyingKey};
use rand_core::{OsRng, RngCore};
use sha2::{Digest, Sha512};

fn hex(text: &str) -> [u8; 32] {
    let mut out = [0u8; 32];
    for i in 0..32 {
        out[i] = u8::from_str_radix(&text[2 * i..2 * i + 2], 16).unwrap();
    }
    out
}

fn element(x: &Fq) -> FieldElement {
    let bytes: [u8; 32] = x.into_bigint().to_bytes_le().try_into().unwrap();
    FieldElement::from_le_bytes(&bytes).unwrap()
}

fn elements(rows: &[Vec<Fq>]) -> Vec<Vec<FieldElement>> {
    rows.iter().map(|row| row.iter().map(element).collect()).collect()
}

fn ark_config(rate: usize, full_rounds: usize, partial_rounds: usize) -> PoseidonConfig<Fq> {
    let (ark, mds) = find_poseidon_ark_and_mds::<Fq>(
        Fq::MODULUS_BIT_SIZE as u64,
        rate,
        full_rounds as u64,
        partial_rounds as u64,
        0,
    );
    PoseidonConfig::new(full_rounds, partial_rounds, 5, mds, ark, rate, 1)
}

/// Generates poseidon constants and returns the config
fn poseidon_config(rate: usize, full_rounds: usize, partial_rounds: usize) -> SpongeConfig {
    let config = ark_config(rate, full_rounds, partial_rounds);
    SpongeConfig::new(
        config.full_rounds,
        config.partial_rounds,
        config.alpha,
        elements(&config.mds),
        elements(&config.ark),
        config.rate,
        config.capacity,
    )
    .unwrap()
}

fn number(v: u8) -> FieldElement {
    FieldElement::from_le_bytes_mod_order(&[v])
}

fn fixed_seed() -> [u8; 32] {
    let mut seed = [0u8; 32];
    for (i, b) in seed.iter_mut().enumerate() {
        *b = i as u8;
    }
    seed
}

fn run_test(digest: DigestKind) {
    let poseidon = poseidon_config(5, 8, 60);
    let mut seed = [0u8; 32];
    OsRng.fill_bytes(&mut seed);
    let signing_key = SigningKey::generate(seed, digest).unwrap();
    let message = number(1);
    let signature = signing_key.sign(&poseidon, &message);
    let public_key = signing_key.public_key();

    println!("poseidon m {:?}", message.to_le_bytes());
    println!("poseidon rx {:?}", signature.r().x().to_le_bytes());
    println!("poseidon ry {:?}", signature.r().y().to_le_bytes());
    println!("poseidon s {:?}", signature.s().to_le_bytes());
    println!("poseidon pub 0 {:?}", public_key.xy().0.to_le_bytes());
    println!("poseidon pub 1 {:?}", public_key.xy().1.to_le_bytes());

    public_key.verify(&poseidon, &message, &signature).unwrap();
}

#[test]
fn test_eddsa() {
    run_test(DigestKind::Sha512);
    run_test(DigestKind::Sha256);
}

#[test]
fn signatures_of_many_messages_verify() {
    let poseidon = poseidon_config(5, 8, 60);
    for i in 0u8..8 {
        let key = SigningKey::generate([i; 32], DigestKind::Sha512).unwrap();
        let public_key = key.public_key();
        for m in 0u8..4 {
            let message = FieldElement::from_le_bytes_mod_order(&[m, i, 0xfe, 0x01]);
            let signature = key.sign(&poseidon, &message);
            assert_eq!(public_key.verify(&poseidon, &message, &signature), Ok(()));
            assert!(signature.r().is_in_correct_subgroup());
        }
    }
}

#[test]
fn pinned_signature_sha512() {
    let poseidon = poseidon_config(5, 8, 60);
    let key = SigningKey::generate(fixed_seed(), DigestKind::Sha512).unwrap();
    assert_eq!(
        key.scalar().to_le_bytes(),
        hex("315cfa7d228ccf1c61ac1211a0b666f8e63546d93f6e968eada842e478c1ea05")
    );
    let public_key = key.public_key();
    assert_eq!(
        public_key.xy().0.to_le_bytes(),
        hex("b52dfd5cfe8a5d925122ad22e5a7eeeedd05461da351f0d4d97c1f6f9868301c")
    );
    assert_eq!(
        public_key.xy().1.to_le_bytes(),
        hex("432288f0d6e1bb2129ba0e982c217554bba2f400d327f437a87307f3f3bc0024")
    );
    let signature = key.sign(&poseidon, &number(1));
    assert_eq!(
        signature.r().x().to_le_bytes(),
        hex("14562982fb735ca2af7a9d24e1d554a6b9f7317cffbd789d82b4e1e53a8d0512")
    );
    assert_eq!(
        signature.r().y().to_le_bytes(),
        hex("7d86048aeb30890b918bc841ee86c76142dfc7ab98d575f66ec98e86bdb28b11")
    );
    assert_eq!(
        signature.s().to_le_bytes(),
        hex("9549104bdaa925ebbf8af7c292a06e206f740b712402817770d8c31e626ae705")
    );
    assert_eq!(public_key.verify(&poseidon, &number(1), &signature), Ok(()));
}

#[test]
fn pinned_signature_sha256() {
    let poseidon = poseidon_config(5, 8, 60);
    let key = SigningKey::generate(fixed_seed(), DigestKind::Sha256).unwrap();
    assert_eq!(
        key.scalar().to_le_bytes(),
        hex("7f9323216e6916da1a99b23fd344823a5005de55bef3480bf070596316764d03")
    );
    let signature = key.sign(&poseidon, &number(1));
    assert_eq!(
        signature.r().x().to_le_bytes(),
        hex("d31d9c232f206996f48c5f8f00cb7954a8dafc653399ae70ed15b1e1491d0201")
    );
    assert_eq!(
        signature.r().y().to_le_bytes(),
        hex("445e8817dbbd2a0b8c80835d7d51317c5011f5b72b3ba0fefe2d9122b4d3c81a")
    );
    assert_eq!(
        signature.s().to_le_bytes(),
        hex("f5532e33308a5a2647655097448e71a3954cdb025bdbd51ffac231885e1ead00")
    );
}

#[test]
fn pinned_challenge() {
    let poseidon = poseidon_config(5, 8, 60);
    let key = SigningKey::generate(fixed_seed(), DigestKind::Sha512).unwrap();
    let signature = key.sign(&poseidon, &number(1));
    let c = challenge(&poseidon, &signature.r(), &key.public_key().point(), &number(1));
    assert_eq!(
        c.to_le_bytes(),
        hex("2c37e3ec09f1b352cafd56cad0399fda3ded0c9a46b879af5edd68c91047a500")
    );
}

#[test]
fn signing_twice_gives_the_same_bytes() {
    let poseidon = poseidon_config(5, 8, 60);
    let key = SigningKey::generate([42u8; 32], DigestKind::Sha512).unwrap();
    let message = number(77);
    let first = key.sign(&poseidon, &message);
    let second = key.sign(&poseidon, &message);
    assert_eq!(first, second);
    assert_eq!(first.to_bytes(), second.to_bytes());
    let again = SigningKey::generate([42u8; 32], DigestKind::Sha512).unwrap();
    assert_eq!(again.sign(&poseidon, &message).to_bytes(), first.to_bytes());
    // another message gives another nonce
    let other = key.sign(&poseidon, &number(78));
    assert_ne!(other.r(), first.r());
}

#[test]
fn changed_message_fails() {
    let poseidon = poseidon_config(5, 8, 60);
    let key = SigningKey::generate([1u8; 32], DigestKind::Sha512).unwrap();
    let signature = key.sign(&poseidon, &number(1));
    assert_eq!(key.public_key().verify(&poseidon, &number(2), &signature), Err(Error::Verify));
}

#[test]
fn changed_nonce_point_fails() {
    let poseidon = poseidon_config(5, 8, 60);
    let key = SigningKey::generate([1u8; 32], DigestKind::Sha512).unwrap();
    let signature = key.sign(&poseidon, &number(1));
    let moved = signature.r().add(&Point::generator());
    let forged = Signature::new(moved, signature.s()).unwrap();
    assert_eq!(key.public_key().verify(&poseidon, &number(1), &forged), Err(Error::Verify));
}

#[test]
fn changed_scalar_fails() {
    let poseidon = poseidon_config(5, 8, 60);
    let key = SigningKey::generate([1u8; 32], DigestKind::Sha512).unwrap();
    let signature = key.sign(&poseidon, &number(1));
    let moved = signature.s().add(&Scalar::from_le_bytes_mod_order(&[1]));
    let forged = Signature::new(signature.r(), moved).unwrap();
    assert_eq!(key.public_key().verify(&poseidon, &number(1), &forged), Err(Error::Verify));
}

#[test]
fn other_public_key_fails() {
    let poseidon = poseidon_config(5, 8, 60);
    let key = SigningKey::generate([1u8; 32], DigestKind::Sha512).unwrap();
    let other = SigningKey::generate([2u8; 32], DigestKind::Sha512).unwrap();
    let signature = key.sign(&poseidon, &number(1));
    assert_eq!(other.public_key().verify(&poseidon, &number(1), &signature), Err(Error::Verify));
    assert_eq!(key.public_key().verify(&poseidon, &number(1), &signature), Ok(()));
}

#[test]
fn other_sponge_parameters_fail() {
    let poseidon = poseidon_config(5, 8, 60);
    let other = poseidon_config(5, 8, 57);
    let key = SigningKey::generate([1u8; 32], DigestKind::Sha512).unwrap();
    let signature = key.sign(&poseidon, &number(1));
    assert_eq!(key.public_key().verify(&other, &number(1), &signature), Err(Error::Verify));
}

#[test]
fn degenerate_signatures_are_rejected() {
    let poseidon = poseidon_config(5, 8, 60);
    let key = SigningKey::generate([1u8; 32], DigestKind::Sha512).unwrap();
    let neutral = Point::new(number(0), number(1)).unwrap();
    let zero = Scalar::from_le_bytes_mod_order(&[]);
    let signature = key.sign(&poseidon, &number(1));
    let public_key = key.public_key();
    for forged in [
        Signature::new(neutral, zero),
        Signature::new(neutral, signature.s()),
        Signature::new(signature.r(), zero),
        Signature::new(Point::generator(), Scalar::from_le_bytes_mod_order(&[1])),
    ] {
        assert_eq!(public_key.verify(&poseidon, &number(1), &forged.unwrap()), Err(Error::Verify));
    }
    // the neutral element as the public key
    let weak = VerifyingKey::from_point(neutral).unwrap();
    assert_eq!(weak.verify(&poseidon, &number(1), &signature), Err(Error::Verify));
}

#[test]
fn points_outside_the_prime_subgroup_make_no_key_and_no_signature() {
    // (0, -1) is a point of the curve, of order two
    let minus_one = FieldElement::from_le_bytes(&hex(
        "000000f093f5e1439170b97948e833285d588181b64550b829a031e1724e6430",
    ))
    .unwrap();
    let odd = Point::new(number(0), minus_one).unwrap();
    assert!(VerifyingKey::from_point(odd).is_none());
    assert!(Signature::new(odd, Scalar::from_le_bytes_mod_order(&[1])).is_none());
    let moved = Point::generator().add(&odd);
    assert!(VerifyingKey::from_point(moved).is_none());
    assert!(Signature::new(moved, Scalar::from_le_bytes_mod_order(&[1])).is_none());
    assert!(VerifyingKey::from_point(Point::generator()).is_some());
}

#[test]
fn short_digest_is_refused() {
    let r = SigningKey::generate([7u8; 32], DigestKind::Sha224);
    assert!(matches!(r, Err(Error::BadDigestOutput)));
    assert!(SigningKey::generate([7u8; 32], DigestKind::Sha256).is_ok());
    assert!(SigningKey::generate([7u8; 32], DigestKind::Sha512).is_ok());
}

#[test]
fn parts_of_a_signing_key() {
    let key = SigningKey::generate(fixed_seed(), DigestKind::Sha256).unwrap();
    assert_eq!(key.seed(), fixed_seed());
    assert_eq!(key.digest(), DigestKind::Sha256);
    assert!(key.scalar().equals(&from_digest(DigestKind::Sha256, &fixed_seed())));
    let public_key = key.public_key();
    assert!(public_key.point().equals(&Point::generator().mul(&key.scalar())));
    assert!(public_key.point().is_in_correct_subgroup());
}

#[test]
fn digest_is_reduced_to_a_scalar() {
    assert_eq!(
        from_digest(DigestKind::Sha512, b"abc").to_le_bytes(),
        hex("915bfde5cac4130c6f79dd2a92ec3a80f2b4465d4e28679dada4d4ad8b104903")
    );
    assert_eq!(
        from_digest(DigestKind::Sha256, b"abc").to_le_bytes(),
        hex("5e36767f7965469a1e38a69e37ae4068694e1cde972361972260d14d60eeb503")
    );
    assert_eq!(
        from_digest(DigestKind::Sha224, b"abc").to_le_bytes(),
        hex("23097d223405d8228642a477bda255b32aadbce4bda0b3f7e36c9da700000000")
    );
}

#[test]
fn digests_have_their_lengths() {
    assert_eq!(DigestKind::Sha224.output_len(), 28);
    assert_eq!(DigestKind::Sha256.output_len(), 32);
    assert_eq!(DigestKind::Sha512.output_len(), 64);
    for kind in [DigestKind::Sha224, DigestKind::Sha256, DigestKind::Sha512] {
        assert_eq!(kind.hash(b"abc").len(), kind.output_len());
        assert_ne!(kind.hash(b"abc"), kind.hash(b"abd"));
    }
    assert_eq!(DigestKind::Sha512.hash(b"abc"), Sha512::digest(b"abc").to_vec());
    assert_eq!(DigestKind::Sha224.hash(b"abc")[..4], [0x23, 0x09, 0x7d, 0x22]);
}

/// The scheme written a second time, on the curve library alone.
fn sign_with_ark(seed: &[u8; 32], config: &PoseidonConfig<Fq>, message: Fq) -> (EdwardsAffine, Fr) {
    let sk = Fr::from_le_bytes_mod_order(&Sha512::digest(seed));
    let mut hasher = Sha512::new();
    hasher.update(sk.into_bigint().to_bytes_le());
    hasher.update(message.into_bigint().to_bytes_le());
    let r = Fr::from_le_bytes_mod_order(&hasher.finalize());
    let sig_r = (EdwardsAffine::generator() * r).into_affine();
    let a = (EdwardsAffine::generator() * sk).into_affine();
    let c = challenge_with_ark(config, &sig_r, &a, message);
    (sig_r, r + c * sk)
}

fn challenge_with_ark(config: &PoseidonConfig<Fq>, r: &EdwardsAffine, a: &EdwardsAffine, message: Fq) -> Fr {
    let mut sponge = PoseidonSponge::new(config);
    sponge.absorb(&r.x);
    sponge.absorb(&r.y);
    sponge.absorb(&a.x);
    sponge.absorb(&a.y);
    sponge.absorb(&message);
    let h: Fq = sponge.squeeze_native_field_elements(1)[0];
    let mut bytes = h.into_bigint().to_bytes_le();
    bytes[31] &= 0x0f;
    Fr::from_le_bytes_mod_order(&bytes)
}

fn verify_with_ark(config: &PoseidonConfig<Fq>, a: &EdwardsAffine, message: Fq, r: &EdwardsAffine, s: Fr) -> bool {
    let c = challenge_with_ark(config, r, a, message);
    (EdwardsAffine::generator() * s).into_affine() == (*r + *a * c).into_affine()
}

fn point_of(p: &EdwardsAffine) -> Point {
    Point::new(element(&p.x), element(&p.y)).unwrap()
}

fn fq_of(x: &FieldElement) -> Fq {
    Fq::from_le_bytes_mod_order(&x.to_le_bytes())
}

#[test]
fn signatures_of_another_implementation_verify() {
    let ark = ark_config(5, 8, 60);
    let poseidon = poseidon_config(5, 8, 60);
    for i in 0u8..6 {
        let seed = [i.wrapping_mul(29); 32];
        let message = Fq::from(1000u32 + i as u32);
        let (r, s) = sign_with_ark(&seed, &ark, message);
        let s_bytes: [u8; 32] = s.into_bigint().to_bytes_le().try_into().unwrap();
        let signature =
            Signature::new(point_of(&r), Scalar::from_le_bytes(&s_bytes).unwrap()).unwrap();
        let key = SigningKey::generate(seed, DigestKind::Sha512).unwrap();
        assert_eq!(key.public_key().verify(&poseidon, &element(&message), &signature), Ok(()));
        // and it is the signature that this library makes
        assert_eq!(key.sign(&poseidon, &element(&message)), signature);
    }
}

#[test]
fn signatures_with_another_nonce_verify() {
    let ark = ark_config(5, 8, 60);
    let poseidon = poseidon_config(5, 8, 60);
    let seed = [9u8; 32];
    let sk = Fr::from_le_bytes_mod_order(&Sha512::digest(seed));
    let a = (EdwardsAffine::generator() * sk).into_affine();
    let key = SigningKey::generate(seed, DigestKind::Sha512).unwrap();
    for i in 0u64..5 {
        // a signer that takes a counter as its nonce
        let r = Fr::from(1_000_003u64 * (i + 1));
        let message = Fq::from(55u8);
        let sig_r = (EdwardsAffine::generator() * r).into_affine();
        let s = r + challenge_with_ark(&ark, &sig_r, &a, message) * sk;
        let s_bytes: [u8; 32] = s.into_bigint().to_bytes_le().try_into().unwrap();
        let signature =
            Signature::new(point_of(&sig_r), Scalar::from_le_bytes(&s_bytes).unwrap()).unwrap();
        assert_eq!(key.public_key().verify(&poseidon, &element(&message), &signature), Ok(()));
        assert_ne!(key.sign(&poseidon, &element(&message)), signature);
    }
}

#[test]
fn signatures_verify_under_another_implementation() {
    let ark = ark_config(5, 8, 60);
    let poseidon = poseidon_config(5, 8, 60);
    for i in 0u8..6 {
        let key = SigningKey::generate([i.wrapping_add(100); 32], DigestKind::Sha256).unwrap();
        let message = number(i);
        let signature = key.sign(&poseidon, &message);
        let pk = key.public_key();
        let a = EdwardsAffine::new(fq_of(&pk.xy().0), fq_of(&pk.xy().1));
        let r = EdwardsAffine::new(fq_of(&signature.r().x()), fq_of(&signature.r().y()));
        let s = Fr::from_le_bytes_mod_order(&signature.s().to_le_bytes());
        assert!(verify_with_ark(&ark, &a, fq_of(&message), &r, s));
        assert!(!verify_with_ark(&ark, &a, fq_of(&number(i + 1)), &r, s));
    }
}

#[test]
fn error_texts() {
    assert_eq!(Error::Verify.to_string(), "Signature verification failed");
    assert_eq!(Error::BadDigestOutput.to_string(), "Bad digest output size");
    assert_ne!(Error::Verify, Error::BadDigestOutput);
}
