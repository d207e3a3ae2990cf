//! Keys, signing and verification.
//!
//! A private key is the digest of a seed, reduced modulo the group order. A
//! signature on a message `m` under the private key `sk` with public key
//! `A = sk G` is the pair `(R, S)` with `R = r G` and `S = r + c sk`, where
//! the nonce `r` is the digest of the key and the message and the challenge
//! `c` is what the sponge gives for `(R, A, m)`. It verifies when
//! `S G = R + c A`. Every call works on what it is handed and nothing else.

use crate::curve::{
    curve_add, curve_mul, generator_mul, in_prime_subgroup, on_curve, AffinePoint, Point,
};
use crate::digest::{digest_scalar, from_digest, DigestKind};
use crate::encoder::{all_fit, reencode, reencoded, FieldElementSize};
use crate::encoding::{
    le_bytes, le_nat, lemma_le_bytes_len, lemma_le_bytes_of_le_nat, lemma_le_nat_of_le_bytes,
    take_32,
};
use crate::error::Error;
use crate::field::{group_order, lemma_bit_lengths, FieldElement, Scalar, GROUP_ORDER_BITS};
use crate::signature::{Signature, SignatureView};
use crate::sponge::{poseidon_squeeze, row_values, SpongeConfig, SpongeParameters};
use vstd::arithmetic::div_mod::{lemma_add_mod_noop_right, lemma_small_mod};
use vstd::arithmetic::power2::pow2;
use vstd::prelude::*;

verus! {

/// The number of bytes in a seed.
pub const SEED_BYTES: usize = 32;

/// The number of bytes in the encoding of a public key.
pub const VERIFYING_KEY_BYTES: usize = 64;

/// Whether a digest has at least as many bits as the group order.
pub open spec fn digest_covers_group_order(kind: DigestKind) -> bool {
    8 * kind.spec_output_len() >= GROUP_ORDER_BITS
}

/// The private scalar that a seed gives.
pub open spec fn private_scalar(kind: DigestKind, seed: Seq<u8>) -> nat {
    digest_scalar(kind, seed)
}

/// The nonce of a signature: the digest of the private scalar's bytes
/// followed by the message's bytes, as a scalar.
pub open spec fn nonce(kind: DigestKind, sk: nat, message: nat) -> nat {
    digest_scalar(kind, le_bytes(sk, 32) + le_bytes(message, 32))
}

/// The widths asked of the encoder for a challenge: one element, as wide as
/// the scalar field takes.
pub open spec fn challenge_sizes() -> Seq<FieldElementSize> {
    seq![FieldElementSize::Full]
}

/// What the sponge absorbs for a challenge.
pub open spec fn transcript(r: AffinePoint, a: AffinePoint, message: nat) -> Seq<nat> {
    seq![r.x, r.y, a.x, a.y, message]
}

/// The challenge of a signature with nonce point `r` under the public key
/// `a` on `message`: what the sponge squeezes after it absorbed the
/// transcript, carried over into the scalar field. The sponge works in the
/// base field, which is not the scalar field, so the encoder is always on
/// the way.
pub open spec fn challenge_of(
    parameters: SpongeParameters,
    r: AffinePoint,
    a: AffinePoint,
    message: nat,
) -> nat {
    reencoded(poseidon_squeeze(parameters, transcript(r, a, message)), challenge_sizes(), 0)
}

/// The signature of `message` under the private scalar `sk` that the nonce
/// `r` gives: `R = r G` and `S = r + c sk`.
pub open spec fn signature_with_nonce(
    sk: nat,
    r: nat,
    parameters: SpongeParameters,
    message: nat,
) -> SignatureView {
    let c: nat = challenge_of(parameters, generator_mul(r), generator_mul(sk), message);
    SignatureView { r: generator_mul(r), s: (r + c * sk) % group_order() }
}

/// The signature of `message` under the private scalar `sk`: the one that the
/// nonce derived from the key and the message gives.
pub open spec fn signature_of(
    kind: DigestKind,
    sk: nat,
    parameters: SpongeParameters,
    message: nat,
) -> SignatureView {
    signature_with_nonce(sk, nonce(kind, sk, message), parameters, message)
}

/// Whether a signature satisfies the verification equation `S G = R + c A`.
pub open spec fn verifies(
    a: AffinePoint,
    parameters: SpongeParameters,
    message: nat,
    sig: SignatureView,
) -> bool {
    generator_mul(sig.s) == curve_add(
        sig.r,
        curve_mul(a, challenge_of(parameters, sig.r, a, message)),
    )
}

/// Derives the challenge of a signature.
pub fn challenge(config: &SpongeConfig, r: &Point, a: &Point, message: &FieldElement) -> (c:
    Scalar)
    ensures
        c@ == challenge_of(config@, r@, a@, message@),
{
    let mut inputs: Vec<FieldElement> = Vec::new();
    inputs.push(r.x());
    inputs.push(r.y());
    inputs.push(a.x());
    inputs.push(a.y());
    inputs.push(*message);
    assert(row_values(inputs@) =~= transcript(r@, a@, message@));
    let squeezed = config.hash(&inputs);
    let sizes = [FieldElementSize::Full];
    proof {
        assert(sizes@ =~= challenge_sizes());
        assert(all_fit(sizes@));
    }
    let out = reencode(&squeezed, sizes.as_slice());
    out[0]
}

/// A public key: a point of the prime subgroup, `sk G` for the private
/// scalar `sk` of its owner.
#[derive(Clone, Copy, Debug, PartialEq, Eq)]
pub struct VerifyingKey {
    pub(crate) point: Point,
}

impl View for VerifyingKey {
    type V = AffinePoint;

    closed spec fn view(&self) -> AffinePoint {
        self.point@
    }
}

/// The encoding of a public key: its two coordinates, 32 bytes each.
pub open spec fn encode_verifying_key(a: AffinePoint) -> Seq<u8> {
    le_bytes(a.x, 32) + le_bytes(a.y, 32)
}

/// What a string of 64 bytes says the public key is.
pub open spec fn decode_verifying_key(bytes: Seq<u8>) -> AffinePoint {
    AffinePoint { x: le_nat(bytes.subrange(0, 32)), y: le_nat(bytes.subrange(32, 64)) }
}

/// Whether a byte string encodes a public key: it is 64 bytes long, and what
/// it says is a point of the prime subgroup.
pub open spec fn is_verifying_key_encoding(bytes: Seq<u8>) -> bool {
    &&& bytes.len() == VERIFYING_KEY_BYTES
    &&& on_curve(decode_verifying_key(bytes))
    &&& in_prime_subgroup(decode_verifying_key(bytes))
}

/// Decoding the encoding of a point of the prime subgroup gives the point
/// back.
pub proof fn lemma_decode_encode_verifying_key(a: AffinePoint)
    requires
        on_curve(a),
        in_prime_subgroup(a),
    ensures
        is_verifying_key_encoding(encode_verifying_key(a)),
        decode_verifying_key(encode_verifying_key(a)) == a,
{
    let bytes = encode_verifying_key(a);
    lemma_le_bytes_len(a.x, 32);
    lemma_le_bytes_len(a.y, 32);
    assert(bytes.subrange(0, 32) =~= le_bytes(a.x, 32));
    assert(bytes.subrange(32, 64) =~= le_bytes(a.y, 32));
    lemma_bit_lengths();
    lemma_le_nat_of_le_bytes(a.x, 32);
    lemma_le_nat_of_le_bytes(a.y, 32);
    lemma_small_mod(a.x, pow2(256));
    lemma_small_mod(a.y, pow2(256));
}

/// Encoding what 64 bytes decode to gives the bytes back.
pub proof fn lemma_encode_decode_verifying_key(bytes: Seq<u8>)
    requires
        bytes.len() == VERIFYING_KEY_BYTES,
    ensures
        encode_verifying_key(decode_verifying_key(bytes)) == bytes,
{
    lemma_le_bytes_of_le_nat(bytes.subrange(0, 32));
    lemma_le_bytes_of_le_nat(bytes.subrange(32, 64));
    assert(encode_verifying_key(decode_verifying_key(bytes)) =~= bytes);
}

impl VerifyingKey {
    /// Every public key is in the prime subgroup.
    #[verifier::type_invariant]
    pub open spec fn valid(self) -> bool {
        in_prime_subgroup(self@)
    }

    /// The public key that is this point, or `None` where the point is not in
    /// the prime subgroup.
    pub fn from_point(point: Point) -> (key: Option<VerifyingKey>)
        ensures
            key is Some <==> in_prime_subgroup(point@),
            key matches Some(made) ==> made@ == point@,
    {
        if point.is_in_correct_subgroup() {
            Some(VerifyingKey { point })
        } else {
            None
        }
    }

    /// The point that the key is.
    pub fn point(&self) -> (point: Point)
        ensures
            point@ == self@,
    {
        self.point
    }

    /// The two coordinates of the key.
    pub fn xy(&self) -> (xy: (FieldElement, FieldElement))
        ensures
            xy.0@ == self@.x,
            xy.1@ == self@.y,
    {
        (self.point.x(), self.point.y())
    }

    /// The 64 bytes that encode the key.
    pub fn to_bytes(&self) -> (bytes: Vec<u8>)
        ensures
            bytes@ == encode_verifying_key(self@),
            is_verifying_key_encoding(bytes@),
    {
        let mut bytes: Vec<u8> = Vec::new();
        let x = self.point.x().to_le_bytes();
        let y = self.point.y().to_le_bytes();
        bytes.extend_from_slice(x.as_slice());
        bytes.extend_from_slice(y.as_slice());
        proof {
            use_type_invariant(self);
            use_type_invariant(&self.point);
            lemma_decode_encode_verifying_key(self@);
            assert(bytes@ =~= encode_verifying_key(self@));
        }
        bytes
    }

    /// The key that `bytes` encode, or `None` where they encode none.
    pub fn from_bytes(bytes: &[u8]) -> (r: Option<VerifyingKey>)
        ensures
            r is Some <==> is_verifying_key_encoding(bytes@),
            r matches Some(key) ==> key@ == decode_verifying_key(bytes@),
    {
        if bytes.len() != VERIFYING_KEY_BYTES {
            return None;
        }
        let x = match FieldElement::from_le_bytes(&take_32(bytes, 0)) {
            Some(x) => x,
            None => {
                return None;
            },
        };
        let y = match FieldElement::from_le_bytes(&take_32(bytes, 32)) {
            Some(y) => y,
            None => {
                return None;
            },
        };
        match Point::new(x, y) {
            Some(point) => VerifyingKey::from_point(point),
            None => None,
        }
    }

    /// Checks a signature on a message: `Ok` where it satisfies the
    /// verification equation, `Error::Verify` where it does not.
    pub fn verify(&self, config: &SpongeConfig, message: &FieldElement, signature: &Signature) -> (r:
        Result<(), Error>)
        ensures
            r is Ok <==> verifies(self@, config@, message@, signature@),
            r matches Err(e) ==> e == Error::Verify,
    {
        let sig_r = signature.r();
        let c = challenge(config, &sig_r, &self.point, message);
        let left = Point::generator().mul(&signature.s());
        let right = sig_r.add(&self.point.mul(&c));
        if left.equals(&right) {
            Ok(())
        } else {
            Err(Error::Verify)
        }
    }
}

/// A private key as numbers: the seed, the digest that the key was derived
/// with, and the private scalar.
pub struct SigningKeyView {
    pub seed: Seq<u8>,
    pub digest: DigestKind,
    pub scalar: nat,
}

/// A private key: the seed it was derived from, the digest that derived it,
/// and the private scalar.
pub struct SigningKey {
    seed: [u8; 32],
    digest: DigestKind,
    scalar: Scalar,
}

impl View for SigningKey {
    type V = SigningKeyView;

    closed spec fn view(&self) -> SigningKeyView {
        SigningKeyView { seed: self.seed@, digest: self.digest, scalar: self.scalar@ }
    }
}

impl SigningKey {
    /// The private scalar of every key is the one that its seed gives, under
    /// a digest with as many bits as the group order has.
    #[verifier::type_invariant]
    pub open spec fn derived(self) -> bool {
        &&& digest_covers_group_order(self@.digest)
        &&& self@.scalar == private_scalar(self@.digest, self@.seed)
        &&& self@.seed.len() == SEED_BYTES
    }

    /// Derives the private key of a seed. Fails with `BadDigestOutput` where
    /// the digest has fewer bits than the group order.
    pub fn generate(seed: [u8; 32], digest: DigestKind) -> (r: Result<SigningKey, Error>)
        ensures
            r is Ok <==> digest_covers_group_order(digest),
            r matches Ok(key) ==> key@ == (SigningKeyView {
                seed: seed@,
                digest,
                scalar: private_scalar(digest, seed@),
            }),
            r matches Err(e) ==> e == Error::BadDigestOutput,
    {
        if digest.output_len() * 8 < GROUP_ORDER_BITS {
            return Err(Error::BadDigestOutput);
        }
        let scalar = from_digest(digest, seed.as_slice());
        Ok(SigningKey { seed, digest, scalar })
    }

    /// The seed that the key was derived from.
    pub fn seed(&self) -> (seed: [u8; 32])
        ensures
            seed@ == self@.seed,
    {
        self.seed
    }

    /// The digest that the key was derived with.
    pub fn digest(&self) -> (digest: DigestKind)
        ensures
            digest == self@.digest,
    {
        self.digest
    }

    /// The private scalar.
    pub fn scalar(&self) -> (scalar: Scalar)
        ensures
            scalar@ == self@.scalar,
    {
        self.scalar
    }

    /// The public key `sk G`.
    pub fn public_key(&self) -> (key: VerifyingKey)
        ensures
            key@ == generator_mul(self@.scalar),
            in_prime_subgroup(key@),
    {
        let point = Point::generator().mul(&self.scalar);
        proof {
            use_type_invariant(&self.scalar);
            assert(point@ == generator_mul(self.scalar@));
        }
        VerifyingKey { point }
    }

    /// Signs a message.
    pub fn sign(&self, config: &SpongeConfig, message: &FieldElement) -> (sig: Signature)
        ensures
            sig@ == signature_of(self@.digest, self@.scalar, config@, message@),
            in_prime_subgroup(sig@.r),
    {
        let mut data: Vec<u8> = Vec::new();
        let sk_bytes = self.scalar.to_le_bytes();
        let message_bytes = message.to_le_bytes();
        data.extend_from_slice(sk_bytes.as_slice());
        data.extend_from_slice(message_bytes.as_slice());
        let r = from_digest(self.digest, data.as_slice());
        let g = Point::generator();
        let sig_r = g.mul(&r);
        let a = g.mul(&self.scalar);
        let c = challenge(config, &sig_r, &a, message);
        let s = r.add(&c.mul(&self.scalar));
        proof {
            use_type_invariant(&r);
            assert(data@ =~= le_bytes(self.scalar@, 32) + le_bytes(message@, 32));
            assert(r@ == nonce(self.digest, self.scalar@, message@));
            assert(sig_r@ == generator_mul(r@));
            lemma_add_mod_noop_right(
                r@ as int,
                (c@ * self.scalar@) as int,
                group_order() as int,
            );
        }
        Signature::from_parts(sig_r, s)
    }
}

} // verus!
