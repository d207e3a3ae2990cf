//! A signature and its encoding: the two coordinates of `R` and the scalar
//! `S`, each as 32 bytes, least significant byte first.

use crate::curve::{in_prime_subgroup, on_curve, AffinePoint, Point};
use crate::encoding::{
    le_bytes, le_nat, lemma_le_bytes_len, lemma_le_bytes_of_le_nat, lemma_le_nat_of_le_bytes,
    take_32,
};
use crate::field::{group_order, lemma_bit_lengths, FieldElement, Scalar};
use vstd::arithmetic::div_mod::lemma_small_mod;
use vstd::arithmetic::power2::pow2;
use vstd::prelude::*;

verus! {

/// The number of bytes in the encoding of a signature.
pub const SIGNATURE_BYTES: usize = 96;

/// A signature as numbers: the point `R` and the scalar `S`.
pub struct SignatureView {
    pub r: AffinePoint,
    pub s: nat,
}

/// A signature: the point `R = r G` of the nonce and the scalar
/// `S = r + c sk` that answers the challenge `c`.
#[derive(Clone, Copy, Debug, PartialEq, Eq)]
pub struct Signature {
    pub(crate) r: Point,
    pub(crate) s: Scalar,
}

impl View for Signature {
    type V = SignatureView;

    closed spec fn view(&self) -> SignatureView {
        SignatureView { r: self.r@, s: self.s@ }
    }
}

/// The encoding of a signature: `R.x`, `R.y` and `S`, 32 bytes each.
pub open spec fn encode_signature(sig: SignatureView) -> Seq<u8> {
    le_bytes(sig.r.x, 32) + le_bytes(sig.r.y, 32) + le_bytes(sig.s, 32)
}

/// What a string of 96 bytes says the signature is.
pub open spec fn decode_signature(bytes: Seq<u8>) -> SignatureView {
    SignatureView {
        r: AffinePoint { x: le_nat(bytes.subrange(0, 32)), y: le_nat(bytes.subrange(32, 64)) },
        s: le_nat(bytes.subrange(64, 96)),
    }
}

/// Whether a signature is made of a point of the prime subgroup and a reduced
/// scalar.
pub open spec fn well_formed_signature(sig: SignatureView) -> bool {
    on_curve(sig.r) && in_prime_subgroup(sig.r) && sig.s < group_order()
}

/// Whether a byte string encodes a signature: it is 96 bytes long, and what
/// it says is a point of the prime subgroup and a reduced scalar.
pub open spec fn is_signature_encoding(bytes: Seq<u8>) -> bool {
    bytes.len() == SIGNATURE_BYTES && well_formed_signature(decode_signature(bytes))
}

/// Decoding the encoding of a well-formed signature gives the signature back.
pub proof fn lemma_decode_encode_signature(sig: SignatureView)
    requires
        well_formed_signature(sig),
    ensures
        is_signature_encoding(encode_signature(sig)),
        decode_signature(encode_signature(sig)) == sig,
{
    let bytes = encode_signature(sig);
    lemma_le_bytes_len(sig.r.x, 32);
    lemma_le_bytes_len(sig.r.y, 32);
    lemma_le_bytes_len(sig.s, 32);
    assert(bytes.subrange(0, 32) =~= le_bytes(sig.r.x, 32));
    assert(bytes.subrange(32, 64) =~= le_bytes(sig.r.y, 32));
    assert(bytes.subrange(64, 96) =~= le_bytes(sig.s, 32));
    lemma_bit_lengths();
    lemma_le_nat_of_le_bytes(sig.r.x, 32);
    lemma_le_nat_of_le_bytes(sig.r.y, 32);
    lemma_le_nat_of_le_bytes(sig.s, 32);
    lemma_small_mod(sig.r.x, pow2(256));
    lemma_small_mod(sig.r.y, pow2(256));
    lemma_small_mod(sig.s, pow2(256));
}

/// Encoding what 96 bytes decode to gives the bytes back.
pub proof fn lemma_encode_decode_signature(bytes: Seq<u8>)
    requires
        bytes.len() == SIGNATURE_BYTES,
    ensures
        encode_signature(decode_signature(bytes)) == bytes,
{
    lemma_le_bytes_of_le_nat(bytes.subrange(0, 32));
    lemma_le_bytes_of_le_nat(bytes.subrange(32, 64));
    lemma_le_bytes_of_le_nat(bytes.subrange(64, 96));
    assert(encode_signature(decode_signature(bytes)) =~= bytes);
}

impl Signature {
    /// The point `R` of every signature is in the prime subgroup.
    #[verifier::type_invariant]
    pub open spec fn valid(self) -> bool {
        in_prime_subgroup(self@.r)
    }

    /// The signature made of a point of the prime subgroup and a scalar.
    pub(crate) fn from_parts(r: Point, s: Scalar) -> (sig: Signature)
        requires
            in_prime_subgroup(r@),
        ensures
            sig@ == (SignatureView { r: r@, s: s@ }),
    {
        Signature { r, s }
    }

    /// The signature made of a point and a scalar, or `None` where the point
    /// is not in the prime subgroup.
    pub fn new(r: Point, s: Scalar) -> (sig: Option<Signature>)
        ensures
            sig is Some <==> in_prime_subgroup(r@),
            sig matches Some(made) ==> made@ == (SignatureView { r: r@, s: s@ }),
    {
        if r.is_in_correct_subgroup() {
            Some(Signature::from_parts(r, s))
        } else {
            None
        }
    }

    /// The point `R`.
    pub fn r(&self) -> (r: Point)
        ensures
            r@ == self@.r,
    {
        self.r
    }

    /// The scalar `S`.
    pub fn s(&self) -> (s: Scalar)
        ensures
            s@ == self@.s,
    {
        self.s
    }

    /// The 96 bytes that encode the signature.
    pub fn to_bytes(&self) -> (bytes: Vec<u8>)
        ensures
            bytes@ == encode_signature(self@),
            is_signature_encoding(bytes@),
    {
        let mut bytes: Vec<u8> = Vec::new();
        let x = self.r.x().to_le_bytes();
        let y = self.r.y().to_le_bytes();
        let s = self.s.to_le_bytes();
        bytes.extend_from_slice(x.as_slice());
        bytes.extend_from_slice(y.as_slice());
        bytes.extend_from_slice(s.as_slice());
        proof {
            use_type_invariant(self);
            use_type_invariant(&self.r);
            use_type_invariant(&self.s);
            lemma_decode_encode_signature(self@);
            assert(bytes@ =~= encode_signature(self@));
        }
        bytes
    }

    /// The signature that `bytes` encode, or `None` where they encode none.
    pub fn from_bytes(bytes: &[u8]) -> (r: Option<Signature>)
        ensures
            r is Some <==> is_signature_encoding(bytes@),
            r matches Some(sig) ==> sig@ == decode_signature(bytes@),
    {
        if bytes.len() != SIGNATURE_BYTES {
            return None;
        }
        let x = match FieldElement::from_le_bytes(&take_32(bytes, 0)) {
            Some(x) => x,
            None => {
                return None;
            },
        };
        let y = match FieldElement::from_le_bytes(&take_32(bytes, 32)) {
            Some(y) => y,
            None => {
                return None;
            },
        };
        let s = match Scalar::from_le_bytes(&take_32(bytes, 64)) {
            Some(s) => s,
            None => {
                return None;
            },
        };
        match Point::new(x, y) {
            Some(r) => Signature::new(r, s),
            None => None,
        }
    }
}

} // verus!
