//! The byte-oriented digests that turn a seed into a private key and a
//! message into a nonce. The challenge of a signature never comes from here:
//! it comes from the sponge.

use crate::encoding::le_nat;
use crate::field::{group_order, Scalar};
use ::digest::Digest;
use vstd::prelude::*;

verus! {

/// The digest that a key was derived with, and that its signatures draw
/// their nonces from.
#[derive(Clone, Copy, Debug, PartialEq, Eq, Structural)]
pub enum DigestKind {
    /// SHA-224, which has too few bits to derive a key.
    Sha224,
    /// SHA-256.
    Sha256,
    /// SHA-512.
    Sha512,
}

/// The SHA-224 digest of a byte string.
pub uninterp spec fn sha224_digest(data: Seq<u8>) -> Seq<u8>;

/// The SHA-256 digest of a byte string.
pub uninterp spec fn sha256_digest(data: Seq<u8>) -> Seq<u8>;

/// The SHA-512 digest of a byte string.
pub uninterp spec fn sha512_digest(data: Seq<u8>) -> Seq<u8>;

/// `digest::Digest::digest` of `sha2::Sha224`: the digest of `data`, 28 bytes.
#[verifier::external_body]
fn sha224(data: &[u8]) -> (out: Vec<u8>)
    ensures
        out@ == sha224_digest(data@),
        out@.len() == 28,
{
    sha2::Sha224::digest(data).to_vec()
}

/// `digest::Digest::digest` of `sha2::Sha256`: the digest of `data`, 32 bytes.
#[verifier::external_body]
fn sha256(data: &[u8]) -> (out: Vec<u8>)
    ensures
        out@ == sha256_digest(data@),
        out@.len() == 32,
{
    sha2::Sha256::digest(data).to_vec()
}

/// `digest::Digest::digest` of `sha2::Sha512`: the digest of `data`, 64 bytes.
#[verifier::external_body]
fn sha512(data: &[u8]) -> (out: Vec<u8>)
    ensures
        out@ == sha512_digest(data@),
        out@.len() == 64,
{
    sha2::Sha512::digest(data).to_vec()
}

impl DigestKind {
    /// The number of bytes in a digest.
    pub open spec fn spec_output_len(self) -> nat {
        match self {
            DigestKind::Sha224 => 28,
            DigestKind::Sha256 => 32,
            DigestKind::Sha512 => 64,
        }
    }

    /// The digest of a byte string.
    pub open spec fn digest_of(self, data: Seq<u8>) -> Seq<u8> {
        match self {
            DigestKind::Sha224 => sha224_digest(data),
            DigestKind::Sha256 => sha256_digest(data),
            DigestKind::Sha512 => sha512_digest(data),
        }
    }

    /// The number of bytes in a digest.
    pub fn output_len(&self) -> (len: usize)
        ensures
            len == self.spec_output_len(),
    {
        match self {
            DigestKind::Sha224 => 28,
            DigestKind::Sha256 => 32,
            DigestKind::Sha512 => 64,
        }
    }

    /// Hashes a byte string.
    pub fn hash(&self, data: &[u8]) -> (out: Vec<u8>)
        ensures
            out@ == self.digest_of(data@),
            out@.len() == self.spec_output_len(),
    {
        match self {
            DigestKind::Sha224 => sha224(data),
            DigestKind::Sha256 => sha256(data),
            DigestKind::Sha512 => sha512(data),
        }
    }
}

/// The scalar that a byte string hashes to: its digest, read as a
/// little-endian number and reduced modulo the group order.
pub open spec fn digest_scalar(kind: DigestKind, data: Seq<u8>) -> nat {
    le_nat(kind.digest_of(data)) % group_order()
}

/// Hashes a byte string to a scalar.
pub fn from_digest(kind: DigestKind, data: &[u8]) -> (r: Scalar)
    ensures
        r@ == digest_scalar(kind, data@),
{
    let bytes = kind.hash(data);
    Scalar::from_le_bytes_mod_order(bytes.as_slice())
}

} // verus!
