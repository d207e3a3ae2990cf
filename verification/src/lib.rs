//! EdDSA signatures over the Baby Jubjub curve whose challenge is derived with
//! the Poseidon sponge, so that verification is cheap to express as
//! arithmetic constraints over the BN254 scalar field.
//!
//! The scheme is a composition. Field arithmetic, the group law of the
//! curve, the sponge permutation and the byte-oriented digests come from
//! `ark-ff`, `ark-ec`, `ark-crypto-primitives` and `sha2`; each is called
//! through one function whose contract is taken on trust and says which
//! outside function it stands for. Everything else is verified against those
//! contracts: how a key is derived from a seed, how the nonce and the
//! challenge of a signature are derived, how what the sponge squeezes is
//! carried over into the scalar field, which byte strings are keys and
//! signatures, and when verification succeeds.
//!
//! - [`field`]: the elements of the base field and the scalars, as canonical
//!   byte strings.
//! - [`curve`]: the constants of the curve, its points, and the names of the
//!   results of the group operations.
//! - [`digest`]: the digests that derive keys and nonces.
//! - [`sponge`]: the parameters of the sponge and what it squeezes.
//! - [`encoder`]: from an element of the base field to scalars.
//! - [`eddsa`]: keys, signing and verification.
//! - [`signature`]: signatures and their encoding.
//! - [`group`]: the laws of the group of the curve, as a hypothesis, and what
//!   follows from them.
//! - [`laws`]: what holds of signing and verification together.
//! - [`encoding`]: byte and bit strings as numbers.
//! - [`error`]: the failures.

pub mod curve;
pub mod digest;
pub mod eddsa;
pub mod encoder;
pub mod encoding;
pub mod error;
pub mod field;
pub mod group;
pub mod laws;
pub mod signature;
pub mod sponge;

pub use curve::Point;
pub use digest::DigestKind;
pub use eddsa::{SigningKey, VerifyingKey};
pub use encoder::FieldElementSize;
pub use error::Error;
pub use field::{FieldElement, Scalar};
pub use signature::Signature;
pub use sponge::SpongeConfig;
