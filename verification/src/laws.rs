//! What holds of signing and verification together.

use crate::curve::{generator_mul, in_prime_subgroup, AffinePoint};
use crate::digest::DigestKind;
use crate::eddsa::{challenge_of, nonce, signature_of, signature_with_nonce, verifies};
use crate::field::group_order;
use crate::group::{
    generator_has_group_order, group_laws, lemma_multiple_of_multiple, lemma_sum_of_multiples,
};
use crate::signature::{encode_signature, SignatureView};
use crate::sponge::SpongeParameters;
use vstd::arithmetic::div_mod::lemma_add_mod_noop_right;
use vstd::prelude::*;

verus! {

/// Whatever nonce a signer took, the signature it gives passes verification
/// under the signer's public key, wherever the points of the curve obey the
/// laws of a group in which the order of the generator divides the group
/// order. So a signature verifies here whichever digest its signer drew the
/// nonce from.
pub proof fn lemma_any_nonce_verifies_under_group_laws(
    sk: nat,
    r: nat,
    parameters: SpongeParameters,
    message: nat,
)
    requires
        group_laws(),
    ensures
        verifies(
            generator_mul(sk),
            parameters,
            message,
            signature_with_nonce(sk, r, parameters, message),
        ),
{
    let n: nat = group_order();
    let c: nat = challenge_of(parameters, generator_mul(r), generator_mul(sk), message);
    let cs: nat = ((sk * c) % n) as nat;
    // c A = (sk c) G
    lemma_multiple_of_multiple(sk, c);
    // R + c A = (r + sk c) G
    lemma_sum_of_multiples(r, cs);
    assert((r + cs) % n == (r + c * sk) % n) by {
        lemma_add_mod_noop_right(r as int, sk as int * c as int, n as int);
        assert(sk * c == c * sk) by (nonlinear_arith);
    }
}

/// A signature passes verification under the public key of the private key
/// that made it, wherever the points of the curve obey the laws of a group in
/// which the order of the generator divides the group order.
pub proof fn lemma_signature_verifies_under_group_laws(
    kind: DigestKind,
    sk: nat,
    parameters: SpongeParameters,
    message: nat,
)
    requires
        group_laws(),
    ensures
        verifies(
            generator_mul(sk),
            parameters,
            message,
            signature_of(kind, sk, parameters, message),
        ),
{
    lemma_any_nonce_verifies_under_group_laws(sk, nonce(kind, sk, message), parameters, message);
}

/// Signing is a function of the key, the parameters and the message: two
/// signatures of one message under one key are the same pair `(R, S)`, and
/// their encodings are the same bytes.
pub proof fn lemma_signing_is_deterministic(
    kind: DigestKind,
    sk: nat,
    parameters: SpongeParameters,
    message: nat,
    first: SignatureView,
    second: SignatureView,
)
    requires
        first == signature_of(kind, sk, parameters, message),
        second == signature_of(kind, sk, parameters, message),
    ensures
        first == second,
        encode_signature(first) == encode_signature(second),
{
}

/// The public key of every private scalar lies in the prime subgroup.
pub proof fn lemma_public_key_in_prime_subgroup(sk: nat)
    requires
        sk < group_order(),
    ensures
        in_prime_subgroup(generator_mul(sk)),
{
    assert(generator_mul(sk) == generator_mul(sk));
}

/// For one nonce point, public key and message, at most one reduced scalar
/// `S` passes verification, wherever the generator has the group order as
/// its order. So a signature whose `S` was changed does not verify.
pub proof fn lemma_changed_scalar_fails_where_generator_has_group_order(
    a: AffinePoint,
    parameters: SpongeParameters,
    message: nat,
    sig: SignatureView,
    other: nat,
)
    requires
        generator_has_group_order(),
        verifies(a, parameters, message, sig),
        sig.s < group_order(),
        other < group_order(),
        other != sig.s,
    ensures
        !verifies(a, parameters, message, (SignatureView { r: sig.r, s: other })),
{
    if verifies(a, parameters, message, (SignatureView { r: sig.r, s: other })) {
        assert(generator_mul(other) == generator_mul(sig.s));
    }
}

} // verus!
