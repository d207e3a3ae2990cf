//! Elements of the two prime fields of the curve, held as canonical
//! little-endian byte strings, and the arithmetic that the signature scheme
//! takes from `ark-ff`.

use crate::encoding::{le_bits, le_bytes, le_nat, lemma_le_bytes_of_le_nat, lemma_le_nat_injective};
use ark_ff::{BigInteger, PrimeField};
use vstd::arithmetic::div_mod::lemma_small_mod;
use vstd::arithmetic::power2::{lemma2_to64, lemma2_to64_rest, lemma_pow2_adds, pow2};
use vstd::prelude::*;

verus! {

/// The number of bits in the order of the base field.
pub const BASE_MODULUS_BITS: usize = 254;

/// The number of bits in the order of the prime subgroup.
pub const GROUP_ORDER_BITS: usize = 251;

/// The order of the base field, which is the scalar field of BN254.
pub open spec fn base_modulus() -> nat {
    21888242871839275222246405745257275088548364400416034343698204186575808495617nat
}

/// The order of the prime subgroup of the curve, the modulus of its scalars.
pub open spec fn group_order() -> nat {
    2736030358979909402780800718157159386076813972158567259200215660948447373041nat
}

/// The orders of the two fields have the bit lengths that the constants
/// give, and both fit 32 bytes.
pub proof fn lemma_bit_lengths()
    ensures
        pow2((BASE_MODULUS_BITS - 1) as nat) <= base_modulus() < pow2(BASE_MODULUS_BITS as nat),
        pow2((GROUP_ORDER_BITS - 1) as nat) <= group_order() < pow2(GROUP_ORDER_BITS as nat),
        pow2(BASE_MODULUS_BITS as nat) < pow2(256),
        pow2(GROUP_ORDER_BITS as nat) < pow2(256),
{
    lemma2_to64();
    lemma2_to64_rest();
    lemma_pow2_adds(64, 61);
    lemma_pow2_adds(125, 125);
    lemma_pow2_adds(250, 1);
    lemma_pow2_adds(250, 3);
    lemma_pow2_adds(250, 4);
    lemma_pow2_adds(250, 6);
    assert(pow2(125) == 0x2000_0000_0000_0000_0000_0000_0000_0000nat) by (nonlinear_arith)
        requires
            pow2(64) == 0x1_0000_0000_0000_0000nat,
            pow2(61) == 0x2000_0000_0000_0000nat,
            pow2(125) == pow2(64) * pow2(61),
    ;
    assert(pow2(250)
        == 0x400_0000_0000_0000_0000_0000_0000_0000_0000_0000_0000_0000_0000_0000_0000_0000nat)
        by (nonlinear_arith)
        requires
            pow2(125) == 0x2000_0000_0000_0000_0000_0000_0000_0000nat,
            pow2(250) == pow2(125) * pow2(125),
    ;
}

/// An element of the base field: a coordinate of a point, a message, or what
/// the sponge absorbs and squeezes.
#[derive(Clone, Copy, Debug, PartialEq, Eq)]
pub struct FieldElement {
    pub(crate) bytes: [u8; 32],
}

impl View for FieldElement {
    type V = nat;

    closed spec fn view(&self) -> nat {
        le_nat(self.bytes@)
    }
}

/// An integer modulo the order of the prime subgroup: a private key, a nonce,
/// a challenge or the second half of a signature.
#[derive(Clone, Copy, Debug, PartialEq, Eq)]
pub struct Scalar {
    pub(crate) bytes: [u8; 32],
}

impl View for Scalar {
    type V = nat;

    closed spec fn view(&self) -> nat {
        le_nat(self.bytes@)
    }
}

/// `ark_ff::PrimeField::from_le_bytes_mod_order` on the base field: the
/// little-endian number in `bytes`, reduced modulo the field's order.
#[verifier::external_body]
fn base_from_le_bytes_mod_order(bytes: &[u8]) -> (r: FieldElement)
    ensures
        r@ == le_nat(bytes@) % base_modulus(),
{
    let x = ark_ed_on_bn254::Fq::from_le_bytes_mod_order(bytes);
    FieldElement { bytes: x.into_bigint().to_bytes_le().try_into().unwrap() }
}

/// `ark_ff::PrimeField::from_le_bytes_mod_order` on the scalar field: the
/// little-endian number in `bytes`, reduced modulo the group order.
#[verifier::external_body]
fn scalar_from_le_bytes_mod_order(bytes: &[u8]) -> (r: Scalar)
    ensures
        r@ == le_nat(bytes@) % group_order(),
{
    let x = ark_ed_on_bn254::Fr::from_le_bytes_mod_order(bytes);
    Scalar { bytes: x.into_bigint().to_bytes_le().try_into().unwrap() }
}

/// Addition in the scalar field, `+` on `ark_ff::Fp`: the sum modulo the group
/// order.
#[verifier::external_body]
fn scalar_field_add(a: &Scalar, b: &Scalar) -> (r: Scalar)
    ensures
        r@ == (a@ + b@) % group_order(),
{
    let x = ark_ed_on_bn254::Fr::from_le_bytes_mod_order(&a.bytes)
        + ark_ed_on_bn254::Fr::from_le_bytes_mod_order(&b.bytes);
    Scalar { bytes: x.into_bigint().to_bytes_le().try_into().unwrap() }
}

/// Multiplication in the scalar field, `*` on `ark_ff::Fp`: the product modulo
/// the group order.
#[verifier::external_body]
fn scalar_field_mul(a: &Scalar, b: &Scalar) -> (r: Scalar)
    ensures
        r@ == (a@ * b@) % group_order(),
{
    let x = ark_ed_on_bn254::Fr::from_le_bytes_mod_order(&a.bytes)
        * ark_ed_on_bn254::Fr::from_le_bytes_mod_order(&b.bytes);
    Scalar { bytes: x.into_bigint().to_bytes_le().try_into().unwrap() }
}

/// `ark_ff::BigInteger::to_bits_le` on the integer of a base field element:
/// its 256 bits, least significant first.
#[verifier::external_body]
fn base_to_bits_le(x: &FieldElement) -> (bits: Vec<bool>)
    ensures
        bits@ == le_bits(x@, 256),
{
    ark_ed_on_bn254::Fq::from_le_bytes_mod_order(&x.bytes).into_bigint().to_bits_le()
}

/// Whether two strings of 32 bytes are the same.
fn same_bytes(a: &[u8; 32], b: &[u8; 32]) -> (same: bool)
    ensures
        same == (a@ == b@),
{
    let mut i: usize = 0;
    while i < 32
        invariant
            i <= 32,
            forall|j: int| 0 <= j < i ==> a@[j] == b@[j],
        decreases 32 - i,
    {
        if a[i] != b[i] {
            return false;
        }
        i += 1;
    }
    assert(a@ =~= b@);
    true
}

impl FieldElement {
    /// Every element is reduced.
    #[verifier::type_invariant]
    pub open spec fn in_range(self) -> bool {
        self@ < base_modulus()
    }

    /// The element that `bytes` encodes, or `None` where the number in
    /// `bytes` is not below the field's order.
    pub fn from_le_bytes(bytes: &[u8; 32]) -> (r: Option<FieldElement>)
        ensures
            r is Some <==> le_nat(bytes@) < base_modulus(),
            r matches Some(x) ==> x@ == le_nat(bytes@),
    {
        // the bytes are canonical where reducing them leaves them as they are
        let x = base_from_le_bytes_mod_order(bytes.as_slice());
        proof {
            use_type_invariant(&x);
            if le_nat(bytes@) < base_modulus() {
                lemma_small_mod(le_nat(bytes@), base_modulus());
                lemma_le_nat_injective(x.bytes@, bytes@);
            }
        }
        if same_bytes(&x.bytes, bytes) {
            Some(x)
        } else {
            None
        }
    }

    /// The element zero.
    pub fn zero() -> (r: FieldElement)
        ensures
            r@ == 0,
    {
        let bytes: [u8; 0] = [];
        FieldElement::from_le_bytes_mod_order(bytes.as_slice())
    }

    /// The element one.
    pub fn one() -> (r: FieldElement)
        ensures
            r@ == 1,
    {
        let bytes: [u8; 1] = [1];
        proof {
            reveal_with_fuel(le_nat, 2);
        }
        FieldElement::from_le_bytes_mod_order(bytes.as_slice())
    }

    /// The element that the little-endian number in `bytes` reduces to.
    pub fn from_le_bytes_mod_order(bytes: &[u8]) -> (r: FieldElement)
        ensures
            r@ == le_nat(bytes@) % base_modulus(),
    {
        base_from_le_bytes_mod_order(bytes)
    }

    /// The canonical encoding: 32 bytes, least significant first.
    pub fn to_le_bytes(&self) -> (bytes: [u8; 32])
        ensures
            bytes@ == le_bytes(self@, 32),
    {
        proof {
            lemma_le_bytes_of_le_nat(self.bytes@);
        }
        self.bytes
    }

    /// Whether two elements are the same number.
    pub fn equals(&self, other: &FieldElement) -> (same: bool)
        ensures
            same == (self@ == other@),
    {
        proof {
            if self@ == other@ {
                lemma_le_nat_injective(self.bytes@, other.bytes@);
            }
        }
        same_bytes(&self.bytes, &other.bytes)
    }

    /// The 256 bits of the element's integer, least significant first.
    pub fn to_bits_le(&self) -> (bits: Vec<bool>)
        ensures
            bits@ == le_bits(self@, 256),
    {
        base_to_bits_le(self)
    }
}

impl Scalar {
    /// Every scalar is reduced.
    #[verifier::type_invariant]
    pub open spec fn in_range(self) -> bool {
        self@ < group_order()
    }

    /// The scalar that `bytes` encodes, or `None` where the number in `bytes`
    /// is not below the group order.
    pub fn from_le_bytes(bytes: &[u8; 32]) -> (r: Option<Scalar>)
        ensures
            r is Some <==> le_nat(bytes@) < group_order(),
            r matches Some(x) ==> x@ == le_nat(bytes@),
    {
        // the bytes are canonical where reducing them leaves them as they are
        let x = scalar_from_le_bytes_mod_order(bytes.as_slice());
        proof {
            use_type_invariant(&x);
            if le_nat(bytes@) < group_order() {
                lemma_small_mod(le_nat(bytes@), group_order());
                lemma_le_nat_injective(x.bytes@, bytes@);
            }
        }
        if same_bytes(&x.bytes, bytes) {
            Some(x)
        } else {
            None
        }
    }

    /// The scalar zero.
    pub fn zero() -> (r: Scalar)
        ensures
            r@ == 0,
    {
        let bytes: [u8; 0] = [];
        Scalar::from_le_bytes_mod_order(bytes.as_slice())
    }

    /// The scalar one.
    pub fn one() -> (r: Scalar)
        ensures
            r@ == 1,
    {
        let bytes: [u8; 1] = [1];
        proof {
            reveal_with_fuel(le_nat, 2);
        }
        Scalar::from_le_bytes_mod_order(bytes.as_slice())
    }

    /// The scalar that the little-endian number in `bytes` reduces to.
    pub fn from_le_bytes_mod_order(bytes: &[u8]) -> (r: Scalar)
        ensures
            r@ == le_nat(bytes@) % group_order(),
    {
        scalar_from_le_bytes_mod_order(bytes)
    }

    /// The canonical encoding: 32 bytes, least significant first.
    pub fn to_le_bytes(&self) -> (bytes: [u8; 32])
        ensures
            bytes@ == le_bytes(self@, 32),
    {
        proof {
            lemma_le_bytes_of_le_nat(self.bytes@);
        }
        self.bytes
    }

    /// Whether two scalars are the same number.
    pub fn equals(&self, other: &Scalar) -> (same: bool)
        ensures
            same == (self@ == other@),
    {
        proof {
            if self@ == other@ {
                lemma_le_nat_injective(self.bytes@, other.bytes@);
            }
        }
        same_bytes(&self.bytes, &other.bytes)
    }

    /// The sum modulo the group order.
    pub fn add(&self, other: &Scalar) -> (r: Scalar)
        ensures
            r@ == (self@ + other@) % group_order(),
    {
        scalar_field_add(self, other)
    }

    /// The product modulo the group order.
    pub fn mul(&self, other: &Scalar) -> (r: Scalar)
        ensures
            r@ == (self@ * other@) % group_order(),
    {
        scalar_field_mul(self, other)
    }
}

} // verus!
