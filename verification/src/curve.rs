//! The Baby Jubjub curve: a twisted Edwards curve `a x^2 + y^2 = 1 + d x^2 y^2`
//! whose base field is the scalar field of BN254, so that the coordinates of a
//! point are native to a circuit over that field and need no conversion there.
//!
//! The price is that the scalars of the curve are not native to that circuit.
//! Private scalars, nonces and challenges live modulo the group order, and
//! what is computed in the base field and is to act as a scalar, as the
//! challenge that the sponge squeezes is, has to go through the encoder first.
//!
//! The group law is `ark-ec`'s. This module states the curve's constants,
//! decides which pairs of coordinates are points, and names the results of the
//! group operations.

use crate::field::{base_modulus, group_order, FieldElement, Scalar};
use ark_ec::{AffineRepr, CurveGroup};
use ark_ff::{BigInteger, PrimeField};
use vstd::prelude::*;

verus! {

/// A pair of coordinates in the base field.
pub struct AffinePoint {
    pub x: nat,
    pub y: nat,
}

/// The coefficient `a` of the curve equation.
pub open spec fn coeff_a() -> nat {
    1
}

/// The coefficient `d` of the curve equation, `168696 / 168700` in the base field.
pub open spec fn coeff_d() -> nat {
    9706598848417545097372247223557719406784115219466060233080913168975159366771nat
}

/// The index of the prime subgroup in the group of the curve.
pub open spec fn cofactor() -> nat {
    8
}

/// The generator of the prime subgroup.
pub open spec fn generator() -> AffinePoint {
    AffinePoint {
        x: 19698561148652590122159747500897617769866003486955115824547446575314762165298nat,
        y: 19298250018296453272277890825869354524455968081175474282777126169995084727839nat,
    }
}

/// The neutral element of the group.
pub open spec fn identity() -> AffinePoint {
    AffinePoint { x: 0, y: 1 }
}

/// Whether the coordinates are reduced and satisfy the curve equation.
pub open spec fn on_curve(p: AffinePoint) -> bool {
    &&& p.x < base_modulus()
    &&& p.y < base_modulus()
    &&& (p.y * p.y + coeff_a() * (p.x * p.x)) % base_modulus() == (1 + coeff_d() * ((p.x * p.x)
        * (p.y * p.y))) % base_modulus()
}

/// The sum of two points of the curve, as `ark-ec` computes it.
pub uninterp spec fn curve_add(p: AffinePoint, q: AffinePoint) -> AffinePoint;

/// The point `p` added to itself `k` times, as `ark-ec` computes it.
pub uninterp spec fn curve_mul(p: AffinePoint, k: nat) -> AffinePoint;

/// The multiple `k G` of the generator.
pub open spec fn generator_mul(k: nat) -> AffinePoint {
    curve_mul(generator(), k)
}

/// Whether the point is in the prime subgroup: a multiple of its generator.
pub open spec fn in_prime_subgroup(p: AffinePoint) -> bool {
    exists|k: nat| k < group_order() && p == #[trigger] generator_mul(k)
}

/// A point of the curve.
#[derive(Clone, Copy, Debug, PartialEq, Eq)]
pub struct Point {
    pub(crate) x: FieldElement,
    pub(crate) y: FieldElement,
}

impl View for Point {
    type V = AffinePoint;

    closed spec fn view(&self) -> AffinePoint {
        AffinePoint { x: self.x@, y: self.y@ }
    }
}

/// `ark_ec::twisted_edwards::Affine::is_on_curve` on Baby Jubjub: whether
/// `y^2 + a x^2` and `1 + d x^2 y^2` are the same element of the base field.
#[verifier::external_body]
fn te_is_on_curve(x: &FieldElement, y: &FieldElement) -> (on: bool)
    ensures
        on == on_curve((AffinePoint { x: x@, y: y@ })),
{
    ark_ed_on_bn254::EdwardsAffine::new_unchecked(
        ark_ed_on_bn254::Fq::from_le_bytes_mod_order(&x.bytes),
        ark_ed_on_bn254::Fq::from_le_bytes_mod_order(&y.bytes),
    ).is_on_curve()
}

/// `ark_ec::AffineRepr::generator` on Baby Jubjub: the coordinates that the
/// curve's configuration gives for the generator of the prime subgroup.
#[verifier::external_body]
fn te_generator() -> (g: Point)
    ensures
        g@ == generator(),
{
    let g = ark_ed_on_bn254::EdwardsAffine::generator();
    Point {
        x: FieldElement { bytes: g.x.into_bigint().to_bytes_le().try_into().unwrap() },
        y: FieldElement { bytes: g.y.into_bigint().to_bytes_le().try_into().unwrap() },
    }
}

/// `+` on `ark_ec::twisted_edwards::Affine`, brought back to affine
/// coordinates: the sum of two points of the curve, which is a point of the
/// curve. Off the curve the way back to affine coordinates can meet a
/// division by zero; the type of the arguments leaves that out.
#[verifier::external_body]
fn te_add(p: &Point, q: &Point) -> (r: Point)
    ensures
        r@ == curve_add(p@, q@),
        on_curve(r@),
{
    let f = |e: &FieldElement| ark_ed_on_bn254::Fq::from_le_bytes_mod_order(&e.bytes);
    let a = ark_ed_on_bn254::EdwardsAffine::new_unchecked(f(&p.x), f(&p.y));
    let b = ark_ed_on_bn254::EdwardsAffine::new_unchecked(f(&q.x), f(&q.y));
    let r = (a + b).into_affine();
    Point {
        x: FieldElement { bytes: r.x.into_bigint().to_bytes_le().try_into().unwrap() },
        y: FieldElement { bytes: r.y.into_bigint().to_bytes_le().try_into().unwrap() },
    }
}

/// `*` of an `ark_ec::twisted_edwards::Affine` by a scalar, brought back to
/// affine coordinates: the multiple of a point of the curve, which is a point
/// of the curve. As with the sum, the point has to be on the curve.
#[verifier::external_body]
fn te_mul(p: &Point, k: &Scalar) -> (r: Point)
    ensures
        r@ == curve_mul(p@, k@),
        on_curve(r@),
{
    let f = |e: &FieldElement| ark_ed_on_bn254::Fq::from_le_bytes_mod_order(&e.bytes);
    let a = ark_ed_on_bn254::EdwardsAffine::new_unchecked(f(&p.x), f(&p.y));
    let r = (a * ark_ed_on_bn254::Fr::from_le_bytes_mod_order(&k.bytes)).into_affine();
    Point {
        x: FieldElement { bytes: r.x.into_bigint().to_bytes_le().try_into().unwrap() },
        y: FieldElement { bytes: r.y.into_bigint().to_bytes_le().try_into().unwrap() },
    }
}

/// `ark_ec::twisted_edwards::Affine::is_in_correct_subgroup_assuming_on_curve`:
/// whether a point of the curve is in the prime subgroup, the one that the
/// curve's generator generates. `ark-ec` decides it by multiplying the point
/// by the group order and comparing with the neutral element.
#[verifier::external_body]
fn te_is_in_correct_subgroup(p: &Point) -> (inside: bool)
    ensures
        inside == in_prime_subgroup(p@),
{
    ark_ed_on_bn254::EdwardsAffine::new_unchecked(
        ark_ed_on_bn254::Fq::from_le_bytes_mod_order(&p.x.bytes),
        ark_ed_on_bn254::Fq::from_le_bytes_mod_order(&p.y.bytes),
    ).is_in_correct_subgroup_assuming_on_curve()
}

/// What the scheme asks of the constants of its curve holds of these: the
/// coefficients are reduced, not zero and not equal, `d` is `168696 / 168700`,
/// and the generator is a point of the curve other than the neutral element.
pub proof fn lemma_curve_constants()
    ensures
        0 < coeff_a() < base_modulus(),
        0 < coeff_d() < base_modulus(),
        coeff_a() != coeff_d(),
        (168700 * coeff_d()) % base_modulus() == 168696,
        on_curve(generator()),
        generator() != identity(),
{
    let q: nat = base_modulus();
    let d: nat = coeff_d();
    let x: nat = generator().x;
    let y: nat = generator().y;
    assert((168700 * d) % q == 168696) by (nonlinear_arith)
        requires
            q == 21888242871839275222246405745257275088548364400416034343698204186575808495617nat,
            d == 9706598848417545097372247223557719406784115219466060233080913168975159366771nat,
    ;
    assert((y * y + 1 * (x * x)) % q == (1 + d * ((x * x) * (y * y))) % q) by (nonlinear_arith)
        requires
            q == 21888242871839275222246405745257275088548364400416034343698204186575808495617nat,
            x == 19698561148652590122159747500897617769866003486955115824547446575314762165298nat,
            y == 19298250018296453272277890825869354524455968081175474282777126169995084727839nat,
            d == 9706598848417545097372247223557719406784115219466060233080913168975159366771nat,
    ;
}

/// The neutral element satisfies the curve equation.
pub proof fn lemma_identity_on_curve()
    ensures
        on_curve(identity()),
{
    let x: nat = identity().x;
    let y: nat = identity().y;
    assert(y * y + 1 * (x * x) == 1 && 1 + coeff_d() * ((x * x) * (y * y)) == 1)
        by (nonlinear_arith)
        requires
            x == 0,
            y == 1,
    ;
}

impl Point {
    /// Every point satisfies the curve equation.
    #[verifier::type_invariant]
    pub open spec fn valid(self) -> bool {
        on_curve(self@)
    }

    /// The point with these coordinates, or `None` where they do not satisfy
    /// the curve equation.
    pub fn new(x: FieldElement, y: FieldElement) -> (r: Option<Point>)
        ensures
            r is Some <==> on_curve((AffinePoint { x: x@, y: y@ })),
            r matches Some(p) ==> p@ == (AffinePoint { x: x@, y: y@ }),
    {
        if te_is_on_curve(&x, &y) {
            Some(Point { x, y })
        } else {
            None
        }
    }

    /// The generator of the prime subgroup.
    pub fn generator() -> (g: Point)
        ensures
            g@ == generator(),
    {
        te_generator()
    }

    /// The neutral element of the group.
    pub fn identity() -> (o: Point)
        ensures
            o@ == identity(),
    {
        proof {
            lemma_identity_on_curve();
        }
        Point { x: FieldElement::zero(), y: FieldElement::one() }
    }

    /// The first coordinate.
    pub fn x(&self) -> (x: FieldElement)
        ensures
            x@ == self@.x,
    {
        self.x
    }

    /// The second coordinate.
    pub fn y(&self) -> (y: FieldElement)
        ensures
            y@ == self@.y,
    {
        self.y
    }

    /// The sum of two points.
    pub fn add(&self, other: &Point) -> (r: Point)
        ensures
            r@ == curve_add(self@, other@),
            on_curve(r@),
    {
        te_add(self, other)
    }

    /// The multiple of the point by a scalar.
    pub fn mul(&self, k: &Scalar) -> (r: Point)
        ensures
            r@ == curve_mul(self@, k@),
            on_curve(r@),
    {
        te_mul(self, k)
    }

    /// Whether two points have the same coordinates.
    pub fn equals(&self, other: &Point) -> (same: bool)
        ensures
            same == (self@ == other@),
    {
        self.x.equals(&other.x) && self.y.equals(&other.y)
    }

    /// Whether the point is in the prime subgroup.
    pub fn is_in_correct_subgroup(&self) -> (inside: bool)
        ensures
            inside == in_prime_subgroup(self@),
    {
        te_is_in_correct_subgroup(self)
    }
}

} // verus!
