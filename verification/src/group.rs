//! The laws of the group of the curve, and what follows from them for the
//! multiples of the generator.
//!
//! The theory of the curve gives the laws. Nothing in this crate proves them
//! of the code that computes `curve_add` and `curve_mul`, so they are a
//! hypothesis here, and what rests on them says so.

use crate::curve::{
    curve_add, curve_mul, generator, generator_mul, identity, in_prime_subgroup,
    lemma_curve_constants, lemma_identity_on_curve, on_curve, AffinePoint,
};
use crate::field::group_order;
use vstd::arithmetic::div_mod::{lemma_fundamental_div_mod, lemma_mod_bound};
use vstd::prelude::*;

verus! {

/// The laws of an abelian group, said of the points of the curve under
/// `curve_add`, with `curve_mul` as repeated addition and a generator whose
/// order divides the group order.
pub open spec fn group_laws() -> bool {
    &&& forall|p: AffinePoint, q: AffinePoint|
        on_curve(p) && on_curve(q) ==> on_curve(#[trigger] curve_add(p, q))
    &&& forall|p: AffinePoint| on_curve(p) ==> #[trigger] curve_add(p, identity()) == p
    &&& forall|p: AffinePoint, q: AffinePoint|
        on_curve(p) && on_curve(q) ==> #[trigger] curve_add(p, q) == curve_add(q, p)
    &&& forall|p: AffinePoint, q: AffinePoint, r: AffinePoint|
        on_curve(p) && on_curve(q) && on_curve(r) ==> #[trigger] curve_add(curve_add(p, q), r)
            == curve_add(p, curve_add(q, r))
    &&& forall|p: AffinePoint| on_curve(p) ==> #[trigger] curve_mul(p, 0) == identity()
    &&& forall|p: AffinePoint, k: nat|
        on_curve(p) ==> #[trigger] curve_mul(p, k + 1) == curve_add(curve_mul(p, k), p)
    &&& curve_mul(generator(), group_order()) == identity()
}

/// That no two scalars below the group order give the same multiple of the
/// generator: the order of the generator is the group order and no less.
pub open spec fn generator_has_group_order() -> bool {
    forall|a: nat, b: nat|
        a < group_order() && b < group_order() && #[trigger] generator_mul(a)
            == #[trigger] generator_mul(b) ==> a == b
}

/// Every multiple of a point of the curve is a point of the curve.
pub proof fn lemma_multiple_on_curve(p: AffinePoint, k: nat)
    requires
        group_laws(),
        on_curve(p),
    ensures
        on_curve(curve_mul(p, k)),
    decreases k,
{
    if k == 0 {
        lemma_identity_on_curve();
    } else {
        let j: nat = (k - 1) as nat;
        lemma_multiple_on_curve(p, j);
        assert(curve_mul(p, j + 1) == curve_add(curve_mul(p, j), p));
    }
}

/// Multiplying a point by a sum adds its multiples.
pub proof fn lemma_multiple_of_sum(p: AffinePoint, a: nat, b: nat)
    requires
        group_laws(),
        on_curve(p),
    ensures
        curve_mul(p, a + b) == curve_add(curve_mul(p, a), curve_mul(p, b)),
    decreases b,
{
    lemma_multiple_on_curve(p, a);
    if b == 0 {
        assert(curve_add(curve_mul(p, a), identity()) == curve_mul(p, a));
    } else {
        let j: nat = (b - 1) as nat;
        lemma_multiple_of_sum(p, a, j);
        lemma_multiple_on_curve(p, j);
        // (a + j + 1) p = (a p + j p) + p = a p + (j p + p) = a p + (j + 1) p
        assert(curve_mul(p, (a + j) + 1) == curve_add(curve_mul(p, a + j), p));
        assert(curve_add(curve_add(curve_mul(p, a), curve_mul(p, j)), p) == curve_add(
            curve_mul(p, a),
            curve_add(curve_mul(p, j), p),
        ));
        assert(curve_mul(p, j + 1) == curve_add(curve_mul(p, j), p));
        assert((a + j) + 1 == a + b);
    }
}

/// The group order and its multiples take the generator to the neutral
/// element.
pub proof fn lemma_order_multiples_vanish(q: nat)
    requires
        group_laws(),
    ensures
        generator_mul(q * group_order()) == identity(),
    decreases q,
{
    lemma_curve_constants();
    let n: nat = group_order();
    if q == 0 {
        assert(0 * n == 0);
        assert(curve_mul(generator(), 0) == identity());
    } else {
        let j: nat = (q - 1) as nat;
        lemma_order_multiples_vanish(j);
        lemma_multiple_of_sum(generator(), j * n, n);
        assert(j * n + n == q * n) by (nonlinear_arith)
            requires
                j + 1 == q,
        ;
        lemma_identity_on_curve();
        assert(curve_add(identity(), identity()) == identity());
    }
}

/// A multiple of the generator depends on the scalar modulo the group order
/// alone.
pub proof fn lemma_multiple_is_periodic(k: nat)
    requires
        group_laws(),
    ensures
        generator_mul(k) == generator_mul(k % group_order()),
{
    lemma_curve_constants();
    let n: nat = group_order();
    let q: nat = k / n;
    let r: nat = k % n;
    lemma_fundamental_div_mod(k as int, n as int);
    assert(k == r + q * n) by (nonlinear_arith)
        requires
            k == n * q + r,
    ;
    lemma_multiple_of_sum(generator(), r, q * n);
    lemma_order_multiples_vanish(q);
    lemma_multiple_on_curve(generator(), r);
    assert(curve_add(generator_mul(r), identity()) == generator_mul(r));
}

/// Adding two multiples of the generator adds their scalars modulo the group
/// order.
pub proof fn lemma_sum_of_multiples(a: nat, b: nat)
    requires
        group_laws(),
    ensures
        curve_add(generator_mul(a), generator_mul(b)) == generator_mul((a + b) % group_order()),
{
    lemma_curve_constants();
    lemma_multiple_of_sum(generator(), a, b);
    lemma_multiple_is_periodic(a + b);
}

/// Multiplying a multiple of the generator multiplies its scalar modulo the
/// group order.
pub proof fn lemma_multiple_of_multiple(a: nat, b: nat)
    requires
        group_laws(),
    ensures
        curve_mul(generator_mul(a), b) == generator_mul((a * b) % group_order()),
{
    lemma_unreduced_multiple_of_multiple(a, b);
    lemma_multiple_is_periodic(a * b);
}

/// Multiplying a multiple of the generator multiplies its scalar.
proof fn lemma_unreduced_multiple_of_multiple(a: nat, b: nat)
    requires
        group_laws(),
    ensures
        curve_mul(generator_mul(a), b) == generator_mul(a * b),
    decreases b,
{
    lemma_curve_constants();
    let p: AffinePoint = generator_mul(a);
    lemma_multiple_on_curve(generator(), a);
    if b == 0 {
        assert(a * 0 == 0);
        assert(curve_mul(p, 0) == identity());
        assert(curve_mul(generator(), 0) == identity());
    } else {
        let j: nat = (b - 1) as nat;
        lemma_unreduced_multiple_of_multiple(a, j);
        assert(curve_mul(p, j + 1) == curve_add(curve_mul(p, j), p));
        lemma_multiple_of_sum(generator(), a * j, a);
        assert(a * j + a == a * b) by (nonlinear_arith)
            requires
                j + 1 == b,
        ;
    }
}

/// The sum of two points of the prime subgroup is in the prime subgroup.
pub proof fn lemma_prime_subgroup_is_closed(p: AffinePoint, q: AffinePoint)
    requires
        group_laws(),
        in_prime_subgroup(p),
        in_prime_subgroup(q),
    ensures
        in_prime_subgroup(curve_add(p, q)),
{
    let a: nat = choose|k: nat| k < group_order() && p == #[trigger] generator_mul(k);
    let b: nat = choose|k: nat| k < group_order() && q == #[trigger] generator_mul(k);
    lemma_sum_of_multiples(a, b);
    lemma_mod_bound((a + b) as int, group_order() as int);
    let c: nat = (a + b) % group_order();
    assert(curve_add(p, q) == generator_mul(c));
}

/// The group order takes every point of the prime subgroup to the neutral
/// element.
pub proof fn lemma_group_order_annihilates(p: AffinePoint)
    requires
        group_laws(),
        in_prime_subgroup(p),
    ensures
        curve_mul(p, group_order()) == identity(),
{
    let a: nat = choose|k: nat| k < group_order() && p == #[trigger] generator_mul(k);
    lemma_unreduced_multiple_of_multiple(a, group_order());
    lemma_order_multiples_vanish(a);
}

} // verus!
