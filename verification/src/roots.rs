//! Real roots of polynomials of degree three or less.
//!
//! The solver steps down by degree: a leading coefficient that counts as zero
//! hands the polynomial to the solver of the next lower degree.

use vstd::prelude::*;
use crate::scalar::{is_near_zero, near_zero, num, one, zero, Scalar};

verus! {

/// The root of `c*t + d`.
pub open spec fn linear_root<S: Scalar>(c: S, d: S) -> S {
    d.neg_spec().div_spec(c)
}

/// The discriminant `c*c - 4*b*d` of `b*t^2 + c*t + d`.
pub open spec fn discriminant<S: Scalar>(b: S, c: S, d: S) -> S {
    c.mul_spec(c).sub_spec(num::<S>(4).mul_spec(b).mul_spec(d))
}

/// The roots of `b*t^2 + c*t + d`: two for a positive discriminant, one for a
/// discriminant that counts as zero, none otherwise.
pub open spec fn quadratic_roots<S: Scalar>(b: S, c: S, d: S) -> Seq<S> {
    let delta = discriminant(b, c, d);
    let two_b = num::<S>(2).mul_spec(b);
    if zero::<S>().lt_spec(delta) {
        let root = delta.sqrt_spec();
        seq![
            c.neg_spec().sub_spec(root).div_spec(two_b),
            c.neg_spec().add_spec(root).div_spec(two_b),
        ]
    } else if near_zero(delta) {
        seq![c.neg_spec().div_spec(two_b)]
    } else {
        Seq::empty()
    }
}

/// One third, as the quotient of one and three.
pub open spec fn third<S: Scalar>() -> S {
    one::<S>().div_spec(num::<S>(3))
}

/// The cube root that keeps the sign of `x`.
pub open spec fn signed_cube_root<S: Scalar>(x: S) -> S {
    x.signum_spec().mul_spec(x.abs_spec().powf_spec(third::<S>()))
}

/// Cardano's first quantity, `(3*cn - bn^2) / 9`, of the monic cubic
/// `t^3 + bn*t^2 + cn*t + dn`.
pub open spec fn cardano_q<S: Scalar>(bn: S, cn: S) -> S {
    num::<S>(3).mul_spec(cn).sub_spec(bn.mul_spec(bn)).div_spec(num::<S>(9))
}

/// Cardano's second quantity, `(9*bn*cn - 27*dn - 2*bn^3) / 54`.
pub open spec fn cardano_r<S: Scalar>(bn: S, cn: S, dn: S) -> S {
    num::<S>(9).mul_spec(bn).mul_spec(cn).sub_spec(num::<S>(27).mul_spec(dn)).sub_spec(
        num::<S>(2).mul_spec(bn).mul_spec(bn).mul_spec(bn),
    ).div_spec(num::<S>(54))
}

/// The discriminant `q^3 + r^2` of the cubic.
pub open spec fn cardano_discriminant<S: Scalar>(q: S, r: S) -> S {
    q.mul_spec(q).mul_spec(q).add_spec(r.mul_spec(r))
}

/// The shift `-bn/3` that takes a root of the depressed cubic back.
pub open spec fn shift<S: Scalar>(bn: S) -> S {
    bn.neg_spec().mul_spec(third::<S>())
}

/// The roots where the discriminant `disc` is not negative: one real root,
/// and the double root beside it where the two cube roots coincide and do not
/// cancel.
pub open spec fn roots_one_real<S: Scalar>(bn: S, r: S, disc: S) -> Seq<S> {
    let s = signed_cube_root(r.add_spec(disc.sqrt_spec()));
    let t = signed_cube_root(r.sub_spec(disc.sqrt_spec()));
    let sum = s.add_spec(t);
    let first = shift(bn).add_spec(sum);
    if near_zero(s.sub_spec(t)) && S::epsilon_spec().le_spec(sum.abs_spec()) {
        seq![first, shift(bn).sub_spec(sum.div_spec(num::<S>(2)))]
    } else {
        seq![first]
    }
}

/// The angle `acos(r / sqrt(-q^3))` of the trigonometric form.
pub open spec fn cardano_angle<S: Scalar>(q: S, r: S) -> S {
    r.div_spec(q.neg_spec().mul_spec(q).mul_spec(q).sqrt_spec()).acos_spec()
}

/// The root `2*sqrt(-q)*cos((theta + k*pi)/3) - bn/3` of the trigonometric
/// form, for `k` one of 0, 2 and 4.
pub open spec fn trig_root<S: Scalar>(bn: S, q: S, theta: S, k: usize) -> S {
    let angle = if k == 0 {
        theta
    } else {
        theta.add_spec(num::<S>(k).mul_spec(S::pi_spec()))
    };
    num::<S>(2).mul_spec(q.neg_spec().sqrt_spec()).mul_spec(
        angle.mul_spec(third::<S>()).cos_spec(),
    ).sub_spec(bn.mul_spec(third::<S>()))
}

/// The three roots where the discriminant is negative.
pub open spec fn roots_three_real<S: Scalar>(bn: S, q: S, r: S) -> Seq<S> {
    let theta = cardano_angle(q, r);
    seq![trig_root(bn, q, theta, 0), trig_root(bn, q, theta, 2), trig_root(bn, q, theta, 4)]
}

/// The roots of `a*t^3 + b*t^2 + c*t + d` by Cardano's method, for an `a`
/// that does not count as zero.
pub open spec fn cubic_roots<S: Scalar>(a: S, b: S, c: S, d: S) -> Seq<S> {
    let bn = b.div_spec(a);
    let cn = c.div_spec(a);
    let dn = d.div_spec(a);
    let q = cardano_q(bn, cn);
    let r = cardano_r(bn, cn, dn);
    let disc = cardano_discriminant(q, r);
    if zero::<S>().le_spec(disc) {
        roots_one_real(bn, r, disc)
    } else {
        roots_three_real(bn, q, r)
    }
}

/// The real roots of `b*t^2 + c*t + d`, stepping down to the linear
/// polynomial where `b` counts as zero. Where `c` does so too there is none.
pub open spec fn low_degree_roots<S: Scalar>(b: S, c: S, d: S) -> Seq<S> {
    if !near_zero(b) {
        quadratic_roots(b, c, d)
    } else if !near_zero(c) {
        seq![linear_root(c, d)]
    } else {
        Seq::empty()
    }
}

/// The real roots of `a*t^3 + b*t^2 + c*t + d`, in the order in which the
/// solver finds them. A polynomial whose three leading coefficients all count
/// as zero has none.
pub open spec fn polynomial_roots<S: Scalar>(a: S, b: S, c: S, d: S) -> Seq<S> {
    if !near_zero(a) {
        cubic_roots(a, b, c, d)
    } else {
        low_degree_roots(b, c, d)
    }
}

/// Whether `x` lies strictly between zero and one.
pub open spec fn in_open_unit<S: Scalar>(x: S) -> bool {
    zero::<S>().lt_spec(x) && x.lt_spec(one::<S>())
}

/// The entries of `roots` that lie strictly between zero and one, in order.
pub open spec fn interior_roots<S: Scalar>(roots: Seq<S>) -> Seq<S> {
    roots.filter(|x: S| in_open_unit(x))
}

/// The solver never yields more than three roots.
pub proof fn lemma_at_most_three_roots<S: Scalar>(a: S, b: S, c: S, d: S)
    ensures
        polynomial_roots(a, b, c, d).len() <= 3,
{
}

/// Solves `b*t^2 + c*t + d = 0` for a `b` that does not count as zero.
pub fn solve_quadratic<S: Scalar>(b: S, c: S, d: S) -> (roots: Vec<S>)
    ensures
        roots@ == quadratic_roots(b, c, d),
{
    let mut roots: Vec<S> = Vec::new();
    let delta = c.mul(c).sub(S::from_usize(4).mul(b).mul(d));
    let two_b = S::from_usize(2).mul(b);
    if S::from_usize(0).lt(delta) {
        let root = delta.sqrt();
        roots.push(c.neg().sub(root).div(two_b));
        roots.push(c.neg().add(root).div(two_b));
    } else if is_near_zero(delta) {
        roots.push(c.neg().div(two_b));
    }
    assert(roots@ =~= quadratic_roots(b, c, d));
    roots
}

/// The cube root of `x` with the sign of `x`.
pub fn cube_root<S: Scalar>(x: S) -> (r: S)
    ensures
        r == signed_cube_root(x),
{
    let exponent = S::from_usize(1).div(S::from_usize(3));
    x.signum().mul(x.abs().powf(exponent))
}

/// Solves `a*t^3 + b*t^2 + c*t + d = 0` by Cardano's method, for an `a` that
/// does not count as zero.
pub fn solve_cubic<S: Scalar>(a: S, b: S, c: S, d: S) -> (roots: Vec<S>)
    ensures
        roots@ == cubic_roots(a, b, c, d),
{
    let mut roots: Vec<S> = Vec::new();
    let frac_1_3 = S::from_usize(1).div(S::from_usize(3));
    let bn = b.div(a);
    let cn = c.div(a);
    let dn = d.div(a);
    let q = S::from_usize(3).mul(cn).sub(bn.mul(bn)).div(S::from_usize(9));
    let r = S::from_usize(9).mul(bn).mul(cn).sub(S::from_usize(27).mul(dn)).sub(
        S::from_usize(2).mul(bn).mul(bn).mul(bn),
    ).div(S::from_usize(54));
    let disc = q.mul(q).mul(q).add(r.mul(r));
    let back = bn.neg().mul(frac_1_3);
    if S::from_usize(0).le(disc) {
        let s = cube_root(r.add(disc.sqrt()));
        let t = cube_root(r.sub(disc.sqrt()));
        let sum = s.add(t);
        roots.push(back.add(sum));
        if is_near_zero(s.sub(t)) && S::epsilon().le(sum.abs()) {
            roots.push(back.sub(sum.div(S::from_usize(2))));
        }
        assert(roots@ =~= roots_one_real(bn, r, disc));
    } else {
        let theta = r.div(q.neg().mul(q).mul(q).sqrt()).acos();
        let radius = S::from_usize(2).mul(q.neg().sqrt());
        let offset = bn.mul(frac_1_3);
        roots.push(radius.mul(theta.mul(frac_1_3).cos()).sub(offset));
        roots.push(
            radius.mul(theta.add(S::from_usize(2).mul(S::pi())).mul(frac_1_3).cos()).sub(offset),
        );
        roots.push(
            radius.mul(theta.add(S::from_usize(4).mul(S::pi())).mul(frac_1_3).cos()).sub(offset),
        );
        assert(roots@ =~= roots_three_real(bn, q, r));
    }
    roots
}

/// The real roots of `b*t^2 + c*t + d`, of whatever degree it has.
pub fn solve_low_degree<S: Scalar>(b: S, c: S, d: S) -> (roots: Vec<S>)
    ensures
        roots@ == low_degree_roots(b, c, d),
        roots@.len() <= 2,
{
    if is_near_zero(b) {
        let mut roots: Vec<S> = Vec::new();
        if !is_near_zero(c) {
            roots.push(d.neg().div(c));
        }
        assert(roots@ =~= low_degree_roots(b, c, d));
        return roots;
    }
    solve_quadratic(b, c, d)
}

/// The real roots of `a*t^3 + b*t^2 + c*t + d`. An empty result means that
/// there is no real root.
pub fn solve<S: Scalar>(a: S, b: S, c: S, d: S) -> (roots: Vec<S>)
    ensures
        roots@ == polynomial_roots(a, b, c, d),
        roots@.len() <= 3,
{
    if is_near_zero(a) {
        return solve_low_degree(b, c, d);
    }
    solve_cubic(a, b, c, d)
}

/// The entries of `roots` that lie strictly between zero and one.
pub fn keep_interior<S: Scalar>(roots: &Vec<S>) -> (kept: Vec<S>)
    ensures
        kept@ == interior_roots(roots@),
        kept@.len() <= roots@.len(),
{
    let mut kept: Vec<S> = Vec::new();
    let mut i: usize = 0;
    while i < roots.len()
        invariant
            i <= roots.len(),
            kept@ == interior_roots(roots@.take(i as int)),
            kept@.len() <= i,
        decreases roots.len() - i,
    {
        let x = roots[i];
        proof {
            assert(roots@.take(i + 1).drop_last() =~= roots@.take(i as int));
            reveal(Seq::filter);
        }
        if S::from_usize(0).lt(x) && x.lt(S::from_usize(1)) {
            kept.push(x);
        }
        i += 1;
    }
    assert(roots@.take(roots.len() as int) =~= roots@);
    kept
}

} // verus!
