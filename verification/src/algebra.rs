//! Identities of polynomials over the real numbers.
//!
//! The interpolation schemes of the curves, written over the reals, and the
//! algebra that relates them: the passes of De Casteljau's scheme give the
//! Bernstein polynomials, a part of a cubic is the cubic over a part of its
//! domain, and the differences of the coefficients give the slope. Products
//! of reals are taken apart by hand, one law of the field at a time.

use vstd::prelude::*;

verus! {

/// Multiplication is commutative.
pub proof fn lemma_commute(a: real, b: real)
    ensures
        a * b == b * a,
{
    assert(a * b == b * a) by (nonlinear_arith);
}

/// Multiplication is associative.
pub proof fn lemma_associate(a: real, b: real, c: real)
    ensures
        (a * b) * c == a * (b * c),
{
    assert((a * b) * c == a * (b * c)) by (nonlinear_arith);
}

/// Multiplication distributes over a sum.
pub proof fn lemma_distribute(a: real, b: real, c: real)
    ensures
        (a + b) * c == a * c + b * c,
{
    assert((a + b) * c == a * c + b * c) by (nonlinear_arith);
}

/// A product with a difference, term by term.
pub proof fn lemma_distribute_difference(a: real, b: real, c: real)
    ensures
        (a - b) * c == a * c - b * c,
{
    assert((a - b) * c == a * c - b * c) by (nonlinear_arith);
}

/// A product with one, and with zero.
pub proof fn lemma_unit_factors(a: real, k: real)
    ensures
        k == 1 as real ==> a * k == a,
        k == 0 as real ==> a * k == 0 as real,
{
    assert(k == 1 as real ==> a * k == a) by (nonlinear_arith);
    assert(k == 0 as real ==> a * k == 0 as real) by (nonlinear_arith);
}

/// A factor of a vanishing product vanishes if the other does not.
pub proof fn lemma_zero_product(k: real, g: real)
    requires
        k * g == 0 as real,
        k != 0 as real,
    ensures
        g == 0 as real,
{
    assert(g == 0 as real) by (nonlinear_arith)
        requires
            k * g == 0 as real,
            k != 0 as real,
    ;
}

/// Three times a product, as a sum.
pub proof fn lemma_triple(a: real, m: real)
    ensures
        a * (3 as real * m) == a * m + a * m + a * m,
{
    assert(a * (3 as real * m) == a * m + a * m + a * m) by (nonlinear_arith);
}

/// A product with a sum of two products, term by term.
pub proof fn lemma_scale_sum(s: real, a: real, m: real, b: real, n: real, w: real)
    requires
        s == a * m + b * n,
    ensures
        s * w == a * (m * w) + b * (n * w),
{
    lemma_distribute(a * m, b * n, w);
    lemma_associate(a, m, w);
    lemma_associate(b, n, w);
}

/// A product with a sum, term by term.
pub proof fn lemma_scale_parts(s: real, g: real, h: real, w: real)
    requires
        s == g + h,
    ensures
        s * w == g * w + h * w,
{
    lemma_distribute(g, h, w);
}

/// A coefficient times a polynomial `k0 + k1*x + k2*y`, term by term.
pub proof fn lemma_expand(a: real, k0: real, k1: real, k2: real, x: real, y: real)
    ensures
        a * (k0 + k1 * x + k2 * y) == k0 * a + k1 * (a * x) + k2 * (a * y),
{
    lemma_commute(a, k0 + k1 * x + k2 * y);
    lemma_distribute(k0 + k1 * x, k2 * y, a);
    lemma_distribute(k0, k1 * x, a);
    lemma_associate(k1, x, a);
    lemma_associate(k2, y, a);
    lemma_commute(x, a);
    lemma_commute(y, a);
}

/// Three times a difference times a polynomial `k0 + k1*x + k2*y`, term by
/// term.
pub proof fn lemma_weighted(a: real, b: real, k0: real, k1: real, k2: real, x: real, y: real)
    ensures
        ((a - b) * (3 as real)) * (k0 + k1 * x + k2 * y) == 3 as real * (k0 * a + k1 * (a * x)
            + k2 * (a * y)) - 3 as real * (k0 * b + k1 * (b * x) + k2 * (b * y)),
{
    let q = k0 + k1 * x + k2 * y;
    lemma_expand(a, k0, k1, k2, x, y);
    lemma_expand(b, k0, k1, k2, x, y);
    lemma_commute(a - b, 3 as real);
    lemma_associate(3 as real, a - b, q);
    lemma_commute(a - b, q);
    lemma_distribute(a, -b, q);
    lemma_commute(a, q);
    lemma_commute(-b, q);
    lemma_commute(b, q);
    assert((-b) * q == -(b * q)) by (nonlinear_arith);
}

/// The monomials of degree three in `x` and `u`, whatever the order of the
/// factors.
pub proof fn lemma_monomials(x: real, u: real)
    ensures
        (u * u) * x == (x * u) * u,
        (x * u) * x == (x * x) * u,
        u * (x * x) == (x * x) * u,
{
    lemma_associate(x, u, u);
    lemma_commute(x, u * u);
    lemma_associate(x, u, x);
    lemma_associate(x, x, u);
    lemma_commute(u, x);
    lemma_commute(u, x * x);
}

/// The product of two squares is the square of the product, and likewise for
/// cubes.
pub proof fn lemma_powers_of_product(x: real, y: real)
    ensures
        (x * x) * (y * y) == (x * y) * (x * y),
        ((x * x) * x) * ((y * y) * y) == ((x * y) * (x * y)) * (x * y),
{
    let xy = x * y;
    let xx = x * x;
    let yy = y * y;
    lemma_associate(x, x, yy);
    lemma_associate(x, y, y);
    lemma_associate(x, y, xy);
    lemma_commute(y, xy);
    assert(xx * yy == xy * xy);
    lemma_associate(xx * x, yy, y);
    lemma_commute(xx, x);
    lemma_associate(x, xx, yy);
    lemma_commute(x, xy * xy);
    lemma_associate(xy * xy, x, y);
}

/// The point `a + (b - a)*x` between two reals.
pub open spec fn mix_real(a: real, b: real, x: real) -> real {
    a + (b - a) * x
}

/// Two passes of interpolation over three reals.
pub open spec fn two_passes(a: real, b: real, c: real, x: real) -> real {
    mix_real(mix_real(a, b, x), mix_real(b, c, x), x)
}

/// Three passes of interpolation over four reals.
pub open spec fn three_passes(p0: real, p1: real, p2: real, p3: real, x: real) -> real {
    mix_real(
        mix_real(mix_real(p0, p1, x), mix_real(p1, p2, x), x),
        mix_real(mix_real(p1, p2, x), mix_real(p2, p3, x), x),
        x,
    )
}

/// The cubic Bernstein polynomial over the reals.
pub open spec fn cubic(p0: real, p1: real, p2: real, p3: real, t: real) -> real {
    let u = 1 as real - t;
    p0 * (u * u * u) + p1 * (3 as real * t * u * u) + p2 * (3 as real * t * t * u) + p3 * (t * t
        * t)
}

/// The quadratic Bernstein polynomial over the reals.
pub open spec fn quadratic(d0: real, d1: real, d2: real, x: real) -> real {
    let u = 1 as real - x;
    d0 * (u * u) + d1 * (2 as real * x * u) + d2 * (x * x)
}

/// The derivative of the cubic Bernstein polynomial over the reals.
pub open spec fn cubic_slope(p0: real, p1: real, p2: real, p3: real, x: real) -> real {
    let x2 = x * x;
    p0 * (-(3 as real) * x2 + 6 as real * x - 3 as real) + p1 * (9 as real * x2 - 12 as real * x
        + 3 as real) + p2 * (-(9 as real) * x2 + 6 as real * x) + p3 * (3 as real * x2)
}

/// Interpolation weighs its ends by `1 - x` and `x`.
pub proof fn lemma_mix(a: real, b: real, x: real)
    ensures
        mix_real(a, b, x) == a * (1 as real - x) + b * x,
{
    assert(a + (b - a) * x == a * (1 as real - x) + b * x) by (nonlinear_arith);
}

/// Interpolation from the other end.
pub proof fn lemma_mix_reversed(a: real, b: real, x: real)
    ensures
        mix_real(a, b, x) == mix_real(b, a, 1 as real - x),
{
    assert(a + (b - a) * x == b + (a - b) * (1 as real - x)) by (nonlinear_arith);
}

/// Two passes of interpolation give the quadratic Bernstein polynomial.
pub proof fn lemma_two_passes(a: real, b: real, c: real, x: real)
    ensures
        mix_real(mix_real(a, b, x), mix_real(b, c, x), x) == a * ((1 as real - x) * (1 as real
            - x)) + b * (x * (1 as real - x)) + b * (x * (1 as real - x)) + c * (x * x),
{
    let u = 1 as real - x;
    let ab = mix_real(a, b, x);
    let bc = mix_real(b, c, x);
    lemma_mix(a, b, x);
    lemma_mix(b, c, x);
    lemma_mix(ab, bc, x);
    lemma_scale_sum(ab, a, u, b, x, u);
    lemma_scale_sum(bc, b, u, c, x, x);
    lemma_commute(u, x);
}

/// The two inner terms of the cubic, as sums of three equal products.
pub proof fn lemma_inner_terms(p1: real, p2: real, x: real, u: real)
    ensures
        p1 * (3 as real * x * u * u) == p1 * ((x * u) * u) + p1 * ((x * u) * u) + p1 * ((x * u)
            * u),
        p2 * (3 as real * x * x * u) == p2 * ((x * x) * u) + p2 * ((x * x) * u) + p2 * ((x * x)
            * u),
{
    lemma_associate(3 as real, x, u);
    lemma_associate(3 as real, x * u, u);
    lemma_triple(p1, (x * u) * u);
    lemma_associate(3 as real, x, x);
    lemma_associate(3 as real, x * x, u);
    lemma_triple(p2, (x * x) * u);
}

/// Three passes of interpolation give the cubic Bernstein polynomial.
pub proof fn lemma_three_passes(p0: real, p1: real, p2: real, p3: real, x: real)
    ensures
        three_passes(p0, p1, p2, p3, x) == cubic(p0, p1, p2, p3, x),
{
    let u = 1 as real - x;
    let uu = u * u;
    let xu = x * u;
    let xx = x * x;
    let abc = mix_real(mix_real(p0, p1, x), mix_real(p1, p2, x), x);
    let bcd = mix_real(mix_real(p1, p2, x), mix_real(p2, p3, x), x);
    lemma_two_passes(p0, p1, p2, x);
    lemma_two_passes(p1, p2, p3, x);
    lemma_mix(abc, bcd, x);
    let g1 = p0 * uu + p2 * xx;
    let h1 = p1 * xu + p1 * xu;
    lemma_scale_parts(abc, g1, h1, u);
    lemma_scale_sum(g1, p0, uu, p2, xx, u);
    lemma_scale_sum(h1, p1, xu, p1, xu, u);
    let g2 = p1 * uu + p3 * xx;
    let h2 = p2 * xu + p2 * xu;
    lemma_scale_parts(bcd, g2, h2, x);
    lemma_scale_sum(g2, p1, uu, p3, xx, x);
    lemma_scale_sum(h2, p2, xu, p2, xu, x);
    // the monomials: u*u*x is x*u*u, and x*u*x is x*x*u
    lemma_associate(x, u, u);
    lemma_commute(x, uu);
    assert(uu * x == xu * u);
    lemma_associate(x, u, x);
    lemma_associate(x, x, u);
    lemma_commute(u, x);
    assert(xu * x == xx * u);
    // the weights of the cubic
    lemma_associate(3 as real, x, u);
    lemma_associate(3 as real, xu, u);
    lemma_triple(p1, xu * u);
    assert(p1 * (3 as real * x * u * u) == p1 * (xu * u) + p1 * (xu * u) + p1 * (xu * u));
    lemma_associate(3 as real, x, x);
    lemma_associate(3 as real, xx, u);
    lemma_triple(p2, xx * u);
    assert(p2 * (3 as real * x * x * u) == p2 * (xx * u) + p2 * (xx * u) + p2 * (xx * u));
}

/// The cubic with its inner weights written as `p*3*(1-x)^2*x` and
/// `p*3*(1-x)*x^2` is the same polynomial.
pub proof fn lemma_weights_reordered(p0: real, p1: real, p2: real, p3: real, x: real)
    ensures
        ({
            let u = 1 as real - x;
            p0 * (u * u * u) + p1 * (3 as real) * (u * u) * x + p2 * (3 as real) * u * (x * x) + p3
                * (x * x * x)
        }) == cubic(p0, p1, p2, p3, x),
{
    let u = 1 as real - x;
    lemma_monomials(x, u);
    lemma_inner_terms(p1, p2, x, u);
    lemma_associate(p1 * (3 as real), u * u, x);
    lemma_associate(p1, 3 as real, (u * u) * x);
    lemma_triple(p1, (x * u) * u);
    lemma_associate(p2 * (3 as real), u, x * x);
    lemma_associate(p2, 3 as real, u * (x * x));
    lemma_triple(p2, (x * x) * u);
}

/// A cubic runs backwards over its coefficients in reverse.
pub proof fn lemma_cubic_reversed(p0: real, p1: real, p2: real, p3: real, z: real)
    ensures
        cubic(p0, p1, p2, p3, z) == cubic(p3, p2, p1, p0, 1 as real - z),
{
    let u = 1 as real - z;
    assert(1 as real - u == z);
    lemma_monomials(z, u);
    lemma_inner_terms(p1, p2, z, u);
    lemma_associate(3 as real, u, u);
    lemma_associate(3 as real, u * u, z);
    lemma_triple(p1, (z * u) * u);
    lemma_associate(3 as real, u, z);
    lemma_associate(3 as real, u * z, z);
    lemma_associate(u, z, z);
    lemma_triple(p2, (z * z) * u);
}

/// Two passes of interpolation in powers of `z`:
/// `a + 2*(b - a)*z + (c - 2b + a)*z^2`.
pub proof fn lemma_two_passes_in_powers(a: real, b: real, c: real, d1: real, d2: real, z: real)
    requires
        d1 == b - a,
        d2 == c - b - d1,
    ensures
        mix_real(a, b, z) == a + d1 * z,
        two_passes(a, b, c, z) == a + d1 * z + d1 * z + d2 * (z * z),
{
    let e = c - b;
    let ab = mix_real(a, b, z);
    let bc = mix_real(b, c, z);
    lemma_distribute_difference(e, d1, z);
    assert(d2 * z == e * z - d1 * z);
    assert(bc - ab == d1 + d2 * z);
    lemma_scale_parts(bc - ab, d1, d2 * z, z);
    lemma_associate(d2, z, z);
}

/// Three passes of interpolation in powers of `z`:
/// `p0 + 3*d1*z + 3*d2*z^2 + d3*z^3`, with the first, second and third
/// differences of the coefficients.
pub proof fn lemma_three_passes_in_powers(
    p0: real,
    p1: real,
    p2: real,
    p3: real,
    d1: real,
    d2: real,
    d3: real,
    z: real,
)
    requires
        d1 == p1 - p0,
        d2 == p2 - p1 - d1,
        d3 == p3 - p2 - (p2 - p1) - d2,
    ensures
        three_passes(p0, p1, p2, p3, z) == p0 + 3 as real * (d1 * z) + 3 as real * (d2 * (z * z))
            + d3 * ((z * z) * z),
{
    let zz = z * z;
    let e1 = p2 - p1;
    let e2 = p3 - p2 - e1;
    let abc = two_passes(p0, p1, p2, z);
    let bcd = two_passes(p1, p2, p3, z);
    lemma_two_passes_in_powers(p0, p1, p2, d1, d2, z);
    lemma_two_passes_in_powers(p1, p2, p3, e1, e2, z);
    lemma_distribute_difference(e1, d1, z);
    assert(d2 * z == e1 * z - d1 * z);
    lemma_distribute_difference(e2, d2, zz);
    assert(d3 * zz == e2 * zz - d2 * zz);
    let twice = d2 * z + d2 * z;
    assert(bcd - abc == (d1 + twice) + d3 * zz);
    lemma_scale_parts(bcd - abc, d1 + twice, d3 * zz, z);
    lemma_scale_parts(d1 + twice, d1, twice, z);
    lemma_scale_parts(twice, d2 * z, d2 * z, z);
    lemma_associate(d2, z, z);
    lemma_associate(d3, zz, z);
}

/// The part of a cubic before `x`, taken at `y`, is the cubic at `y*x`.
pub proof fn lemma_left_part(p0: real, p1: real, p2: real, p3: real, x: real, y: real)
    ensures
        cubic(
            p0,
            mix_real(p0, p1, x),
            two_passes(p0, p1, p2, x),
            three_passes(p0, p1, p2, p3, x),
            y,
        ) == cubic(p0, p1, p2, p3, y * x),
{
    let d1 = p1 - p0;
    let d2 = p2 - p1 - d1;
    let d3 = p3 - p2 - (p2 - p1) - d2;
    let xx = x * x;
    let yy = y * y;
    let l1 = mix_real(p0, p1, x);
    let l2 = two_passes(p0, p1, p2, x);
    let l3 = three_passes(p0, p1, p2, p3, x);
    lemma_two_passes_in_powers(p0, p1, p2, d1, d2, x);
    lemma_three_passes_in_powers(p0, p1, p2, p3, d1, d2, d3, x);
    // the differences of the part are those of the whole, times powers of x
    lemma_three_passes(p0, l1, l2, l3, y);
    lemma_three_passes_in_powers(p0, l1, l2, l3, d1 * x, d2 * xx, d3 * (xx * x), y);
    lemma_three_passes(p0, p1, p2, p3, y * x);
    lemma_three_passes_in_powers(p0, p1, p2, p3, d1, d2, d3, y * x);
    lemma_commute(y, x);
    lemma_powers_of_product(x, y);
    lemma_associate(d1, x, y);
    lemma_associate(d2, xx, yy);
    lemma_associate(d3, xx * x, yy * y);
}

/// The part of a cubic after `x`, taken at `y`, is the cubic at
/// `x + y*(1 - x)`.
pub proof fn lemma_right_part(p0: real, p1: real, p2: real, p3: real, x: real, y: real)
    ensures
        cubic(
            three_passes(p0, p1, p2, p3, x),
            two_passes(p1, p2, p3, x),
            mix_real(p2, p3, x),
            p3,
            y,
        ) == cubic(p0, p1, p2, p3, x + y * (1 as real - x)),
{
    let w = 1 as real - x;
    let v = 1 as real - y;
    let ab = mix_real(p0, p1, x);
    let bc = mix_real(p1, p2, x);
    let cd = mix_real(p2, p3, x);
    let abc = mix_real(ab, bc, x);
    let bcd = mix_real(bc, cd, x);
    let mid = mix_real(abc, bcd, x);
    lemma_mix_reversed(p0, p1, x);
    lemma_mix_reversed(p1, p2, x);
    lemma_mix_reversed(p2, p3, x);
    lemma_mix_reversed(ab, bc, x);
    lemma_mix_reversed(bc, cd, x);
    lemma_mix_reversed(abc, bcd, x);
    assert(cd == mix_real(p3, p2, w));
    assert(bcd == two_passes(p3, p2, p1, w));
    assert(mid == three_passes(p3, p2, p1, p0, w));
    lemma_cubic_reversed(mid, bcd, cd, p3, y);
    lemma_left_part(p3, p2, p1, p0, w, v);
    lemma_cubic_reversed(p3, p2, p1, p0, v * w);
    assert(1 as real - v * w == x + y * w) by (nonlinear_arith)
        requires
            w == 1 as real - x,
            v == 1 as real - y,
    ;
}

/// The quadratic over three times the differences of the coefficients of a
/// cubic is the derivative of the cubic.
pub proof fn lemma_slope(p0: real, p1: real, p2: real, p3: real, x: real)
    ensures
        quadratic(
            (p1 - p0) * (3 as real),
            (p2 - p1) * (3 as real),
            (p3 - p2) * (3 as real),
            x,
        ) == cubic_slope(p0, p1, p2, p3, x),
{
    let u = 1 as real - x;
    let x2 = x * x;
    let d0 = (p1 - p0) * (3 as real);
    let d1 = (p2 - p1) * (3 as real);
    let d2 = (p3 - p2) * (3 as real);
    assert(u * u == 1 as real - 2 as real * x + x2) by (nonlinear_arith)
        requires
            u == 1 as real - x,
            x2 == x * x,
    ;
    lemma_associate(2 as real, x, u);
    assert(x * u == x - x2) by (nonlinear_arith)
        requires
            u == 1 as real - x,
            x2 == x * x,
    ;
    lemma_weighted(p1, p0, 1 as real, -(2 as real), 1 as real, x, x2);
    lemma_weighted(p2, p1, 0 as real, 2 as real, -(2 as real), x, x2);
    lemma_weighted(p3, p2, 0 as real, 0 as real, 1 as real, x, x2);
    lemma_expand(p0, -(3 as real), 6 as real, -(3 as real), x, x2);
    lemma_expand(p1, 3 as real, -(12 as real), 9 as real, x, x2);
    lemma_expand(p2, 0 as real, 6 as real, -(9 as real), x, x2);
    lemma_expand(p3, 0 as real, 0 as real, 3 as real, x, x2);
}

/// The quadratic Bernstein polynomial in powers of `x`.
pub proof fn lemma_quadratic_in_powers(d0: real, d1: real, d2: real, x: real)
    ensures
        quadratic(d0, d1, d2, x) == (d0 + d1 * (-(2 as real)) + d2) * (x * x) + (d0 * (-(
        2 as real)) + d1 * (2 as real)) * x + d0,
{
    let u = 1 as real - x;
    let xx = x * x;
    assert(u * u == 1 as real - 2 as real * x + xx) by (nonlinear_arith)
        requires
            u == 1 as real - x,
            xx == x * x,
    ;
    assert(x * u == x - xx) by (nonlinear_arith)
        requires
            u == 1 as real - x,
            xx == x * x,
    ;
    lemma_associate(2 as real, x, u);
    lemma_expand(d0, 1 as real, -(2 as real), 1 as real, x, xx);
    lemma_expand(d1, 0 as real, 2 as real, -(2 as real), x, xx);
    lemma_distribute(d0 + d1 * (-(2 as real)), d2, xx);
    lemma_distribute(d0, d1 * (-(2 as real)), xx);
    lemma_associate(d1, -(2 as real), xx);
    lemma_commute(d1, (-(2 as real)) * xx);
    lemma_associate(-(2 as real), xx, d1);
    lemma_commute(xx, d1);
    lemma_distribute(d0 * (-(2 as real)), d1 * (2 as real), x);
    lemma_associate(d0, -(2 as real), x);
    lemma_commute(d0, (-(2 as real)) * x);
    lemma_associate(-(2 as real), x, d0);
    lemma_commute(x, d0);
    lemma_associate(d1, 2 as real, x);
    lemma_commute(d1, (2 as real) * x);
    lemma_associate(2 as real, x, d1);
    lemma_commute(x, d1);
}

/// Completing the square: with `t == 2*b*r`, four times `b` times the value
/// of the quadratic at `r` is `t^2 + 2*c*t + 4*b*d`.
pub proof fn lemma_complete_square(b: real, c: real, d: real, r: real, t: real)
    requires
        t == r * (2 as real * b),
    ensures
        (4 as real * b) * (b * (r * r) + c * r + d) == t * t + 2 as real * (c * t) + 4 as real
            * b * d,
{
    let k = 4 as real * b;
    let h = 2 as real * b;
    lemma_commute(k, b * (r * r) + c * r + d);
    lemma_distribute(b * (r * r) + c * r, d, k);
    lemma_distribute(b * (r * r), c * r, k);
    lemma_commute(d, k);
    // t*t is 4*b * (b*r*r)
    lemma_associate(r, h, r * h);
    lemma_commute(h, r * h);
    lemma_associate(r, h, h);
    lemma_associate(r, r, h * h);
    lemma_commute(r * r, h * h);
    assert(t * t == (h * h) * (r * r));
    lemma_associate(2 as real, b, h);
    lemma_commute(b, h);
    lemma_associate(2 as real, b, b);
    lemma_associate(2 as real, 2 as real * b, b);
    assert(h * h == k * b);
    lemma_associate(k, b, r * r);
    lemma_commute(b * (r * r), k);
    // 2*c*t is 4*b * (c*r)
    lemma_associate(c, r, h);
    lemma_commute(c * r, h);
    lemma_associate(2 as real, h, c * r);
    lemma_commute(c * r, k);
}

} // verus!
