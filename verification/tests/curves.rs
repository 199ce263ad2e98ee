use num_traits::{Float, FloatConst};
use stroke::bezier::Bezier;
use stroke::bspline::BSpline;
use stroke::cubic_bezier::{extremes, CubicBezier};
use stroke::line::{inner_product, LineSegment};
use stroke::point::Point;
use stroke::point_generic::PointN;
use stroke::quadratic_bezier::QuadraticBezier;
use stroke::roots::{cube_root, keep_interior, solve, solve_cubic, solve_low_degree, solve_quadratic};
use stroke::scalar::{is_near_zero, Scalar};

/// Double-precision floating point as the scalar of the curves.
#[derive(Clone, Copy, Debug, PartialEq)]
struct R(f64);

// The specification half of each operation says what it yields, and the
// executable half returns that value.
impl Scalar for R {
    fn from_usize_spec(n: usize) -> Self {
        R(n as f64)
    }
    fn epsilon_spec() -> Self {
        R(<f64 as Float>::epsilon())
    }
    fn pi_spec() -> Self {
        R(<f64 as FloatConst>::PI())
    }
    fn add_spec(self, rhs: Self) -> Self {
        R(self.0 + rhs.0)
    }
    fn sub_spec(self, rhs: Self) -> Self {
        R(self.0 - rhs.0)
    }
    fn mul_spec(self, rhs: Self) -> Self {
        R(self.0 * rhs.0)
    }
    fn div_spec(self, rhs: Self) -> Self {
        R(self.0 / rhs.0)
    }
    fn neg_spec(self) -> Self {
        R(-self.0)
    }
    fn abs_spec(self) -> Self {
        R(Float::abs(self.0))
    }
    fn signum_spec(self) -> Self {
        R(Float::signum(self.0))
    }
    fn sqrt_spec(self) -> Self {
        R(Float::sqrt(self.0))
    }
    fn powf_spec(self, exponent: Self) -> Self {
        R(Float::powf(self.0, exponent.0))
    }
    fn cos_spec(self) -> Self {
        R(Float::cos(self.0))
    }
    fn acos_spec(self) -> Self {
        R(Float::acos(self.0))
    }
    fn eq_spec(self, rhs: Self) -> bool {
        self.0 == rhs.0
    }
    fn lt_spec(self, rhs: Self) -> bool {
        self.0 < rhs.0
    }
    fn le_spec(self, rhs: Self) -> bool {
        self.0 <= rhs.0
    }
    fn from_usize(n: usize) -> Self {
        Self::from_usize_spec(n)
    }
    fn epsilon() -> Self {
        Self::epsilon_spec()
    }
    fn pi() -> Self {
        Self::pi_spec()
    }
    fn add(self, rhs: Self) -> Self {
        self.add_spec(rhs)
    }
    fn sub(self, rhs: Self) -> Self {
        self.sub_spec(rhs)
    }
    fn mul(self, rhs: Self) -> Self {
        self.mul_spec(rhs)
    }
    fn div(self, rhs: Self) -> Self {
        self.div_spec(rhs)
    }
    fn neg(self) -> Self {
        self.neg_spec()
    }
    fn abs(self) -> Self {
        self.abs_spec()
    }
    fn signum(self) -> Self {
        self.signum_spec()
    }
    fn sqrt(self) -> Self {
        self.sqrt_spec()
    }
    fn powf(self, exponent: Self) -> Self {
        self.powf_spec(exponent)
    }
    fn cos(self) -> Self {
        self.cos_spec()
    }
    fn acos(self) -> Self {
        self.acos_spec()
    }
    fn eq(self, rhs: Self) -> bool {
        self.eq_spec(rhs)
    }
    fn lt(self, rhs: Self) -> bool {
        self.lt_spec(rhs)
    }
    fn le(self, rhs: Self) -> bool {
        self.le_spec(rhs)
    }
}

type Plane = PointN<R, 2>;

fn pt(x: f64, y: f64) -> Plane {
    PointN::new([R(x), R(y)])
}

fn coords(p: Plane) -> [f64; 2] {
    [p.0[0].0, p.0[1].0]
}

fn values(v: &Vec<R>) -> Vec<f64> {
    v.iter().map(|x| x.0).collect()
}

fn sorted(v: &Vec<R>) -> Vec<f64> {
    let mut out = values(v);
    out.sort_by(|a, b| a.partial_cmp(b).unwrap());
    out
}

fn quadrants() -> [CubicBezier<Plane>; 4] {
    let c = 0.551915024494;
    [
        CubicBezier::new(pt(0f64, 1f64), pt(c, 1f64), pt(1f64, c), pt(1f64, 0f64)),
        CubicBezier::new(pt(1f64, 0f64), pt(1f64, -c), pt(c, -1f64), pt(0f64, -1f64)),
        CubicBezier::new(pt(0f64, -1f64), pt(-c, -1f64), pt(-1f64, -c), pt(-1f64, 0f64)),
        CubicBezier::new(pt(-1f64, 0f64), pt(-1f64, c), pt(-c, 1f64), pt(0f64, 1f64)),
    ]
}

fn sample_cubic() -> CubicBezier<Plane> {
    CubicBezier::new(pt(0f64, 1.77f64), pt(2.9f64, 0f64), pt(4.3f64, 3f64), pt(3.2f64, -4f64))
}

#[test]
fn eval_endpoints() {
    let points = [
        pt(0f64, 1.77f64),
        pt(1.1f64, -1f64),
        pt(4.3f64, 3f64),
        pt(3.2f64, -4f64),
        pt(7.3f64, 2.7f64),
        pt(8.9f64, 1.7f64),
    ];
    let curve: Bezier<PointN<R, 2>, 6> = Bezier::new(points);
    let max_err = 1e-14;

    let start = curve.eval(R(0.0));
    let err_start = start.sub(points[0]);

    let end = curve.eval(R(1.0));
    let err_end = end.sub(points[points.len() - 1]);

    for axis in coords(err_start) {
        assert!(axis.abs() < max_err);
    }
    for axis in coords(err_end) {
        assert!(axis.abs() < max_err);
    }
}

#[test]
fn bezier_split_equivalence() {
    let bezier = Bezier::new([
        pt(0f64, 1.77f64),
        pt(2.9f64, 0f64),
        pt(4.3f64, 3f64),
        pt(3.2f64, -4f64),
    ]);
    let at = 0.5;
    let (left, right) = bezier.split(R(at));
    let max_err = 1e-14;
    let nsteps: usize = 1000;
    for t in 0..=nsteps {
        let t = t as f64 * 1f64 / (nsteps as f64);
        let mut err = bezier.eval(R(t / 2.0)).sub(left.eval(R(t)));
        for axis in coords(err) {
            assert!(axis.abs() < max_err);
        }
        err = bezier.eval(R((t * 0.5) + 0.5)).sub(right.eval(R(t)));
        for axis in coords(err) {
            assert!(axis.abs() < max_err);
        }
    }
}

#[test]
fn circle_approximation_error() {
    let circle = |p: Plane| -> f64 { coords(p).iter().map(|x| x * x).sum::<f64>().sqrt() - 1f64 };
    let max_drift_perc = 0.019608;
    let max_error = max_drift_perc * 0.01;
    let [q1, q2, q3, q4] = quadrants();
    let nsteps = 1000;
    for t in 0..=nsteps {
        let t = t as f64 * 1f64 / (nsteps as f64);

        let point = q1.eval(R(t));
        let contour = circle(point);
        assert!(contour.abs() <= max_error);

        let point = q2.eval(R(t));
        let contour = circle(point);
        assert!(contour.abs() <= max_error);

        let point = q3.eval(R(t));
        let contour = circle(point);
        assert!(contour.abs() <= max_error);

        let point = q4.eval(R(t));
        let contour = circle(point);
        assert!(contour.abs() <= max_error);
    }
}

#[test]
fn circle_circumference_approximation() {
    let max_error = 1e-2;
    let nsteps = 1e3 as usize;
    let pi = 3.14159265359;
    let tau = 2. * pi;
    let [q1, q2, q3, q4] = quadrants();
    let circumference =
        q1.arclen(nsteps).0 + q2.arclen(nsteps).0 + q3.arclen(nsteps).0 + q4.arclen(nsteps).0;
    assert!(((tau + max_error) > circumference) && ((tau - max_error) < circumference));
}

#[test]
fn eval_equivalence() {
    let bezier =
        CubicBezier::new(pt(0f64, 1.77f64), pt(1.1f64, -1f64), pt(4.3f64, 3f64), pt(3.2f64, -4f64));
    let max_err = 1e-14;
    let nsteps: usize = 1000;
    for t in 0..=nsteps {
        let t = t as f64 * 1f64 / (nsteps as f64);
        let p1 = bezier.eval(R(t));
        let p2 = bezier.eval_casteljau(R(t));
        let err = p2.sub(p1);
        for axis in coords(err) {
            assert!(axis.abs() < max_err);
        }
    }
}

#[test]
fn cubic_bezier_split_equivalence() {
    let bezier = sample_cubic();
    let at = 0.5;
    let (left, right) = bezier.split(R(at));
    let max_err = 1e-14;
    let nsteps: usize = 1000;
    for t in 0..=nsteps {
        let t = t as f64 * 1f64 / (nsteps as f64);
        let mut err = bezier.eval(R(t / 2.0)).sub(left.eval(R(t)));
        for axis in coords(err) {
            assert!(axis.abs() < max_err);
        }
        err = bezier.eval(R((t * 0.5) + 0.5)).sub(right.eval(R(t)));
        for axis in coords(err) {
            assert!(axis.abs() < max_err);
        }
    }
}

#[test]
fn bounding_box_contains() {
    let bezier =
        CubicBezier::new(pt(0f64, 1.77f64), pt(2.9f64, 0f64), pt(4.3f64, -3f64), pt(3.2f64, 4f64));
    let bounds = bezier.bounding_box();
    let max_err = 1e-2;
    let nsteps: usize = 100;
    for t in 0..=nsteps {
        let t = t as f64 * 1f64 / (nsteps as f64);
        let p = bezier.eval_casteljau(R(t));
        for (idx, axis) in coords(p).into_iter().enumerate() {
            assert!((axis >= (bounds[idx].0 .0 - max_err)) && (axis <= (bounds[idx].1 .0 + max_err)))
        }
    }
}

#[test]
fn bounding_box_is_tight_on_a_parabola_like_arc() {
    // a symmetric arch whose height peaks at t = 1/2
    let arch = CubicBezier::new(pt(0.0, 0.0), pt(1.0, 2.0), pt(3.0, 2.0), pt(4.0, 0.0));
    let bounds = arch.bounding_box();
    assert_eq!(bounds.len(), 2);
    assert!((bounds[0].0 .0 - 0.0).abs() < 1e-12);
    assert!((bounds[0].1 .0 - 4.0).abs() < 1e-12);
    assert!((bounds[1].0 .0 - 0.0).abs() < 1e-12);
    // y(1/2) = 3 * 1/8 * 2 + 3 * 1/8 * 2 = 1.5
    assert!((bounds[1].1 .0 - 1.5).abs() < 1e-12);
}

#[test]
fn extremum_candidates_end_with_the_two_ends() {
    let arch = CubicBezier::new(pt(0.0, 0.0), pt(1.0, 2.0), pt(3.0, 2.0), pt(4.0, 0.0));
    let ys = values(&arch.extremum_candidates(1));
    assert_eq!(ys.len(), 3);
    assert!((ys[0] - 1.5).abs() < 1e-12);
    assert_eq!(ys[1], 0.0);
    assert_eq!(ys[2], 0.0);
    let xs = values(&arch.extremum_candidates(0));
    assert_eq!(xs[xs.len() - 2], 0.0);
    assert_eq!(xs[xs.len() - 1], 4.0);
}

#[test]
fn extremes_are_least_and_greatest() {
    let v = vec![R(2.0), R(-1.0), R(5.0), R(0.5)];
    let (lo, hi) = extremes(&v);
    assert_eq!(lo, R(-1.0));
    assert_eq!(hi, R(5.0));
    let one = vec![R(7.0)];
    assert_eq!(extremes(&one), (R(7.0), R(7.0)));
}

#[test]
fn solver_without_coefficients_has_no_root() {
    let curve = sample_cubic();
    let roots = curve.real_roots(R(0.0), R(0.0), R(0.0), R(5.0));
    assert!(roots.is_empty());
}

#[test]
fn solver_linear() {
    let curve = sample_cubic();
    let roots = curve.real_roots(R(0.0), R(0.0), R(2.0), R(-4.0));
    assert_eq!(values(&roots), vec![2.0]);
}

#[test]
fn solver_quadratic() {
    let curve = sample_cubic();
    let roots = sorted(&curve.real_roots(R(0.0), R(1.0), R(0.0), R(-4.0)));
    assert_eq!(roots.len(), 2);
    assert!((roots[0] + 2.0).abs() < 1e-10);
    assert!((roots[1] - 2.0).abs() < 1e-10);
}

#[test]
fn solver_cubic_three_roots() {
    let curve = sample_cubic();
    let roots = sorted(&curve.real_roots(R(1.0), R(-6.0), R(11.0), R(-6.0)));
    assert_eq!(roots.len(), 3);
    assert!((roots[0] - 1.0).abs() < 1e-10);
    assert!((roots[1] - 2.0).abs() < 1e-10);
    assert!((roots[2] - 3.0).abs() < 1e-10);
}

#[test]
fn solver_cubic_single_root() {
    // t^3 - 8 = 0
    let roots = values(&solve(R(1.0), R(0.0), R(0.0), R(-8.0)));
    assert_eq!(roots.len(), 1);
    assert!((roots[0] - 2.0).abs() < 1e-10);
}

#[test]
fn solver_cubic_double_root() {
    // (t - 1)^2 (t + 2) = t^3 - 3t + 2
    let roots = sorted(&solve_cubic(R(1.0), R(0.0), R(-3.0), R(2.0)));
    assert_eq!(roots.len(), 2);
    assert!((roots[0] + 2.0).abs() < 1e-10);
    assert!((roots[1] - 1.0).abs() < 1e-10);
}

#[test]
fn solver_cubic_triple_root_at_zero_is_not_repeated() {
    // t^3 = 0: both cube roots vanish, so the sum counts as zero
    let roots = values(&solve_cubic(R(1.0), R(0.0), R(0.0), R(0.0)));
    assert_eq!(roots, vec![0.0]);
}

#[test]
fn solver_quadratic_branches() {
    // one root where the discriminant vanishes: (t - 1)^2
    assert_eq!(values(&solve_quadratic(R(1.0), R(-2.0), R(1.0))), vec![1.0]);
    // none where it is negative: t^2 + 1
    assert!(solve_quadratic(R(1.0), R(0.0), R(1.0)).is_empty());
    // the smaller root comes first: t^2 - 3t + 2
    assert_eq!(values(&solve_quadratic(R(1.0), R(-3.0), R(2.0))), vec![1.0, 2.0]);
}

#[test]
fn solver_low_degree_steps_down() {
    assert_eq!(values(&solve_low_degree(R(0.0), R(4.0), R(-2.0))), vec![0.5]);
    assert!(solve_low_degree(R(0.0), R(0.0), R(1.0)).is_empty());
    assert_eq!(values(&solve_low_degree(R(2.0), R(0.0), R(-8.0))), vec![-2.0, 2.0]);
}

#[test]
fn cube_root_keeps_the_sign() {
    assert!((cube_root(R(27.0)).0 - 3.0).abs() < 1e-12);
    assert!((cube_root(R(-8.0)).0 + 2.0).abs() < 1e-12);
}

#[test]
fn near_zero_is_below_epsilon() {
    assert!(is_near_zero(R(0.0)));
    assert!(is_near_zero(R(-1e-17)));
    assert!(!is_near_zero(R(f64::EPSILON)));
    assert!(!is_near_zero(R(-0.5)));
}

#[test]
fn interior_roots_are_strictly_inside() {
    let roots = vec![R(0.0), R(0.25), R(1.0), R(-3.0), R(0.75), R(2.0)];
    assert_eq!(values(&keep_interior(&roots)), vec![0.25, 0.75]);
    assert!(keep_interior(&Vec::<R>::new()).is_empty());
}

#[test]
fn generic_curve_of_one_point_is_constant() {
    let curve = Bezier::new([pt(3.0, -2.0)]);
    assert_eq!(coords(curve.eval(R(0.3))), [3.0, -2.0]);
    let (left, right) = curve.split(R(0.3));
    assert_eq!(coords(left.control_points[0]), [3.0, -2.0]);
    assert_eq!(coords(right.control_points[0]), [3.0, -2.0]);
}

#[test]
fn generic_eval_of_a_line_and_a_parabola() {
    let line = Bezier::new([pt(0.0, 0.0), pt(4.0, 8.0)]);
    assert_eq!(coords(line.eval(R(0.25))), [1.0, 2.0]);
    // extrapolation beyond the ends
    assert_eq!(coords(line.eval(R(2.0))), [8.0, 16.0]);
    let parabola = Bezier::new([pt(0.0, 0.0), pt(1.0, 2.0), pt(2.0, 0.0)]);
    assert_eq!(coords(parabola.eval(R(0.5))), [1.0, 1.0]);
}

#[test]
fn generic_split_records_the_pyramid() {
    let parabola = Bezier::new([pt(0.0, 0.0), pt(1.0, 2.0), pt(2.0, 0.0)]);
    let (left, right) = parabola.split(R(0.5));
    assert_eq!(coords(left.control_points[0]), [0.0, 0.0]);
    assert_eq!(coords(left.control_points[1]), [0.5, 1.0]);
    assert_eq!(coords(left.control_points[2]), [1.0, 1.0]);
    assert_eq!(coords(right.control_points[0]), [1.0, 1.0]);
    assert_eq!(coords(right.control_points[1]), [1.5, 1.0]);
    assert_eq!(coords(right.control_points[2]), [2.0, 0.0]);
}

#[test]
fn generic_derivative_scales_differences_by_the_point_count() {
    let curve = Bezier::new([pt(0.0, 0.0), pt(1.0, 2.0), pt(3.0, 1.0)]);
    let d: Bezier<Plane, 2> = curve.derivative();
    assert_eq!(coords(d.control_points[0]), [3.0, 6.0]);
    assert_eq!(coords(d.control_points[1]), [6.0, -3.0]);
}

#[test]
fn cubic_axis_agrees_with_eval() {
    let curve = sample_cubic();
    for k in 0..=100 {
        let t = k as f64 / 100.0;
        let p = coords(curve.eval(R(t)));
        for axis in 0..2 {
            assert!((curve.axis(R(t), axis).0 - p[axis]).abs() < 1e-12);
        }
    }
}

#[test]
fn cubic_exact_values() {
    let curve = CubicBezier::new(pt(0.0, 0.0), pt(0.0, 8.0), pt(8.0, 8.0), pt(8.0, 0.0));
    assert_eq!(coords(curve.eval(R(0.5))), [4.0, 6.0]);
    assert_eq!(coords(curve.eval_casteljau(R(0.5))), [4.0, 6.0]);
    assert_eq!(curve.axis(R(0.5), 1), R(6.0));
    // x'(1/2) = 3 * (1/4 * 0 + 2 * 1/4 * 8 + 1/4 * 0) = 12
    assert_eq!(curve.dd(R(0.5), 0), R(12.0));
    assert_eq!(curve.dd(R(0.5), 1), R(0.0));
}

#[test]
fn cubic_split_points() {
    let curve = CubicBezier::new(pt(0.0, 0.0), pt(0.0, 8.0), pt(8.0, 8.0), pt(8.0, 0.0));
    let (left, right) = curve.split(R(0.5));
    assert_eq!(coords(left.start), [0.0, 0.0]);
    assert_eq!(coords(left.ctrl1), [0.0, 4.0]);
    assert_eq!(coords(left.ctrl2), [2.0, 6.0]);
    assert_eq!(coords(left.end), [4.0, 6.0]);
    assert_eq!(coords(right.start), [4.0, 6.0]);
    assert_eq!(coords(right.ctrl1), [6.0, 6.0]);
    assert_eq!(coords(right.ctrl2), [8.0, 4.0]);
    assert_eq!(coords(right.end), [8.0, 0.0]);
}

#[test]
fn derivative_agrees_with_tangent() {
    let curve = sample_cubic();
    let derivative = curve.derivative();
    for k in 0..=100 {
        let t = k as f64 / 100.0;
        let d = coords(derivative.eval(R(t)));
        for axis in 0..2 {
            assert!((curve.dd(R(t), axis).0 - d[axis]).abs() < 1e-12);
        }
    }
}

#[test]
fn cubic_derivative_points() {
    let curve = CubicBezier::new(pt(0.0, 0.0), pt(1.0, 2.0), pt(3.0, 2.0), pt(4.0, 0.0));
    let d = curve.derivative();
    assert_eq!(coords(d.start), [3.0, 6.0]);
    assert_eq!(coords(d.ctrl), [6.0, 0.0]);
    assert_eq!(coords(d.end), [3.0, -6.0]);
}

#[test]
fn quadratic_eval() {
    let q = QuadraticBezier::new(pt(0.0, 0.0), pt(1.0, 2.0), pt(2.0, 0.0));
    assert_eq!(coords(q.eval(R(0.0))), [0.0, 0.0]);
    assert_eq!(coords(q.eval(R(0.5))), [1.0, 1.0]);
    assert_eq!(coords(q.eval(R(1.0))), [2.0, 0.0]);
}

#[test]
fn arclen_of_a_straight_curve() {
    // evenly spaced points on a line: the samples 1/4, 2/4, 3/4 start three chords of 3/4 each
    let line = CubicBezier::new(pt(0.0, 0.0), pt(1.0, 0.0), pt(2.0, 0.0), pt(3.0, 0.0));
    assert!((line.arclen(4).0 - 2.25).abs() < 1e-12);
    assert_eq!(line.arclen(0), R(0.0));
    assert_eq!(line.arclen(1), R(0.0));
}

#[test]
fn baseline_joins_the_ends() {
    let curve = sample_cubic();
    let base = curve.baseline();
    assert_eq!(coords(base.start), [0.0, 1.77]);
    assert_eq!(coords(base.end), [3.2, -4.0]);
}

#[test]
fn linearity() {
    let straight = CubicBezier::new(pt(0.0, 0.0), pt(1.0, 1.0), pt(2.0, 2.0), pt(3.0, 3.0));
    assert!(straight.is_linear(R(1e-9)));
    assert!(straight.are_points_colinear(R(1e-9)));
    let bent = CubicBezier::new(pt(0.0, 0.0), pt(1.0, 2.0), pt(2.0, 2.0), pt(3.0, 3.0));
    assert!(!bent.is_linear(R(0.1)));
    assert!(bent.is_linear(R(1.0)));
    let closed = CubicBezier::new(pt(1.0, 1.0), pt(2.0, 2.0), pt(0.0, 0.0), pt(1.0, 1.0));
    assert!(!closed.is_linear(R(10.0)));
}

#[test]
fn degenerate_point() {
    let dot = CubicBezier::new(pt(1.0, 1.0), pt(1.0, 1.0), pt(1.0, 1.0), pt(1.0, 1.0));
    assert!(dot.is_a_point(R(0.0)));
    let near = CubicBezier::new(pt(1.0, 1.0), pt(1.0, 1.1), pt(1.1, 1.0), pt(1.0, 1.0));
    assert!(near.is_a_point(R(0.2)));
    assert!(!near.is_a_point(R(0.05)));
    // the two control points are held against different ends
    let far = CubicBezier::new(pt(0.0, 0.0), pt(0.0, 0.0), pt(5.0, 0.0), pt(0.0, 0.0));
    assert!(!far.is_a_point(R(1.0)));
}

#[test]
fn distance_to_a_line() {
    let line = LineSegment::new(pt(0.0, 0.0), pt(4.0, 0.0));
    assert_eq!(line.distance_to_point(pt(1.0, 3.0)), R(3.0));
    assert_eq!(line.distance_to_point(pt(2.0, 0.0)), R(0.0));
    // the line goes on beyond the segment
    assert_eq!(line.distance_to_point(pt(10.0, -2.0)), R(2.0));
    let diagonal = LineSegment::new(pt(0.0, 0.0), pt(1.0, 1.0));
    assert!((diagonal.distance_to_point(pt(1.0, 0.0)).0 - 0.5f64.sqrt()).abs() < 1e-12);
}

#[test]
fn inner_product_sums_over_axes() {
    assert_eq!(inner_product(&pt(1.0, 2.0), &pt(3.0, -4.0)), R(-5.0));
}

#[test]
fn solve_t_for_axis_finds_interior_parameters() {
    let curve = CubicBezier::new(pt(0.0, 0.0), pt(1.0, 2.0), pt(3.0, 2.0), pt(4.0, 0.0));
    // y(t) = 6t(1-t) takes 1.5 at t = 1/2 only
    let hits = values(&curve.solve_t_for_axis(R(1.5), 1));
    assert_eq!(hits.len(), 1);
    assert!((hits[0] - 0.5).abs() < 1e-9);
    // and 0.96 at t = 0.2 and t = 0.8
    let mut hits = values(&curve.solve_t_for_axis(R(0.96), 1));
    hits.sort_by(|a, b| a.partial_cmp(b).unwrap());
    assert_eq!(hits.len(), 2);
    assert!((hits[0] - 0.2).abs() < 1e-9);
    assert!((hits[1] - 0.8).abs() < 1e-9);
    // every hit is a parameter at which the curve takes the value
    for t in hits {
        assert!((curve.axis(R(t), 1).0 - 0.96).abs() < 1e-9);
    }
    // nothing outside of the curve's range
    assert!(curve.solve_t_for_axis(R(5.0), 1).is_empty());
}

#[test]
fn solve_t_for_axis_gives_up_on_degenerate_curves() {
    let dot = CubicBezier::new(pt(1.0, 1.0), pt(1.0, 1.0), pt(1.0, 1.0), pt(1.0, 1.0));
    assert!(dot.solve_t_for_axis(R(1.0), 0).is_empty());
    let straight = CubicBezier::new(pt(0.0, 0.0), pt(1.0, 0.0), pt(2.0, 0.0), pt(3.0, 0.0));
    assert!(straight.solve_t_for_axis(R(1.5), 0).is_empty());
}

#[test]
fn point_arithmetic() {
    let a = pt(1.0, 2.0);
    let b = pt(0.5, -4.0);
    assert_eq!(coords(a.add(b)), [1.5, -2.0]);
    assert_eq!(coords(a.sub(b)), [0.5, 6.0]);
    assert_eq!(coords(a.scale(R(3.0))), [3.0, 6.0]);
    assert_eq!(a.axis(0), R(1.0));
    assert_eq!(a.axis(1), R(2.0));
    assert_eq!(b.squared_length(), R(16.25));
    assert_eq!(<Plane as Point>::dim(), 2);
    assert_eq!(coords(Plane::default()), [0.0, 0.0]);
    let p3: PointN<R, 3> = PointN::new([R(1.0), R(2.0), R(2.0)]);
    assert_eq!(p3.squared_length(), R(9.0));
    assert_eq!(<PointN<R, 3> as Point>::dim(), 3);
}

#[test]
fn point_equality_is_by_coordinates() {
    assert!(pt(1.0, 2.0).eq(&pt(1.0, 2.0)));
    assert!(!pt(1.0, 2.0).eq(&pt(1.0, 2.5)));
    assert!(!pt(0.0, 2.0).eq(&pt(1.0, 2.0)));
    assert!(pt(0.0, 2.0).eq(&pt(-0.0, 2.0)));
    assert!(!pt(f64::NAN, 2.0).eq(&pt(f64::NAN, 2.0)));
}

#[test]
fn bspline_counts() {
    let points = [pt(0.0, 0.0), pt(1.0, 1.0), pt(2.0, 0.0)];
    let knots = [R(0.0), R(0.0), R(0.0), R(1.0), R(1.0), R(1.0)];
    let spline = BSpline::new(2, &points, &knots);
    assert!(spline.is_some());
    let spline = spline.unwrap();
    assert_eq!(spline.control_points().len(), 3);
    assert_eq!(spline.knots().len(), 6);
    assert_eq!(spline.knot_domain(), (R(0.0), R(1.0)));
    let copy = spline.clone();
    assert_eq!(copy.knots().len(), 6);
    // too few control points
    assert!(BSpline::new(3, &points, &knots).is_none());
    assert!(BSpline::new(5, &points, &knots).is_none());
    // a wrong number of knots
    assert!(BSpline::new(1, &points, &knots).is_none());
    assert!(BSpline::new(2, &points, &knots[..5]).is_none());
    assert!(BSpline::new(2, &points, &knots[..2]).is_none());
    let none: [Plane; 0] = [];
    assert!(BSpline::new(0, &none, &knots[..1]).is_none());
}

#[test]
fn bspline_knot_domain_of_a_longer_vector() {
    let points = [pt(0.0, 0.0), pt(1.0, 1.0), pt(2.0, 0.0), pt(3.0, 1.0)];
    let knots = [R(0.0), R(1.0), R(2.0), R(3.0), R(4.0), R(5.0)];
    let spline = BSpline::new(1, &points, &knots).unwrap();
    assert_eq!(spline.knot_domain(), (R(1.0), R(4.0)));
}

#[test]
fn bspline_upper_bounds() {
    let points = [pt(0.0, 0.0), pt(1.0, 1.0), pt(2.0, 0.0)];
    let knots = [R(0.0), R(0.0), R(0.0), R(1.0), R(1.0), R(1.0)];
    let spline = BSpline::new(2, &points, &knots).unwrap();
    let data = [R(0.0), R(1.0), R(1.0), R(2.0), R(5.0)];
    assert_eq!(spline.upper_bounds(&data, R(-1.0)), Some(0));
    assert_eq!(spline.upper_bounds(&data, R(0.0)), Some(1));
    assert_eq!(spline.upper_bounds(&data, R(1.0)), Some(3));
    assert_eq!(spline.upper_bounds(&data, R(1.5)), Some(3));
    assert_eq!(spline.upper_bounds(&data, R(2.0)), Some(4));
    assert_eq!(spline.upper_bounds(&data, R(5.0)), None);
    assert_eq!(spline.upper_bounds(&data, R(9.0)), None);
    assert_eq!(spline.upper_bounds(&data[..0], R(0.0)), None);
}
