use fastgravity::scalar::{Scalar, Sqrt};
use fastgravity::vec2::Vec2;
use fastgravity::GravitySystem;

/// Floating-point scalars for the solver.
#[derive(Clone, Copy, PartialEq, Debug)]
struct R64(f64);

impl Sqrt for R64 {
    fn spec_sqrt(self) -> R64 {
        R64(self.0.sqrt())
    }

    fn sqrt(self) -> R64 {
        R64(self.0.sqrt())
    }
}

impl Scalar for R64 {
    fn spec_plus(self, o: R64) -> R64 {
        R64(self.0 + o.0)
    }

    fn spec_minus(self, o: R64) -> R64 {
        R64(self.0 - o.0)
    }

    fn spec_times(self, o: R64) -> R64 {
        R64(self.0 * o.0)
    }

    fn spec_div(self, o: R64) -> R64 {
        R64(self.0 / o.0)
    }

    fn spec_negate(self) -> R64 {
        R64(-self.0)
    }

    fn spec_less(self, o: R64) -> bool {
        self.0 < o.0
    }

    fn spec_equal(self, o: R64) -> bool {
        self.0 == o.0
    }

    fn spec_of_i64(v: i64) -> R64 {
        R64(v as f64)
    }

    fn plus(self, o: R64) -> R64 {
        R64(self.0 + o.0)
    }

    fn minus(self, o: R64) -> R64 {
        R64(self.0 - o.0)
    }

    fn times(self, o: R64) -> R64 {
        R64(self.0 * o.0)
    }

    fn div_by(self, o: R64) -> R64 {
        R64(self.0 / o.0)
    }

    fn negate(self) -> R64 {
        R64(-self.0)
    }

    fn less_than(self, o: R64) -> bool {
        self.0 < o.0
    }

    fn equals(self, o: R64) -> bool {
        self.0 == o.0
    }

    fn of_i64(v: i64) -> R64 {
        R64(v as f64)
    }
}

fn pos(x: f64, y: f64) -> Vec2<R64> {
    Vec2::new(R64(x), R64(y))
}

fn two_unit_masses() -> GravitySystem<R64> {
    GravitySystem::new(&vec![pos(-1.0, 0.0), pos(1.0, 0.0)], &vec![R64(1.0), R64(1.0)]).unwrap()
}

#[test]
fn self_potential_zero_f64() {
    let sys = GravitySystem::new(&vec![pos(2.5, -1.25)], &vec![R64(3.0)]).unwrap();
    let p = sys.evaluate_potential(&vec![pos(2.5, -1.25)], true, R64(0.3));
    assert_eq!(p[0].0, 0.0);
    let g = sys.evaluate_gravity(&vec![pos(2.5, -1.25)], true, R64(0.3));
    assert_eq!(g[0].x.0, 0.0);
    assert_eq!(g[0].y.0, 0.0);
}

#[test]
fn single_body_closed_form_f64() {
    // one unit mass at the origin, query at (3,4): d = 5
    let sys = GravitySystem::new(&vec![pos(0.0, 0.0)], &vec![R64(1.0)]).unwrap();
    for acc in [0.0, 0.3, 100.0] {
        let p = sys.evaluate_potential(&vec![pos(3.0, 4.0)], true, R64(acc));
        assert_eq!(p[0].0, -1.0 / 5.0);
        let g = sys.evaluate_gravity(&vec![pos(3.0, 4.0)], true, R64(acc));
        assert_eq!(g[0].x.0, (3.0 / 5.0) * (-1.0 / 25.0));
        assert_eq!(g[0].y.0, (4.0 / 5.0) * (-1.0 / 25.0));
    }
}

#[test]
fn two_unit_masses_scenario() {
    // two unit masses at (-1,0) and (1,0); query at (0,5): the gravity
    // vector has zero x-component and a negative y-component of magnitude
    // 2 * (1/26) * (5/sqrt(26))
    let sys = two_unit_masses();
    let d = 26.0f64.sqrt();
    let expected_y = -2.0 * (1.0 / 26.0) * (5.0 / d);
    // default threshold 0.3: width/d = 2/5 > 0.3 forces the exact branch,
    // and so does 0.0; both must agree with brute force
    for acc in [0.0, 0.3] {
        for use_quad in [false, true] {
            let g = sys.evaluate_gravity(&vec![pos(0.0, 5.0)], use_quad, R64(acc));
            assert_eq!(g[0].x.0, 0.0);
            assert!((g[0].y.0 - expected_y).abs() < 1e-15);
            assert!(g[0].y.0 < 0.0);
            let p = sys.evaluate_potential(&vec![pos(0.0, 5.0)], use_quad, R64(acc));
            assert!((p[0].0 - (-2.0 / d)).abs() < 1e-15);
        }
    }
}

#[test]
fn brute_force_agreement_at_tiny_threshold() {
    // an asymmetric cluster: at threshold 0 every node recurses, so the
    // answers are the pairwise sums over all bodies
    let bodies = [(-1.5, 0.25, 1.0), (0.75, 2.0, 2.5), (3.0, -1.0, 0.5), (0.1, 0.2, 4.0)];
    let positions: Vec<Vec2<R64>> = bodies.iter().map(|b| pos(b.0, b.1)).collect();
    let masses: Vec<R64> = bodies.iter().map(|b| R64(b.2)).collect();
    let sys = GravitySystem::new(&positions, &masses).unwrap();
    let q = (0.4, -2.3);
    let mut pot = 0.0f64;
    let mut gx = 0.0f64;
    let mut gy = 0.0f64;
    for b in bodies.iter() {
        let rx = q.0 - b.0;
        let ry = q.1 - b.1;
        let d = (rx * rx + ry * ry).sqrt();
        pot += -b.2 / d;
        gx += (rx / d) * (-b.2 / (d * d));
        gy += (ry / d) * (-b.2 / (d * d));
    }
    for use_quad in [false, true] {
        let p = sys.evaluate_potential(&vec![pos(q.0, q.1)], use_quad, R64(0.0));
        assert!((p[0].0 - pot).abs() < 1e-12);
        let g = sys.evaluate_gravity(&vec![pos(q.0, q.1)], use_quad, R64(0.0));
        assert!((g[0].x.0 - gx).abs() < 1e-12);
        assert!((g[0].y.0 - gy).abs() < 1e-12);
    }
}

#[test]
fn far_field_monopole_approaches_cluster_potential() {
    // a tight cluster of total mass 4 seen from far away with a generous
    // threshold: the potential approaches G*M/d, the gap bounded by the
    // quadrupole correction's magnitude
    let positions = vec![pos(-0.01, 0.0), pos(0.01, 0.0), pos(0.0, -0.01), pos(0.0, 0.01)];
    let masses = vec![R64(1.0); 4];
    let sys = GravitySystem::new(&positions, &masses).unwrap();
    let d = 1000.0f64;
    let monopole = -4.0 / d;
    let p = sys.evaluate_potential(&vec![pos(0.0, d)], true, R64(0.9));
    // the quadrupole term of this cluster is at most 4*(0.01)^2 / d^3
    let quad_bound = 4.0 * 0.0001 / (d * d * d);
    assert!((p[0].0 - monopole).abs() <= quad_bound + 1e-18);
}

#[test]
fn quadrupole_correction_applied_in_far_field() {
    // two unit masses at (0, -1) and (0, 1): the pair's quadrupole about
    // its center is [[-2, 0], [0, 2]]. Seen from (0, 10) the opening test
    // accepts at the default threshold (width/d = 0.2 < 0.3), and the
    // expansion terms can be reproduced exactly.
    let sys = GravitySystem::new(
        &vec![pos(0.0, -1.0), pos(0.0, 1.0)],
        &vec![R64(1.0), R64(1.0)],
    )
    .unwrap();
    let d = 10.0f64;
    // potential: G*(M/d + Q(e)/(2 d^3)) with e = (0, 1), Q(e) = 2
    let expected_mono = -(2.0 / d);
    let expected_with_quad = -(2.0 / d + 2.0 / (2.0 * (d * d * d)));
    let p0 = sys.evaluate_potential(&vec![pos(0.0, 10.0)], false, R64(0.3));
    assert_eq!(p0[0].0, expected_mono);
    let p1 = sys.evaluate_potential(&vec![pos(0.0, 10.0)], true, R64(0.3));
    assert_eq!(p1[0].0, expected_with_quad);
    // gravity: e*(M/d^2) + e*(2.5*Q(e)/d^4) - (Q.e)/d^4, scaled by G
    let d4 = (d * d) * (d * d);
    let total_y = 2.0 / (d * d) + (2.0 * 2.5) / d4 + -(2.0 / d4);
    let g = sys.evaluate_gravity(&vec![pos(0.0, 10.0)], true, R64(0.3));
    assert_eq!(g[0].x.0, 0.0);
    assert_eq!(g[0].y.0, total_y * -1.0);
}

#[test]
fn translation_invariance_f64() {
    let sys = two_unit_masses();
    let shifted = GravitySystem::new(
        &vec![pos(-1.0 + 8.0, 0.5), pos(1.0 + 8.0, 0.5)],
        &vec![R64(1.0), R64(1.0)],
    )
    .unwrap();
    for acc in [0.0, 0.3, 2.0] {
        let p = sys.evaluate_potential(&vec![pos(0.25, 5.0)], true, R64(acc));
        let ps = shifted.evaluate_potential(&vec![pos(8.25, 5.5)], true, R64(acc));
        assert_eq!(p[0].0, ps[0].0);
        let g = sys.evaluate_gravity(&vec![pos(0.25, 5.0)], true, R64(acc));
        let gs = shifted.evaluate_gravity(&vec![pos(8.25, 5.5)], true, R64(acc));
        assert_eq!(g[0].x.0, gs[0].x.0);
        assert_eq!(g[0].y.0, gs[0].y.0);
    }
}

#[test]
fn symmetric_pair_cancels_for_any_threshold() {
    let sys = two_unit_masses();
    for acc in [0.0, 0.3, 0.5, 10.0] {
        for use_quad in [false, true] {
            let g = sys.evaluate_gravity(&vec![pos(0.0, 5.0)], use_quad, R64(acc));
            assert_eq!(g[0].x.0, 0.0);
            assert!(g[0].y.0 < 0.0);
        }
    }
}
