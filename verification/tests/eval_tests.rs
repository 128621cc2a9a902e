use fastgravity::vec2::Vec2;
use fastgravity::GravitySystem;

fn pos(x: i64, y: i64) -> Vec2<i64> {
    Vec2::new(x, y)
}

const M: i64 = 25_000_000_000_000;

fn pair_system() -> GravitySystem<i64> {
    GravitySystem::new(&vec![pos(-1000, 0), pos(1000, 0)], &vec![M, M]).unwrap()
}

#[test]
fn potential_at_own_position_is_zero() {
    let sys = GravitySystem::new(&vec![pos(123, -456)], &vec![77i64]).unwrap();
    let p = sys.evaluate_potential(&vec![pos(123, -456)], true, 0);
    assert_eq!(p, vec![0]);
    let g = sys.evaluate_gravity(&vec![pos(123, -456)], true, 0);
    assert_eq!(g[0].as_tuple(), (0, 0));
}

#[test]
fn point_mass_potential_closed_form() {
    // one body of mass 100 at the origin, query at (3,4): d = 5, G*m/d = -20
    let sys = GravitySystem::new(&vec![pos(0, 0)], &vec![100i64]).unwrap();
    let p = sys.evaluate_potential(&vec![pos(3, 4)], true, 0);
    assert_eq!(p, vec![-20]);
    // the threshold plays no part for a single body
    let p2 = sys.evaluate_potential(&vec![pos(3, 4)], false, 1_000_000);
    assert_eq!(p2, vec![-20]);
}

#[test]
fn point_mass_gravity_closed_form() {
    // mass 100_000_000 at the origin, query at (5000, 0): d = 5000,
    // e = (1, 0), G*m/d^2 = -4
    let sys = GravitySystem::new(&vec![pos(0, 0)], &vec![100_000_000i64]).unwrap();
    let g = sys.evaluate_gravity(&vec![pos(5000, 0)], true, 0);
    assert_eq!(g[0].as_tuple(), (-4, 0));
}

#[test]
fn symmetric_pair_pulls_straight_down() {
    // two equal masses at (-1000, 0) and (1000, 0); query far up the y axis:
    // d = 5_000_000 for both, e = (0, 1), G*M/d^2 = -1 per body
    let sys = pair_system();
    let q = pos(0, 5_000_000);
    let g = sys.evaluate_gravity(&vec![q], true, 0);
    assert_eq!(g[0].as_tuple(), (0, -2));
    let p = sys.evaluate_potential(&vec![q], true, 0);
    assert_eq!(p, vec![-10_000_000]);
}

#[test]
fn far_field_monopole_matches_exact_sum() {
    // the pair seen from far away: the opening test accepts at a generous
    // threshold, and the monopole G*(2M)/d equals the exact per-body sum
    let sys = pair_system();
    let q = pos(0, 5_000_000);
    let exact = sys.evaluate_gravity(&vec![q], false, 0);
    let approx = sys.evaluate_gravity(&vec![q], false, 1_000_000);
    assert_eq!(exact[0].as_tuple(), (0, -2));
    assert_eq!(approx[0].as_tuple(), exact[0].as_tuple());
    let pe = sys.evaluate_potential(&vec![q], false, 0);
    let pa = sys.evaluate_potential(&vec![q], false, 1_000_000);
    assert_eq!(pe, vec![-10_000_000]);
    assert_eq!(pa, pe);
}

#[test]
fn translation_leaves_answers_unchanged() {
    let sys = pair_system();
    let shifted = GravitySystem::new(
        &vec![pos(-1000 + 7, 11), pos(1000 + 7, 11)],
        &vec![M, M],
    )
    .unwrap();
    let q = pos(0, 5_000_000);
    let qs = pos(7, 5_000_011);
    for acc in [0i64, 3, 1_000_000] {
        let p = sys.evaluate_potential(&vec![q], true, acc);
        let ps = shifted.evaluate_potential(&vec![qs], true, acc);
        assert_eq!(p, ps);
        let g = sys.evaluate_gravity(&vec![q], true, acc);
        let gs = shifted.evaluate_gravity(&vec![qs], true, acc);
        assert_eq!(g[0].as_tuple(), gs[0].as_tuple());
    }
}

#[test]
fn queries_answered_in_input_order() {
    let sys = GravitySystem::new(&vec![pos(0, 0)], &vec![100i64]).unwrap();
    let p = sys.evaluate_potential(&vec![pos(3, 4), pos(0, 5), pos(10, 0)], true, 0);
    assert_eq!(p, vec![-20, -20, -10]);
}
