use fastgravity::vec2::Vec2;
use fastgravity::{BuildError, GravitySystem, QuadNode};

fn pos(x: i64, y: i64) -> Vec2<i64> {
    Vec2::new(x, y)
}

#[test]
fn single_body_is_leaf() {
    let sys = GravitySystem::new(&vec![pos(5, 7)], &vec![3i64]).unwrap();
    match sys.root {
        QuadNode::Leaf(l) => {
            assert_eq!(l.body.mass, 3);
            assert_eq!(l.body.pos.as_tuple(), (5, 7));
        },
        QuadNode::Interior(_) => panic!("one body must build a single leaf"),
    }
}

#[test]
fn empty_input_rejected() {
    let r = GravitySystem::<i64>::new(&vec![], &vec![]);
    assert!(matches!(r, Err(BuildError::EmptyInput)));
}

#[test]
fn length_mismatch_rejected() {
    let r = GravitySystem::new(&vec![pos(0, 0), pos(1, 1)], &vec![1i64]);
    assert!(matches!(r, Err(BuildError::LengthMismatch)));
}

#[test]
fn zero_aggregate_mass_rejected() {
    let r = GravitySystem::new(&vec![pos(0, 0), pos(8, 8)], &vec![5i64, -5i64]);
    assert!(matches!(r, Err(BuildError::ZeroMass)));
}

#[test]
fn coincident_points_hit_depth_limit() {
    let r = GravitySystem::new(&vec![pos(4, 4), pos(4, 4)], &vec![1i64, 1i64]);
    assert!(matches!(r, Err(BuildError::DepthLimit)));
}

#[test]
fn two_bodies_build_interior_aggregates() {
    let sys = GravitySystem::new(&vec![pos(-1000, 0), pos(1000, 0)], &vec![7i64, 7i64]).unwrap();
    match sys.root {
        QuadNode::Interior(i) => {
            assert_eq!(i.total_mass, 14);
            assert_eq!(i.com.as_tuple(), (0, 0));
            assert_eq!(i.extent_x, (-1000, 1000));
            assert_eq!(i.extent_y, (0, 0));
            // both children are leaves: the split separates the two bodies
            let mut leaves = 0;
            for c in [&i.sw, &i.se, &i.nw, &i.ne] {
                if let Some(n) = c {
                    match **n {
                        QuadNode::Leaf(_) => leaves += 1,
                        QuadNode::Interior(_) => panic!("children must be leaves"),
                    }
                }
            }
            assert_eq!(leaves, 2);
            // the pair's quadrupole about the midpoint: diag = 2*m*1000^2
            assert_eq!(i.quadrupole.xx, 14_000_000);
            assert_eq!(i.quadrupole.yy, -14_000_000);
            assert_eq!(i.quadrupole.xy, 0);
            assert_eq!(i.quadrupole.yx, 0);
        },
        QuadNode::Leaf(_) => panic!("two bodies must build an interior node"),
    }
}

fn walk(n: &QuadNode<i64>, bodies: &mut Vec<(i64, i64, i64)>) {
    match n {
        QuadNode::Leaf(l) => {
            let (x, y) = l.body.pos.as_tuple();
            bodies.push((x, y, l.body.mass));
        },
        QuadNode::Interior(i) => {
            // stored quadrupoles are symmetric and traceless
            assert_eq!(i.quadrupole.xy, i.quadrupole.yx);
            assert_eq!(i.quadrupole.yy, -i.quadrupole.xx);
            let mut kids = 0;
            for c in [&i.sw, &i.se, &i.nw, &i.ne] {
                if let Some(b) = c {
                    kids += 1;
                    walk(b, bodies);
                }
            }
            assert!(kids >= 1, "interior nodes always have a child");
        },
    }
}

#[test]
fn tree_invariants_hold_on_scattered_bodies() {
    let positions = vec![
        pos(-50, -20),
        pos(30, 40),
        pos(10, -35),
        pos(-5, 5),
        pos(48, 1),
        pos(-49, 44),
        pos(2, 3),
    ];
    let masses: Vec<i64> = vec![1, 2, 3, 4, 5, 6, 7];
    let sys = GravitySystem::new(&positions, &masses).unwrap();
    let mut bodies = vec![];
    walk(&sys.root, &mut bodies);
    // every body is owned by exactly one leaf
    assert_eq!(bodies.len(), 7);
    let mut expected: Vec<(i64, i64, i64)> = positions
        .iter()
        .zip(masses.iter())
        .map(|(p, m)| (p.as_tuple().0, p.as_tuple().1, *m))
        .collect();
    bodies.sort();
    expected.sort();
    assert_eq!(bodies, expected);
}

#[test]
fn four_corner_bodies_fill_quadrants() {
    let sys = GravitySystem::new(
        &vec![pos(-10, -10), pos(10, -10), pos(-10, 10), pos(10, 10)],
        &vec![1i64, 1, 1, 1],
    )
    .unwrap();
    match sys.root {
        QuadNode::Interior(i) => {
            assert_eq!(i.total_mass, 4);
            assert_eq!(i.com.as_tuple(), (0, 0));
            assert!(i.sw.is_some());
            assert!(i.se.is_some());
            assert!(i.nw.is_some());
            assert!(i.ne.is_some());
        },
        QuadNode::Leaf(_) => panic!("four bodies must build an interior node"),
    }
}
