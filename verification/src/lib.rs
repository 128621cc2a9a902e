//! A planar Barnes-Hut gravity solver: point masses are gathered once into a
//! quadtree whose interior nodes carry total mass, center of mass and a
//! symmetric traceless quadrupole tensor; potential and acceleration queries
//! then walk the tree and replace far-away subtrees by their multipole
//! expansion, the opening-angle threshold deciding between approximation and
//! exact recursion.

pub mod mat2;
pub mod scalar;
pub mod vec2;

use vstd::multiset::Multiset;
use vstd::prelude::*;

use crate::mat2::Mat2;
use crate::scalar::{Scalar, Sqrt};
use crate::vec2::Vec2;

verus! {

/// The gravitational constant: fixed negative, so potentials and the radial
/// field components come out attractive.
pub open spec fn spec_g<S: Scalar>() -> S {
    S::spec_of_i64(-1i64)
}

fn g_const<S: Scalar>() -> (r: S)
    ensures
        r == spec_g::<S>(),
{
    S::of_i64(-1)
}

/// The coefficient 5/2 of the first quadrupole term in the force expansion,
/// embedded through the scalar's own division.
pub open spec fn spec_five_halves<S: Scalar>() -> S {
    S::spec_of_i64(5).spec_div(S::spec_of_i64(2))
}

fn five_halves<S: Scalar>() -> (r: S)
    ensures
        r == spec_five_halves::<S>(),
{
    S::of_i64(5).div_by(S::of_i64(2))
}

/// An immutable point mass.
#[derive(Clone, Copy, Debug)]
pub struct Body<S> {
    pub mass: S,
    pub pos: Vec2<S>,
}

/// Why a tree could not be built.
#[derive(Clone, Copy, Debug, PartialEq, Eq, Structural)]
pub enum BuildError {
    /// The position and mass sequences have different lengths.
    LengthMismatch,
    /// No bodies were supplied.
    EmptyInput,
    /// Some spatial partition's masses sum to exactly zero.
    ZeroMass,
    /// Subdivision did not separate the bodies within the depth bound,
    /// which happens only when points coincide or nearly coincide.
    DepthLimit,
}

/// A tree node holding exactly one body.
pub struct QuadLeaf<S> {
    pub body: Body<S>,
}

/// An interior node: up to four child quadrants (south-west, south-east,
/// north-west, north-east, split at the midpoint of the node's extent on
/// each axis) plus the aggregates of its whole subtree.
pub struct QuadInterior<S> {
    pub sw: Option<Box<QuadNode<S>>>,
    pub se: Option<Box<QuadNode<S>>>,
    pub nw: Option<Box<QuadNode<S>>>,
    pub ne: Option<Box<QuadNode<S>>>,
    pub com: Vec2<S>,
    pub total_mass: S,
    pub quadrupole: Mat2<S>,
    pub extent_x: (S, S),
    pub extent_y: (S, S),
}

pub enum QuadNode<S> {
    Leaf(QuadLeaf<S>),
    Interior(QuadInterior<S>),
}

/// Total mass of a node's subtree.
pub open spec fn node_mass<S: Scalar>(n: QuadNode<S>) -> S {
    match n {
        QuadNode::Leaf(l) => l.body.mass,
        QuadNode::Interior(i) => i.total_mass,
    }
}

/// Center of mass of a node's subtree.
pub open spec fn node_com<S: Scalar>(n: QuadNode<S>) -> Vec2<S> {
    match n {
        QuadNode::Leaf(l) => l.body.pos,
        QuadNode::Interior(i) => i.com,
    }
}

/// Quadrupole tensor of a node's subtree about its center of mass; zero for
/// a single body.
pub open spec fn node_quadrupole<S: Scalar>(n: QuadNode<S>) -> Mat2<S> {
    match n {
        QuadNode::Leaf(_) => Mat2::<S>::spec_zero(),
        QuadNode::Interior(i) => i.quadrupole,
    }
}

/// A node's characteristic size: the full diagonal of its bounding box.
pub open spec fn spec_width<S: Scalar>(i: QuadInterior<S>) -> S {
    (Vec2 {
        x: i.extent_x.1.spec_minus(i.extent_x.0),
        y: i.extent_y.1.spec_minus(i.extent_y.0),
    }).spec_norm()
}

/// The opening-angle criterion: the node is far enough away, relative to its
/// size, for its multipole expansion to stand in for its subtree.
pub open spec fn spec_open_test<S: Scalar>(i: QuadInterior<S>, dist: S, accuracy: S) -> bool {
    S::spec_of_i64(0).spec_less(dist) && spec_width(i).spec_div(dist).spec_less(accuracy)
}

/// Potential of a single body at `pos`: G*m/d, and zero at the body's own
/// position (self-interaction contributes nothing).
pub open spec fn spec_body_potential<S: Scalar>(b: Body<S>, pos: Vec2<S>) -> S {
    let dist = pos.spec_minus(b.pos).spec_norm();
    if dist.spec_equal(S::spec_of_i64(0)) {
        S::spec_of_i64(0)
    } else {
        spec_g::<S>().spec_times(b.mass).spec_div(dist)
    }
}

/// Acceleration due to a single body at `pos`: the inverse-square field
/// (r/d)*(G*m/d^2), and zero at the body's own position.
pub open spec fn spec_body_gravity<S: Scalar>(b: Body<S>, pos: Vec2<S>) -> Vec2<S> {
    let r = pos.spec_minus(b.pos);
    let dist = r.spec_norm();
    if dist.spec_equal(S::spec_of_i64(0)) {
        Vec2::<S>::spec_zero()
    } else {
        let e = r.spec_div_by(dist);
        e.spec_scale(spec_g::<S>().spec_times(b.mass).spec_div(dist.spec_times(dist)))
    }
}

/// Far-field potential of an interior node: the monopole term G*M/d plus,
/// when requested, the quadrupole correction G*Q(e)/(2 d^3).
pub open spec fn spec_far_potential<S: Scalar>(
    i: QuadInterior<S>,
    r: Vec2<S>,
    dist: S,
    use_quad: bool,
) -> S {
    let scalar_part = i.total_mass.spec_div(dist);
    let total = if use_quad {
        let e = r.spec_div_by(dist);
        let quadrupole_part = i.quadrupole.spec_eval_quadratic(e).spec_div(
            S::spec_of_i64(2).spec_times(dist.spec_times(dist).spec_times(dist)),
        );
        scalar_part.spec_plus(quadrupole_part)
    } else {
        scalar_part
    };
    spec_g::<S>().spec_times(total)
}

/// Far-field acceleration of an interior node: the monopole term
/// e*(M/d^2) plus, when requested, the two quadrupole correction terms
/// e*(2.5*Q(e)/d^4) - (Q.e)/d^4, all finally scaled by G.
pub open spec fn spec_far_gravity<S: Scalar>(
    i: QuadInterior<S>,
    r: Vec2<S>,
    dist: S,
    use_quad: bool,
) -> Vec2<S> {
    let e = r.spec_div_by(dist);
    let scalar_part = e.spec_scale(i.total_mass.spec_div(dist.spec_times(dist)));
    let total = if use_quad {
        let dist4 = dist.spec_times(dist).spec_times(dist.spec_times(dist));
        let quadrupole_part_1 = e.spec_scale(
            i.quadrupole.spec_eval_quadratic(e).spec_times(spec_five_halves::<S>()).spec_div(
                dist4,
            ),
        );
        let quadrupole_part_2 = i.quadrupole.spec_matmul(e).spec_negate().spec_div_by(dist4);
        scalar_part.spec_plus(quadrupole_part_1).spec_plus(quadrupole_part_2)
    } else {
        scalar_part
    };
    total.spec_scale(spec_g::<S>())
}

/// The potential a node's subtree contributes at `pos`: the multipole
/// approximation where the opening test accepts, otherwise the sum over the
/// children (exact recursion), down to the point-mass formula at leaves.
pub open spec fn spec_potential<S: Scalar>(
    n: QuadNode<S>,
    pos: Vec2<S>,
    use_quad: bool,
    accuracy: S,
) -> S
    decreases n,
{
    match n {
        QuadNode::Leaf(l) => spec_body_potential(l.body, pos),
        QuadNode::Interior(i) => {
            let r = pos.spec_minus(i.com);
            let dist = r.spec_norm();
            if spec_open_test(i, dist, accuracy) {
                spec_far_potential(i, r, dist, use_quad)
            } else {
                let t0 = S::spec_of_i64(0);
                let t1 = match i.sw {
                    Some(c) => t0.spec_plus(spec_potential(*c, pos, use_quad, accuracy)),
                    None => t0,
                };
                let t2 = match i.se {
                    Some(c) => t1.spec_plus(spec_potential(*c, pos, use_quad, accuracy)),
                    None => t1,
                };
                let t3 = match i.nw {
                    Some(c) => t2.spec_plus(spec_potential(*c, pos, use_quad, accuracy)),
                    None => t2,
                };
                let t4 = match i.ne {
                    Some(c) => t3.spec_plus(spec_potential(*c, pos, use_quad, accuracy)),
                    None => t3,
                };
                t4
            }
        },
    }
}

/// The acceleration a node's subtree contributes at `pos`; same traversal
/// as `spec_potential`.
pub open spec fn spec_gravity<S: Scalar>(
    n: QuadNode<S>,
    pos: Vec2<S>,
    use_quad: bool,
    accuracy: S,
) -> Vec2<S>
    decreases n,
{
    match n {
        QuadNode::Leaf(l) => spec_body_gravity(l.body, pos),
        QuadNode::Interior(i) => {
            let r = pos.spec_minus(i.com);
            let dist = r.spec_norm();
            if spec_open_test(i, dist, accuracy) {
                spec_far_gravity(i, r, dist, use_quad)
            } else {
                let t0 = Vec2::<S>::spec_zero();
                let t1 = match i.sw {
                    Some(c) => t0.spec_plus(spec_gravity(*c, pos, use_quad, accuracy)),
                    None => t0,
                };
                let t2 = match i.se {
                    Some(c) => t1.spec_plus(spec_gravity(*c, pos, use_quad, accuracy)),
                    None => t1,
                };
                let t3 = match i.nw {
                    Some(c) => t2.spec_plus(spec_gravity(*c, pos, use_quad, accuracy)),
                    None => t2,
                };
                let t4 = match i.ne {
                    Some(c) => t3.spec_plus(spec_gravity(*c, pos, use_quad, accuracy)),
                    None => t3,
                };
                t4
            }
        },
    }
}

/// Computes the traceless symmetric tensor Q(r) = 2 r r - |r|^2 I, written
/// through its two independent components.
pub open spec fn spec_quadrup_tensor<S: Scalar>(r: Vec2<S>) -> Mat2<S> {
    let diag = r.x.spec_times(r.x).spec_minus(r.y.spec_times(r.y));
    let cross = S::spec_of_i64(2).spec_times(r.x).spec_times(r.y);
    Mat2 { xx: diag, xy: cross, yx: cross, yy: diag.spec_negate() }
}

pub fn to_quadrup_tensor<S: Scalar>(r: Vec2<S>) -> (m: Mat2<S>)
    ensures
        m == spec_quadrup_tensor(r),
{
    let diag = r.x.times(r.x).minus(r.y.times(r.y));
    let cross = S::of_i64(2).times(r.x).times(r.y);
    Mat2 { xx: diag, xy: cross, yx: cross, yy: diag.negate() }
}

/// Whether a body falls in the quadrant selected by the two flags: `x_low`
/// means strictly left of the x midline, `y_low` strictly below the y one.
pub open spec fn in_quadrant<S: Scalar>(
    b: Body<S>,
    div_x: S,
    div_y: S,
    x_low: bool,
    y_low: bool,
) -> bool {
    b.pos.x.spec_less(div_x) == x_low && b.pos.y.spec_less(div_y) == y_low
}

/// The subsequence of bodies that fall in one quadrant, in input order.
pub open spec fn quad_filter<S: Scalar>(
    pts: Seq<Body<S>>,
    div_x: S,
    div_y: S,
    x_low: bool,
    y_low: bool,
) -> Seq<Body<S>>
    decreases pts.len(),
{
    if pts.len() == 0 {
        Seq::empty()
    } else {
        let rest = quad_filter(pts.drop_last(), div_x, div_y, x_low, y_low);
        if in_quadrant(pts.last(), div_x, div_y, x_low, y_low) {
            rest.push(pts.last())
        } else {
            rest
        }
    }
}

/// Route every body into its quadrant relative to the two midlines.
fn partition<S: Scalar>(pts: &Vec<Body<S>>, div_x: S, div_y: S) -> (r: (
    Vec<Body<S>>,
    Vec<Body<S>>,
    Vec<Body<S>>,
    Vec<Body<S>>,
))
    ensures
        r.0@ == quad_filter(pts@, div_x, div_y, true, true),
        r.1@ == quad_filter(pts@, div_x, div_y, false, true),
        r.2@ == quad_filter(pts@, div_x, div_y, true, false),
        r.3@ == quad_filter(pts@, div_x, div_y, false, false),
{
    let mut sw: Vec<Body<S>> = Vec::new();
    let mut se: Vec<Body<S>> = Vec::new();
    let mut nw: Vec<Body<S>> = Vec::new();
    let mut ne: Vec<Body<S>> = Vec::new();
    let mut idx: usize = 0;
    while idx < pts.len()
        invariant
            idx <= pts@.len(),
            sw@ == quad_filter(pts@.take(idx as int), div_x, div_y, true, true),
            se@ == quad_filter(pts@.take(idx as int), div_x, div_y, false, true),
            nw@ == quad_filter(pts@.take(idx as int), div_x, div_y, true, false),
            ne@ == quad_filter(pts@.take(idx as int), div_x, div_y, false, false),
        decreases pts@.len() - idx,
    {
        proof {
            assert(pts@.take(idx as int + 1).drop_last() =~= pts@.take(idx as int));
            assert(pts@.take(idx as int + 1).last() == pts@[idx as int]);
        }
        let b = pts[idx];
        let xl = b.pos.x.less_than(div_x);
        let yl = b.pos.y.less_than(div_y);
        if xl && yl {
            sw.push(b);
        } else if !xl && yl {
            se.push(b);
        } else if xl {
            nw.push(b);
        } else {
            ne.push(b);
        }
        idx += 1;
    }
    proof {
        assert(pts@.take(pts@.len() as int) =~= pts@);
    }
    (sw, se, nw, ne)
}

/// Aggregation of up to four children into an interior node: total mass is
/// the children's sum (zero is a construction error), the center of mass
/// their mass-weighted mean, and the quadrupole the sum of each child's own
/// tensor translated to the new center by the parallel-axis rule.
pub open spec fn spec_interior_new<S: Scalar>(
    sw: Option<QuadNode<S>>,
    se: Option<QuadNode<S>>,
    nw: Option<QuadNode<S>>,
    ne: Option<QuadNode<S>>,
    extent_x: (S, S),
    extent_y: (S, S),
) -> Result<QuadInterior<S>, BuildError> {
    let m0 = S::spec_of_i64(0);
    let c0 = Vec2::<S>::spec_zero();
    let m1 = match sw {
        Some(n) => m0.spec_plus(node_mass(n)),
        None => m0,
    };
    let c1 = match sw {
        Some(n) => c0.spec_plus(node_com(n).spec_scale(node_mass(n))),
        None => c0,
    };
    let m2 = match se {
        Some(n) => m1.spec_plus(node_mass(n)),
        None => m1,
    };
    let c2 = match se {
        Some(n) => c1.spec_plus(node_com(n).spec_scale(node_mass(n))),
        None => c1,
    };
    let m3 = match nw {
        Some(n) => m2.spec_plus(node_mass(n)),
        None => m2,
    };
    let c3 = match nw {
        Some(n) => c2.spec_plus(node_com(n).spec_scale(node_mass(n))),
        None => c2,
    };
    let m4 = match ne {
        Some(n) => m3.spec_plus(node_mass(n)),
        None => m3,
    };
    let c4 = match ne {
        Some(n) => c3.spec_plus(node_com(n).spec_scale(node_mass(n))),
        None => c3,
    };
    if m4.spec_equal(S::spec_of_i64(0)) {
        Err(BuildError::ZeroMass)
    } else {
        let com = c4.spec_div_by(m4);
        let q0 = Mat2::<S>::spec_zero();
        let q1 = match sw {
            Some(n) => q0.spec_plus(node_quadrupole(n)).spec_plus(
                spec_quadrup_tensor(com.spec_minus(node_com(n))).spec_scale(node_mass(n)),
            ),
            None => q0,
        };
        let q2 = match se {
            Some(n) => q1.spec_plus(node_quadrupole(n)).spec_plus(
                spec_quadrup_tensor(com.spec_minus(node_com(n))).spec_scale(node_mass(n)),
            ),
            None => q1,
        };
        let q3 = match nw {
            Some(n) => q2.spec_plus(node_quadrupole(n)).spec_plus(
                spec_quadrup_tensor(com.spec_minus(node_com(n))).spec_scale(node_mass(n)),
            ),
            None => q2,
        };
        let q4 = match ne {
            Some(n) => q3.spec_plus(node_quadrupole(n)).spec_plus(
                spec_quadrup_tensor(com.spec_minus(node_com(n))).spec_scale(node_mass(n)),
            ),
            None => q3,
        };
        Ok(QuadInterior {
            sw: match sw {
                Some(n) => Some(Box::new(n)),
                None => None,
            },
            se: match se {
                Some(n) => Some(Box::new(n)),
                None => None,
            },
            nw: match nw {
                Some(n) => Some(Box::new(n)),
                None => None,
            },
            ne: match ne {
                Some(n) => Some(Box::new(n)),
                None => None,
            },
            com,
            total_mass: m4,
            quadrupole: q4,
            extent_x,
            extent_y,
        })
    }
}

impl<S: Scalar> QuadLeaf<S> {
    /// The leaf's monopole: its body's mass and position.
    pub fn com(&self) -> (r: (S, Vec2<S>))
        ensures
            r == (self.body.mass, self.body.pos),
    {
        (self.body.mass, self.body.pos)
    }

    /// A single body has no quadrupole moment about itself.
    pub fn quadrupole(&self) -> (r: Mat2<S>)
        ensures
            r == Mat2::<S>::spec_zero(),
    {
        Mat2::zero()
    }

    pub fn potential_at(&self, pos: Vec2<S>, _use_quad: bool, _accuracy: S) -> (r: S)
        ensures
            r == spec_body_potential(self.body, pos),
    {
        let dist = pos.minus(self.body.pos).norm();
        if dist.equals(S::of_i64(0)) {
            S::of_i64(0)
        } else {
            g_const::<S>().times(self.body.mass).div_by(dist)
        }
    }

    pub fn gravity_at(&self, pos: Vec2<S>, _use_quad: bool, _accuracy: S) -> (r: Vec2<S>)
        ensures
            r == spec_body_gravity(self.body, pos),
    {
        let r = pos.minus(self.body.pos);
        let dist = r.norm();
        if dist.equals(S::of_i64(0)) {
            Vec2::zero()
        } else {
            let e = r.div_by(dist);
            e.scale(g_const::<S>().times(self.body.mass).div_by(dist.times(dist)))
        }
    }
}

impl<S: Scalar> QuadInterior<S> {
    /// Combine up to four children into an interior node, computing the
    /// subtree aggregates; fails when the children's masses sum to zero.
    pub fn new(
        sw: Option<QuadNode<S>>,
        se: Option<QuadNode<S>>,
        nw: Option<QuadNode<S>>,
        ne: Option<QuadNode<S>>,
        extent_x: (S, S),
        extent_y: (S, S),
    ) -> (r: Result<Self, BuildError>)
        ensures
            r == spec_interior_new(sw, se, nw, ne, extent_x, extent_y),
    {
        let mut mass = S::of_i64(0);
        let mut com = Vec2::<S>::zero();
        if let Some(n) = &sw {
            let (child_m, child_com) = n.com();
            mass = mass.plus(child_m);
            com = com.plus(child_com.scale(child_m));
        }
        if let Some(n) = &se {
            let (child_m, child_com) = n.com();
            mass = mass.plus(child_m);
            com = com.plus(child_com.scale(child_m));
        }
        if let Some(n) = &nw {
            let (child_m, child_com) = n.com();
            mass = mass.plus(child_m);
            com = com.plus(child_com.scale(child_m));
        }
        if let Some(n) = &ne {
            let (child_m, child_com) = n.com();
            mass = mass.plus(child_m);
            com = com.plus(child_com.scale(child_m));
        }
        if mass.equals(S::of_i64(0)) {
            return Err(BuildError::ZeroMass);
        }
        let com = com.div_by(mass);
        let mut quadrupole = Mat2::<S>::zero();
        if let Some(n) = &sw {
            let (child_m, child_com) = n.com();
            quadrupole = quadrupole.plus(n.quadrupole()).plus(
                to_quadrup_tensor(com.minus(child_com)).scale(child_m),
            );
        }
        if let Some(n) = &se {
            let (child_m, child_com) = n.com();
            quadrupole = quadrupole.plus(n.quadrupole()).plus(
                to_quadrup_tensor(com.minus(child_com)).scale(child_m),
            );
        }
        if let Some(n) = &nw {
            let (child_m, child_com) = n.com();
            quadrupole = quadrupole.plus(n.quadrupole()).plus(
                to_quadrup_tensor(com.minus(child_com)).scale(child_m),
            );
        }
        if let Some(n) = &ne {
            let (child_m, child_com) = n.com();
            quadrupole = quadrupole.plus(n.quadrupole()).plus(
                to_quadrup_tensor(com.minus(child_com)).scale(child_m),
            );
        }
        Ok(
            QuadInterior {
                sw: match sw {
                    Some(n) => Some(Box::new(n)),
                    None => None,
                },
                se: match se {
                    Some(n) => Some(Box::new(n)),
                    None => None,
                },
                nw: match nw {
                    Some(n) => Some(Box::new(n)),
                    None => None,
                },
                ne: match ne {
                    Some(n) => Some(Box::new(n)),
                    None => None,
                },
                com,
                total_mass: mass,
                quadrupole,
                extent_x,
                extent_y,
            },
        )
    }

    /// The subtree's monopole: total mass and center of mass.
    pub fn com(&self) -> (r: (S, Vec2<S>))
        ensures
            r == (self.total_mass, self.com),
    {
        (self.total_mass, self.com)
    }

    pub fn quadrupole(&self) -> (r: Mat2<S>)
        ensures
            r == self.quadrupole,
    {
        self.quadrupole
    }

    /// The full diagonal of the node's bounding box.
    pub fn width(&self) -> (r: S)
        ensures
            r == spec_width(*self),
    {
        Vec2::new(
            self.extent_x.1.minus(self.extent_x.0),
            self.extent_y.1.minus(self.extent_y.0),
        ).norm()
    }

    pub fn potential_at(&self, pos: Vec2<S>, use_quad: bool, accuracy: S) -> (r: S)
        ensures
            r == spec_potential(QuadNode::Interior(*self), pos, use_quad, accuracy),
        decreases *self,
    {
        let (mass, com) = self.com();
        let r = pos.minus(com);
        let dist = r.norm();
        if S::of_i64(0).less_than(dist) && self.width().div_by(dist).less_than(accuracy) {
            let scalar_part = mass.div_by(dist);
            let mut total = scalar_part;
            if use_quad {
                let e = r.div_by(dist);
                let quadrupole_part = self.quadrupole().eval_quadratic(e).div_by(
                    S::of_i64(2).times(dist.times(dist).times(dist)),
                );
                total = total.plus(quadrupole_part);
            }
            g_const::<S>().times(total)
        } else {
            // exact calculation
            let mut total = S::of_i64(0);
            if let Some(c) = &self.sw {
                total = total.plus(c.potential_at(pos, use_quad, accuracy));
            }
            if let Some(c) = &self.se {
                total = total.plus(c.potential_at(pos, use_quad, accuracy));
            }
            if let Some(c) = &self.nw {
                total = total.plus(c.potential_at(pos, use_quad, accuracy));
            }
            if let Some(c) = &self.ne {
                total = total.plus(c.potential_at(pos, use_quad, accuracy));
            }
            total
        }
    }

    pub fn gravity_at(&self, pos: Vec2<S>, use_quad: bool, accuracy: S) -> (r: Vec2<S>)
        ensures
            r == spec_gravity(QuadNode::Interior(*self), pos, use_quad, accuracy),
        decreases *self,
    {
        let (mass, com) = self.com();
        let r = pos.minus(com);
        let dist = r.norm();
        if S::of_i64(0).less_than(dist) && self.width().div_by(dist).less_than(accuracy) {
            let e = r.div_by(dist);
            let scalar_part = e.scale(mass.div_by(dist.times(dist)));
            let mut total = scalar_part;
            if use_quad {
                let dist4 = dist.times(dist).times(dist.times(dist));
                let quadrupole_part_1 = e.scale(
                    self.quadrupole().eval_quadratic(e).times(five_halves::<S>()).div_by(dist4),
                );
                let quadrupole_part_2 = self.quadrupole().matmul(e).negate().div_by(dist4);
                total = total.plus(quadrupole_part_1).plus(quadrupole_part_2);
            }
            total.scale(g_const::<S>())
        } else {
            // exact calculation
            let mut total = Vec2::<S>::zero();
            if let Some(c) = &self.sw {
                total = total.plus(c.gravity_at(pos, use_quad, accuracy));
            }
            if let Some(c) = &self.se {
                total = total.plus(c.gravity_at(pos, use_quad, accuracy));
            }
            if let Some(c) = &self.nw {
                total = total.plus(c.gravity_at(pos, use_quad, accuracy));
            }
            if let Some(c) = &self.ne {
                total = total.plus(c.gravity_at(pos, use_quad, accuracy));
            }
            total
        }
    }
}

impl<S: Scalar> QuadNode<S> {
    pub fn com(&self) -> (r: (S, Vec2<S>))
        ensures
            r == (node_mass(*self), node_com(*self)),
    {
        match self {
            QuadNode::Leaf(x) => x.com(),
            QuadNode::Interior(x) => x.com(),
        }
    }

    pub fn quadrupole(&self) -> (r: Mat2<S>)
        ensures
            r == node_quadrupole(*self),
    {
        match self {
            QuadNode::Leaf(x) => x.quadrupole(),
            QuadNode::Interior(x) => x.quadrupole(),
        }
    }

    pub fn potential_at(&self, pos: Vec2<S>, use_quad: bool, accuracy: S) -> (r: S)
        ensures
            r == spec_potential(*self, pos, use_quad, accuracy),
        decreases *self,
    {
        match self {
            QuadNode::Leaf(x) => x.potential_at(pos, use_quad, accuracy),
            QuadNode::Interior(x) => x.potential_at(pos, use_quad, accuracy),
        }
    }

    pub fn gravity_at(&self, pos: Vec2<S>, use_quad: bool, accuracy: S) -> (r: Vec2<S>)
        ensures
            r == spec_gravity(*self, pos, use_quad, accuracy),
        decreases *self,
    {
        match self {
            QuadNode::Leaf(x) => x.gravity_at(pos, use_quad, accuracy),
            QuadNode::Interior(x) => x.gravity_at(pos, use_quad, accuracy),
        }
    }
}

/// A tree that is a single leaf answers with the closed-form point-mass
/// field; neither the quadrupole flag nor the opening threshold plays any
/// part.
pub proof fn lemma_leaf_closed_form<S: Scalar>(
    l: QuadLeaf<S>,
    pos: Vec2<S>,
    use_quad: bool,
    accuracy: S,
)
    ensures
        spec_potential(QuadNode::Leaf(l), pos, use_quad, accuracy) == spec_body_potential(
            l.body,
            pos,
        ),
        spec_gravity(QuadNode::Leaf(l), pos, use_quad, accuracy) == spec_body_gravity(
            l.body,
            pos,
        ),
{
}

/// Querying exactly at a body's own position contributes nothing: the
/// self-interaction is defined as zero, not infinite (integer scalars).
pub proof fn lemma_self_interaction_zero(b: Body<i64>)
    ensures
        spec_body_potential(b, b.pos) == 0i64,
        spec_body_gravity(b, b.pos) == Vec2::<i64>::spec_zero(),
{
    let r = b.pos.spec_minus(b.pos);
    assert(r.x == 0i64);
    assert(r.y == 0i64);
    assert(r.spec_sq_len() == 0i64);
    assert(r.spec_norm() == 0i64);
    assert(r.spec_norm().spec_equal(<i64 as Scalar>::spec_of_i64(0)));
}

/// Where the opening test accepts an interior node, the answer is exactly
/// the far-field expansion about the node's center of mass: the monopole
/// term G*M/d alone without the quadrupole flag, and precisely that plus
/// the quadrupole correction with it — so the far-field potential differs
/// from G*M/d by no more than the quadrupole term.
pub proof fn lemma_far_field_is_expansion<S: Scalar>(i: QuadInterior<S>, pos: Vec2<S>, accuracy: S)
    requires
        spec_open_test(i, pos.spec_minus(i.com).spec_norm(), accuracy),
    ensures
        spec_potential(QuadNode::Interior(i), pos, false, accuracy) == spec_g::<S>().spec_times(
            i.total_mass.spec_div(pos.spec_minus(i.com).spec_norm()),
        ),
        spec_potential(QuadNode::Interior(i), pos, true, accuracy) == spec_far_potential(
            i,
            pos.spec_minus(i.com),
            pos.spec_minus(i.com).spec_norm(),
            true,
        ),
        spec_gravity(QuadNode::Interior(i), pos, false, accuracy) == spec_far_gravity(
            i,
            pos.spec_minus(i.com),
            pos.spec_minus(i.com).spec_norm(),
            false,
        ),
        spec_gravity(QuadNode::Interior(i), pos, true, accuracy) == spec_far_gravity(
            i,
            pos.spec_minus(i.com),
            pos.spec_minus(i.com).spec_norm(),
            true,
        ),
{
}

/// Evaluation with no approximation anywhere: every interior node recurses
/// into its children, and only exact point-mass contributions are summed,
/// combined child by child in tree order.
pub open spec fn spec_exact_potential<S: Scalar>(n: QuadNode<S>, pos: Vec2<S>) -> S
    decreases n,
{
    match n {
        QuadNode::Leaf(l) => spec_body_potential(l.body, pos),
        QuadNode::Interior(i) => {
            let t0 = S::spec_of_i64(0);
            let t1 = match i.sw {
                Some(c) => t0.spec_plus(spec_exact_potential(*c, pos)),
                None => t0,
            };
            let t2 = match i.se {
                Some(c) => t1.spec_plus(spec_exact_potential(*c, pos)),
                None => t1,
            };
            let t3 = match i.nw {
                Some(c) => t2.spec_plus(spec_exact_potential(*c, pos)),
                None => t2,
            };
            let t4 = match i.ne {
                Some(c) => t3.spec_plus(spec_exact_potential(*c, pos)),
                None => t3,
            };
            t4
        },
    }
}

/// The exact counterpart for acceleration.
pub open spec fn spec_exact_gravity<S: Scalar>(n: QuadNode<S>, pos: Vec2<S>) -> Vec2<S>
    decreases n,
{
    match n {
        QuadNode::Leaf(l) => spec_body_gravity(l.body, pos),
        QuadNode::Interior(i) => {
            let t0 = Vec2::<S>::spec_zero();
            let t1 = match i.sw {
                Some(c) => t0.spec_plus(spec_exact_gravity(*c, pos)),
                None => t0,
            };
            let t2 = match i.se {
                Some(c) => t1.spec_plus(spec_exact_gravity(*c, pos)),
                None => t1,
            };
            let t3 = match i.nw {
                Some(c) => t2.spec_plus(spec_exact_gravity(*c, pos)),
                None => t2,
            };
            let t4 = match i.ne {
                Some(c) => t3.spec_plus(spec_exact_gravity(*c, pos)),
                None => t3,
            };
            t4
        },
    }
}

/// With a nonpositive opening threshold the opening test never accepts —
/// the width-to-distance ratio is nonnegative — so the evaluator recurses
/// everywhere and reproduces the brute-force sum of exact per-body fields,
/// for either setting of the quadrupole flag (integer scalars).
pub proof fn lemma_nonpositive_accuracy_is_exact(
    n: QuadNode<i64>,
    pos: Vec2<i64>,
    use_quad: bool,
    accuracy: i64,
)
    requires
        accuracy <= 0,
    ensures
        spec_potential(n, pos, use_quad, accuracy) == spec_exact_potential(n, pos),
        spec_gravity(n, pos, use_quad, accuracy) == spec_exact_gravity(n, pos),
    decreases n,
{
    match n {
        QuadNode::Leaf(_) => {},
        QuadNode::Interior(i) => {
            let r = pos.spec_minus(i.com);
            let dist = r.spec_norm();
            let w = spec_width(i);
            crate::scalar::lemma_sqrt_i64_nonneg(
                (Vec2 {
                    x: i.extent_x.1.spec_minus(i.extent_x.0),
                    y: i.extent_y.1.spec_minus(i.extent_y.0),
                }).spec_sq_len(),
            );
            if 0i64.spec_less(dist) {
                crate::scalar::lemma_div_i64_nonneg(w, dist);
            }
            assert(!spec_open_test(i, dist, accuracy));
            match i.sw {
                Some(c) => lemma_nonpositive_accuracy_is_exact(*c, pos, use_quad, accuracy),
                None => {},
            }
            match i.se {
                Some(c) => lemma_nonpositive_accuracy_is_exact(*c, pos, use_quad, accuracy),
                None => {},
            }
            match i.nw {
                Some(c) => lemma_nonpositive_accuracy_is_exact(*c, pos, use_quad, accuracy),
                None => {},
            }
            match i.ne {
                Some(c) => lemma_nonpositive_accuracy_is_exact(*c, pos, use_quad, accuracy),
                None => {},
            }
        },
    }
}

/// The tree shifted rigidly by `t`: every stored position — body, center
/// of mass, extent bound — moves by the same vector, while masses and
/// quadrupoles (moments about the shifted centers) are unchanged.
pub open spec fn spec_shift_node<S: Scalar>(n: QuadNode<S>, t: Vec2<S>) -> QuadNode<S>
    decreases n,
{
    match n {
        QuadNode::Leaf(l) => QuadNode::Leaf(
            QuadLeaf { body: Body { mass: l.body.mass, pos: l.body.pos.spec_plus(t) } },
        ),
        QuadNode::Interior(i) => QuadNode::Interior(
            QuadInterior {
                sw: match i.sw {
                    Some(c) => Some(Box::new(spec_shift_node(*c, t))),
                    None => None,
                },
                se: match i.se {
                    Some(c) => Some(Box::new(spec_shift_node(*c, t))),
                    None => None,
                },
                nw: match i.nw {
                    Some(c) => Some(Box::new(spec_shift_node(*c, t))),
                    None => None,
                },
                ne: match i.ne {
                    Some(c) => Some(Box::new(spec_shift_node(*c, t))),
                    None => None,
                },
                com: i.com.spec_plus(t),
                total_mass: i.total_mass,
                quadrupole: i.quadrupole,
                extent_x: (i.extent_x.0.spec_plus(t.x), i.extent_x.1.spec_plus(t.x)),
                extent_y: (i.extent_y.0.spec_plus(t.y), i.extent_y.1.spec_plus(t.y)),
            },
        ),
    }
}

/// Translation invariance of evaluation: over any scalar whose subtraction
/// cancels a common shift, moving the whole tree and the query point by the
/// same vector leaves every potential, and every gravity vector, unchanged
/// — the field depends on relative offsets only.
pub proof fn lemma_translation_invariance<S: Scalar>(
    n: QuadNode<S>,
    pos: Vec2<S>,
    t: Vec2<S>,
    use_quad: bool,
    accuracy: S,
)
    requires
        forall|a: S, b: S| #[trigger] a.spec_plus(t.x).spec_minus(b.spec_plus(t.x)) == a.spec_minus(
            b,
        ),
        forall|a: S, b: S| #[trigger] a.spec_plus(t.y).spec_minus(b.spec_plus(t.y)) == a.spec_minus(
            b,
        ),
    ensures
        spec_potential(spec_shift_node(n, t), pos.spec_plus(t), use_quad, accuracy)
            == spec_potential(n, pos, use_quad, accuracy),
        spec_gravity(spec_shift_node(n, t), pos.spec_plus(t), use_quad, accuracy) == spec_gravity(
            n,
            pos,
            use_quad,
            accuracy,
        ),
    decreases n,
{
    match n {
        QuadNode::Leaf(l) => {
            assert(pos.spec_plus(t).spec_minus(l.body.pos.spec_plus(t)) == pos.spec_minus(
                l.body.pos,
            ));
        },
        QuadNode::Interior(i) => {
            assert(pos.spec_plus(t).spec_minus(i.com.spec_plus(t)) == pos.spec_minus(i.com));
            assert(i.extent_x.1.spec_plus(t.x).spec_minus(i.extent_x.0.spec_plus(t.x))
                == i.extent_x.1.spec_minus(i.extent_x.0));
            assert(i.extent_y.1.spec_plus(t.y).spec_minus(i.extent_y.0.spec_plus(t.y))
                == i.extent_y.1.spec_minus(i.extent_y.0));
            match i.sw {
                Some(c) => lemma_translation_invariance(*c, pos, t, use_quad, accuracy),
                None => {},
            }
            match i.se {
                Some(c) => lemma_translation_invariance(*c, pos, t, use_quad, accuracy),
                None => {},
            }
            match i.nw {
                Some(c) => lemma_translation_invariance(*c, pos, t, use_quad, accuracy),
                None => {},
            }
            match i.ne {
                Some(c) => lemma_translation_invariance(*c, pos, t, use_quad, accuracy),
                None => {},
            }
        },
    }
}

/// Coordinate and mass bound within which the symmetric-pair cancellation
/// argument runs with no clamping anywhere in the field formulas.
pub const MIRROR_BOUND: i64 = 0x2000_0000;

/// Symmetry: two equal masses at mirror positions about the query point
/// pull in exactly opposite directions, so their accelerations are exact
/// negatives and their net gravity at that point is the zero vector
/// (integer scalars, inputs bounded so no clamping occurs).
pub proof fn lemma_symmetric_pair_cancels(b1: Body<i64>, b2: Body<i64>, pos: Vec2<i64>)
    requires
        b1.mass == b2.mass,
        -MIRROR_BOUND <= b1.mass <= MIRROR_BOUND,
        -MIRROR_BOUND <= pos.x <= MIRROR_BOUND,
        -MIRROR_BOUND <= pos.y <= MIRROR_BOUND,
        -MIRROR_BOUND <= b1.pos.x <= MIRROR_BOUND,
        -MIRROR_BOUND <= b1.pos.y <= MIRROR_BOUND,
        b2.pos.x as int == 2 * (pos.x as int) - (b1.pos.x as int),
        b2.pos.y as int == 2 * (pos.y as int) - (b1.pos.y as int),
    ensures
        spec_body_gravity(b2, pos) == spec_body_gravity(b1, pos).spec_negate(),
        spec_body_gravity(b1, pos).spec_plus(spec_body_gravity(b2, pos)) == Vec2::<
            i64,
        >::spec_zero(),
{
    let d1x = (pos.x as int) - (b1.pos.x as int);
    let d1y = (pos.y as int) - (b1.pos.y as int);
    let r1 = pos.spec_minus(b1.pos);
    let r2 = pos.spec_minus(b2.pos);
    assert(r1.x as int == d1x);
    assert(r1.y as int == d1y);
    assert(r2.x as int == -d1x);
    assert(r2.y as int == -d1y);
    assert(0 <= d1x * d1x <= 1152921504606846976int) by (nonlinear_arith)
        requires
            -1073741824int <= d1x <= 1073741824int,
    ;
    assert(0 <= d1y * d1y <= 1152921504606846976int) by (nonlinear_arith)
        requires
            -1073741824int <= d1y <= 1073741824int,
    ;
    assert((-d1x) * (-d1x) == d1x * d1x) by (nonlinear_arith);
    assert((-d1y) * (-d1y) == d1y * d1y) by (nonlinear_arith);
    let s = r1.spec_sq_len();
    assert(s as int == d1x * d1x + d1y * d1y);
    assert(r2.spec_sq_len() == s);
    let dist = s.spec_sqrt();
    if s == 0 {
        assert(dist == 0i64);
    } else {
        crate::scalar::lemma_sqrt_i64_bounds(s);
        assert(1 <= dist);
        assert(!dist.spec_equal(<i64 as Scalar>::spec_of_i64(0)));
        // the unit direction flips sign componentwise
        crate::scalar::lemma_trunc_div_odd(r1.x, r2.x, dist);
        crate::scalar::lemma_trunc_div_odd(r1.y, r2.y, dist);
        crate::scalar::lemma_trunc_div_bound(r1.x, dist);
        crate::scalar::lemma_trunc_div_bound(r1.y, dist);
        let e1 = r1.spec_div_by(dist);
        let e2 = r2.spec_div_by(dist);
        assert(e1.x as int == crate::scalar::trunc_div_i64(r1.x, dist));
        assert(e1.y as int == crate::scalar::trunc_div_i64(r1.y, dist));
        assert(e2.x as int == -(e1.x as int));
        assert(e2.y as int == -(e1.y as int));
        // the scalar factor G*m/d^2 is shared
        let gm = spec_g::<i64>().spec_times(b1.mass);
        assert(gm as int == -(b1.mass as int));
        assert((dist as int) * (dist as int) <= s as int);
        let d2 = dist.spec_times(dist);
        assert(1 <= (dist as int) * (dist as int)) by (nonlinear_arith)
            requires
                1 <= dist as int,
        ;
        assert(d2 as int == (dist as int) * (dist as int));
        assert(1 <= d2);
        let sfac = gm.spec_div(d2);
        crate::scalar::lemma_trunc_div_bound(gm, d2);
        assert(sfac as int == crate::scalar::trunc_div_i64(gm, d2));
        assert(-536870912int <= sfac as int <= 536870912int);
        // componentwise products stay in range and negate together
        let g1 = e1.spec_scale(sfac);
        let g2 = e2.spec_scale(sfac);
        assert((e1.x as int) * (sfac as int) == -((e2.x as int) * (sfac as int))
            && -1152921504606846976int <= (e1.x as int) * (sfac as int)
                <= 1152921504606846976int) by (nonlinear_arith)
            requires
                -1073741824int <= e1.x as int <= 1073741824int,
                e2.x as int == -(e1.x as int),
                -536870912int <= sfac as int <= 536870912int,
        ;
        assert((e1.y as int) * (sfac as int) == -((e2.y as int) * (sfac as int))
            && -1152921504606846976int <= (e1.y as int) * (sfac as int)
                <= 1152921504606846976int) by (nonlinear_arith)
            requires
                -1073741824int <= e1.y as int <= 1073741824int,
                e2.y as int == -(e1.y as int),
                -536870912int <= sfac as int <= 536870912int,
        ;
        assert(g2.x as int == -(g1.x as int));
        assert(g2.y as int == -(g1.y as int));
        assert(spec_body_gravity(b1, pos) == g1);
        assert(spec_body_gravity(b2, pos) == g2);
    }
}

/// How many times subdivision may halve the extents before construction
/// reports `DepthLimit`. Coincident points land in the same quadrant at
/// every level, so without a bound the recursion would only stop once the
/// halved intervals collapse numerically; an explicit bound makes
/// termination unconditional and surfaces the degenerate input as an error
/// instead of a near-endless recursion.
pub const DEPTH_LIMIT: u32 = 64;

/// Recursive spatial partition: no body yields no node, one body a leaf,
/// several bodies an interior node over the four quadrants of the extent
/// (each child keeps exactly one quadrant of the parent's box, wherever its
/// bodies lie), with errors from aggregation or depth exhaustion passed up.
pub open spec fn spec_make_node<S: Scalar>(
    pts: Seq<Body<S>>,
    extent_x: (S, S),
    extent_y: (S, S),
    depth: nat,
) -> Result<Option<QuadNode<S>>, BuildError>
    decreases depth,
{
    if pts.len() == 0 {
        Ok(None)
    } else if pts.len() == 1 {
        Ok(Some(QuadNode::Leaf(QuadLeaf { body: pts[0] })))
    } else if depth == 0 {
        Err(BuildError::DepthLimit)
    } else {
        let div_x = extent_x.0.spec_plus(extent_x.1).spec_div(S::spec_of_i64(2));
        let div_y = extent_y.0.spec_plus(extent_y.1).spec_div(S::spec_of_i64(2));
        match spec_make_node(
            quad_filter(pts, div_x, div_y, true, true),
            (extent_x.0, div_x),
            (extent_y.0, div_y),
            (depth - 1) as nat,
        ) {
            Err(e) => Err(e),
            Ok(sw) => match spec_make_node(
                quad_filter(pts, div_x, div_y, false, true),
                (div_x, extent_x.1),
                (extent_y.0, div_y),
                (depth - 1) as nat,
            ) {
                Err(e) => Err(e),
                Ok(se) => match spec_make_node(
                    quad_filter(pts, div_x, div_y, true, false),
                    (extent_x.0, div_x),
                    (div_y, extent_y.1),
                    (depth - 1) as nat,
                ) {
                    Err(e) => Err(e),
                    Ok(nw) => match spec_make_node(
                        quad_filter(pts, div_x, div_y, false, false),
                        (div_x, extent_x.1),
                        (div_y, extent_y.1),
                        (depth - 1) as nat,
                    ) {
                        Err(e) => Err(e),
                        Ok(ne) => match spec_interior_new(sw, se, nw, ne, extent_x, extent_y) {
                            Ok(i) => Ok(Some(QuadNode::Interior(i))),
                            Err(e) => Err(e),
                        },
                    },
                },
            },
        }
    }
}

pub fn make_node<S: Scalar>(
    pts: Vec<Body<S>>,
    extent_x: (S, S),
    extent_y: (S, S),
    depth: u32,
) -> (r: Result<Option<QuadNode<S>>, BuildError>)
    ensures
        r == spec_make_node(pts@, extent_x, extent_y, depth as nat),
    decreases depth,
{
    if pts.len() == 0 {
        Ok(None)
    } else if pts.len() == 1 {
        Ok(Some(QuadNode::Leaf(QuadLeaf { body: pts[0] })))
    } else if depth == 0 {
        Err(BuildError::DepthLimit)
    } else {
        let div_x = extent_x.0.plus(extent_x.1).div_by(S::of_i64(2));
        let div_y = extent_y.0.plus(extent_y.1).div_by(S::of_i64(2));
        let (swp, sep, nwp, nep) = partition(&pts, div_x, div_y);
        let sw = match make_node(swp, (extent_x.0, div_x), (extent_y.0, div_y), depth - 1) {
            Ok(o) => o,
            Err(e) => {
                return Err(e);
            },
        };
        let se = match make_node(sep, (div_x, extent_x.1), (extent_y.0, div_y), depth - 1) {
            Ok(o) => o,
            Err(e) => {
                return Err(e);
            },
        };
        let nw = match make_node(nwp, (extent_x.0, div_x), (div_y, extent_y.1), depth - 1) {
            Ok(o) => o,
            Err(e) => {
                return Err(e);
            },
        };
        let ne = match make_node(nep, (div_x, extent_x.1), (div_y, extent_y.1), depth - 1) {
            Ok(o) => o,
            Err(e) => {
                return Err(e);
            },
        };
        match QuadInterior::new(sw, se, nw, ne, extent_x, extent_y) {
            Ok(i) => Ok(Some(QuadNode::Interior(i))),
            Err(e) => Err(e),
        }
    }
}

/// The bodies a subtree owns, leaves left to right.
pub open spec fn bodies_of<S: Scalar>(n: QuadNode<S>) -> Seq<Body<S>>
    decreases n,
{
    match n {
        QuadNode::Leaf(l) => seq![l.body],
        QuadNode::Interior(i) => {
            let bsw = match i.sw {
                Some(c) => bodies_of(*c),
                None => Seq::empty(),
            };
            let bse = match i.se {
                Some(c) => bodies_of(*c),
                None => Seq::empty(),
            };
            let bnw = match i.nw {
                Some(c) => bodies_of(*c),
                None => Seq::empty(),
            };
            let bne = match i.ne {
                Some(c) => bodies_of(*c),
                None => Seq::empty(),
            };
            bsw + bse + bnw + bne
        },
    }
}

/// The four quadrant filters cut a body sequence into four pieces that
/// together hold exactly the given bodies: every body passes exactly
/// one filter.
pub proof fn lemma_quad_filter_partitions<S: Scalar>(pts: Seq<Body<S>>, div_x: S, div_y: S)
    ensures
        quad_filter(pts, div_x, div_y, true, true).to_multiset().add(
            quad_filter(pts, div_x, div_y, false, true).to_multiset(),
        ).add(quad_filter(pts, div_x, div_y, true, false).to_multiset()).add(
            quad_filter(pts, div_x, div_y, false, false).to_multiset(),
        ) == pts.to_multiset(),
    decreases pts.len(),
{
    broadcast use vstd::multiset::group_multiset_axioms;
    broadcast use vstd::seq_lib::group_to_multiset_ensures;

    if pts.len() == 0 {
        assert(pts.to_multiset() =~= Multiset::<Body<S>>::empty());
        assert(quad_filter(pts, div_x, div_y, true, true).to_multiset() =~= Multiset::<
            Body<S>,
        >::empty());
    } else {
        lemma_quad_filter_partitions(pts.drop_last(), div_x, div_y);
        let last = pts.last();
        assert(pts =~= pts.drop_last().push(last));
        assert(pts.to_multiset() == pts.drop_last().push(last).to_multiset());
        assert(quad_filter(pts, div_x, div_y, true, true).to_multiset().add(
            quad_filter(pts, div_x, div_y, false, true).to_multiset(),
        ).add(quad_filter(pts, div_x, div_y, true, false).to_multiset()).add(
            quad_filter(pts, div_x, div_y, false, false).to_multiset(),
        ) =~= pts.to_multiset());
    }
}

/// Every body is owned by exactly one leaf: a successfully built subtree
/// holds exactly the bodies it was given, and an absent node only ever
/// stands for an empty quadrant.
pub proof fn lemma_build_owns_bodies<S: Scalar>(
    pts: Seq<Body<S>>,
    extent_x: (S, S),
    extent_y: (S, S),
    depth: nat,
)
    ensures
        match spec_make_node(pts, extent_x, extent_y, depth) {
            Ok(Some(n)) => bodies_of(n).to_multiset() == pts.to_multiset(),
            Ok(None) => pts.len() == 0,
            Err(_) => true,
        },
    decreases depth,
{
    broadcast use vstd::multiset::group_multiset_axioms;
    broadcast use vstd::seq_lib::group_to_multiset_ensures;
    broadcast use vstd::seq_lib::lemma_multiset_commutative;

    if pts.len() == 0 {
    } else if pts.len() == 1 {
        assert(pts =~= seq![pts[0]]);
    } else if depth == 0 {
    } else {
        let div_x = extent_x.0.spec_plus(extent_x.1).spec_div(S::spec_of_i64(2));
        let div_y = extent_y.0.spec_plus(extent_y.1).spec_div(S::spec_of_i64(2));
        let psw = quad_filter(pts, div_x, div_y, true, true);
        let pse = quad_filter(pts, div_x, div_y, false, true);
        let pnw = quad_filter(pts, div_x, div_y, true, false);
        let pne = quad_filter(pts, div_x, div_y, false, false);
        lemma_build_owns_bodies(psw, (extent_x.0, div_x), (extent_y.0, div_y), (depth - 1) as nat);
        lemma_build_owns_bodies(pse, (div_x, extent_x.1), (extent_y.0, div_y), (depth - 1) as nat);
        lemma_build_owns_bodies(pnw, (extent_x.0, div_x), (div_y, extent_y.1), (depth - 1) as nat);
        lemma_build_owns_bodies(pne, (div_x, extent_x.1), (div_y, extent_y.1), (depth - 1) as nat);
        lemma_quad_filter_partitions(pts, div_x, div_y);
        let rsw = spec_make_node(psw, (extent_x.0, div_x), (extent_y.0, div_y), (depth - 1) as nat);
        let rse = spec_make_node(pse, (div_x, extent_x.1), (extent_y.0, div_y), (depth - 1) as nat);
        let rnw = spec_make_node(pnw, (extent_x.0, div_x), (div_y, extent_y.1), (depth - 1) as nat);
        let rne = spec_make_node(pne, (div_x, extent_x.1), (div_y, extent_y.1), (depth - 1) as nat);
        if rsw is Ok && rse is Ok && rnw is Ok && rne is Ok {
            let osw = rsw->Ok_0;
            let ose = rse->Ok_0;
            let onw = rnw->Ok_0;
            let one = rne->Ok_0;
            match spec_interior_new(osw, ose, onw, one, extent_x, extent_y) {
                Ok(i) => {
                    let bsw = match i.sw {
                        Some(c) => bodies_of(*c),
                        None => Seq::<Body<S>>::empty(),
                    };
                    let bse = match i.se {
                        Some(c) => bodies_of(*c),
                        None => Seq::<Body<S>>::empty(),
                    };
                    let bnw = match i.nw {
                        Some(c) => bodies_of(*c),
                        None => Seq::<Body<S>>::empty(),
                    };
                    let bne = match i.ne {
                        Some(c) => bodies_of(*c),
                        None => Seq::<Body<S>>::empty(),
                    };
                    match osw {
                        Some(nn) => {
                            assert(i.sw == Some(Box::new(nn)));
                            assert(bsw == bodies_of(nn));
                        },
                        None => {
                            assert(psw.to_multiset() =~= Multiset::<Body<S>>::empty());
                            assert(bsw.to_multiset() =~= Multiset::<Body<S>>::empty());
                        },
                    }
                    match ose {
                        Some(nn) => {
                            assert(i.se == Some(Box::new(nn)));
                            assert(bse == bodies_of(nn));
                        },
                        None => {
                            assert(pse.to_multiset() =~= Multiset::<Body<S>>::empty());
                            assert(bse.to_multiset() =~= Multiset::<Body<S>>::empty());
                        },
                    }
                    match onw {
                        Some(nn) => {
                            assert(i.nw == Some(Box::new(nn)));
                            assert(bnw == bodies_of(nn));
                        },
                        None => {
                            assert(pnw.to_multiset() =~= Multiset::<Body<S>>::empty());
                            assert(bnw.to_multiset() =~= Multiset::<Body<S>>::empty());
                        },
                    }
                    match one {
                        Some(nn) => {
                            assert(i.ne == Some(Box::new(nn)));
                            assert(bne == bodies_of(nn));
                        },
                        None => {
                            assert(pne.to_multiset() =~= Multiset::<Body<S>>::empty());
                            assert(bne.to_multiset() =~= Multiset::<Body<S>>::empty());
                        },
                    }
                    assert(bodies_of(QuadNode::Interior(i)) == bsw + bse + bnw + bne);
                    assert((bsw + bse + bnw + bne).to_multiset() =~= bsw.to_multiset().add(
                        bse.to_multiset(),
                    ).add(bnw.to_multiset()).add(bne.to_multiset()));
                    assert(bodies_of(QuadNode::Interior(i)).to_multiset() =~= pts.to_multiset());
                },
                Err(_) => {},
            }
        }
    }
}

/// Every quadrupole stored in the subtree is symmetric: the two
/// off-diagonal components agree, at this node and below.
pub open spec fn quadrupoles_symmetric<S: Scalar>(n: QuadNode<S>) -> bool
    decreases n,
{
    match n {
        QuadNode::Leaf(_) => true,
        QuadNode::Interior(i) => {
            &&& i.quadrupole.xy == i.quadrupole.yx
            &&& (match i.sw {
                Some(c) => quadrupoles_symmetric(*c),
                None => true,
            })
            &&& (match i.se {
                Some(c) => quadrupoles_symmetric(*c),
                None => true,
            })
            &&& (match i.nw {
                Some(c) => quadrupoles_symmetric(*c),
                None => true,
            })
            &&& (match i.ne {
                Some(c) => quadrupoles_symmetric(*c),
                None => true,
            })
        },
    }
}

/// The builder only ever stores symmetric quadrupole tensors: the leaf
/// tensor is zero, the outer-product tensor has equal off-diagonal
/// components, and componentwise sums keep the property.
pub proof fn lemma_build_quadrupoles_symmetric<S: Scalar>(
    pts: Seq<Body<S>>,
    extent_x: (S, S),
    extent_y: (S, S),
    depth: nat,
)
    ensures
        match spec_make_node(pts, extent_x, extent_y, depth) {
            Ok(Some(n)) => quadrupoles_symmetric(n),
            _ => true,
        },
    decreases depth,
{
    if pts.len() >= 2 && depth > 0 {
        let div_x = extent_x.0.spec_plus(extent_x.1).spec_div(S::spec_of_i64(2));
        let div_y = extent_y.0.spec_plus(extent_y.1).spec_div(S::spec_of_i64(2));
        let psw = quad_filter(pts, div_x, div_y, true, true);
        let pse = quad_filter(pts, div_x, div_y, false, true);
        let pnw = quad_filter(pts, div_x, div_y, true, false);
        let pne = quad_filter(pts, div_x, div_y, false, false);
        lemma_build_quadrupoles_symmetric(
            psw,
            (extent_x.0, div_x),
            (extent_y.0, div_y),
            (depth - 1) as nat,
        );
        lemma_build_quadrupoles_symmetric(
            pse,
            (div_x, extent_x.1),
            (extent_y.0, div_y),
            (depth - 1) as nat,
        );
        lemma_build_quadrupoles_symmetric(
            pnw,
            (extent_x.0, div_x),
            (div_y, extent_y.1),
            (depth - 1) as nat,
        );
        lemma_build_quadrupoles_symmetric(
            pne,
            (div_x, extent_x.1),
            (div_y, extent_y.1),
            (depth - 1) as nat,
        );
    }
}

/// Every quadrupole stored in the subtree is traceless: the second
/// diagonal component is the negation of the first, at this node and
/// below.
pub open spec fn quadrupoles_traceless<S: Scalar>(n: QuadNode<S>) -> bool
    decreases n,
{
    match n {
        QuadNode::Leaf(_) => true,
        QuadNode::Interior(i) => {
            &&& i.quadrupole.yy == i.quadrupole.xx.spec_negate()
            &&& (match i.sw {
                Some(c) => quadrupoles_traceless(*c),
                None => true,
            })
            &&& (match i.se {
                Some(c) => quadrupoles_traceless(*c),
                None => true,
            })
            &&& (match i.nw {
                Some(c) => quadrupoles_traceless(*c),
                None => true,
            })
            &&& (match i.ne {
                Some(c) => quadrupoles_traceless(*c),
                None => true,
            })
        },
    }
}

/// One aggregation step keeps the diagonal of the accumulated tensor
/// traceless: the child's own tensor is traceless, and the outer-product
/// correction is traceless by construction.
proof fn lemma_traceless_accumulate<S: Scalar>(q: Mat2<S>, child_q: Mat2<S>, disp: Vec2<S>, m: S)
    requires
        forall|a: S, b: S| #[trigger] a.spec_negate().spec_plus(b.spec_negate()) == a.spec_plus(
            b,
        ).spec_negate(),
        forall|a: S, b: S| #[trigger] a.spec_negate().spec_times(b) == a.spec_times(
            b,
        ).spec_negate(),
        q.yy == q.xx.spec_negate(),
        child_q.yy == child_q.xx.spec_negate(),
    ensures
        q.spec_plus(child_q).spec_plus(spec_quadrup_tensor(disp).spec_scale(m)).yy == q.spec_plus(
            child_q,
        ).spec_plus(spec_quadrup_tensor(disp).spec_scale(m)).xx.spec_negate(),
{
    let diag = disp.x.spec_times(disp.x).spec_minus(disp.y.spec_times(disp.y));
    assert(spec_quadrup_tensor(disp).spec_scale(m).yy == diag.spec_negate().spec_times(m));
    assert(diag.spec_negate().spec_times(m) == diag.spec_times(m).spec_negate());
    assert(q.spec_plus(child_q).yy == q.xx.spec_plus(child_q.xx).spec_negate());
}

/// The builder only ever stores traceless quadrupole tensors, over any
/// scalar whose negation fixes zero and distributes over addition and
/// multiplication — true of exact arithmetic; clamping can break it.
pub proof fn lemma_build_quadrupoles_traceless<S: Scalar>(
    pts: Seq<Body<S>>,
    extent_x: (S, S),
    extent_y: (S, S),
    depth: nat,
)
    requires
        S::spec_of_i64(0).spec_negate() == S::spec_of_i64(0),
        forall|a: S, b: S| #[trigger] a.spec_negate().spec_plus(b.spec_negate()) == a.spec_plus(
            b,
        ).spec_negate(),
        forall|a: S, b: S| #[trigger] a.spec_negate().spec_times(b) == a.spec_times(
            b,
        ).spec_negate(),
    ensures
        match spec_make_node(pts, extent_x, extent_y, depth) {
            Ok(Some(n)) => quadrupoles_traceless(n),
            _ => true,
        },
    decreases depth,
{
    if pts.len() >= 2 && depth > 0 {
        let div_x = extent_x.0.spec_plus(extent_x.1).spec_div(S::spec_of_i64(2));
        let div_y = extent_y.0.spec_plus(extent_y.1).spec_div(S::spec_of_i64(2));
        let psw = quad_filter(pts, div_x, div_y, true, true);
        let pse = quad_filter(pts, div_x, div_y, false, true);
        let pnw = quad_filter(pts, div_x, div_y, true, false);
        let pne = quad_filter(pts, div_x, div_y, false, false);
        lemma_build_quadrupoles_traceless(
            psw,
            (extent_x.0, div_x),
            (extent_y.0, div_y),
            (depth - 1) as nat,
        );
        lemma_build_quadrupoles_traceless(
            pse,
            (div_x, extent_x.1),
            (extent_y.0, div_y),
            (depth - 1) as nat,
        );
        lemma_build_quadrupoles_traceless(
            pnw,
            (extent_x.0, div_x),
            (div_y, extent_y.1),
            (depth - 1) as nat,
        );
        lemma_build_quadrupoles_traceless(
            pne,
            (div_x, extent_x.1),
            (div_y, extent_y.1),
            (depth - 1) as nat,
        );
        let rsw = spec_make_node(psw, (extent_x.0, div_x), (extent_y.0, div_y), (depth - 1) as nat);
        let rse = spec_make_node(pse, (div_x, extent_x.1), (extent_y.0, div_y), (depth - 1) as nat);
        let rnw = spec_make_node(pnw, (extent_x.0, div_x), (div_y, extent_y.1), (depth - 1) as nat);
        let rne = spec_make_node(pne, (div_x, extent_x.1), (div_y, extent_y.1), (depth - 1) as nat);
        if rsw is Ok && rse is Ok && rnw is Ok && rne is Ok {
            let osw = rsw->Ok_0;
            let ose = rse->Ok_0;
            let onw = rnw->Ok_0;
            let one = rne->Ok_0;
            match spec_interior_new(osw, ose, onw, one, extent_x, extent_y) {
                Ok(i) => {
                    let m4 = i.total_mass;
                    let com = i.com;
                    let q0 = Mat2::<S>::spec_zero();
                    assert(q0.yy == q0.xx.spec_negate());
                    let q1 = match osw {
                        Some(n) => q0.spec_plus(node_quadrupole(n)).spec_plus(
                            spec_quadrup_tensor(com.spec_minus(node_com(n))).spec_scale(
                                node_mass(n),
                            ),
                        ),
                        None => q0,
                    };
                    match osw {
                        Some(n) => lemma_traceless_accumulate(
                            q0,
                            node_quadrupole(n),
                            com.spec_minus(node_com(n)),
                            node_mass(n),
                        ),
                        None => {},
                    }
                    assert(q1.yy == q1.xx.spec_negate());
                    let q2 = match ose {
                        Some(n) => q1.spec_plus(node_quadrupole(n)).spec_plus(
                            spec_quadrup_tensor(com.spec_minus(node_com(n))).spec_scale(
                                node_mass(n),
                            ),
                        ),
                        None => q1,
                    };
                    match ose {
                        Some(n) => lemma_traceless_accumulate(
                            q1,
                            node_quadrupole(n),
                            com.spec_minus(node_com(n)),
                            node_mass(n),
                        ),
                        None => {},
                    }
                    assert(q2.yy == q2.xx.spec_negate());
                    let q3 = match onw {
                        Some(n) => q2.spec_plus(node_quadrupole(n)).spec_plus(
                            spec_quadrup_tensor(com.spec_minus(node_com(n))).spec_scale(
                                node_mass(n),
                            ),
                        ),
                        None => q2,
                    };
                    match onw {
                        Some(n) => lemma_traceless_accumulate(
                            q2,
                            node_quadrupole(n),
                            com.spec_minus(node_com(n)),
                            node_mass(n),
                        ),
                        None => {},
                    }
                    assert(q3.yy == q3.xx.spec_negate());
                    match one {
                        Some(n) => lemma_traceless_accumulate(
                            q3,
                            node_quadrupole(n),
                            com.spec_minus(node_com(n)),
                            node_mass(n),
                        ),
                        None => {},
                    }
                    assert(i.quadrupole.yy == i.quadrupole.xx.spec_negate());
                },
                Err(_) => {},
            }
        }
    }
}

/// Every interior node in the subtree has at least one present child.
pub open spec fn no_childless_interior<S: Scalar>(n: QuadNode<S>) -> bool
    decreases n,
{
    match n {
        QuadNode::Leaf(_) => true,
        QuadNode::Interior(i) => {
            &&& (i.sw is Some || i.se is Some || i.nw is Some || i.ne is Some)
            &&& (match i.sw {
                Some(c) => no_childless_interior(*c),
                None => true,
            })
            &&& (match i.se {
                Some(c) => no_childless_interior(*c),
                None => true,
            })
            &&& (match i.nw {
                Some(c) => no_childless_interior(*c),
                None => true,
            })
            &&& (match i.ne {
                Some(c) => no_childless_interior(*c),
                None => true,
            })
        },
    }
}

/// An interior node with no children is impossible by construction: nodes
/// are only made for non-empty point sets, and a non-empty set leaves at
/// least one quadrant non-empty.
pub proof fn lemma_build_no_childless_interior<S: Scalar>(
    pts: Seq<Body<S>>,
    extent_x: (S, S),
    extent_y: (S, S),
    depth: nat,
)
    ensures
        match spec_make_node(pts, extent_x, extent_y, depth) {
            Ok(Some(n)) => no_childless_interior(n),
            _ => true,
        },
    decreases depth,
{
    broadcast use vstd::multiset::group_multiset_axioms;
    broadcast use vstd::seq_lib::group_to_multiset_ensures;

    if pts.len() >= 2 && depth > 0 {
        let div_x = extent_x.0.spec_plus(extent_x.1).spec_div(S::spec_of_i64(2));
        let div_y = extent_y.0.spec_plus(extent_y.1).spec_div(S::spec_of_i64(2));
        let psw = quad_filter(pts, div_x, div_y, true, true);
        let pse = quad_filter(pts, div_x, div_y, false, true);
        let pnw = quad_filter(pts, div_x, div_y, true, false);
        let pne = quad_filter(pts, div_x, div_y, false, false);
        lemma_build_no_childless_interior(
            psw,
            (extent_x.0, div_x),
            (extent_y.0, div_y),
            (depth - 1) as nat,
        );
        lemma_build_no_childless_interior(
            pse,
            (div_x, extent_x.1),
            (extent_y.0, div_y),
            (depth - 1) as nat,
        );
        lemma_build_no_childless_interior(
            pnw,
            (extent_x.0, div_x),
            (div_y, extent_y.1),
            (depth - 1) as nat,
        );
        lemma_build_no_childless_interior(
            pne,
            (div_x, extent_x.1),
            (div_y, extent_y.1),
            (depth - 1) as nat,
        );
        lemma_quad_filter_partitions(pts, div_x, div_y);
        if psw.len() == 0 && pse.len() == 0 && pnw.len() == 0 && pne.len() == 0 {
            assert(psw.to_multiset().len() == 0);
            assert(pse.to_multiset().len() == 0);
            assert(pnw.to_multiset().len() == 0);
            assert(pne.to_multiset().len() == 0);
            assert(pts.to_multiset().len() == pts.len());
            assert(false);
        }
        if psw.len() > 0 {
            lemma_make_node_not_none(psw, (extent_x.0, div_x), (extent_y.0, div_y), (depth - 1) as nat);
        }
        if pse.len() > 0 {
            lemma_make_node_not_none(pse, (div_x, extent_x.1), (extent_y.0, div_y), (depth - 1) as nat);
        }
        if pnw.len() > 0 {
            lemma_make_node_not_none(pnw, (extent_x.0, div_x), (div_y, extent_y.1), (depth - 1) as nat);
        }
        if pne.len() > 0 {
            lemma_make_node_not_none(pne, (div_x, extent_x.1), (div_y, extent_y.1), (depth - 1) as nat);
        }
    }
}

/// The tree handed back by a successful construction owns exactly the
/// input bodies, each in one leaf.
pub proof fn lemma_tree_owns_input<S: Scalar>(pts: Seq<Body<S>>)
    requires
        spec_tree_from_points(pts) is Ok,
    ensures
        bodies_of(spec_tree_from_points(pts)->Ok_0).to_multiset() == pts.to_multiset(),
{
    let extent_x = (spec_min_x(pts), spec_max_x(pts));
    let extent_y = (spec_min_y(pts), spec_max_y(pts));
    lemma_make_node_not_none(pts, extent_x, extent_y, DEPTH_LIMIT as nat);
    lemma_build_owns_bodies(pts, extent_x, extent_y, DEPTH_LIMIT as nat);
}

/// Least x coordinate over a non-empty body sequence, found by the same
/// left-to-right comparison fold the builder runs.
pub open spec fn spec_min_x<S: Scalar>(pts: Seq<Body<S>>) -> S
    decreases pts.len(),
{
    if pts.len() <= 1 {
        pts[0].pos.x
    } else {
        let prev = spec_min_x(pts.drop_last());
        if pts.last().pos.x.spec_less(prev) {
            pts.last().pos.x
        } else {
            prev
        }
    }
}

/// Greatest x coordinate over a non-empty body sequence.
pub open spec fn spec_max_x<S: Scalar>(pts: Seq<Body<S>>) -> S
    decreases pts.len(),
{
    if pts.len() <= 1 {
        pts[0].pos.x
    } else {
        let prev = spec_max_x(pts.drop_last());
        if prev.spec_less(pts.last().pos.x) {
            pts.last().pos.x
        } else {
            prev
        }
    }
}

/// Least y coordinate over a non-empty body sequence.
pub open spec fn spec_min_y<S: Scalar>(pts: Seq<Body<S>>) -> S
    decreases pts.len(),
{
    if pts.len() <= 1 {
        pts[0].pos.y
    } else {
        let prev = spec_min_y(pts.drop_last());
        if pts.last().pos.y.spec_less(prev) {
            pts.last().pos.y
        } else {
            prev
        }
    }
}

/// Greatest y coordinate over a non-empty body sequence.
pub open spec fn spec_max_y<S: Scalar>(pts: Seq<Body<S>>) -> S
    decreases pts.len(),
{
    if pts.len() <= 1 {
        pts[0].pos.y
    } else {
        let prev = spec_max_y(pts.drop_last());
        if prev.spec_less(pts.last().pos.y) {
            pts.last().pos.y
        } else {
            prev
        }
    }
}

/// Building over one or more bodies never produces an absent root: the
/// result is a node or an error.
pub proof fn lemma_make_node_not_none<S: Scalar>(
    pts: Seq<Body<S>>,
    extent_x: (S, S),
    extent_y: (S, S),
    depth: nat,
)
    requires
        pts.len() > 0,
    ensures
        spec_make_node(pts, extent_x, extent_y, depth) != Ok::<Option<QuadNode<S>>, BuildError>(
            None,
        ),
{
}

/// The tree over a non-empty body set: the root extent is the bounding
/// interval of the bodies on each axis, and subdivision proceeds from it.
pub open spec fn spec_tree_from_points<S: Scalar>(pts: Seq<Body<S>>) -> Result<
    QuadNode<S>,
    BuildError,
> {
    if pts.len() == 0 {
        Err(BuildError::EmptyInput)
    } else {
        let extent_x = (spec_min_x(pts), spec_max_x(pts));
        let extent_y = (spec_min_y(pts), spec_max_y(pts));
        match spec_make_node(pts, extent_x, extent_y, DEPTH_LIMIT as nat) {
            Ok(Some(n)) => Ok(n),
            Ok(None) => arbitrary(),  // ruled out by lemma_make_node_not_none
            Err(e) => Err(e),
        }
    }
}

pub fn tree_from_points<S: Scalar>(pts: Vec<Body<S>>) -> (r: Result<QuadNode<S>, BuildError>)
    ensures
        r == spec_tree_from_points(pts@),
        pts@.len() == 0 <==> r == Err::<QuadNode<S>, BuildError>(BuildError::EmptyInput),
{
    let ghost pts0 = pts@;
    if pts.len() == 0 {
        return Err(BuildError::EmptyInput);
    }
    let mut min_x = pts[0].pos.x;
    let mut max_x = pts[0].pos.x;
    let mut min_y = pts[0].pos.y;
    let mut max_y = pts[0].pos.y;
    let mut idx: usize = 1;
    while idx < pts.len()
        invariant
            1 <= idx <= pts@.len(),
            min_x == spec_min_x(pts@.take(idx as int)),
            max_x == spec_max_x(pts@.take(idx as int)),
            min_y == spec_min_y(pts@.take(idx as int)),
            max_y == spec_max_y(pts@.take(idx as int)),
        decreases pts@.len() - idx,
    {
        proof {
            assert(pts@.take(idx as int + 1).drop_last() =~= pts@.take(idx as int));
            assert(pts@.take(idx as int + 1).last() == pts@[idx as int]);
        }
        let b = pts[idx];
        if b.pos.x.less_than(min_x) {
            min_x = b.pos.x;
        }
        if max_x.less_than(b.pos.x) {
            max_x = b.pos.x;
        }
        if b.pos.y.less_than(min_y) {
            min_y = b.pos.y;
        }
        if max_y.less_than(b.pos.y) {
            max_y = b.pos.y;
        }
        idx += 1;
    }
    proof {
        assert(pts@.take(pts@.len() as int) =~= pts@);
    }
    match make_node(pts, (min_x, max_x), (min_y, max_y), DEPTH_LIMIT) {
        Ok(Some(n)) => Ok(n),
        Err(e) => {
            proof {
                lemma_error_not_empty_input(pts0, (min_x, max_x), (min_y, max_y), DEPTH_LIMIT as nat);
            }
            Err(e)
        },
        Ok(None) => {
            proof {
                lemma_make_node_not_none(pts0, (min_x, max_x), (min_y, max_y), DEPTH_LIMIT as nat);
            }
            unreached()
        },
    }
}

/// Subdivision itself never reports the empty-input error: that error is
/// raised only at the entry points, so a non-empty build that fails does so
/// with `ZeroMass` or `DepthLimit`.
pub proof fn lemma_error_not_empty_input<S: Scalar>(
    pts: Seq<Body<S>>,
    extent_x: (S, S),
    extent_y: (S, S),
    depth: nat,
)
    ensures
        spec_make_node(pts, extent_x, extent_y, depth) != Err::<Option<QuadNode<S>>, BuildError>(
            BuildError::EmptyInput,
        ),
    decreases depth,
{
    if pts.len() >= 2 && depth > 0 {
        let div_x = extent_x.0.spec_plus(extent_x.1).spec_div(S::spec_of_i64(2));
        let div_y = extent_y.0.spec_plus(extent_y.1).spec_div(S::spec_of_i64(2));
        lemma_error_not_empty_input(
            quad_filter(pts, div_x, div_y, true, true),
            (extent_x.0, div_x),
            (extent_y.0, div_y),
            (depth - 1) as nat,
        );
        lemma_error_not_empty_input(
            quad_filter(pts, div_x, div_y, false, true),
            (div_x, extent_x.1),
            (extent_y.0, div_y),
            (depth - 1) as nat,
        );
        lemma_error_not_empty_input(
            quad_filter(pts, div_x, div_y, true, false),
            (extent_x.0, div_x),
            (div_y, extent_y.1),
            (depth - 1) as nat,
        );
        lemma_error_not_empty_input(
            quad_filter(pts, div_x, div_y, false, false),
            (div_x, extent_x.1),
            (div_y, extent_y.1),
            (depth - 1) as nat,
        );
    }
}

/// Construction over exactly one body yields a tree that is that single
/// leaf, whatever the body's position and mass.
pub proof fn lemma_single_body_leaf<S: Scalar>(pts: Seq<Body<S>>)
    requires
        pts.len() == 1,
    ensures
        spec_tree_from_points(pts) == Ok::<QuadNode<S>, BuildError>(
            QuadNode::Leaf(QuadLeaf { body: pts[0] }),
        ),
{
}

/// A two-leaf tree of mirrored equal masses whose center of mass coincides
/// with the query point reports zero net gravity there, whatever the
/// opening threshold or quadrupole flag: the opening test cannot accept at
/// distance zero, so the two bodies are summed exactly and cancel.
pub proof fn lemma_symmetric_pair_tree_zero(
    i: QuadInterior<i64>,
    b1: Body<i64>,
    b2: Body<i64>,
    pos: Vec2<i64>,
    use_quad: bool,
    accuracy: i64,
)
    requires
        b1.mass == b2.mass,
        -MIRROR_BOUND <= b1.mass <= MIRROR_BOUND,
        -MIRROR_BOUND <= pos.x <= MIRROR_BOUND,
        -MIRROR_BOUND <= pos.y <= MIRROR_BOUND,
        -MIRROR_BOUND <= b1.pos.x <= MIRROR_BOUND,
        -MIRROR_BOUND <= b1.pos.y <= MIRROR_BOUND,
        b2.pos.x as int == 2 * (pos.x as int) - (b1.pos.x as int),
        b2.pos.y as int == 2 * (pos.y as int) - (b1.pos.y as int),
        i.sw == Some(Box::new(QuadNode::Leaf(QuadLeaf { body: b1 }))),
        i.se == Some(Box::new(QuadNode::Leaf(QuadLeaf { body: b2 }))),
        i.nw is None,
        i.ne is None,
        i.com == pos,
    ensures
        spec_gravity(QuadNode::Interior(i), pos, use_quad, accuracy) == Vec2::<i64>::spec_zero(),
{
    lemma_symmetric_pair_cancels(b1, b2, pos);
    let r = pos.spec_minus(i.com);
    assert(r.x == 0i64 && r.y == 0i64);
    assert(r.spec_sq_len() == 0i64);
    assert(r.spec_norm() == 0i64);
    assert(!spec_open_test(i, r.spec_norm(), accuracy));
    let g1 = spec_body_gravity(b1, pos);
    let g2 = spec_body_gravity(b2, pos);
    assert(Vec2::<i64>::spec_zero().spec_plus(g1) == g1);
    assert(g1.spec_plus(g2) == Vec2::<i64>::spec_zero());
    match i.sw {
        Some(c) => {
            assert(*c == QuadNode::Leaf(QuadLeaf { body: b1 }));
            assert(spec_gravity(*c, pos, use_quad, accuracy) == g1);
        },
        None => {},
    }
    match i.se {
        Some(c) => {
            assert(*c == QuadNode::Leaf(QuadLeaf { body: b2 }));
            assert(spec_gravity(*c, pos, use_quad, accuracy) == g2);
        },
        None => {},
    }
}

/// The built tree, held immutably; queries read it and never change it.
pub struct GravitySystem<S> {
    pub root: QuadNode<S>,
}

impl<S: Scalar> GravitySystem<S> {
    /// The bodies formed by pairing each position with its mass.
    pub open spec fn spec_bodies(positions: Seq<Vec2<S>>, masses: Seq<S>) -> Seq<Body<S>> {
        Seq::new(positions.len(), |i: int| Body { pos: positions[i], mass: masses[i] })
    }

    pub open spec fn spec_new(positions: Seq<Vec2<S>>, masses: Seq<S>) -> Result<
        GravitySystem<S>,
        BuildError,
    > {
        if positions.len() != masses.len() {
            Err(BuildError::LengthMismatch)
        } else if positions.len() == 0 {
            Err(BuildError::EmptyInput)
        } else {
            match spec_tree_from_points(Self::spec_bodies(positions, masses)) {
                Ok(n) => Ok(GravitySystem { root: n }),
                Err(e) => Err(e),
            }
        }
    }

    /// Build the system over equally many positions and masses; both length
    /// mismatch and an empty input are rejected with the matching error.
    pub fn new(positions: &Vec<Vec2<S>>, masses: &Vec<S>) -> (r: Result<Self, BuildError>)
        ensures
            r == Self::spec_new(positions@, masses@),
            positions@.len() != masses@.len() ==> r == Err::<Self, BuildError>(
                BuildError::LengthMismatch,
            ),
            positions@.len() == masses@.len() && positions@.len() == 0 ==> r == Err::<
                Self,
                BuildError,
            >(BuildError::EmptyInput),
            positions@.len() == 1 && masses@.len() == 1 ==> r is Ok && r->Ok_0.root
                == QuadNode::Leaf(
                QuadLeaf { body: Body { pos: positions@[0], mass: masses@[0] } },
            ),
    {
        proof {
            if positions@.len() == 1 && masses@.len() == 1 {
                lemma_single_body_leaf(Self::spec_bodies(positions@, masses@));
            }
        }
        if positions.len() != masses.len() {
            return Err(BuildError::LengthMismatch);
        }
        if positions.len() == 0 {
            return Err(BuildError::EmptyInput);
        }
        let mut pts: Vec<Body<S>> = Vec::new();
        let mut idx: usize = 0;
        while idx < positions.len()
            invariant
                positions@.len() == masses@.len(),
                idx <= positions@.len(),
                pts@ == Self::spec_bodies(positions@, masses@).take(idx as int),
            decreases positions@.len() - idx,
    {
            pts.push(Body { pos: positions[idx], mass: masses[idx] });
            proof {
                assert(pts@ =~= Self::spec_bodies(positions@, masses@).take(idx as int + 1));
            }
            idx += 1;
        }
        proof {
            assert(Self::spec_bodies(positions@, masses@).take(positions@.len() as int)
                =~= Self::spec_bodies(positions@, masses@));
        }
        match tree_from_points(pts) {
            Ok(n) => Ok(GravitySystem { root: n }),
            Err(e) => Err(e),
        }
    }

    /// The potential at each query point against the fixed tree, in input
    /// order; query points are independent of one another.
    pub fn evaluate_potential(&self, at_pos: &Vec<Vec2<S>>, use_quad: bool, accuracy: S) -> (r:
        Vec<S>)
        ensures
            r@.len() == at_pos@.len(),
            forall|i: int|
                0 <= i < at_pos@.len() ==> r@[i] == spec_potential(
                    self.root,
                    at_pos@[i],
                    use_quad,
                    accuracy,
                ),
    {
        let mut out: Vec<S> = Vec::new();
        let mut idx: usize = 0;
        while idx < at_pos.len()
            invariant
                idx <= at_pos@.len(),
                out@.len() == idx,
                forall|i: int|
                    0 <= i < idx ==> out@[i] == spec_potential(
                        self.root,
                        at_pos@[i],
                        use_quad,
                        accuracy,
                    ),
            decreases at_pos@.len() - idx,
        {
            out.push(self.root.potential_at(at_pos[idx], use_quad, accuracy));
            idx += 1;
        }
        out
    }

    /// The acceleration vector at each query point against the fixed tree,
    /// in input order.
    pub fn evaluate_gravity(&self, at_pos: &Vec<Vec2<S>>, use_quad: bool, accuracy: S) -> (r: Vec<
        Vec2<S>,
    >)
        ensures
            r@.len() == at_pos@.len(),
            forall|i: int|
                0 <= i < at_pos@.len() ==> r@[i] == spec_gravity(
                    self.root,
                    at_pos@[i],
                    use_quad,
                    accuracy,
                ),
    {
        let mut out: Vec<Vec2<S>> = Vec::new();
        let mut idx: usize = 0;
        while idx < at_pos.len()
            invariant
                idx <= at_pos@.len(),
                out@.len() == idx,
                forall|i: int|
                    0 <= i < idx ==> out@[i] == spec_gravity(
                        self.root,
                        at_pos@[i],
                        use_quad,
                        accuracy,
                    ),
            decreases at_pos@.len() - idx,
        {
            out.push(self.root.gravity_at(at_pos[idx], use_quad, accuracy));
            idx += 1;
        }
        out
    }
}

} // verus!
