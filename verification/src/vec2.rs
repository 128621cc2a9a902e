use vstd::prelude::*;

use crate::scalar::{Scalar, Sqrt};

verus! {

/// A point or displacement in the plane.
#[derive(Clone, Copy, Debug)]
pub struct Vec2<S> {
    pub x: S,
    pub y: S,
}

impl<S: Scalar> Vec2<S> {
    pub open spec fn spec_zero() -> Self {
        Vec2 { x: S::spec_of_i64(0), y: S::spec_of_i64(0) }
    }

    pub open spec fn spec_plus(self, o: Self) -> Self {
        Vec2 { x: self.x.spec_plus(o.x), y: self.y.spec_plus(o.y) }
    }

    pub open spec fn spec_minus(self, o: Self) -> Self {
        Vec2 { x: self.x.spec_minus(o.x), y: self.y.spec_minus(o.y) }
    }

    pub open spec fn spec_scale(self, k: S) -> Self {
        Vec2 { x: self.x.spec_times(k), y: self.y.spec_times(k) }
    }

    pub open spec fn spec_div_by(self, k: S) -> Self {
        Vec2 { x: self.x.spec_div(k), y: self.y.spec_div(k) }
    }

    pub open spec fn spec_negate(self) -> Self {
        Vec2 { x: self.x.spec_negate(), y: self.y.spec_negate() }
    }

    pub open spec fn spec_dot(self, o: Self) -> S {
        self.x.spec_times(o.x).spec_plus(self.y.spec_times(o.y))
    }

    pub open spec fn spec_cross(self, o: Self) -> S {
        self.x.spec_times(o.y).spec_minus(self.y.spec_times(o.x))
    }

    pub open spec fn spec_sq_len(self) -> S {
        self.spec_dot(self)
    }

    pub open spec fn spec_norm(self) -> S {
        self.spec_sq_len().spec_sqrt()
    }

    pub open spec fn spec_normalized(self) -> Self {
        self.spec_div_by(self.spec_norm())
    }

    pub fn new(x: S, y: S) -> (r: Self)
        ensures
            r == (Vec2 { x, y }),
    {
        Vec2 { x, y }
    }

    /// The zero vector.
    pub fn zero() -> (r: Self)
        ensures
            r == Self::spec_zero(),
    {
        Vec2 { x: S::of_i64(0), y: S::of_i64(0) }
    }

    pub fn plus(self, o: Self) -> (r: Self)
        ensures
            r == self.spec_plus(o),
    {
        Vec2 { x: self.x.plus(o.x), y: self.y.plus(o.y) }
    }

    pub fn minus(self, o: Self) -> (r: Self)
        ensures
            r == self.spec_minus(o),
    {
        Vec2 { x: self.x.minus(o.x), y: self.y.minus(o.y) }
    }

    /// Multiply both components by a scalar.
    pub fn scale(self, k: S) -> (r: Self)
        ensures
            r == self.spec_scale(k),
    {
        Vec2 { x: self.x.times(k), y: self.y.times(k) }
    }

    /// Divide both components by a scalar.
    pub fn div_by(self, k: S) -> (r: Self)
        ensures
            r == self.spec_div_by(k),
    {
        Vec2 { x: self.x.div_by(k), y: self.y.div_by(k) }
    }

    pub fn negate(self) -> (r: Self)
        ensures
            r == self.spec_negate(),
    {
        Vec2 { x: self.x.negate(), y: self.y.negate() }
    }

    pub fn dot(self, other: Self) -> (r: S)
        ensures
            r == self.spec_dot(other),
    {
        self.x.times(other.x).plus(self.y.times(other.y))
    }

    /// The scalar (z-component of the) planar cross product.
    pub fn cross(self, other: Self) -> (r: S)
        ensures
            r == self.spec_cross(other),
    {
        self.x.times(other.y).minus(self.y.times(other.x))
    }

    /// Squared length.
    pub fn sq_len(self) -> (r: S)
        ensures
            r == self.spec_sq_len(),
    {
        self.dot(self)
    }

    /// Vector length (Euclidean norm).
    pub fn norm(self) -> (r: S)
        ensures
            r == self.spec_norm(),
    {
        self.sq_len().sqrt()
    }

    /// Normalize the vector by dividing by its norm. For a zero-length
    /// vector the result is whatever dividing by the zero scalar yields.
    pub fn normalized(self) -> (r: Self)
        ensures
            r == self.spec_normalized(),
    {
        self.div_by(self.norm())
    }

    pub fn as_tuple(&self) -> (r: (S, S))
        ensures
            r == (self.x, self.y),
    {
        (self.x, self.y)
    }
}

} // verus!
