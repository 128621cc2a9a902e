use vstd::prelude::*;

use crate::scalar::Scalar;
use crate::vec2::Vec2;

verus! {

/// A 2x2 tensor; the solver only ever builds symmetric traceless ones.
#[derive(Clone, Copy, Debug)]
pub struct Mat2<S> {
    pub xx: S,
    pub xy: S,
    pub yx: S,
    pub yy: S,
}

impl<S: Scalar> Mat2<S> {
    pub open spec fn spec_zero() -> Self {
        Mat2 {
            xx: S::spec_of_i64(0),
            xy: S::spec_of_i64(0),
            yx: S::spec_of_i64(0),
            yy: S::spec_of_i64(0),
        }
    }

    pub open spec fn spec_eval_quadratic(self, v: Vec2<S>) -> S {
        self.xx.spec_times(v.x).spec_times(v.x).spec_plus(
            self.yy.spec_times(v.y).spec_times(v.y),
        ).spec_plus(self.xy.spec_plus(self.yx).spec_times(v.x).spec_times(v.y))
    }

    pub open spec fn spec_matmul(self, v: Vec2<S>) -> Vec2<S> {
        Vec2 {
            x: self.xx.spec_times(v.x).spec_plus(self.xy.spec_times(v.y)),
            y: self.yx.spec_times(v.x).spec_plus(self.yy.spec_times(v.y)),
        }
    }

    pub open spec fn spec_scale(self, k: S) -> Self {
        Mat2 {
            xx: self.xx.spec_times(k),
            xy: self.xy.spec_times(k),
            yx: self.yx.spec_times(k),
            yy: self.yy.spec_times(k),
        }
    }

    pub open spec fn spec_plus(self, o: Self) -> Self {
        Mat2 {
            xx: self.xx.spec_plus(o.xx),
            xy: self.xy.spec_plus(o.xy),
            yx: self.yx.spec_plus(o.yx),
            yy: self.yy.spec_plus(o.yy),
        }
    }

    /// The zero tensor.
    pub fn zero() -> (r: Self)
        ensures
            r == Self::spec_zero(),
    {
        Mat2 { xx: S::of_i64(0), xy: S::of_i64(0), yx: S::of_i64(0), yy: S::of_i64(0) }
    }

    /// Evaluates the quadratic form `v . (self . v)`.
    pub fn eval_quadratic(&self, v: Vec2<S>) -> (r: S)
        ensures
            r == self.spec_eval_quadratic(v),
    {
        self.xx.times(v.x).times(v.x).plus(self.yy.times(v.y).times(v.y)).plus(
            self.xy.plus(self.yx).times(v.x).times(v.y),
        )
    }

    /// Matrix-vector product.
    pub fn matmul(&self, v: Vec2<S>) -> (r: Vec2<S>)
        ensures
            r == self.spec_matmul(v),
    {
        Vec2 {
            x: self.xx.times(v.x).plus(self.xy.times(v.y)),
            y: self.yx.times(v.x).plus(self.yy.times(v.y)),
        }
    }

    /// Multiply every component by a scalar.
    pub fn scale(self, k: S) -> (r: Self)
        ensures
            r == self.spec_scale(k),
    {
        Mat2 {
            xx: self.xx.times(k),
            xy: self.xy.times(k),
            yx: self.yx.times(k),
            yy: self.yy.times(k),
        }
    }

    /// Componentwise addition.
    pub fn plus(self, o: Self) -> (r: Self)
        ensures
            r == self.spec_plus(o),
    {
        Mat2 {
            xx: self.xx.plus(o.xx),
            xy: self.xy.plus(o.xy),
            yx: self.yx.plus(o.yx),
            yy: self.yy.plus(o.yy),
        }
    }
}

} // verus!
