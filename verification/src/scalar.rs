use vstd::prelude::*;

verus! {

/// Clamp a mathematical integer into the `i64` range.
pub open spec fn clip_i64(x: int) -> i64 {
    if x > i64::MAX as int {
        i64::MAX
    } else if x < i64::MIN as int {
        i64::MIN
    } else {
        x as i64
    }
}

/// Round-toward-zero quotient of two `i64` values, as a mathematical integer.
/// Meaningful only for a nonzero divisor; callers guard the zero case.
pub open spec fn trunc_div_i64(x: i64, d: i64) -> int {
    let xi = x as int;
    let di = d as int;
    if xi == 0 {
        0
    } else if xi > 0 && di > 0 {
        xi / di
    } else if xi < 0 && di < 0 {
        (xi * -1) / (di * -1)
    } else if xi < 0 {
        ((xi * -1) / di) * -1
    } else {
        (xi / (di * -1)) * -1
    }
}

/// `r` is the integer square root of `x`.
pub open spec fn is_isqrt(x: int, r: int) -> bool {
    0 <= r && r * r <= x && x < (r + 1) * (r + 1)
}

/// The integer square root of `x` (meaningful for `x >= 0`).
pub closed spec fn spec_isqrt(x: int) -> int {
    choose|r: int| is_isqrt(x, r)
}

/// No two distinct integers are both the integer square root of `x`.
pub proof fn lemma_isqrt_unique(x: int, a: int, b: int)
    requires
        is_isqrt(x, a),
        is_isqrt(x, b),
    ensures
        a == b,
{
    assert(a == b) by (nonlinear_arith)
        requires
            0 <= a,
            a * a <= x,
            x < (a + 1) * (a + 1),
            0 <= b,
            b * b <= x,
            x < (b + 1) * (b + 1),
    ;
}

/// Every nonnegative integer has an integer square root, so `spec_isqrt`
/// denotes it.
pub proof fn lemma_isqrt_exists(x: int)
    requires
        x >= 0,
    ensures
        is_isqrt(x, spec_isqrt(x)),
    decreases x,
{
    if x == 0 {
        assert(is_isqrt(x, 0));
    } else {
        lemma_isqrt_exists(x - 1);
        let r = spec_isqrt(x - 1);
        if (r + 1) * (r + 1) <= x {
            assert(x < (r + 2) * (r + 2)) by (nonlinear_arith)
                requires
                    0 <= r,
                    x - 1 < (r + 1) * (r + 1),
                    (r + 1) * (r + 1) <= x,
            ;
            assert(is_isqrt(x, r + 1));
        } else {
            assert(is_isqrt(x, r));
        }
    }
    let c = choose|q: int| is_isqrt(x, q);
    assert(is_isqrt(x, c));
}

/// The `i64` square root is never negative.
pub proof fn lemma_sqrt_i64_nonneg(x: i64)
    ensures
        x.spec_sqrt() >= 0,
{
    if x > 0 {
        lemma_isqrt_exists(x as int);
        let q = spec_isqrt(x as int);
        assert(q <= x as int) by (nonlinear_arith)
            requires
                0 <= q,
                q * q <= x as int,
                1 <= x as int,
        ;
    }
}

/// Dividing a nonnegative `i64` by a positive one never goes negative.
pub proof fn lemma_div_i64_nonneg(a: i64, d: i64)
    requires
        a >= 0,
        d > 0,
    ensures
        a.spec_div(d) >= 0,
{
    if a != 0 {
        assert((a as int) / (d as int) >= 0) by (nonlinear_arith)
            requires
                a as int > 0,
                d as int > 0,
        ;
    }
}

/// Truncating division is an odd function of the dividend.
pub proof fn lemma_trunc_div_odd(v: i64, nv: i64, d: i64)
    requires
        d > 0,
        nv as int == -(v as int),
    ensures
        trunc_div_i64(nv, d) == -trunc_div_i64(v, d),
{
}

/// A truncating quotient is no larger in magnitude than its dividend when
/// the divisor is positive.
pub proof fn lemma_trunc_div_bound(v: i64, d: i64)
    requires
        d > 0,
    ensures
        v >= 0 ==> 0 <= trunc_div_i64(v, d) <= v as int,
        v < 0 ==> v as int <= trunc_div_i64(v, d) <= 0,
{
    if v > 0 {
        assert(0 <= (v as int) / (d as int) <= v as int) by (nonlinear_arith)
            requires
                v as int > 0,
                d as int > 0,
        ;
    } else if v < 0 {
        assert(0 <= (-(v as int)) / (d as int) <= -(v as int)) by (nonlinear_arith)
            requires
                -(v as int) > 0,
                d as int > 0,
        ;
    }
}

/// For a positive `i64`, the square root is at least one, its square is no
/// more than the input, and the next square exceeds it.
pub proof fn lemma_sqrt_i64_bounds(x: i64)
    requires
        x >= 1,
    ensures
        1 <= x.spec_sqrt(),
        (x.spec_sqrt() as int) * (x.spec_sqrt() as int) <= x as int,
        (x as int) < (x.spec_sqrt() as int + 1) * (x.spec_sqrt() as int + 1),
{
    lemma_isqrt_exists(x as int);
    let q = spec_isqrt(x as int);
    assert(q <= x as int) by (nonlinear_arith)
        requires
            0 <= q,
            q * q <= x as int,
            1 <= x as int,
    ;
    if q == 0 {
        assert((q + 1) * (q + 1) == 1) by (nonlinear_arith)
            requires
                q == 0,
        ;
        assert((x as int) < 1);
    }
}

/// Binary search for the integer square root of a positive value that fits
/// in the `i64` range.
fn isqrt_u64(x: u64) -> (r: u64)
    requires
        1 <= x <= i64::MAX as u64,
    ensures
        is_isqrt(x as int, r as int),
{
    proof {
        assert(3037000500int * 3037000500int == 9223372037000250000int) by (nonlinear_arith);
    }
    let mut lo: u64 = 1;
    let mut hi: u64 = 3037000500;
    while lo + 1 < hi
        invariant
            1 <= lo < hi <= 3037000500,
            (lo as int) * (lo as int) <= x as int,
            (x as int) < (hi as int) * (hi as int),
            1 <= x <= i64::MAX as u64,
        decreases hi - lo,
    {
        let mid = lo + (hi - lo) / 2;
        proof {
            assert((mid as int) * (mid as int) <= 3037000500int * 3037000500int) by (nonlinear_arith)
                requires
                    0 <= mid as int <= 3037000500int,
            ;
        }
        if mid * mid <= x {
            lo = mid;
        } else {
            hi = mid;
        }
    }
    lo
}

/// A scalar with a square-root operation whose executable result is pinned to
/// the type's own mathematical square-root function.
pub trait Sqrt: Sized + Copy {
    spec fn spec_sqrt(self) -> Self;

    fn sqrt(self) -> (r: Self)
        ensures
            r == self.spec_sqrt(),
    ;
}

/// The arithmetic the solver needs from its scalars. Every executable
/// operation is total and returns exactly what the corresponding spec
/// function denotes, so two evaluations of the same expression agree.
pub trait Scalar: Sqrt + Sized + Copy {
    spec fn spec_plus(self, o: Self) -> Self;

    spec fn spec_minus(self, o: Self) -> Self;

    spec fn spec_times(self, o: Self) -> Self;

    spec fn spec_div(self, o: Self) -> Self;

    spec fn spec_negate(self) -> Self;

    spec fn spec_less(self, o: Self) -> bool;

    spec fn spec_equal(self, o: Self) -> bool;

    spec fn spec_of_i64(v: i64) -> Self;

    fn plus(self, o: Self) -> (r: Self)
        ensures
            r == self.spec_plus(o),
    ;

    fn minus(self, o: Self) -> (r: Self)
        ensures
            r == self.spec_minus(o),
    ;

    fn times(self, o: Self) -> (r: Self)
        ensures
            r == self.spec_times(o),
    ;

    fn div_by(self, o: Self) -> (r: Self)
        ensures
            r == self.spec_div(o),
    ;

    fn negate(self) -> (r: Self)
        ensures
            r == self.spec_negate(),
    ;

    fn less_than(self, o: Self) -> (r: bool)
        ensures
            r == self.spec_less(o),
    ;

    fn equals(self, o: Self) -> (r: bool)
        ensures
            r == self.spec_equal(o),
    ;

    fn of_i64(v: i64) -> (r: Self)
        ensures
            r == Self::spec_of_i64(v),
    ;
}

impl Sqrt for i64 {
    /// Square root rounded toward zero; zero for nonpositive inputs.
    open spec fn spec_sqrt(self) -> i64 {
        if self <= 0 {
            0
        } else {
            spec_isqrt(self as int) as i64
        }
    }

    fn sqrt(self) -> (r: i64) {
        if self <= 0 {
            0
        } else {
            let r = isqrt_u64(self as u64);
            proof {
                lemma_isqrt_exists(self as int);
                lemma_isqrt_unique(self as int, r as int, spec_isqrt(self as int));
                assert(r as int <= 3037000499int) by (nonlinear_arith)
                    requires
                        0 <= r as int,
                        (r as int) * (r as int) <= self as int,
                        self as int <= i64::MAX as int,
                ;
            }
            r as i64
        }
    }
}

impl Scalar for i64 {
    /// Saturating addition.
    open spec fn spec_plus(self, o: i64) -> i64 {
        clip_i64(self as int + o as int)
    }

    /// Saturating subtraction.
    open spec fn spec_minus(self, o: i64) -> i64 {
        clip_i64(self as int - o as int)
    }

    /// Saturating multiplication.
    open spec fn spec_times(self, o: i64) -> i64 {
        clip_i64((self as int) * (o as int))
    }

    /// Truncating division, saturated; zero when the divisor is zero.
    open spec fn spec_div(self, o: i64) -> i64 {
        if o == 0 {
            0
        } else {
            clip_i64(trunc_div_i64(self, o))
        }
    }

    /// Saturating negation.
    open spec fn spec_negate(self) -> i64 {
        clip_i64(-(self as int))
    }

    open spec fn spec_less(self, o: i64) -> bool {
        self < o
    }

    open spec fn spec_equal(self, o: i64) -> bool {
        self == o
    }

    open spec fn spec_of_i64(v: i64) -> i64 {
        v
    }

    fn plus(self, o: i64) -> (r: i64) {
        let s: i128 = self as i128 + o as i128;
        if s > i64::MAX as i128 {
            i64::MAX
        } else if s < i64::MIN as i128 {
            i64::MIN
        } else {
            s as i64
        }
    }

    fn minus(self, o: i64) -> (r: i64) {
        let s: i128 = self as i128 - o as i128;
        if s > i64::MAX as i128 {
            i64::MAX
        } else if s < i64::MIN as i128 {
            i64::MIN
        } else {
            s as i64
        }
    }

    fn times(self, o: i64) -> (r: i64) {
        proof {
            assert(i128::MIN as int <= (self as int) * (o as int) <= i128::MAX as int)
                by (nonlinear_arith)
                requires
                    i64::MIN as int <= self as int <= i64::MAX as int,
                    i64::MIN as int <= o as int <= i64::MAX as int,
            ;
        }
        let p: i128 = (self as i128) * (o as i128);
        if p > i64::MAX as i128 {
            i64::MAX
        } else if p < i64::MIN as i128 {
            i64::MIN
        } else {
            p as i64
        }
    }

    fn div_by(self, o: i64) -> (r: i64) {
        if o == 0 {
            return 0;
        }
        let xi: i128 = self as i128;
        let di: i128 = o as i128;
        let a: u64 = if xi < 0 {
            (-xi) as u64
        } else {
            xi as u64
        };
        let b: u64 = if di < 0 {
            (-di) as u64
        } else {
            di as u64
        };
        let q: u64 = a / b;
        proof {
            assert((a as int) / (b as int) <= a as int) by (nonlinear_arith)
                requires
                    0 <= a as int,
                    1 <= b as int,
            ;
        }
        let neg = (self < 0) != (o < 0);
        if neg {
            (-(q as i128)) as i64
        } else {
            if q > i64::MAX as u64 {
                i64::MAX
            } else {
                q as i64
            }
        }
    }

    fn negate(self) -> (r: i64) {
        if self == i64::MIN {
            i64::MAX
        } else {
            -self
        }
    }

    fn less_than(self, o: i64) -> (r: bool) {
        self < o
    }

    fn equals(self, o: i64) -> (r: bool) {
        self == o
    }

    fn of_i64(v: i64) -> (r: i64) {
        v
    }
}

} // verus!
