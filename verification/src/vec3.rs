//! Three-component vectors over fixed-point scalars.

use vstd::prelude::*;
use crate::fixed::{absi, div_trunc, div_trunc_i64, fmul, fixed_mul, is_isqrt, isqrt, isqrt_spec,
    lemma_isqrt_spec_is_isqrt, lemma_div_trunc_bound, SCALE};

verus! {

/// Largest magnitude allowed for a position coordinate (100 000 units).
pub const MAX_POS: i64 = 100_000_000;

/// Largest magnitude allowed for a direction coordinate (1 000 units).
pub const MAX_DIR: i64 = 1_000_000;

/// A point or direction; each component counts thousandths of a unit.
#[derive(Clone, Copy, Debug, PartialEq, Eq, Structural)]
pub struct Vec3 {
    pub x: i64,
    pub y: i64,
    pub z: i64,
}

/// Every component of `v` lies in `[-m, m]`.
pub open spec fn bounded(v: Vec3, m: int) -> bool {
    &&& -m <= v.x <= m
    &&& -m <= v.y <= m
    &&& -m <= v.z <= m
}

/// Mathematical dot product of two vectors, unbounded.
pub open spec fn dot3(a: Vec3, b: Vec3) -> int {
    a.x * b.x + a.y * b.y + a.z * b.z
}

/// Squared Euclidean norm (carries scale `SCALE * SCALE`).
pub open spec fn norm_sq(a: Vec3) -> int {
    dot3(a, a)
}

/// Components of the cross product, unbounded.
pub open spec fn cross_x(a: Vec3, b: Vec3) -> int {
    a.y * b.z - a.z * b.y
}

pub open spec fn cross_y(a: Vec3, b: Vec3) -> int {
    a.z * b.x - a.x * b.z
}

pub open spec fn cross_z(a: Vec3, b: Vec3) -> int {
    a.x * b.y - a.y * b.x
}

/// A squared norm is never negative.
pub proof fn lemma_norm_sq_nonneg(a: Vec3)
    by (nonlinear_arith)
    ensures
        norm_sq(a) >= 0,
        norm_sq(a) == 0 ==> a.x == 0 && a.y == 0 && a.z == 0,
        a.x * a.x <= norm_sq(a),
        a.y * a.y <= norm_sq(a),
        a.z * a.z <= norm_sq(a),
{
}

/// Componentwise bounds give a bound on dot products.
pub proof fn lemma_dot3_bound(a: Vec3, b: Vec3, m: int, n: int)
    by (nonlinear_arith)
    requires
        0 <= m,
        0 <= n,
        bounded(a, m),
        bounded(b, n),
    ensures
        -3 * m * n <= dot3(a, b) <= 3 * m * n,
{
}

/// Components of the truncating fixed-point normalization of `v`.
pub open spec fn normalized_x(v: Vec3) -> int {
    div_trunc(v.x * SCALE, isqrt_spec(norm_sq(v)))
}

pub open spec fn normalized_y(v: Vec3) -> int {
    div_trunc(v.y * SCALE, isqrt_spec(norm_sq(v)))
}

pub open spec fn normalized_z(v: Vec3) -> int {
    div_trunc(v.z * SCALE, isqrt_spec(norm_sq(v)))
}

/// The normalization of `v`, assembled as a vector.
pub open spec fn unit_v(v: Vec3) -> Vec3 {
    Vec3 { x: normalized_x(v) as i64, y: normalized_y(v) as i64, z: normalized_z(v) as i64 }
}

/// The cross product of `a` and `b`, assembled as a vector.
pub open spec fn cross_v(a: Vec3, b: Vec3) -> Vec3 {
    Vec3 { x: cross_x(a, b) as i64, y: cross_y(a, b) as i64, z: cross_z(a, b) as i64 }
}

/// Normalizing a nonzero vector cannot round every component to zero:
/// the largest component keeps at least half its unit length.
pub proof fn lemma_normalized_nonzero(v: Vec3)
    requires
        bounded(v, 1_000_000_000_000),
        norm_sq(v) > 0,
    ensures
        normalized_x(v) != 0 || normalized_y(v) != 0 || normalized_z(v) != 0,
{
    let len = isqrt_spec(norm_sq(v));
    lemma_isqrt_spec_is_isqrt(norm_sq(v));
    lemma_norm_sq_nonneg(v);
    let mx: int = if absi(v.x as int) >= absi(v.y as int) && absi(v.x as int) >= absi(
        v.z as int,
    ) {
        v.x as int
    } else if absi(v.y as int) >= absi(v.x as int) && absi(v.y as int) >= absi(v.z as int) {
        v.y as int
    } else {
        v.z as int
    };
    assert(v.x != 0 || v.y != 0 || v.z != 0) by (nonlinear_arith)
        requires
            norm_sq(v) > 0,
            norm_sq(v) == v.x * v.x + v.y * v.y + v.z * v.z,
    ;
    assert(absi(mx) >= 1);
    assert(norm_sq(v) <= 3 * (absi(mx) * absi(mx))) by (nonlinear_arith)
        requires
            absi(v.x as int) <= absi(mx),
            absi(v.y as int) <= absi(mx),
            absi(v.z as int) <= absi(mx),
            norm_sq(v) == v.x * v.x + v.y * v.y + v.z * v.z,
    ;
    assert(0 < len < 2 * absi(mx)) by (nonlinear_arith)
        requires
            len * len <= norm_sq(v),
            norm_sq(v) <= 3 * (absi(mx) * absi(mx)),
            norm_sq(v) > 0,
            norm_sq(v) < (len + 1) * (len + 1),
            0 <= len,
            absi(mx) >= 1,
    ;
    let am = absi(mx) * SCALE;
    vstd::arithmetic::div_mod::lemma_div_by_self(len);
    vstd::arithmetic::div_mod::lemma_div_is_ordered(len, am, len);
    assert(am / len >= 1) by (nonlinear_arith)
        requires
            0 < len < 2 * absi(mx),
            am == absi(mx) * SCALE,
            SCALE == 1000i64,
            am / len >= len / len,
            len / len == 1,
    ;
    assert(div_trunc(mx * SCALE, len) != 0) by (nonlinear_arith)
        requires
            absi(mx) * SCALE / len >= 1,
            len > 0,
            div_trunc(mx * SCALE, len) == if mx >= 0 {
                absi(mx * SCALE) / len
            } else {
                -(absi(mx * SCALE) / len)
            },
            absi(mx * SCALE) == absi(mx) * SCALE,
    ;
    assert(mx == v.x || mx == v.y || mx == v.z);
}

impl Vec3 {
    /// Builds the vector with the given fixed-point components.
    pub fn new(x: i64, y: i64, z: i64) -> (r: Vec3)
        ensures
            r == (Vec3 { x, y, z }),
    {
        Vec3 { x, y, z }
    }

    /// Componentwise sum.
    pub fn plus(&self, o: &Vec3) -> (r: Vec3)
        requires
            i64::MIN <= self.x + o.x <= i64::MAX,
            i64::MIN <= self.y + o.y <= i64::MAX,
            i64::MIN <= self.z + o.z <= i64::MAX,
        ensures
            r.x == self.x + o.x,
            r.y == self.y + o.y,
            r.z == self.z + o.z,
    {
        Vec3 { x: self.x + o.x, y: self.y + o.y, z: self.z + o.z }
    }

    /// Componentwise difference.
    pub fn minus(&self, o: &Vec3) -> (r: Vec3)
        requires
            i64::MIN <= self.x - o.x <= i64::MAX,
            i64::MIN <= self.y - o.y <= i64::MAX,
            i64::MIN <= self.z - o.z <= i64::MAX,
        ensures
            r.x == self.x - o.x,
            r.y == self.y - o.y,
            r.z == self.z - o.z,
    {
        Vec3 { x: self.x - o.x, y: self.y - o.y, z: self.z - o.z }
    }

    /// Fixed-point scaling: each component becomes `c * k / SCALE`.
    pub fn scaled(&self, k: i64) -> (r: Vec3)
        requires
            i64::MIN < self.x * k <= i64::MAX,
            i64::MIN < self.y * k <= i64::MAX,
            i64::MIN < self.z * k <= i64::MAX,
        ensures
            r.x == fmul(self.x as int, k as int),
            r.y == fmul(self.y as int, k as int),
            r.z == fmul(self.z as int, k as int),
    {
        Vec3 { x: fixed_mul(self.x, k), y: fixed_mul(self.y, k), z: fixed_mul(self.z, k) }
    }

    /// Dot product; the bound keeps each partial sum inside `i64`.
    pub fn dot(&self, o: &Vec3) -> (r: i64)
        requires
            bounded(*self, 1_000_000_000),
            bounded(*o, 1_000_000_000),
        ensures
            r == dot3(*self, *o),
    {
        proof {
            lemma_dot3_bound(*self, *o, 1_000_000_000, 1_000_000_000);
            assert(absi(self.x * o.x) <= 1_000_000_000_000_000_000) by (nonlinear_arith)
                requires
                    -1_000_000_000 <= self.x <= 1_000_000_000,
                    -1_000_000_000 <= o.x <= 1_000_000_000,
            ;
            assert(absi(self.y * o.y) <= 1_000_000_000_000_000_000) by (nonlinear_arith)
                requires
                    -1_000_000_000 <= self.y <= 1_000_000_000,
                    -1_000_000_000 <= o.y <= 1_000_000_000,
            ;
            assert(absi(self.z * o.z) <= 1_000_000_000_000_000_000) by (nonlinear_arith)
                requires
                    -1_000_000_000 <= self.z <= 1_000_000_000,
                    -1_000_000_000 <= o.z <= 1_000_000_000,
            ;
        }
        self.x * o.x + self.y * o.y + self.z * o.z
    }

    /// Dot product in a wide register, for large vectors.
    pub fn dot_wide(&self, o: &Vec3) -> (r: i128)
        requires
            bounded(*self, 3_000_000_000_000_000_000),
            bounded(*o, 3_000_000_000_000_000_000),
        ensures
            r == dot3(*self, *o),
    {
        proof {
            assert(absi(self.x * o.x) <= 0x2000_0000_0000_0000_0000_0000_0000_0000int && absi(
                self.y * o.y,
            ) <= 0x2000_0000_0000_0000_0000_0000_0000_0000int && absi(self.z * o.z)
                <= 0x2000_0000_0000_0000_0000_0000_0000_0000int) by (nonlinear_arith)
                requires
                    bounded(*self, 3_000_000_000_000_000_000),
                    bounded(*o, 3_000_000_000_000_000_000),
            ;
        }
        (self.x as i128) * (o.x as i128) + (self.y as i128) * (o.y as i128) + (self.z as i128) * (
        o.z as i128)
    }

    /// Squared norm in a wide register, for large vectors.
    pub fn norm_sq_wide(&self) -> (r: i128)
        requires
            bounded(*self, 3_000_000_000_000_000_000),
        ensures
            r == norm_sq(*self),
            r >= 0,
    {
        proof {
            lemma_norm_sq_nonneg(*self);
            lemma_dot3_bound(*self, *self, 3_000_000_000_000_000_000, 3_000_000_000_000_000_000);
            assert(absi(self.x * self.x) <= 0x2000_0000_0000_0000_0000_0000_0000_0000int && absi(
                self.y * self.y,
            ) <= 0x2000_0000_0000_0000_0000_0000_0000_0000int && absi(self.z * self.z)
                <= 0x2000_0000_0000_0000_0000_0000_0000_0000int) by (nonlinear_arith)
                requires
                    bounded(*self, 3_000_000_000_000_000_000),
            ;
        }
        let x = self.x as i128;
        let y = self.y as i128;
        let z = self.z as i128;
        x * x + y * y + z * z
    }

    /// Fixed-point length: floor square root of the squared norm.
    pub fn length(&self) -> (r: i64)
        requires
            bounded(*self, 1_000_000_000_000),
        ensures
            r == isqrt_spec(norm_sq(*self)),
            is_isqrt(norm_sq(*self), r as int),
            0 <= r <= 2_000_000_000_000,
    {
        proof {
            lemma_dot3_bound(*self, *self, 1_000_000_000_000, 1_000_000_000_000);
        }
        let n2 = self.norm_sq_wide();
        let r = isqrt(n2 as u128);
        proof {
            assert(n2 as u128 as int == n2 as int);
            assert(r * r <= n2 < 4_000_000_000_000_000_000_000_000);
            assert(r <= 2_000_000_000_000) by (nonlinear_arith)
                requires
                    r * r < 4_000_000_000_000_000_000_000_000,
            ;
        }
        r as i64
    }

    /// Cross product; inputs are bounded so components fit in `i64`.
    pub fn cross(&self, o: &Vec3) -> (r: Vec3)
        requires
            bounded(*self, 1_000_000_000),
            bounded(*o, 1_000_000_000),
        ensures
            r.x == cross_x(*self, *o),
            r.y == cross_y(*self, *o),
            r.z == cross_z(*self, *o),
            r == cross_v(*self, *o),
            bounded(r, 2_000_000_000_000_000_000),
    {
        proof {
            assert(absi(self.y * o.z) <= 1_000_000_000_000_000_000
                && absi(self.z * o.y) <= 1_000_000_000_000_000_000
                && absi(self.z * o.x) <= 1_000_000_000_000_000_000
                && absi(self.x * o.z) <= 1_000_000_000_000_000_000
                && absi(self.x * o.y) <= 1_000_000_000_000_000_000
                && absi(self.y * o.x) <= 1_000_000_000_000_000_000) by (nonlinear_arith)
                requires
                    bounded(*self, 1_000_000_000),
                    bounded(*o, 1_000_000_000),
            ;
        }
        Vec3 {
            x: self.y * o.z - self.z * o.y,
            y: self.z * o.x - self.x * o.z,
            z: self.x * o.y - self.y * o.x,
        }
    }

    /// Scales the vector to (fixed-point) unit length, truncating each
    /// component: the result's `x` is `x * SCALE / |v|`, and so on.
    pub fn normalize(&self) -> (r: Vec3)
        requires
            bounded(*self, 1_000_000_000_000),
            norm_sq(*self) > 0,
        ensures
            r.x == normalized_x(*self),
            r.y == normalized_y(*self),
            r.z == normalized_z(*self),
            r == unit_v(*self),
            bounded(r, SCALE as int),
    {
        let len = self.length();
        proof {
            lemma_norm_sq_nonneg(*self);
            assert(len > 0) by (nonlinear_arith)
                requires
                    is_isqrt(norm_sq(*self), len as int),
                    norm_sq(*self) > 0,
            ;
            assert(absi(self.x as int) <= len && absi(self.y as int) <= len && absi(self.z as int) <= len)
                by (nonlinear_arith)
                requires
                    is_isqrt(norm_sq(*self), len as int),
                    self.x * self.x <= norm_sq(*self),
                    self.y * self.y <= norm_sq(*self),
                    self.z * self.z <= norm_sq(*self),
            ;
            lemma_div_trunc_bound(self.x * SCALE, len as int);
            lemma_div_trunc_bound(self.y * SCALE, len as int);
            lemma_div_trunc_bound(self.z * SCALE, len as int);
            assert(absi(div_trunc(self.x * SCALE, len as int)) <= SCALE) by (nonlinear_arith)
                requires
                    len > 0,
                    absi(self.x as int) <= len,
                    absi(div_trunc(self.x * SCALE, len as int)) * absi(len as int)
                        <= absi(self.x * SCALE),
            ;
            assert(absi(div_trunc(self.y * SCALE, len as int)) <= SCALE) by (nonlinear_arith)
                requires
                    len > 0,
                    absi(self.y as int) <= len,
                    absi(div_trunc(self.y * SCALE, len as int)) * absi(len as int)
                        <= absi(self.y * SCALE),
            ;
            assert(absi(div_trunc(self.z * SCALE, len as int)) <= SCALE) by (nonlinear_arith)
                requires
                    len > 0,
                    absi(self.z as int) <= len,
                    absi(div_trunc(self.z * SCALE, len as int)) * absi(len as int)
                        <= absi(self.z * SCALE),
            ;
        }
        Vec3 {
            x: div_trunc_i64(self.x * SCALE, len),
            y: div_trunc_i64(self.y * SCALE, len),
            z: div_trunc_i64(self.z * SCALE, len),
        }
    }
}

} // verus!
