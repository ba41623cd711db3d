//! Texture projection: a local orthonormal frame and (u, v) coordinates
//! for a hit, derived deterministically from the shape and the normal.

use vstd::prelude::*;
use crate::fixed::{absi, div_trunc, div_trunc_i64, emod_i64, lemma_div_trunc_bound, SCALE};
use crate::vec3::{bounded, cross_v, dot3, lemma_dot3_bound, lemma_norm_sq_nonneg,
    lemma_normalized_nonzero, norm_sq, unit_v, Vec3};

verus! {

/// Local frame `(i, j, k)` plus texture coordinates, with `u` and `v`
/// in `[0, SCALE)` fixed-point fractions of the texture tile.
#[derive(Clone, Copy, Debug, PartialEq, Eq, Structural)]
pub struct Projection {
    pub i: Vec3,
    pub j: Vec3,
    pub k: Vec3,
    pub u: i64,
    pub v: i64,
}

/// The canonical axes, in fixed-point unit length.
pub open spec fn x_axis() -> Vec3 {
    Vec3 { x: SCALE, y: 0, z: 0 }
}

pub open spec fn y_axis() -> Vec3 {
    Vec3 { x: 0, y: SCALE, z: 0 }
}

pub open spec fn z_axis() -> Vec3 {
    Vec3 { x: 0, y: 0, z: SCALE }
}

impl Projection {
    /// The canonical frame with zero texture coordinates.
    pub fn default() -> (r: Projection)
        ensures
            r == (Projection { i: x_axis(), j: y_axis(), k: z_axis(), u: 0, v: 0 }),
    {
        Projection {
            i: Vec3 { x: SCALE, y: 0, z: 0 },
            j: Vec3 { x: 0, y: SCALE, z: 0 },
            k: Vec3 { x: 0, y: 0, z: SCALE },
            u: 0,
            v: 0,
        }
    }
}

/// A piecewise-linear stand-in for the polar angle of `(x, y)`: exact at
/// the axes and the diagonals, monotone around the circle, one `SCALE`
/// per quarter turn (so the full turn is `4 * SCALE`).
pub open spec fn diamond_angle(x: int, y: int) -> int {
    if x == 0 && y == 0 {
        0
    } else if x > 0 && y >= 0 {
        div_trunc(SCALE * y, x + y)
    } else if x <= 0 && y > 0 {
        SCALE + div_trunc(SCALE * (-x), y - x)
    } else if x < 0 && y <= 0 {
        2 * SCALE + div_trunc(SCALE * (-y), -x - y)
    } else {
        3 * SCALE + div_trunc(SCALE * x, x - y)
    }
}

/// The diamond angle, executably.
pub fn diamond_angle_exec(x: i64, y: i64) -> (r: i64)
    requires
        -1_000_000_000_000_000 <= x <= 1_000_000_000_000_000,
        -1_000_000_000_000_000 <= y <= 1_000_000_000_000_000,
    ensures
        r == diamond_angle(x as int, y as int),
        0 <= r < 4 * SCALE,
{
    if x == 0 && y == 0 {
        return 0;
    }
    if x > 0 && y >= 0 {
        proof {
            lemma_div_trunc_quarter(SCALE as int, y as int, x as int + y);
        }
        div_trunc_i64(SCALE * y, x + y)
    } else if x <= 0 && y > 0 {
        proof {
            lemma_div_trunc_quarter(SCALE as int, -x as int, y as int - x);
        }
        SCALE + div_trunc_i64(SCALE * (-x), y - x)
    } else if x < 0 && y <= 0 {
        proof {
            lemma_div_trunc_quarter(SCALE as int, -y as int, -(x as int) - y);
        }
        2 * SCALE + div_trunc_i64(SCALE * (-y), -x - y)
    } else {
        proof {
            lemma_div_trunc_quarter(SCALE as int, x as int, x as int - y);
        }
        3 * SCALE + div_trunc_i64(SCALE * x, x - y)
    }
}

/// Within a quadrant the scaled ratio stays inside `[0, SCALE)`.
proof fn lemma_div_trunc_quarter(s: int, num: int, den: int)
    by (nonlinear_arith)
    requires
        s == SCALE,
        0 <= num < den,
    ensures
        0 <= div_trunc(s * num, den) < s,
{
}

/// The frame and (u, v) that plane-like shapes share: `i` and `j` span
/// the surface, and the texture coordinates are the fractional parts of
/// the hit's offsets along them, one tile per four world units.
pub open spec fn linear_projection_spec(anchor: Vec3, pos: Vec3, n: Vec3) -> Projection {
    let axis = if cross_v(n, y_axis()) == (Vec3 { x: 0, y: 0, z: 0 }) {
        z_axis()
    } else {
        y_axis()
    };
    let i0 = cross_v(n, axis);
    let i = if norm_sq(i0) == 0 {
        x_axis()
    } else {
        unit_v(i0)
    };
    let j0 = cross_v(n, i);
    let j = if norm_sq(j0) == 0 {
        y_axis()
    } else {
        unit_v(j0)
    };
    let dx = (pos.x - anchor.x) as i64;
    let dy = (pos.y - anchor.y) as i64;
    let dz = (pos.z - anchor.z) as i64;
    let dist = Vec3 { x: dx, y: dy, z: dz };
    let u = div_trunc(dot3(dist, i), 4 * SCALE) % (SCALE as int);
    let v = div_trunc(dot3(dist, j), 4 * SCALE) % (SCALE as int);
    Projection { i, j, k: n, u: u as i64, v: v as i64 }
}

/// Builds the linear projection for a hit at `pos` on a surface with
/// unit normal `n` anchored at `anchor`.
pub fn linear_projection(anchor: &Vec3, pos: &Vec3, n: &Vec3) -> (r: Projection)
    requires
        bounded(*anchor, 2 * crate::vec3::MAX_POS as int),
        bounded(*pos, 2_000_000_000_000_000),
        bounded(*n, SCALE as int),
        norm_sq(*n) > 0,
    ensures
        r == linear_projection_spec(*anchor, *pos, *n),
        0 <= r.u < SCALE,
        0 <= r.v < SCALE,
{
    let yv = Vec3 { x: 0, y: SCALE, z: 0 };
    let zv = Vec3 { x: 0, y: 0, z: SCALE };
    let xv = Vec3 { x: SCALE, y: 0, z: 0 };
    let c_y = n.cross(&yv);
    let axis = if c_y.x == 0 && c_y.y == 0 && c_y.z == 0 {
        zv
    } else {
        yv
    };
    let i0 = n.cross(&axis);
    proof {
        assert(bounded(i0, 2_000_000)) by (nonlinear_arith)
            requires
                bounded(*n, SCALE as int),
                bounded(axis, SCALE as int),
                SCALE == 1000i64,
                i0.x == crate::vec3::cross_x(*n, axis),
                i0.y == crate::vec3::cross_y(*n, axis),
                i0.z == crate::vec3::cross_z(*n, axis),
        ;
        lemma_norm_sq_nonneg(i0);
    }
    let i = if i0.x == 0 && i0.y == 0 && i0.z == 0 {
        xv
    } else {
        i0.normalize()
    };
    proof {
        assert(bounded(i, SCALE as int));
    }
    let j0 = n.cross(&i);
    proof {
        assert(bounded(j0, 2_000_000)) by (nonlinear_arith)
            requires
                bounded(*n, SCALE as int),
                bounded(i, SCALE as int),
                SCALE == 1000i64,
                j0.x == crate::vec3::cross_x(*n, i),
                j0.y == crate::vec3::cross_y(*n, i),
                j0.z == crate::vec3::cross_z(*n, i),
        ;
        lemma_norm_sq_nonneg(j0);
    }
    let j = if j0.x == 0 && j0.y == 0 && j0.z == 0 {
        yv
    } else {
        j0.normalize()
    };
    proof {
        assert(bounded(j, SCALE as int));
    }
    let dist = pos.minus(anchor);
    let du = dist.dot_wide(&i);
    let dv = dist.dot_wide(&j);
    proof {
        lemma_dot3_bound(dist, i, 2_000_200_000_000_000int, SCALE as int);
        lemma_dot3_bound(dist, j, 2_000_200_000_000_000int, SCALE as int);
    }
    let u = emod_i64(div_trunc_i64(du as i64, 4 * SCALE), SCALE);
    let v = emod_i64(div_trunc_i64(dv as i64, 4 * SCALE), SCALE);
    Projection { i, j, k: *n, u, v }
}

} // verus!
