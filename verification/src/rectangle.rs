//! Rectangles: a centre, two edge directions and extents, backed by a
//! plane and classified by a pair of triangle containment tests.

use vstd::prelude::*;
use crate::fixed::{absi, div_trunc, div_trunc_i64, fmul, lemma_div_trunc_bound, SCALE};
use crate::plane::Plane;
use crate::ray::{point_at, Ray, HIT_EPSILON, MAX_T};
use crate::vec3::{bounded, cross_x, cross_y, cross_z, dot3, lemma_dot3_bound, norm_sq,
    normalized_x, normalized_y, normalized_z, Vec3, MAX_DIR, MAX_POS};

verus! {

/// Signed volume test: the triple product of edge `a -> b`, offset
/// `a -> p` and the plane normal `n`.  Its sign says on which side of
/// the edge the point lies.
pub open spec fn edge_side(a: Vec3, b: Vec3, p: Vec3, n: Vec3) -> int {
    let ex = b.x - a.x;
    let ey = b.y - a.y;
    let ez = b.z - a.z;
    let px = p.x - a.x;
    let py = p.y - a.y;
    let pz = p.z - a.z;
    (ey * pz - ez * py) * n.x + (ez * px - ex * pz) * n.y + (ex * py - ey * px) * n.z
}

/// Barycentric-style containment: `p` lies inside triangle `abc` when
/// all three edge tests agree in sign (either orientation).
pub open spec fn inside_triangle_spec(p: Vec3, a: Vec3, b: Vec3, c: Vec3, n: Vec3) -> bool {
    ||| {
        &&& edge_side(a, b, p, n) >= 0
        &&& edge_side(b, c, p, n) >= 0
        &&& edge_side(c, a, p, n) >= 0
    }
    ||| {
        &&& edge_side(a, b, p, n) <= 0
        &&& edge_side(b, c, p, n) <= 0
        &&& edge_side(c, a, p, n) <= 0
    }
}

/// One signed edge test, computed in a wide register.
fn edge_side_exec(a: &Vec3, b: &Vec3, p: &Vec3, n: &Vec3) -> (r: i128)
    requires
        bounded(*a, 1_000_000_000),
        bounded(*b, 1_000_000_000),
        bounded(*p, 2_000_000_000_000_000),
        bounded(*n, MAX_DIR as int),
    ensures
        r == edge_side(*a, *b, *p, *n),
{
    let ex = (b.x - a.x) as i128;
    let ey = (b.y - a.y) as i128;
    let ez = (b.z - a.z) as i128;
    let px = (p.x - a.x) as i128;
    let py = (p.y - a.y) as i128;
    let pz = (p.z - a.z) as i128;
    proof {
        assert(absi(ey * pz) <= 5_000_000_000_000_000_000_000_000 && absi(ez * py)
            <= 5_000_000_000_000_000_000_000_000 && absi(ez * px)
            <= 5_000_000_000_000_000_000_000_000 && absi(ex * pz)
            <= 5_000_000_000_000_000_000_000_000 && absi(ex * py)
            <= 5_000_000_000_000_000_000_000_000 && absi(ey * px)
            <= 5_000_000_000_000_000_000_000_000) by (nonlinear_arith)
            requires
                -2_000_000_000 <= ex <= 2_000_000_000,
                -2_000_000_000 <= ey <= 2_000_000_000,
                -2_000_000_000 <= ez <= 2_000_000_000,
                -2_500_000_000_000_000 <= px <= 2_500_000_000_000_000,
                -2_500_000_000_000_000 <= py <= 2_500_000_000_000_000,
                -2_500_000_000_000_000 <= pz <= 2_500_000_000_000_000,
        ;
    }
    let cx = ey * pz - ez * py;
    let cy = ez * px - ex * pz;
    let cz = ex * py - ey * px;
    let nx = n.x as i128;
    let ny = n.y as i128;
    let nz = n.z as i128;
    proof {
        assert(absi(cx * nx) <= 10_000_000_000_000_000_000_000_000_000_000 && absi(cy * ny)
            <= 10_000_000_000_000_000_000_000_000_000_000 && absi(cz * nz)
            <= 10_000_000_000_000_000_000_000_000_000_000) by (nonlinear_arith)
            requires
                -10_000_000_000_000_000_000_000_000 <= cx <= 10_000_000_000_000_000_000_000_000,
                -10_000_000_000_000_000_000_000_000 <= cy <= 10_000_000_000_000_000_000_000_000,
                -10_000_000_000_000_000_000_000_000 <= cz <= 10_000_000_000_000_000_000_000_000,
                -1_000_000 <= nx <= 1_000_000,
                -1_000_000 <= ny <= 1_000_000,
                -1_000_000 <= nz <= 1_000_000,
        ;
    }
    cx * nx + cy * ny + cz * nz
}

/// Whether `p` lies inside triangle `abc` with respect to normal `n`.
pub fn inside_triangle(p: &Vec3, a: &Vec3, b: &Vec3, c: &Vec3, n: &Vec3) -> (r: bool)
    requires
        bounded(*a, 1_000_000_000),
        bounded(*b, 1_000_000_000),
        bounded(*c, 1_000_000_000),
        bounded(*p, 2_000_000_000_000_000),
        bounded(*n, MAX_DIR as int),
    ensures
        r == inside_triangle_spec(*p, *a, *b, *c, *n),
{
    let s1 = edge_side_exec(a, b, p, n);
    let s2 = edge_side_exec(b, c, p, n);
    let s3 = edge_side_exec(c, a, p, n);
    (s1 >= 0 && s2 >= 0 && s3 >= 0) || (s1 <= 0 && s2 <= 0 && s3 <= 0)
}

/// Component of the half-extent offset along a (normalized) direction.
pub open spec fn gap_x(dir: Vec3, len: int) -> int {
    fmul(normalized_x(dir), len / 2)
}

pub open spec fn gap_y(dir: Vec3, len: int) -> int {
    fmul(normalized_y(dir), len / 2)
}

pub open spec fn gap_z(dir: Vec3, len: int) -> int {
    fmul(normalized_z(dir), len / 2)
}

/// Components of the (unnormalized) plane normal: the cross product of
/// the two normalized edge directions.
pub open spec fn rect_normal_x(dl: Vec3, dw: Vec3) -> int {
    normalized_y(dl) * normalized_z(dw) - normalized_z(dl) * normalized_y(dw)
}

pub open spec fn rect_normal_y(dl: Vec3, dw: Vec3) -> int {
    normalized_z(dl) * normalized_x(dw) - normalized_x(dl) * normalized_z(dw)
}

pub open spec fn rect_normal_z(dl: Vec3, dw: Vec3) -> int {
    normalized_x(dl) * normalized_y(dw) - normalized_y(dl) * normalized_x(dw)
}

/// Squared length of that cross product; zero means the two edge
/// directions are (numerically) parallel and the rectangle degenerate.
pub open spec fn rect_normal_sq(dl: Vec3, dw: Vec3) -> int {
    rect_normal_x(dl, dw) * rect_normal_x(dl, dw) + rect_normal_y(dl, dw) * rect_normal_y(dl, dw)
        + rect_normal_z(dl, dw) * rect_normal_z(dl, dw)
}

#[derive(Clone, Copy, Debug, PartialEq, Eq, Structural)]
pub struct Rectangle {
    pub pos: Vec3,
    pub length: i64,
    pub width: i64,
    pub dir_l: Vec3,
    pub dir_w: Vec3,
    pub a: Vec3,
    pub b: Vec3,
    pub c: Vec3,
    pub d: Vec3,
    pub plane: Plane,
}

impl Rectangle {
    /// What the intersection routine relies on: corners within twice the
    /// world bound and a usable backing plane.
    pub open spec fn wf(self) -> bool {
        &&& bounded(self.pos, MAX_POS as int)
        &&& bounded(self.a, 2 * MAX_POS as int)
        &&& bounded(self.b, 2 * MAX_POS as int)
        &&& bounded(self.c, 2 * MAX_POS as int)
        &&& bounded(self.d, 2 * MAX_POS as int)
        &&& self.plane.hittable()
        &&& bounded(self.plane.dir, SCALE as int)
    }

    /// The ray hits the rectangle: it hits the backing plane and the hit
    /// point lies in one of the two corner triangles.
    pub open spec fn hits(self, r: Ray) -> bool {
        &&& self.plane.hits(r)
        &&& {
            let p = point_at(r, self.plane.root(r));
            ||| inside_triangle_spec(p, self.d, self.b, self.c, self.plane.dir)
            ||| inside_triangle_spec(p, self.a, self.b, self.c, self.plane.dir)
        }
    }

    /// Ray/rectangle intersection: the backing plane's single root,
    /// kept only when the hit point passes a triangle containment test.
    pub fn intersect(&self, r: &Ray) -> (res: Option<Vec<i64>>)
        requires
            r.valid(),
            self.wf(),
        ensures
            match res {
                Some(v) => {
                    &&& self.hits(*r)
                    &&& v@.len() == 1
                    &&& v@[0] == self.plane.root(*r)
                    &&& HIT_EPSILON < v@[0] <= MAX_T
                },
                None => !self.hits(*r),
            },
    {
        let t_opt = self.plane.intersect(r);
        let t: i64 = match t_opt {
            Some(ts) => ts[0],
            None => {
                return None;
            },
        };
        let p = r.at(t);
        let hit_inside = inside_triangle(&p, &self.d, &self.b, &self.c, &self.plane.dir)
            || inside_triangle(&p, &self.a, &self.b, &self.c, &self.plane.dir);
        if hit_inside {
            let mut v: Vec<i64> = Vec::new();
            v.push(t);
            Some(v)
        } else {
            None
        }
    }

    /// Displacement maps leave rectangles untouched: the outer-bound
    /// intersection is the plain one.
    pub fn outer_intersect(&self, r: &Ray, _displaced_factor: i64) -> (res: Option<Vec<i64>>)
        requires
            r.valid(),
            self.wf(),
        ensures
            match res {
                Some(v) => {
                    &&& self.hits(*r)
                    &&& v@.len() == 1
                    &&& v@[0] == self.plane.root(*r)
                },
                None => !self.hits(*r),
            },
    {
        self.intersect(r)
    }

    /// Unit surface normal, delegated to the backing plane.
    pub fn norm(&self, hit: &Vec3, ray_dir: &Vec3) -> (n: Vec3)
        requires
            self.wf(),
            bounded(*ray_dir, MAX_DIR as int),
        ensures
            n == self.plane.norm_spec(*ray_dir),
            dot3(self.plane.dir, *ray_dir) <= 0 ==> {
                &&& n.x == normalized_x(self.plane.dir)
                &&& n.y == normalized_y(self.plane.dir)
                &&& n.z == normalized_z(self.plane.dir)
            },
            dot3(self.plane.dir, *ray_dir) > 0 ==> {
                &&& n.x == -normalized_x(self.plane.dir)
                &&& n.y == -normalized_y(self.plane.dir)
                &&& n.z == -normalized_z(self.plane.dir)
            },
            bounded(n, SCALE as int),
    {
        self.plane.norm(hit, ray_dir)
    }

    // Accessors
    pub fn pos(&self) -> (r: &Vec3)
        ensures
            *r == self.pos,
    {
        &self.pos
    }

    pub fn length(&self) -> (r: i64)
        ensures
            r == self.length,
    {
        self.length
    }

    pub fn width(&self) -> (r: i64)
        ensures
            r == self.width,
    {
        self.width
    }

    pub fn dir_l(&self) -> (r: &Vec3)
        ensures
            *r == self.dir_l,
    {
        &self.dir_l
    }

    pub fn dir_w(&self) -> (r: &Vec3)
        ensures
            *r == self.dir_w,
    {
        &self.dir_w
    }

    // Mutators.  Like the accessors these touch only the named field;
    // the derived corners and plane are rebuilt by `new`.
    pub fn set_pos(&mut self, pos: Vec3)
        ensures
            *final(self) == (Rectangle { pos, ..*old(self) }),
    {
        self.pos = pos;
    }

    pub fn set_length(&mut self, length: i64)
        ensures
            *final(self) == (Rectangle { length, ..*old(self) }),
    {
        self.length = length;
    }

    pub fn set_width(&mut self, width: i64)
        ensures
            *final(self) == (Rectangle { width, ..*old(self) }),
    {
        self.width = width;
    }

    pub fn set_dir_l(&mut self, dir_l: Vec3)
        ensures
            *final(self) == (Rectangle { dir_l, ..*old(self) }),
    {
        self.dir_l = dir_l;
    }

    pub fn set_dir_w(&mut self, dir_w: Vec3)
        ensures
            *final(self) == (Rectangle { dir_w, ..*old(self) }),
    {
        self.dir_w = dir_w;
    }

    /// A ray aimed at the rectangle's exact centre along its plane
    /// normal hits, at a distance equal to the perpendicular distance
    /// `k` from the origin to the plane.
    ///
    /// The hypotheses are the corner structure `new` establishes (the
    /// corner pairs average to the centre, the plane anchored at corner
    /// `a`) together with two exactness conditions of the fixed-point
    /// normal: it is perpendicular to both diagonal edge offsets, and
    /// the origin sits exactly `k` steps below the centre along it.
    /// Axis-aligned rectangles satisfy them outright; edge directions
    /// whose normalized cross product rounds make the normal
    /// infinitesimally oblique and are excluded.
    pub proof fn lemma_center_hit(self, r: Ray, k: int)
        requires
            self.wf(),
            r.valid(),
            r.dir == self.plane.dir,
            self.plane.pos == self.a,
            self.a.x + self.d.x == 2 * self.pos.x,
            self.a.y + self.d.y == 2 * self.pos.y,
            self.a.z + self.d.z == 2 * self.pos.z,
            self.b.x + self.c.x == 2 * self.pos.x,
            self.b.y + self.c.y == 2 * self.pos.y,
            self.b.z + self.c.z == 2 * self.pos.z,
            (self.a.x - self.b.x) * self.plane.dir.x + (self.a.y - self.b.y) * self.plane.dir.y
                + (self.a.z - self.b.z) * self.plane.dir.z == 0,
            (self.a.x - self.c.x) * self.plane.dir.x + (self.a.y - self.c.y) * self.plane.dir.y
                + (self.a.z - self.c.z) * self.plane.dir.z == 0,
            SCALE * (self.pos.x - r.pos.x) == k * self.plane.dir.x,
            SCALE * (self.pos.y - r.pos.y) == k * self.plane.dir.y,
            SCALE * (self.pos.z - r.pos.z) == k * self.plane.dir.z,
            HIT_EPSILON < k <= MAX_T,
        ensures
            self.hits(r),
            self.plane.root(r) == k,
    {
        let n = self.plane.dir;
        let aa = norm_sq(n);
        crate::vec3::lemma_norm_sq_nonneg(n);
        // --- the distance: the backing plane's root is exactly k ---
        let gx = self.a.x - self.pos.x;
        let gy = self.a.y - self.pos.y;
        let gz = self.a.z - self.pos.z;
        let lx = self.a.x - self.b.x;
        let ly = self.a.y - self.b.y;
        let lz = self.a.z - self.b.z;
        let wx = self.a.x - self.c.x;
        let wy = self.a.y - self.c.y;
        let wz = self.a.z - self.c.z;
        assert(2 * gx == lx + wx && 2 * gy == ly + wy && 2 * gz == lz + wz);
        lemma_mul_add_dist(lx as int, wx as int, n.x as int);
        lemma_mul_add_dist(ly as int, wy as int, n.y as int);
        lemma_mul_add_dist(lz as int, wz as int, n.z as int);
        assert(2 * (gx * n.x + gy * n.y + gz * n.z) == (lx * n.x + ly * n.y + lz * n.z) + (wx
            * n.x + wy * n.y + wz * n.z)) by (nonlinear_arith)
            requires
                2 * gx == lx + wx,
                2 * gy == ly + wy,
                2 * gz == lz + wz,
        ;
        assert(gx * n.x + gy * n.y + gz * n.z == 0);
        lemma_scaled_dot(self.pos.x - r.pos.x, n.x as int, k, SCALE as int);
        lemma_scaled_dot(self.pos.y - r.pos.y, n.y as int, k, SCALE as int);
        lemma_scaled_dot(self.pos.z - r.pos.z, n.z as int, k, SCALE as int);
        lemma_mul_add_dist(gx as int, self.pos.x - r.pos.x, n.x as int);
        lemma_mul_add_dist(gy as int, self.pos.y - r.pos.y, n.y as int);
        lemma_mul_add_dist(gz as int, self.pos.z - r.pos.z, n.z as int);
        let dd = (self.pos.x - r.pos.x) * n.x + (self.pos.y - r.pos.y) * n.y + (self.pos.z
            - r.pos.z) * n.z;
        assert(self.plane.numer(r) == dd);
        assert(k * (n.x * n.x) + k * (n.y * n.y) + k * (n.z * n.z) == k * aa)
            by (nonlinear_arith)
            requires
                aa == n.x * n.x + n.y * n.y + n.z * n.z,
        ;
        assert(SCALE * self.plane.numer(r) == k * aa);
        assert(self.plane.denom(r) == aa);
        assert((aa * k) / aa == k) by {
            vstd::arithmetic::div_mod::lemma_div_multiples_vanish(k, aa);
        }
        assert(div_trunc(k * aa, aa) == k) by (nonlinear_arith)
            requires
                aa > 0,
                k > 0,
                div_trunc(k * aa, aa) == if (k * aa >= 0) == (aa >= 0) {
                    crate::fixed::absi(k * aa) / crate::fixed::absi(aa)
                } else {
                    -(crate::fixed::absi(k * aa) / crate::fixed::absi(aa))
                },
                (aa * k) / aa == k,
        ;
        assert(self.plane.root(r) == k);
        assert(self.plane.hits(r));
        // --- the hit point is the exact centre ---
        crate::fixed::lemma_div_trunc_cancel(self.pos.x - r.pos.x, SCALE as int);
        crate::fixed::lemma_div_trunc_cancel(self.pos.y - r.pos.y, SCALE as int);
        crate::fixed::lemma_div_trunc_cancel(self.pos.z - r.pos.z, SCALE as int);
        assert(r.dir.x * k == SCALE * (self.pos.x - r.pos.x)) by (nonlinear_arith)
            requires
                SCALE * (self.pos.x - r.pos.x) == k * r.dir.x,
        ;
        assert(r.dir.y * k == SCALE * (self.pos.y - r.pos.y)) by (nonlinear_arith)
            requires
                SCALE * (self.pos.y - r.pos.y) == k * r.dir.y,
        ;
        assert(r.dir.z * k == SCALE * (self.pos.z - r.pos.z)) by (nonlinear_arith)
            requires
                SCALE * (self.pos.z - r.pos.z) == k * r.dir.z,
        ;
        assert(fmul(r.dir.x as int, k) == self.pos.x - r.pos.x);
        assert(fmul(r.dir.y as int, k) == self.pos.y - r.pos.y);
        assert(fmul(r.dir.z as int, k) == self.pos.z - r.pos.z);
        let p = point_at(r, k);
        assert(p == self.pos);
        // --- containment: the centre lies in triangle (d, b, c) ---
        let s1 = edge_side(self.d, self.b, p, n);
        let s2 = edge_side(self.b, self.c, p, n);
        let s3 = edge_side(self.c, self.d, p, n);
        // edge d -> b runs along w; the centre offset from d is g
        assert(self.b.x - self.d.x == wx && self.b.y - self.d.y == wy && self.b.z - self.d.z
            == wz);
        assert(p.x - self.d.x == gx && p.y - self.d.y == gy && p.z - self.d.z == gz);
        lemma_half_cross(ly as int, lz as int, wy as int, wz as int, gy as int, gz as int);
        lemma_half_cross(lz as int, lx as int, wz as int, wx as int, gz as int, gx as int);
        lemma_half_cross(lx as int, ly as int, wx as int, wy as int, gx as int, gy as int);
        let tx = ly * wz - lz * wy;
        let ty = lz * wx - lx * wz;
        let tz = lx * wy - ly * wx;
        let t = tx * n.x + ty * n.y + tz * n.z;
        assert(s1 == (wy * gz - wz * gy) * n.x + (wz * gx - wx * gz) * n.y + (wx * gy - wy * gx)
            * n.z);
        lemma_doubled_factor(wy * gz - wz * gy, tx as int, n.x as int);
        lemma_doubled_factor(wz * gx - wx * gz, ty as int, n.y as int);
        lemma_doubled_factor(wx * gy - wy * gx, tz as int, n.z as int);
        assert(2 * s1 == -t);
        // edge b -> c is twice the centre offset from b
        assert(2 * (p.x - self.b.x) == self.c.x - self.b.x && 2 * (p.y - self.b.y) == self.c.y
            - self.b.y && 2 * (p.z - self.b.z) == self.c.z - self.b.z);
        lemma_parallel_cross(
            (self.c.y - self.b.y) as int,
            (self.c.z - self.b.z) as int,
            (p.y - self.b.y) as int,
            (p.z - self.b.z) as int,
        );
        lemma_parallel_cross(
            (self.c.z - self.b.z) as int,
            (self.c.x - self.b.x) as int,
            (p.z - self.b.z) as int,
            (p.x - self.b.x) as int,
        );
        lemma_parallel_cross(
            (self.c.x - self.b.x) as int,
            (self.c.y - self.b.y) as int,
            (p.x - self.b.x) as int,
            (p.y - self.b.y) as int,
        );
        assert(s2 == 0);
        // edge c -> d runs along -l; the centre offset from c is (w - l) / 2
        assert(self.d.x - self.c.x == -lx && self.d.y - self.c.y == -ly && self.d.z - self.c.z
            == -lz);
        assert(2 * (p.x - self.c.x) == wx - lx && 2 * (p.y - self.c.y) == wy - ly && 2 * (p.z
            - self.c.z) == wz - lz);
        lemma_neg_cross(
            ly as int,
            lz as int,
            wy as int,
            wz as int,
            (p.y - self.c.y) as int,
            (p.z - self.c.z) as int,
        );
        lemma_neg_cross(
            lz as int,
            lx as int,
            wz as int,
            wx as int,
            (p.z - self.c.z) as int,
            (p.x - self.c.x) as int,
        );
        lemma_neg_cross(
            lx as int,
            ly as int,
            wx as int,
            wy as int,
            (p.x - self.c.x) as int,
            (p.y - self.c.y) as int,
        );
        assert(s3 == ((-ly) * (p.z - self.c.z) - (-lz) * (p.y - self.c.y)) * n.x + ((-lz) * (p.x
            - self.c.x) - (-lx) * (p.z - self.c.z)) * n.y + ((-lx) * (p.y - self.c.y) - (-ly) * (
        p.x - self.c.x)) * n.z);
        lemma_doubled_factor(
            (-ly) * (p.z - self.c.z) - (-lz) * (p.y - self.c.y),
            tx as int,
            n.x as int,
        );
        lemma_doubled_factor(
            (-lz) * (p.x - self.c.x) - (-lx) * (p.z - self.c.z),
            ty as int,
            n.y as int,
        );
        lemma_doubled_factor(
            (-lx) * (p.y - self.c.y) - (-ly) * (p.x - self.c.x),
            tz as int,
            n.z as int,
        );
        assert(2 * s3 == -t);
        if t <= 0 {
            assert(s1 >= 0 && s2 >= 0 && s3 >= 0);
        } else {
            assert(s1 <= 0 && s2 <= 0 && s3 <= 0);
        }
        assert(inside_triangle_spec(p, self.d, self.b, self.c, n));
    }

    /// Builds the rectangle: corners are the centre offset by half the
    /// extents along the normalized edge directions, and the backing
    /// plane goes through corner `a` with the normalized cross product
    /// of the edge directions as its normal.
    #[verifier::rlimit(60)]
    pub fn new(pos: Vec3, length: i64, width: i64, dir_l: Vec3, dir_w: Vec3) -> (r: Rectangle)
        requires
            bounded(pos, MAX_POS as int),
            0 < length <= MAX_POS,
            0 < width <= MAX_POS,
            bounded(dir_l, MAX_DIR as int),
            bounded(dir_w, MAX_DIR as int),
            norm_sq(dir_l) > 0,
            norm_sq(dir_w) > 0,
            rect_normal_sq(dir_l, dir_w) > 0,
        ensures
            r.pos == pos,
            r.length == length,
            r.width == width,
            r.dir_l == dir_l,
            r.dir_w == dir_w,
            r.a.x == pos.x + gap_x(dir_l, length as int) + gap_x(dir_w, width as int),
            r.a.y == pos.y + gap_y(dir_l, length as int) + gap_y(dir_w, width as int),
            r.a.z == pos.z + gap_z(dir_l, length as int) + gap_z(dir_w, width as int),
            r.b.x == pos.x - gap_x(dir_l, length as int) + gap_x(dir_w, width as int),
            r.b.y == pos.y - gap_y(dir_l, length as int) + gap_y(dir_w, width as int),
            r.b.z == pos.z - gap_z(dir_l, length as int) + gap_z(dir_w, width as int),
            r.c.x == pos.x + gap_x(dir_l, length as int) - gap_x(dir_w, width as int),
            r.c.y == pos.y + gap_y(dir_l, length as int) - gap_y(dir_w, width as int),
            r.c.z == pos.z + gap_z(dir_l, length as int) - gap_z(dir_w, width as int),
            r.d.x == pos.x - gap_x(dir_l, length as int) - gap_x(dir_w, width as int),
            r.d.y == pos.y - gap_y(dir_l, length as int) - gap_y(dir_w, width as int),
            r.d.z == pos.z - gap_z(dir_l, length as int) - gap_z(dir_w, width as int),
            r.plane.pos == r.a,
            ({
                let n0 = Vec3 {
                    x: rect_normal_x(dir_l, dir_w) as i64,
                    y: rect_normal_y(dir_l, dir_w) as i64,
                    z: rect_normal_z(dir_l, dir_w) as i64,
                };
                &&& r.plane.dir.x == normalized_x(n0)
                &&& r.plane.dir.y == normalized_y(n0)
                &&& r.plane.dir.z == normalized_z(n0)
            }),
            r.wf(),
    {
        let ul = dir_l.normalize();
        let uw = dir_w.normalize();
        let half_l = div_trunc_i64(length, 2);
        let half_w = div_trunc_i64(width, 2);
        proof {
            assert(half_l == length as int / 2 && half_w == width as int / 2);
            assert(0 <= half_l <= 50_000_000 && 0 <= half_w <= 50_000_000);
            assert(absi(ul.x * half_l) <= 50_000_000_000 && absi(ul.y * half_l)
                <= 50_000_000_000 && absi(ul.z * half_l) <= 50_000_000_000 && absi(uw.x * half_w)
                <= 50_000_000_000 && absi(uw.y * half_w) <= 50_000_000_000 && absi(uw.z * half_w)
                <= 50_000_000_000) by (nonlinear_arith)
                requires
                    bounded(ul, SCALE as int),
                    bounded(uw, SCALE as int),
                    SCALE == 1000i64,
                    0 <= half_l <= 50_000_000,
                    0 <= half_w <= 50_000_000,
            ;
            lemma_div_trunc_bound(ul.x * half_l, SCALE as int);
            lemma_div_trunc_bound(ul.y * half_l, SCALE as int);
            lemma_div_trunc_bound(ul.z * half_l, SCALE as int);
            lemma_div_trunc_bound(uw.x * half_w, SCALE as int);
            lemma_div_trunc_bound(uw.y * half_w, SCALE as int);
            lemma_div_trunc_bound(uw.z * half_w, SCALE as int);
        }
        let l_gap = ul.scaled(half_l);
        let w_gap = uw.scaled(half_w);
        let ca = pos.plus(&l_gap).plus(&w_gap);
        let cb = pos.minus(&l_gap).plus(&w_gap);
        let cc = pos.plus(&l_gap).minus(&w_gap);
        let cd = pos.minus(&l_gap).minus(&w_gap);
        let n0 = ul.cross(&uw);
        proof {
            assert(bounded(n0, 2_000_000)) by (nonlinear_arith)
                requires
                    bounded(ul, SCALE as int),
                    bounded(uw, SCALE as int),
                    SCALE == 1000i64,
                    n0.x == cross_x(ul, uw),
                    n0.y == cross_y(ul, uw),
                    n0.z == cross_z(ul, uw),
            ;
            assert(norm_sq(n0) == rect_normal_sq(dir_l, dir_w));
            crate::vec3::lemma_normalized_nonzero(n0);
        }
        let nrm = n0.normalize();
        proof {
            crate::vec3::lemma_norm_sq_nonneg(nrm);
            assert(norm_sq(nrm) > 0);
        }
        let plane = Plane::new(ca, nrm);
        Rectangle {
            pos,
            length,
            width,
            dir_l,
            dir_w,
            a: ca,
            b: cb,
            c: cc,
            d: cd,
            plane,
        }
    }
}

/// Multiplication distributes over a sum.
proof fn lemma_mul_add_dist(p: int, q: int, n: int)
    by (nonlinear_arith)
    ensures
        (p + q) * n == p * n + q * n,
{
}

/// Scaling relation carried through one dot-product term.
proof fn lemma_scaled_dot(x: int, n: int, k: int, s: int)
    by (nonlinear_arith)
    requires
        s * x == k * n,
    ensures
        s * (x * n) == k * (n * n),
{
}

/// A cross term of an edge with the half-sum offset halves to the
/// (negated) cross term of the two edges.
proof fn lemma_half_cross(ly: int, lz: int, wy: int, wz: int, gy: int, gz: int)
    by (nonlinear_arith)
    requires
        2 * gy == ly + wy,
        2 * gz == lz + wz,
    ensures
        2 * (wy * gz - wz * gy) == -(ly * wz - lz * wy),
{
}

/// The cross term of an edge with half of itself vanishes.
proof fn lemma_parallel_cross(ey: int, ez: int, vy: int, vz: int)
    by (nonlinear_arith)
    requires
        2 * vy == ey,
        2 * vz == ez,
    ensures
        ey * vz - ez * vy == 0,
{
}

/// A factor whose double is a negated term carries through a product.
proof fn lemma_doubled_factor(q: int, tc: int, n: int)
    by (nonlinear_arith)
    requires
        2 * q == -tc,
    ensures
        2 * (q * n) == -(tc * n),
{
}

/// A cross term of the negated edge with the half-difference offset.
proof fn lemma_neg_cross(ly: int, lz: int, wy: int, wz: int, vy: int, vz: int)
    by (nonlinear_arith)
    requires
        2 * vy == wy - ly,
        2 * vz == wz - lz,
    ensures
        2 * ((-ly) * vz - (-lz) * vy) == -(ly * wz - lz * wy),
{
}

} // verus!
