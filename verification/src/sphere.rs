//! Spheres: centre, texture axis and radius, with exact quadratic
//! intersection over fixed-point scalars.

use vstd::prelude::*;
use crate::fixed::{absi, div_trunc, div_trunc_i64, fmul, fixed_mul, is_isqrt, isqrt, isqrt_spec,
    lemma_isqrt_spec_is_isqrt, lemma_div_trunc_bound, SCALE};
use crate::projection::{diamond_angle, diamond_angle_exec, x_axis, y_axis, z_axis, Projection};
use crate::ray::{Ray, HIT_EPSILON};
use crate::texture::DispMap;
use crate::vec3::{bounded, cross_v, dot3, lemma_dot3_bound, lemma_norm_sq_nonneg, norm_sq,
    unit_v, Vec3, MAX_DIR, MAX_POS};

verus! {

/// Largest radius a well-formed sphere may have.
pub const MAX_RADIUS: i64 = 100_000_000;

/// The assumed displacement bound: a tenth of the radius.
pub const DISPLACED_FACTOR: i64 = 100;

/// How far one coarse displacement-search step walks (a tenth of the
/// search range).
pub const SEARCH_STEP: i64 = 100;

#[derive(Clone, Copy, Debug, PartialEq, Eq, Structural)]
pub struct Sphere {
    pub pos: Vec3,
    pub dir: Vec3,
    pub radius: i64,
}

impl Sphere {
    /// A sphere as the scene editor builds it.
    pub open spec fn wf(self) -> bool {
        &&& bounded(self.pos, MAX_POS as int)
        &&& bounded(self.dir, MAX_DIR as int)
        &&& 0 < self.radius <= MAX_RADIUS
    }

    /// What `intersect` itself needs; inflated spheres (radius up to
    /// twice the well-formed bound) are admitted for the displacement
    /// search.
    pub open spec fn hittable(self) -> bool {
        &&& bounded(self.pos, MAX_POS as int)
        &&& 0 < self.radius <= 2 * MAX_RADIUS
    }

    /// Squared length of the ray direction: the quadratic's leading
    /// coefficient.
    pub open spec fn quad_a(self, r: Ray) -> int {
        norm_sq(r.dir)
    }

    /// Dot product of centre-minus-origin with the ray direction: half
    /// the quadratic's (negated) linear coefficient.
    pub open spec fn quad_dot(self, r: Ray) -> int {
        (self.pos.x - r.pos.x) * r.dir.x + (self.pos.y - r.pos.y) * r.dir.y + (self.pos.z
            - r.pos.z) * r.dir.z
    }

    /// Squared distance from the ray origin to the centre.
    pub open spec fn center_dist_sq(self, r: Ray) -> int {
        (self.pos.x - r.pos.x) * (self.pos.x - r.pos.x) + (self.pos.y - r.pos.y) * (self.pos.y
            - r.pos.y) + (self.pos.z - r.pos.z) * (self.pos.z - r.pos.z)
    }

    /// Discriminant of the ray/sphere quadratic (fine scale).
    pub open spec fn discriminant(self, r: Ray) -> int {
        self.quad_dot(r) * self.quad_dot(r) - self.quad_a(r) * (self.center_dist_sq(r)
            - self.radius * self.radius)
    }

    /// The near root, in fixed-point distance along the ray.
    pub open spec fn root_near(self, r: Ray) -> int {
        div_trunc(
            SCALE * (self.quad_dot(r) - isqrt_spec(self.discriminant(r))),
            self.quad_a(r),
        )
    }

    /// The far root, in fixed-point distance along the ray.
    pub open spec fn root_far(self, r: Ray) -> int {
        div_trunc(
            SCALE * (self.quad_dot(r) + isqrt_spec(self.discriminant(r))),
            self.quad_a(r),
        )
    }

    /// The ray hits: real roots exist and the near one clears the
    /// self-intersection threshold.
    pub open spec fn hits(self, r: Ray) -> bool {
        &&& self.discriminant(r) >= 0
        &&& self.root_near(r) > HIT_EPSILON
    }

    /// Ray/sphere intersection.  Returns both roots of the quadratic,
    /// ascending, when the discriminant is nonnegative and the near root
    /// exceeds `HIT_EPSILON`; otherwise reports no hit.
    pub fn intersect(&self, r: &Ray) -> (res: Option<Vec<i64>>)
        requires
            r.valid(),
            self.hittable(),
        ensures
            match res {
                Some(v) => {
                    &&& self.hits(*r)
                    &&& v@.len() == 2
                    &&& v@[0] == self.root_near(*r)
                    &&& v@[1] == self.root_far(*r)
                    &&& HIT_EPSILON < v@[0] <= v@[1]
                },
                None => !self.hits(*r),
            },
    {
        let oc = self.pos.minus(r.get_pos());
        let a = r.get_dir().dot(r.get_dir());
        let dot = oc.dot(r.get_dir());
        let ocsq = oc.dot(&oc);
        proof {
            lemma_dot3_bound(oc, r.dir, 200_000_000, MAX_DIR as int);
            lemma_dot3_bound(r.dir, r.dir, MAX_DIR as int, MAX_DIR as int);
            lemma_dot3_bound(oc, oc, 200_000_000, 200_000_000);
            lemma_norm_sq_nonneg(r.dir);
            assert(self.radius * self.radius <= 40_000_000_000_000_000) by (nonlinear_arith)
                requires
                    0 < self.radius <= 200_000_000,
            ;
        }
        let rad2 = self.radius * self.radius;
        proof {
            assert(-400_000_000_000_000_000_000_000_000_000 <= (dot as int) * (dot as int)
                <= 400_000_000_000_000_000_000_000_000_000) by (nonlinear_arith)
                requires
                    -600_000_000_000_000 <= dot <= 600_000_000_000_000,
            ;
            assert(-600_000_000_000_000_000_000_000_000_000 <= (a as int) * (ocsq - rad2)
                <= 600_000_000_000_000_000_000_000_000_000) by (nonlinear_arith)
                requires
                    0 <= a <= 3_000_000_000_000,
                    -200_000_000_000_000_000 <= ocsq - rad2 <= 200_000_000_000_000_000,
            ;
        }
        let disc: i128 = (dot as i128) * (dot as i128) - (a as i128) * ((ocsq - rad2) as i128);
        proof {
            assert(disc == self.discriminant(*r));
        }
        if disc < 0 {
            return None;
        }
        let sq_wide = isqrt(disc as u128);
        proof {
            assert(disc as u128 as int == disc as int);
            assert(sq_wide <= 1_000_000_000_000_000) by (nonlinear_arith)
                requires
                    sq_wide * sq_wide <= 1_000_000_000_000_000_000_000_000_000_000u128,
            ;
        }
        let sq = sq_wide as i64;
        let t1 = div_trunc_i64(SCALE * (dot - sq), a);
        let t2 = div_trunc_i64(SCALE * (dot + sq), a);
        proof {
            crate::fixed::lemma_div_trunc_mono(
                SCALE * (dot - sq),
                SCALE * (dot + sq),
                a as int,
            );
            assert(t1 <= t2);
        }
        if t1 > HIT_EPSILON {
            let mut v: Vec<i64> = Vec::new();
            v.push(t1);
            v.push(t2);
            Some(v)
        } else {
            None
        }
    }

    /// Intersection against the sphere inflated for the displacement
    /// search: the radius grows by `radius * displaced_factor * factor`
    /// (both factors fixed-point, at most one).
    pub fn outer_intersect(&self, r: &Ray, factor: i64, displaced_factor: i64) -> (res: Option<
        Vec<i64>,
    >)
        requires
            r.valid(),
            self.wf(),
            0 <= factor <= SCALE,
            0 <= displaced_factor <= SCALE,
        ensures
            ({
                let outer = self.inflated(factor as int, displaced_factor as int);
                match res {
                    Some(v) => {
                        &&& outer.hits(*r)
                        &&& v@.len() == 2
                        &&& v@[0] == outer.root_near(*r)
                        &&& v@[1] == outer.root_far(*r)
                        &&& HIT_EPSILON < v@[0] <= v@[1]
                    },
                    None => !outer.hits(*r),
                }
            }),
    {
        proof {
            self.lemma_inflated_bounds(factor as int, displaced_factor as int);
            assert(i64::MIN < self.radius * displaced_factor <= i64::MAX) by (nonlinear_arith)
                requires
                    0 < self.radius <= 100_000_000,
                    0 <= displaced_factor <= 1000,
            ;
            lemma_div_trunc_bound(self.radius * displaced_factor, SCALE as int);
            assert(i64::MIN < fmul(self.radius as int, displaced_factor as int) * factor
                <= i64::MAX) by (nonlinear_arith)
                requires
                    0 <= fmul(self.radius as int, displaced_factor as int) <= absi(
                        self.radius * displaced_factor,
                    ),
                    0 < self.radius <= 100_000_000,
                    0 <= displaced_factor <= 1000,
                    0 <= factor <= 1000,
            ;
        }
        let bump = fixed_mul(fixed_mul(self.radius, displaced_factor), factor);
        let outer = Sphere { pos: self.pos, dir: self.dir, radius: self.radius + bump };
        outer.intersect(r)
    }

    /// The sphere grown for a given displacement bound and search factor.
    pub open spec fn inflated(self, factor: int, displaced_factor: int) -> Sphere {
        Sphere {
            pos: self.pos,
            dir: self.dir,
            radius: (self.radius + fmul(fmul(self.radius as int, displaced_factor), factor)) as i64,
        }
    }

    /// Inflating a well-formed sphere by factors at most one keeps the
    /// radius positive and at most doubled.
    pub proof fn lemma_inflated_bounds(self, factor: int, displaced_factor: int)
        requires
            self.wf(),
            0 <= factor <= SCALE,
            0 <= displaced_factor <= SCALE,
        ensures
            0 <= fmul(fmul(self.radius as int, displaced_factor), factor) <= self.radius,
            self.inflated(factor, displaced_factor).hittable(),
    {
        let b1 = fmul(self.radius as int, displaced_factor);
        lemma_div_trunc_bound(self.radius * displaced_factor, SCALE as int);
        assert(0 <= b1 <= self.radius) by (nonlinear_arith)
            requires
                b1 == div_trunc(self.radius * displaced_factor, SCALE as int),
                absi(div_trunc(self.radius * displaced_factor, SCALE as int)) * SCALE <= absi(
                    self.radius * displaced_factor,
                ),
                0 < self.radius,
                0 <= displaced_factor <= SCALE,
                SCALE == 1000,
        ;
        let b2 = fmul(b1, factor);
        lemma_div_trunc_bound(b1 * factor, SCALE as int);
        assert(0 <= b2 <= b1) by (nonlinear_arith)
            requires
                b2 == div_trunc(b1 * factor, SCALE as int),
                absi(div_trunc(b1 * factor, SCALE as int)) * SCALE <= absi(b1 * factor),
                0 <= b1,
                0 <= factor <= SCALE,
                SCALE == 1000,
        ;
    }

    /// The value `norm` returns: the unit vector from the centre to the
    /// point.
    pub open spec fn norm_spec(self, hit_position: Vec3) -> Vec3 {
        unit_v(
            Vec3 {
                x: (hit_position.x - self.pos.x) as i64,
                y: (hit_position.y - self.pos.y) as i64,
                z: (hit_position.z - self.pos.z) as i64,
            },
        )
    }

    /// Outward unit normal at a point on the surface.
    pub fn norm(&self, hit_position: &Vec3, _ray_dir: &Vec3) -> (r: Vec3)
        requires
            bounded(*hit_position, 1_000_000_000),
            bounded(self.pos, MAX_POS as int),
            *hit_position != self.pos,
        ensures
            r == self.norm_spec(*hit_position),
            ({
                let d = Vec3 {
                    x: (hit_position.x - self.pos.x) as i64,
                    y: (hit_position.y - self.pos.y) as i64,
                    z: (hit_position.z - self.pos.z) as i64,
                };
                &&& r.x == div_trunc(d.x * SCALE, isqrt_spec(norm_sq(d)))
                &&& r.y == div_trunc(d.y * SCALE, isqrt_spec(norm_sq(d)))
                &&& r.z == div_trunc(d.z * SCALE, isqrt_spec(norm_sq(d)))
                &&& bounded(r, SCALE as int)
            }),
    {
        let d = hit_position.minus(&self.pos);
        proof {
            lemma_norm_sq_nonneg(d);
            assert(norm_sq(d) > 0);
        }
        d.normalize()
    }

    /// X component of the ray's point at fixed-point distance `t`,
    /// carried at scale `SCALE * SCALE` so it stays an integer.
    pub open spec fn point_fine_x(r: Ray, t: int) -> int {
        SCALE * r.pos.x + t * r.dir.x
    }

    pub open spec fn point_fine_y(r: Ray, t: int) -> int {
        SCALE * r.pos.y + t * r.dir.y
    }

    pub open spec fn point_fine_z(r: Ray, t: int) -> int {
        SCALE * r.pos.z + t * r.dir.z
    }

    /// Squared distance (at fine scale) between the ray's point at
    /// distance `t` and the sphere's centre.
    pub open spec fn dist_sq_fine(self, r: Ray, t: int) -> int {
        let dx = Self::point_fine_x(r, t) - SCALE * self.pos.x;
        let dy = Self::point_fine_y(r, t) - SCALE * self.pos.y;
        let dz = Self::point_fine_z(r, t) - SCALE * self.pos.z;
        dx * dx + dy * dy + dz * dz
    }

    /// For a unit-length direction, how far the ray's point at distance
    /// `t` sits from the surface is governed by the quadratic: an exact
    /// algebraic identity relating the squared offset to the
    /// discriminant.
    pub proof fn lemma_chord_identity(self, r: Ray, t: int)
        requires
            self.quad_a(r) == SCALE * SCALE,
        ensures
            self.dist_sq_fine(r, t) - SCALE * SCALE * (self.radius * self.radius) == (SCALE * t
                - self.quad_dot(r)) * (SCALE * t - self.quad_dot(r)) - self.discriminant(r),
    {
        let px = r.pos.x as int;
        let py = r.pos.y as int;
        let pz = r.pos.z as int;
        let sx = self.pos.x as int;
        let sy = self.pos.y as int;
        let sz = self.pos.z as int;
        let ux = r.dir.x as int;
        let uy = r.dir.y as int;
        let uz = r.dir.z as int;
        let rad = self.radius as int;
        let s: int = SCALE as int;
        let ax = sx - px;
        let ay = sy - py;
        let az = sz - pz;
        let dd = ax * ux + ay * uy + az * uz;
        let cc = ax * ax + ay * ay + az * az;
        lemma_sum_of_squares_expansion(t, s, ux, uy, uz, ax, ay, az);
        lemma_quadratic_form(t, s, dd, cc, rad);
        assert(self.dist_sq_fine(r, t) == (t * ux - s * ax) * (t * ux - s * ax) + (t * uy - s
            * ay) * (t * uy - s * ay) + (t * uz - s * az) * (t * uz - s * az));
        assert(ux * ux + uy * uy + uz * uz == s * s);
        assert(self.quad_dot(r) == dd);
        assert(self.center_dist_sq(r) == cc);
        assert(self.discriminant(r) == dd * dd - (s * s) * (cc - rad * rad));
    }

    /// A reported pair of hit distances ascends, and its midpoint is the
    /// chord midpoint: walking it along the ray lands below the surface
    /// by exactly the discriminant, up to the fixed-point tolerance of
    /// four squared steps.
    pub proof fn lemma_intersect_midpoint(self, r: Ray)
        requires
            r.valid(),
            self.hittable(),
            self.quad_a(r) == SCALE * SCALE,
            self.hits(r),
        ensures
            HIT_EPSILON < self.root_near(r) <= self.root_far(r),
            ({
                let mid = (self.root_near(r) + self.root_far(r)) / 2;
                let depth = self.dist_sq_fine(r, mid) - (SCALE * SCALE * (self.radius
                    * self.radius) - self.discriminant(r));
                0 <= depth <= 4 * SCALE * SCALE
            }),
    {
        let s: int = SCALE as int;
        let a = self.quad_a(r);
        let d = self.quad_dot(r);
        let disc = self.discriminant(r);
        let sq = isqrt_spec(disc);
        lemma_isqrt_spec_is_isqrt(disc);
        let t1 = self.root_near(r);
        let t2 = self.root_far(r);
        crate::fixed::lemma_div_trunc_mono(s * (d - sq), s * (d + sq), a);
        crate::fixed::lemma_div_trunc_error(s * (d - sq), a);
        crate::fixed::lemma_div_trunc_error(s * (d + sq), a);
        let e1 = s * (d - sq) - t1 * a;
        let e2 = s * (d + sq) - t2 * a;
        assert(absi(e1) < a && absi(e2) < a) by (nonlinear_arith)
            requires
                absi(s * (d - sq) - div_trunc(s * (d - sq), a) * a) < absi(a),
                absi(s * (d + sq) - div_trunc(s * (d + sq), a) * a) < absi(a),
                e1 == s * (d - sq) - div_trunc(s * (d - sq), a) * a,
                e2 == s * (d + sq) - div_trunc(s * (d + sq), a) * a,
                a > 0,
        ;
        let mid = (t1 + t2) / 2;
        assert(t1 + t2 == 2 * mid || t1 + t2 == 2 * mid + 1);
        self.lemma_chord_identity(r, mid);
        assert(0 <= (s * mid - d) * (s * mid - d) <= 4 * s * s) by (nonlinear_arith)
            requires
                a == s * s,
                s == 1000,
                e1 == s * (d - sq) - t1 * a,
                e2 == s * (d + sq) - t2 * a,
                absi(e1) < a,
                absi(e2) < a,
                t1 + t2 == 2 * mid || t1 + t2 == 2 * mid + 1,
        ;
    }

    /// Round trip: walking a reported hit distance along the ray lands
    /// on the sphere's surface, up to the tolerance introduced by the
    /// integer square root and the final truncating division.
    pub proof fn lemma_intersect_on_surface(self, r: Ray, t: int)
        requires
            r.valid(),
            self.hittable(),
            self.quad_a(r) == SCALE * SCALE,
            self.hits(r),
            t == self.root_near(r) || t == self.root_far(r),
        ensures
            absi(self.dist_sq_fine(r, t) - SCALE * SCALE * (self.radius * self.radius)) <= 2 * (
            SCALE + 1) * isqrt_spec(self.discriminant(r)) + SCALE * SCALE,
    {
        let s: int = SCALE as int;
        let a = self.quad_a(r);
        let d = self.quad_dot(r);
        let disc = self.discriminant(r);
        let sq = isqrt_spec(disc);
        lemma_isqrt_spec_is_isqrt(disc);
        self.lemma_chord_identity(r, t);
        if t == self.root_near(r) {
            crate::fixed::lemma_div_trunc_error(s * (d - sq), a);
            let e = s * (d - sq) - t * a;
            assert(absi(e) < a) by (nonlinear_arith)
                requires
                    absi(s * (d - sq) - div_trunc(s * (d - sq), a) * a) < absi(a),
                    e == s * (d - sq) - div_trunc(s * (d - sq), a) * a,
                    a > 0,
            ;
            assert(absi((s * t - d) * (s * t - d) - disc) <= 2 * (s + 1) * sq + s * s)
                by (nonlinear_arith)
                requires
                    a == s * s,
                    s == 1000,
                    e == s * (d - sq) - t * a,
                    absi(e) < a,
                    0 <= sq,
                    sq * sq <= disc < (sq + 1) * (sq + 1),
            ;
        } else {
            crate::fixed::lemma_div_trunc_error(s * (d + sq), a);
            let e = s * (d + sq) - t * a;
            assert(absi(e) < a) by (nonlinear_arith)
                requires
                    absi(s * (d + sq) - div_trunc(s * (d + sq), a) * a) < absi(a),
                    e == s * (d + sq) - div_trunc(s * (d + sq), a) * a,
                    a > 0,
            ;
            assert(absi((s * t - d) * (s * t - d) - disc) <= 2 * (s + 1) * sq + s * s)
                by (nonlinear_arith)
                requires
                    a == s * s,
                    s == 1000,
                    e == s * (d + sq) - t * a,
                    absi(e) < a,
                    0 <= sq,
                    sq * sq <= disc < (sq + 1) * (sq + 1),
            ;
        }
    }

    /// The texture frame and coordinates at a surface normal.  The
    /// returned frame is built from the normal: `i` spans the tangent
    /// around the sphere's axis (`unit(n x axis)`), `j` completes it
    /// (`unit(n x i)`), and `k` is the normal itself.  The coordinates
    /// come from an auxiliary frame spanned around the axis: the
    /// azimuth `u` is a diamond angle of the normal's in-plane
    /// components, and the polar `v` maps the axial component linearly.
    /// Where a cross product degenerates (a zero axis, a normal along
    /// the axis) the construction falls back to the auxiliary frame.
    pub open spec fn sphere_projection_spec(self, n: Vec3) -> Projection {
        let base = if norm_sq(self.dir) > 0 {
            self.dir
        } else {
            z_axis()
        };
        let ub = unit_v(base);
        let c1 = cross_v(ub, z_axis());
        let axv = if norm_sq(c1) == 0 {
            y_axis()
        } else {
            z_axis()
        };
        let ia0 = cross_v(ub, axv);
        let ia = if norm_sq(ia0) == 0 {
            x_axis()
        } else {
            unit_v(ia0)
        };
        let ja0 = cross_v(ub, ia);
        let ja = if norm_sq(ja0) == 0 {
            y_axis()
        } else {
            unit_v(ja0)
        };
        let u = div_trunc(diamond_angle(dot3(n, ja), dot3(n, ia)), 4);
        let kq = div_trunc(dot3(n, ub), SCALE as int);
        let kqc = if kq < -SCALE {
            -SCALE as int
        } else if kq > SCALE {
            SCALE as int
        } else {
            kq
        };
        let v = (SCALE + kqc) / 2;
        let i0 = cross_v(n, ub);
        let i = if norm_sq(i0) == 0 {
            ia
        } else {
            unit_v(i0)
        };
        let j0 = cross_v(n, i);
        let j = if norm_sq(j0) == 0 {
            ja
        } else {
            unit_v(j0)
        };
        Projection { i, j, k: n, u: u as i64, v: v as i64 }
    }

    /// Builds the texture projection for a hit with unit normal `n`.
    pub fn projection(&self, n: &Vec3) -> (p: Projection)
        requires
            bounded(self.dir, MAX_DIR as int),
            bounded(*n, SCALE as int),
        ensures
            p == self.sphere_projection_spec(*n),
            0 <= p.u < SCALE,
            0 <= p.v <= SCALE,
    {
        let zv = Vec3 { x: 0, y: 0, z: SCALE };
        let yv = Vec3 { x: 0, y: SCALE, z: 0 };
        let xv = Vec3 { x: SCALE, y: 0, z: 0 };
        let nsq = self.dir.dot(&self.dir);
        let base = if nsq > 0 {
            self.dir
        } else {
            zv
        };
        proof {
            lemma_norm_sq_nonneg(base);
            assert(norm_sq(zv) == 1_000_000) by (nonlinear_arith)
                requires
                    zv == (Vec3 { x: 0i64, y: 0i64, z: 1000i64 }),
            ;
            assert(norm_sq(base) > 0);
        }
        let ub = base.normalize();
        let c1 = ub.cross(&zv);
        let axv = if c1.x == 0 && c1.y == 0 && c1.z == 0 {
            yv
        } else {
            zv
        };
        proof {
            lemma_norm_sq_nonneg(c1);
            if c1.x == 0 && c1.y == 0 && c1.z == 0 {
                assert(norm_sq(c1) == 0);
            } else {
                assert(norm_sq(c1) != 0) by (nonlinear_arith)
                    requires
                        norm_sq(c1) == c1.x * c1.x + c1.y * c1.y + c1.z * c1.z,
                        c1.x != 0 || c1.y != 0 || c1.z != 0,
                ;
            }
        }
        let ia0 = ub.cross(&axv);
        proof {
            assert(bounded(ia0, 2_000_000)) by (nonlinear_arith)
                requires
                    bounded(ub, SCALE as int),
                    bounded(axv, SCALE as int),
                    SCALE == 1000i64,
                    ia0.x == crate::vec3::cross_x(ub, axv),
                    ia0.y == crate::vec3::cross_y(ub, axv),
                    ia0.z == crate::vec3::cross_z(ub, axv),
            ;
            lemma_norm_sq_nonneg(ia0);
            if !(ia0.x == 0 && ia0.y == 0 && ia0.z == 0) {
                assert(norm_sq(ia0) != 0) by (nonlinear_arith)
                    requires
                        norm_sq(ia0) == ia0.x * ia0.x + ia0.y * ia0.y + ia0.z * ia0.z,
                        ia0.x != 0 || ia0.y != 0 || ia0.z != 0,
                ;
            }
        }
        let ia = if ia0.x == 0 && ia0.y == 0 && ia0.z == 0 {
            xv
        } else {
            ia0.normalize()
        };
        proof {
            assert(bounded(ia, SCALE as int));
        }
        let ja0 = ub.cross(&ia);
        proof {
            assert(bounded(ja0, 2_000_000)) by (nonlinear_arith)
                requires
                    bounded(ub, SCALE as int),
                    bounded(ia, SCALE as int),
                    SCALE == 1000i64,
                    ja0.x == crate::vec3::cross_x(ub, ia),
                    ja0.y == crate::vec3::cross_y(ub, ia),
                    ja0.z == crate::vec3::cross_z(ub, ia),
            ;
            lemma_norm_sq_nonneg(ja0);
            if !(ja0.x == 0 && ja0.y == 0 && ja0.z == 0) {
                assert(norm_sq(ja0) != 0) by (nonlinear_arith)
                    requires
                        norm_sq(ja0) == ja0.x * ja0.x + ja0.y * ja0.y + ja0.z * ja0.z,
                        ja0.x != 0 || ja0.y != 0 || ja0.z != 0,
                ;
            }
        }
        let ja = if ja0.x == 0 && ja0.y == 0 && ja0.z == 0 {
            yv
        } else {
            ja0.normalize()
        };
        proof {
            assert(bounded(ja, SCALE as int));
            lemma_dot3_bound(*n, ja, SCALE as int, SCALE as int);
            lemma_dot3_bound(*n, ia, SCALE as int, SCALE as int);
            lemma_dot3_bound(*n, ub, SCALE as int, SCALE as int);
        }
        let jc = n.dot(&ja);
        let ic = n.dot(&ia);
        let dmd = diamond_angle_exec(jc, ic);
        proof {
            lemma_div_trunc_bound(dmd as int, 4);
            assert(0 <= div_trunc(dmd as int, 4) < SCALE) by (nonlinear_arith)
                requires
                    0 <= dmd < 4 * SCALE,
                    SCALE == 1000i64,
                    div_trunc(dmd as int, 4) == absi(dmd as int) / 4,
            ;
        }
        let u = div_trunc_i64(dmd, 4);
        let kc = n.dot(&ub);
        proof {
            lemma_div_trunc_bound(kc as int, SCALE as int);
        }
        let kq = div_trunc_i64(kc, SCALE);
        let kqc = if kq < -SCALE {
            -SCALE
        } else if kq > SCALE {
            SCALE
        } else {
            kq
        };
        let v = (SCALE + kqc) as u64 / 2;
        let i0 = n.cross(&ub);
        proof {
            assert(bounded(i0, 2_000_000)) by (nonlinear_arith)
                requires
                    bounded(*n, SCALE as int),
                    bounded(ub, SCALE as int),
                    SCALE == 1000i64,
                    i0.x == crate::vec3::cross_x(*n, ub),
                    i0.y == crate::vec3::cross_y(*n, ub),
                    i0.z == crate::vec3::cross_z(*n, ub),
            ;
            lemma_norm_sq_nonneg(i0);
            if !(i0.x == 0 && i0.y == 0 && i0.z == 0) {
                assert(norm_sq(i0) != 0) by (nonlinear_arith)
                    requires
                        norm_sq(i0) == i0.x * i0.x + i0.y * i0.y + i0.z * i0.z,
                        i0.x != 0 || i0.y != 0 || i0.z != 0,
                ;
            }
        }
        let i = if i0.x == 0 && i0.y == 0 && i0.z == 0 {
            ia
        } else {
            i0.normalize()
        };
        proof {
            assert(bounded(i, SCALE as int));
        }
        let j0 = n.cross(&i);
        proof {
            assert(bounded(j0, 2_000_000)) by (nonlinear_arith)
                requires
                    bounded(*n, SCALE as int),
                    bounded(i, SCALE as int),
                    SCALE == 1000i64,
                    j0.x == crate::vec3::cross_x(*n, i),
                    j0.y == crate::vec3::cross_y(*n, i),
                    j0.z == crate::vec3::cross_z(*n, i),
            ;
            lemma_norm_sq_nonneg(j0);
            if !(j0.x == 0 && j0.y == 0 && j0.z == 0) {
                assert(norm_sq(j0) != 0) by (nonlinear_arith)
                    requires
                        norm_sq(j0) == j0.x * j0.x + j0.y * j0.y + j0.z * j0.z,
                        j0.x != 0 || j0.y != 0 || j0.z != 0,
                ;
            }
        }
        let j = if j0.x == 0 && j0.y == 0 && j0.z == 0 {
            ja
        } else {
            j0.normalize()
        };
        Projection { i, j, k: *n, u, v: v as i64 }
    }

    /// The coarse over-surface ratio of the ray's point at distance `t`:
    /// how far outside the undisplaced sphere it sits, as a fraction of
    /// the displacement band, saturated to ten bands either way.
    fn hit_ratio_at(&self, r: &Ray, t: i64, total: i64) -> (h: i64)
        requires
            r.valid(),
            self.wf(),
            0 < t <= crate::ray::MAX_T,
            0 < total <= 10_000_000,
        ensures
            -10 * SCALE <= h <= 10 * SCALE,
    {
        let p = r.at(t);
        let d = p.minus(&self.pos);
        let n2 = d.norm_sq_wide();
        let len128 = isqrt(n2 as u128);
        proof {
            assert(n2 as u128 as int == n2 as int);
            lemma_dot3_bound(d, d, 1_100_100_000_000_000int, 1_100_100_000_000_000int);
            assert(len128 <= 2_000_000_000_000_000) by (nonlinear_arith)
                requires
                    len128 * len128 <= 3_640_000_000_000_000_000_000_000_000_000u128,
            ;
        }
        let hd = (len128 as i64) - self.radius;
        let raw = div_trunc_i64(hd * SCALE, total);
        if raw < -10 * SCALE {
            -10 * SCALE
        } else if raw > 10 * SCALE {
            10 * SCALE
        } else {
            raw
        }
    }

    /// The displacement sampled at the ray's point at distance `t`: the
    /// map looked up at the point's texture coordinates, or zero when
    /// the point degenerates (treated as a failed lookup).
    fn displaced_ratio_at(&self, r: &Ray, t: i64, map: &DispMap) -> (d: i64)
        requires
            r.valid(),
            self.wf(),
            map.wf(),
            0 < t <= crate::ray::MAX_T,
        ensures
            0 <= d <= SCALE,
            map.flat_zero() ==> d == 0,
    {
        let p = r.at(t);
        let d = p.minus(&self.pos);
        if d.x == 0 && d.y == 0 && d.z == 0 {
            return 0;
        }
        if d.x > 1_000_000_000_000 || d.x < -1_000_000_000_000 || d.y > 1_000_000_000_000 || d.y
            < -1_000_000_000_000 || d.z > 1_000_000_000_000 || d.z < -1_000_000_000_000 {
            return 0;
        }
        proof {
            lemma_norm_sq_nonneg(d);
            assert(norm_sq(d) != 0) by (nonlinear_arith)
                requires
                    norm_sq(d) == d.x * d.x + d.y * d.y + d.z * d.z,
                    d.x != 0 || d.y != 0 || d.z != 0,
            ;
        }
        let n = d.normalize();
        let proj = self.projection(&n);
        let v = if proj.v >= SCALE {
            SCALE - 1
        } else {
            proj.v
        };
        map.sample(proj.u, v)
    }

    /// Whether `res` is exactly what `intersect` reports for this sphere
    /// inflated by `factor` (with the standard displacement bound).
    pub open spec fn matches_outer(self, r: Ray, factor: int, res: Option<Vec<i64>>) -> bool {
        let outer = self.inflated(factor, DISPLACED_FACTOR as int);
        match res {
            Some(v) => {
                &&& outer.hits(r)
                &&& v@.len() == 2
                &&& v@[0] == outer.root_near(r)
                &&& v@[1] == outer.root_far(r)
            },
            None => !outer.hits(r),
        }
    }

    /// Displacement-aware intersection: searches backward from the hit
    /// on the sphere inflated by the full displacement bound until the
    /// sampled displacement brackets the over-surface ratio, then
    /// reintersects at the bracketing midpoint.  The result is always an
    /// outer-bound intersection for some factor within the band; with a
    /// flat (all-zero) map the search degenerates to the undisplaced
    /// sphere exactly.
    pub fn intersect_displacement(&self, r: &Ray, map: &DispMap) -> (res: Option<Vec<i64>>)
        requires
            r.valid(),
            self.wf(),
            map.wf(),
        ensures
            exists|f: int| 0 <= f <= SCALE && #[trigger] self.matches_outer(*r, f, res),
            map.flat_zero() && self.inflated(SCALE as int, DISPLACED_FACTOR as int).hits(*r)
                && self.inflated(SCALE as int, DISPLACED_FACTOR as int).root_near(*r)
                <= crate::ray::MAX_T ==> self.matches_outer(*r, 0, res),
            !self.inflated(SCALE as int, DISPLACED_FACTOR as int).hits(*r) ==> res is None,
    {
        proof {
            self.lemma_inflated_zero();
        }
        let total = fixed_mul(self.radius, DISPLACED_FACTOR);
        proof {
            lemma_div_trunc_bound(self.radius * DISPLACED_FACTOR, SCALE as int);
            assert(0 <= total <= 10_000_000) by (nonlinear_arith)
                requires
                    total == div_trunc(self.radius * DISPLACED_FACTOR, SCALE as int),
                    absi(div_trunc(self.radius * DISPLACED_FACTOR, SCALE as int)) * SCALE <= absi(
                        self.radius * DISPLACED_FACTOR,
                    ),
                    0 < self.radius <= 100_000_000,
                    DISPLACED_FACTOR == 100i64,
                    SCALE == 1000i64,
            ;
        }
        let first = self.outer_intersect(r, SCALE, DISPLACED_FACTOR);
        let t0: i64 = match &first {
            Some(ts) => ts[0],
            None => {
                proof {
                    assert(self.matches_outer(*r, SCALE as int, None::<Vec<i64>>));
                }
                return None;
            },
        };
        if total == 0 || t0 > crate::ray::MAX_T {
            // No meaningful displacement band, or a hit too far out to
            // walk: fall through with the outer-bound hit unchanged.
            proof {
                assert(self.matches_outer(*r, SCALE as int, first));
                if total == 0 {
                    assert(fmul(fmul(self.radius as int, DISPLACED_FACTOR as int), SCALE as int)
                        == 0) by {
                        assert(fmul(self.radius as int, DISPLACED_FACTOR as int) == 0);
                        assert(0 * (SCALE as int) == 0) by (nonlinear_arith);
                        assert(div_trunc(0, SCALE as int) == 0);
                    }
                    assert(fmul(fmul(self.radius as int, DISPLACED_FACTOR as int), 0) == 0) by {
                        assert(fmul(self.radius as int, DISPLACED_FACTOR as int) == 0);
                        assert(div_trunc(0int * 0int, SCALE as int) == 0);
                    }
                    assert(self.inflated(0, DISPLACED_FACTOR as int) == self.inflated(
                        SCALE as int,
                        DISPLACED_FACTOR as int,
                    ));
                    assert(self.matches_outer(*r, 0, first));
                }
            }
            return first;
        }
        let mut t_cur = t0;
        let mut hit_ratio = self.hit_ratio_at(r, t_cur, total);
        let mut displaced_ratio = self.displaced_ratio_at(r, t_cur, map);
        let mut old_hit_ratio: i64 = hit_ratio + 1;
        let mut old_displaced_ratio = displaced_ratio;
        let mut current_step: i64 = SCALE;
        let mut fuel: u32 = 32;
        while displaced_ratio < hit_ratio && old_hit_ratio > hit_ratio && fuel > 0
            invariant
                r.valid(),
                self.wf(),
                map.wf(),
                0 < total <= 10_000_000,
                0 < t_cur <= crate::ray::MAX_T,
                -10 * SCALE <= hit_ratio <= 10 * SCALE,
                0 <= displaced_ratio <= SCALE,
                0 <= old_displaced_ratio <= SCALE,
                -SCALE <= current_step <= SCALE,
                map.flat_zero() ==> displaced_ratio == 0 && old_displaced_ratio == 0,
            decreases fuel,
        {
            fuel = fuel - 1;
            proof {
                assert(0 <= (hit_ratio - displaced_ratio) * total <= 110_000_000_000)
                    by (nonlinear_arith)
                    requires
                        0 < (hit_ratio - displaced_ratio) <= 11_000,
                        0 < total <= 10_000_000,
                ;
                lemma_div_trunc_bound((hit_ratio - displaced_ratio) * total, SCALE as int);
            }
            let ddist = fixed_mul(hit_ratio - displaced_ratio, total);
            proof {
                assert(0 <= ddist <= 110_000_000) by (nonlinear_arith)
                    requires
                        ddist == div_trunc((hit_ratio - displaced_ratio) * total, SCALE as int),
                        absi(div_trunc((hit_ratio - displaced_ratio) * total, SCALE as int))
                            * SCALE <= absi((hit_ratio - displaced_ratio) * total),
                        0 <= (hit_ratio - displaced_ratio) * total <= 110_000_000_000,
                        SCALE == 1000i64,
                ;
            }
            if t_cur <= crate::ray::MAX_T - ddist {
                t_cur = t_cur + ddist;
                hit_ratio = self.hit_ratio_at(r, t_cur, total);
                current_step = if current_step >= -SCALE + SEARCH_STEP {
                    current_step - SEARCH_STEP
                } else {
                    -SCALE
                };
                if hit_ratio < current_step {
                    let mut inner_fuel: u32 = 32;
                    let mut difference = current_step - hit_ratio;
                    while difference > 10 && inner_fuel > 0
                        invariant
                            r.valid(),
                            self.wf(),
                            map.wf(),
                            0 < total <= 10_000_000,
                            0 < t_cur <= crate::ray::MAX_T,
                            -10 * SCALE <= hit_ratio <= 10 * SCALE,
                            -SCALE <= current_step <= SCALE,
                            difference == current_step - hit_ratio,
                        decreases inner_fuel,
                    {
                        inner_fuel = inner_fuel - 1;
                        proof {
                            assert(0 <= difference * total <= 110_000_000_000)
                                by (nonlinear_arith)
                                requires
                                    0 < difference <= 11_000,
                                    0 < total <= 10_000_000,
                            ;
                            lemma_div_trunc_bound(difference * total, SCALE as int);
                        }
                        let dd = fixed_mul(difference, total);
                        proof {
                            assert(0 <= dd <= 110_000_000) by (nonlinear_arith)
                                requires
                                    dd == div_trunc(difference * total, SCALE as int),
                                    absi(div_trunc(difference * total, SCALE as int)) * SCALE
                                        <= absi(difference * total),
                                    0 <= difference * total <= 110_000_000_000,
                                    SCALE == 1000i64,
                            ;
                        }
                        if t_cur > dd {
                            t_cur = t_cur - dd;
                            hit_ratio = self.hit_ratio_at(r, t_cur, total);
                            difference = current_step - hit_ratio;
                        } else {
                            inner_fuel = 0;
                        }
                    }
                }
                old_displaced_ratio = displaced_ratio;
                displaced_ratio = self.displaced_ratio_at(r, t_cur, map);
                old_hit_ratio = hit_ratio;
            } else {
                fuel = 0;
            }
        }
        let fsum = displaced_ratio + old_displaced_ratio;
        let f = (fsum as u64 / 2) as i64;
        let out = self.outer_intersect(r, f, DISPLACED_FACTOR);
        proof {
            assert(self.matches_outer(*r, f as int, out));
        }
        out
    }

    /// Inflating by a zero factor leaves the sphere unchanged.
    pub proof fn lemma_inflated_zero(self)
        ensures
            forall|df: int| #[trigger] self.inflated(0, df) == self,
    {
        assert forall|df: int| #[trigger] self.inflated(0, df) == self by {
            assert(fmul(self.radius as int, df) * 0 == 0);
            assert(fmul(fmul(self.radius as int, df), 0) == div_trunc(0, SCALE as int));
            assert(div_trunc(0, SCALE as int) == 0);
        }
    }

    // Accessors
    pub fn pos(&self) -> (r: &Vec3)
        ensures
            *r == self.pos,
    {
        &self.pos
    }

    pub fn dir(&self) -> (r: &Vec3)
        ensures
            *r == self.dir,
    {
        &self.dir
    }

    pub fn radius(&self) -> (r: i64)
        ensures
            r == self.radius,
    {
        self.radius
    }

    // Mutators
    pub fn set_pos(&mut self, pos: Vec3)
        ensures
            *final(self) == (Sphere { pos, ..*old(self) }),
    {
        self.pos = pos;
    }

    pub fn set_dir(&mut self, dir: Vec3)
        ensures
            *final(self) == (Sphere { dir, ..*old(self) }),
    {
        self.dir = dir;
    }

    pub fn set_radius(&mut self, radius: i64)
        ensures
            *final(self) == (Sphere { radius, ..*old(self) }),
    {
        self.radius = radius;
    }

    // Constructor
    pub fn new(pos: Vec3, dir: Vec3, radius: i64) -> (s: Sphere)
        ensures
            s == (Sphere { pos, dir, radius }),
    {
        Sphere { pos, dir, radius }
    }
}

/// Expanding the squared components of `t * u - s * a`.
proof fn lemma_sum_of_squares_expansion(
    t: int,
    s: int,
    ux: int,
    uy: int,
    uz: int,
    ax: int,
    ay: int,
    az: int,
)
    ensures
        (t * ux - s * ax) * (t * ux - s * ax) + (t * uy - s * ay) * (t * uy - s * ay) + (t * uz - s
            * az) * (t * uz - s * az) == t * t * (ux * ux + uy * uy + uz * uz) - 2 * ((t * s) * (ax
            * ux + ay * uy + az * uz)) + (s * s) * (ax * ax + ay * ay + az * az),
{
    lemma_square_of_binomial(t, s, ux, ax);
    lemma_square_of_binomial(t, s, uy, ay);
    lemma_square_of_binomial(t, s, uz, az);
    lemma_mul_distributes_3(t * t, ux * ux, uy * uy, uz * uz);
    lemma_mul_distributes_3(t * s, ax * ux, ay * uy, az * uz);
    lemma_mul_distributes_3(s * s, ax * ax, ay * ay, az * az);
}

/// `(t*u - s*a)^2`, expanded.
proof fn lemma_square_of_binomial(t: int, s: int, u: int, a: int)
    ensures
        (t * u - s * a) * (t * u - s * a) == t * t * (u * u) - 2 * ((t * s) * (a * u)) + (s * s) * (
        a * a),
{
    lemma_square_of_difference(t * u, s * a);
    lemma_mul_rearrange(t, u, t, u);
    lemma_mul_rearrange(t, u, s, a);
    lemma_mul_rearrange(s, a, s, a);
}

/// `(x - y)^2`, expanded.
proof fn lemma_square_of_difference(x: int, y: int)
    by (nonlinear_arith)
    ensures
        (x - y) * (x - y) == x * x - 2 * (x * y) + y * y,
{
}

/// Products of products can be regrouped.
proof fn lemma_mul_rearrange(p: int, q: int, r: int, w: int)
    by (nonlinear_arith)
    ensures
        (p * q) * (r * w) == (p * r) * (q * w),
        (p * q) * (r * w) == (p * r) * (w * q),
{
}

/// Multiplication distributes over a three-term sum.
proof fn lemma_mul_distributes_3(k: int, q1: int, q2: int, q3: int)
    by (nonlinear_arith)
    ensures
        k * q1 + k * q2 + k * q3 == k * (q1 + q2 + q3),
{
}

/// Completing the square in the ray/sphere quadratic.
proof fn lemma_quadratic_form(t: int, s: int, d: int, c: int, rad: int)
    by (nonlinear_arith)
    ensures
        t * t * (s * s) - 2 * ((t * s) * d) + (s * s) * c - s * s * (rad * rad) == (s * t - d) * (s
            * t - d) - (d * d - (s * s) * (c - rad * rad)),
{
}

} // verus!
