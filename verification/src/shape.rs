//! The closed set of shape variants, dispatched by match so every
//! intersection path is checked exhaustively.

use vstd::prelude::*;
use crate::any_shape::{Any, ROOT_TOLERANCE};
use crate::fixed::{absi, SCALE};
use crate::plane::Plane;
use crate::projection::{linear_projection, linear_projection_spec, Projection};
use crate::ray::{Ray, HIT_EPSILON, MAX_T};
use crate::rectangle::Rectangle;
use crate::sphere::{Sphere, DISPLACED_FACTOR};
use crate::texture::DispMap;
use crate::vec3::{bounded, norm_sq, Vec3, MAX_DIR, MAX_POS};

verus! {

#[derive(Debug)]
pub enum Shape {
    Sphere(Sphere),
    Plane(Plane),
    Rectangle(Rectangle),
    Any(Any),
}

impl Shape {
    pub open spec fn wf(self) -> bool {
        match self {
            Shape::Sphere(s) => s.wf(),
            Shape::Plane(p) => p.hittable() && bounded(p.pos, MAX_POS as int),
            Shape::Rectangle(rc) => rc.wf(),
            Shape::Any(a) => bounded(a.pos, MAX_POS as int),
        }
    }

    /// The first hit distance, for the shapes whose intersection has a
    /// closed form (every variant but the implicit surface), kept only
    /// within the world range.
    pub open spec fn det_first(self, r: Ray) -> Option<int> {
        match self {
            Shape::Sphere(s) => if s.hits(r) && s.root_near(r) <= MAX_T {
                Some(s.root_near(r))
            } else {
                None
            },
            Shape::Plane(p) => if p.hits(r) {
                Some(p.root(r))
            } else {
                None
            },
            Shape::Rectangle(rc) => if rc.hits(r) {
                Some(rc.plane.root(r))
            } else {
                None
            },
            Shape::Any(_) => None,
        }
    }

    /// What is certified of a first hit distance `t` this shape
    /// reported: the exact root for the closed-form shapes, and a
    /// residual certificate for the implicit surface.
    pub open spec fn may_first(self, r: Ray, t: int) -> bool {
        match self {
            Shape::Sphere(s) => s.hits(r) && t == s.root_near(r),
            Shape::Plane(p) => p.hits(r) && t == p.root(r),
            Shape::Rectangle(rc) => rc.hits(r) && t == rc.plane.root(r),
            Shape::Any(a) => a.field_ok(r, t) && absi(a.field_at(r, t)) <= ROOT_TOLERANCE,
        }
    }

    /// Like `may_first`, but for displacement-aware intersection: a
    /// displaced sphere certifies a hit on the sphere inflated by some
    /// factor within the displacement band.
    pub open spec fn may_first_displaced(self, r: Ray, t: int) -> bool {
        match self {
            Shape::Sphere(s) => exists|f: int|
                0 <= f <= SCALE && (#[trigger] s.inflated(f, DISPLACED_FACTOR as int)).hits(r)
                    && t == s.inflated(f, DISPLACED_FACTOR as int).root_near(r),
            _ => self.may_first(r, t),
        }
    }

    /// Plain intersection, dispatched.  The closed-form shapes report
    /// exactly their root set; the implicit surface reports a certified
    /// residual root or nothing.
    pub fn intersect(&self, r: &Ray) -> (res: Option<Vec<i64>>)
        requires
            r.valid(),
            self.wf(),
        ensures
            !(self is Any) ==> match res {
                Some(v) => {
                    &&& v@.len() >= 1
                    &&& self.det_first(*r) == Some(v@[0] as int)
                    &&& HIT_EPSILON < v@[0] <= MAX_T
                },
                None => self.det_first(*r) is None,
            },
            match res {
                Some(v) => {
                    &&& v@.len() >= 1
                    &&& HIT_EPSILON < v@[0] <= MAX_T
                    &&& self.may_first(*r, v@[0] as int)
                },
                None => true,
            },
    {
        match self {
            Shape::Sphere(s) => {
                let res = s.intersect(r);
                match res {
                    Some(v) => {
                        let t0 = v[0];
                        if t0 <= MAX_T {
                            Some(v)
                        } else {
                            None
                        }
                    },
                    None => None,
                }
            },
            Shape::Plane(p) => p.intersect(r),
            Shape::Rectangle(rc) => rc.intersect(r),
            Shape::Any(a) => a.intersect(r),
        }
    }

    /// Displacement-aware intersection: spheres whose material carries a
    /// height map search within their displacement band; the other
    /// shapes are unaffected by displacement and report exactly what
    /// plain intersection reports.
    pub fn intersect_displacement(&self, r: &Ray, map: &DispMap) -> (res: Option<Vec<i64>>)
        requires
            r.valid(),
            self.wf(),
            map.wf(),
        ensures
            (self is Plane || self is Rectangle) ==> match res {
                Some(v) => {
                    &&& v@.len() >= 1
                    &&& self.det_first(*r) == Some(v@[0] as int)
                    &&& HIT_EPSILON < v@[0] <= MAX_T
                },
                None => self.det_first(*r) is None,
            },
            self is Sphere ==> ({
                let s = self->Sphere_0;
                &&& exists|f: int| 0 <= f <= SCALE && #[trigger] s.matches_outer(*r, f, res)
                &&& (map.flat_zero() && s.inflated(SCALE as int, DISPLACED_FACTOR as int).hits(
                    *r,
                ) && s.inflated(SCALE as int, DISPLACED_FACTOR as int).root_near(*r) <= MAX_T)
                    ==> s.matches_outer(*r, 0, res)
                &&& !s.inflated(SCALE as int, DISPLACED_FACTOR as int).hits(*r) ==> res is None
            }),
            match res {
                Some(v) => {
                    &&& v@.len() >= 1
                    &&& HIT_EPSILON < v@[0]
                    &&& self.may_first_displaced(*r, v@[0] as int)
                },
                None => true,
            },
    {
        match self {
            Shape::Sphere(s) => s.intersect_displacement(r, map),
            Shape::Plane(p) => p.intersect(r),
            Shape::Rectangle(rc) => rc.intersect(r),
            Shape::Any(a) => a.intersect(r),
        }
    }

    /// The value `norm` returns, per variant: a sphere's radial unit
    /// vector (under its range and degeneracy guards), a plane-like
    /// shape's flipped normalized plane direction, the implicit
    /// surface's normalized gradient; the canonical axis wherever the
    /// construction degenerates to zero.
    pub open spec fn norm_spec(self, hp: Vec3, rd: Vec3) -> Vec3 {
        let n0 = match self {
            Shape::Sphere(s) => if bounded(hp, 1_000_000_000) && hp != s.pos {
                s.norm_spec(hp)
            } else {
                Vec3 { x: 0, y: 0, z: SCALE }
            },
            Shape::Plane(p) => p.norm_spec(rd),
            Shape::Rectangle(rc) => rc.plane.norm_spec(rd),
            Shape::Any(a) => a.norm_spec(hp),
        };
        if n0 == (Vec3 { x: 0, y: 0, z: 0 }) {
            Vec3 { x: 0, y: 0, z: SCALE }
        } else {
            n0
        }
    }

    /// Outward unit-length surface normal at a hit point, facing
    /// against the incoming ray where the shape defines a side.  Always
    /// a usable (nonzero, bounded) direction.
    pub fn norm(&self, hit_position: &Vec3, ray_dir: &Vec3) -> (n: Vec3)
        requires
            self.wf(),
            bounded(*hit_position, 1_100_000_000_000_000),
            bounded(*ray_dir, MAX_DIR as int),
        ensures
            n == self.norm_spec(*hit_position, *ray_dir),
            bounded(n, SCALE as int),
            norm_sq(n) > 0,
    {
        let n0 = match self {
            Shape::Sphere(s) => {
                let in_range = hit_position.x <= 1_000_000_000 && hit_position.x
                    >= -1_000_000_000 && hit_position.y <= 1_000_000_000 && hit_position.y
                    >= -1_000_000_000 && hit_position.z <= 1_000_000_000 && hit_position.z
                    >= -1_000_000_000;
                if in_range && !(hit_position.x == s.pos.x && hit_position.y == s.pos.y
                    && hit_position.z == s.pos.z) {
                    s.norm(hit_position, ray_dir)
                } else {
                    Vec3 { x: 0, y: 0, z: SCALE }
                }
            },
            Shape::Plane(p) => p.norm(hit_position, ray_dir),
            Shape::Rectangle(rc) => rc.norm(hit_position, ray_dir),
            Shape::Any(a) => a.norm(hit_position, ray_dir),
        };
        proof {
            crate::vec3::lemma_norm_sq_nonneg(n0);
        }
        if n0.x == 0 && n0.y == 0 && n0.z == 0 {
            Vec3 { x: 0, y: 0, z: SCALE }
        } else {
            proof {
                assert(norm_sq(n0) != 0) by (nonlinear_arith)
                    requires
                        norm_sq(n0) == n0.x * n0.x + n0.y * n0.y + n0.z * n0.z,
                        n0.x != 0 || n0.y != 0 || n0.z != 0,
                ;
            }
            n0
        }
    }

    /// The value `projection` returns, per variant.
    pub open spec fn projection_spec(self, hp: Vec3, n: Vec3) -> Projection {
        match self {
            Shape::Sphere(s) => s.sphere_projection_spec(n),
            Shape::Plane(pl) => linear_projection_spec(pl.pos, hp, n),
            Shape::Rectangle(rc) => linear_projection_spec(rc.pos, hp, n),
            Shape::Any(a) => linear_projection_spec(a.pos, hp, n),
        }
    }

    /// Texture projection at a hit, dispatched: spheres use the frame
    /// around their axis, the plane-like shapes the shared linear frame.
    pub fn projection(&self, hit_pos: &Vec3, hit_norm: &Vec3) -> (p: Projection)
        requires
            self.wf(),
            bounded(*hit_pos, 1_100_000_000_000_000),
            bounded(*hit_norm, SCALE as int),
            norm_sq(*hit_norm) > 0,
        ensures
            p == self.projection_spec(*hit_pos, *hit_norm),
            0 <= p.u < SCALE,
            0 <= p.v <= SCALE,
    {
        match self {
            Shape::Sphere(s) => s.projection(hit_norm),
            Shape::Plane(pl) => linear_projection(&pl.pos, hit_pos, hit_norm),
            Shape::Rectangle(rc) => linear_projection(&rc.pos, hit_pos, hit_norm),
            Shape::Any(a) => a.projection(hit_pos, hit_norm),
        }
    }

    /// The anchor position of the shape.
    pub fn pos(&self) -> (r: &Vec3)
        ensures
            *r == match *self {
                Shape::Sphere(s) => s.pos,
                Shape::Plane(p) => p.pos,
                Shape::Rectangle(rc) => rc.pos,
                Shape::Any(a) => a.pos,
            },
    {
        match self {
            Shape::Sphere(s) => &s.pos,
            Shape::Plane(p) => &p.pos,
            Shape::Rectangle(rc) => &rc.pos,
            Shape::Any(a) => &a.pos,
        }
    }
}

} // verus!
