//! Planes: a point and a normal direction, with exact linear-solve
//! intersection over fixed-point scalars.

use vstd::prelude::*;
use crate::fixed::{absi, div_trunc, div_trunc_i64, lemma_div_trunc_bound, SCALE};
use crate::ray::{Ray, HIT_EPSILON, MAX_T};
use crate::vec3::{bounded, dot3, lemma_dot3_bound, lemma_norm_sq_nonneg, norm_sq, Vec3, MAX_DIR,
    MAX_POS};

verus! {

#[derive(Clone, Copy, Debug, PartialEq, Eq, Structural)]
pub struct Plane {
    pub pos: Vec3,
    pub dir: Vec3,
}

impl Plane {
    /// A plane the intersection routine accepts.  The anchor point may
    /// be a derived rectangle corner, so it gets twice the usual bound.
    pub open spec fn hittable(self) -> bool {
        &&& bounded(self.pos, 2 * MAX_POS as int)
        &&& bounded(self.dir, MAX_DIR as int)
        &&& norm_sq(self.dir) > 0
    }

    /// The denominator of the linear solve: normal dotted with the ray
    /// direction.  Zero means the ray runs parallel to the plane.
    pub open spec fn denom(self, r: Ray) -> int {
        dot3(self.dir, r.dir)
    }

    /// The numerator: normal dotted with anchor-minus-origin.
    pub open spec fn numer(self, r: Ray) -> int {
        (self.pos.x - r.pos.x) * self.dir.x + (self.pos.y - r.pos.y) * self.dir.y + (self.pos.z
            - r.pos.z) * self.dir.z
    }

    /// The solution of `dot(dir, point(t) - pos) == 0` in fixed-point
    /// distance along the ray.
    pub open spec fn root(self, r: Ray) -> int {
        div_trunc(SCALE * self.numer(r), self.denom(r))
    }

    /// The ray hits: not parallel, and the root lies beyond the
    /// self-intersection threshold but within the world range.
    pub open spec fn hits(self, r: Ray) -> bool {
        &&& self.denom(r) != 0
        &&& HIT_EPSILON < self.root(r) <= MAX_T
    }

    /// Ray/plane intersection: the single solution of the linear
    /// equation, or none when the ray is parallel or the root is out of
    /// range.
    pub fn intersect(&self, r: &Ray) -> (res: Option<Vec<i64>>)
        requires
            r.valid(),
            self.hittable(),
        ensures
            match res {
                Some(v) => {
                    &&& self.hits(*r)
                    &&& v@.len() == 1
                    &&& v@[0] == self.root(*r)
                    &&& HIT_EPSILON < v@[0] <= MAX_T
                },
                None => !self.hits(*r),
            },
    {
        let diff = self.pos.minus(r.get_pos());
        let num = diff.dot(&self.dir);
        let den = self.dir.dot(r.get_dir());
        proof {
            lemma_dot3_bound(diff, self.dir, 300_000_000, MAX_DIR as int);
            lemma_dot3_bound(self.dir, r.dir, MAX_DIR as int, MAX_DIR as int);
            assert(dot3(diff, self.dir) == self.numer(*r));
        }
        if den == 0 {
            return None;
        }
        let t = div_trunc_i64(SCALE * num, den);
        if t > HIT_EPSILON && t <= MAX_T {
            let mut v: Vec<i64> = Vec::new();
            v.push(t);
            Some(v)
        } else {
            None
        }
    }

    /// The value `norm` returns: the normalized plane direction,
    /// negated when it points with the incoming ray.
    pub open spec fn norm_spec(self, ray_dir: Vec3) -> Vec3 {
        if dot3(self.dir, ray_dir) <= 0 {
            crate::vec3::unit_v(self.dir)
        } else {
            Vec3 {
                x: (-crate::vec3::normalized_x(self.dir)) as i64,
                y: (-crate::vec3::normalized_y(self.dir)) as i64,
                z: (-crate::vec3::normalized_z(self.dir)) as i64,
            }
        }
    }

    /// Unit surface normal, flipped to face against the incoming ray.
    pub fn norm(&self, _hit_position: &Vec3, ray_dir: &Vec3) -> (n: Vec3)
        requires
            self.hittable(),
            bounded(*ray_dir, MAX_DIR as int),
        ensures
            n == self.norm_spec(*ray_dir),
            dot3(self.dir, *ray_dir) <= 0 ==> {
                &&& n.x == crate::vec3::normalized_x(self.dir)
                &&& n.y == crate::vec3::normalized_y(self.dir)
                &&& n.z == crate::vec3::normalized_z(self.dir)
            },
            dot3(self.dir, *ray_dir) > 0 ==> {
                &&& n.x == -crate::vec3::normalized_x(self.dir)
                &&& n.y == -crate::vec3::normalized_y(self.dir)
                &&& n.z == -crate::vec3::normalized_z(self.dir)
            },
            bounded(n, SCALE as int),
    {
        let u = self.dir.normalize();
        let d = self.dir.dot(ray_dir);
        if d <= 0 {
            u
        } else {
            Vec3 { x: -u.x, y: -u.y, z: -u.z }
        }
    }

    /// A ray aimed dead-on along the plane's normal — the anchor sits
    /// exactly `k` fixed-point steps down the ray — hits at exactly the
    /// perpendicular distance `k`.  This is the distance half of the
    /// rectangle-centre property: a rectangle's backing plane reports
    /// the perpendicular offset itself, with no rounding.
    pub proof fn lemma_perpendicular_hit(self, r: Ray, k: int)
        requires
            self.hittable(),
            r.valid(),
            r.dir == self.dir,
            SCALE * (self.pos.x - r.pos.x) == k * self.dir.x,
            SCALE * (self.pos.y - r.pos.y) == k * self.dir.y,
            SCALE * (self.pos.z - r.pos.z) == k * self.dir.z,
            HIT_EPSILON < k <= MAX_T,
        ensures
            self.hits(r),
            self.root(r) == k,
    {
        let a = norm_sq(self.dir);
        lemma_norm_sq_nonneg(self.dir);
        assert(SCALE * self.numer(r) == k * a) by (nonlinear_arith)
            requires
                SCALE * (self.pos.x - r.pos.x) == k * self.dir.x,
                SCALE * (self.pos.y - r.pos.y) == k * self.dir.y,
                SCALE * (self.pos.z - r.pos.z) == k * self.dir.z,
                self.numer(r) == (self.pos.x - r.pos.x) * self.dir.x + (self.pos.y - r.pos.y)
                    * self.dir.y + (self.pos.z - r.pos.z) * self.dir.z,
                a == self.dir.x * self.dir.x + self.dir.y * self.dir.y + self.dir.z * self.dir.z,
                SCALE == 1000i64,
        ;
        assert(self.denom(r) == a);
        assert((a * k) / a == k) by {
            vstd::arithmetic::div_mod::lemma_div_multiples_vanish(k, a);
        }
        assert(div_trunc(k * a, a) == k) by (nonlinear_arith)
            requires
                a > 0,
                k > 0,
                div_trunc(k * a, a) == if (k * a >= 0) == (a >= 0) {
                    absi(k * a) / absi(a)
                } else {
                    -(absi(k * a) / absi(a))
                },
                (a * k) / a == k,
        ;
    }

    // Accessors
    pub fn get_pos(&self) -> (r: &Vec3)
        ensures
            *r == self.pos,
    {
        &self.pos
    }

    pub fn get_dir(&self) -> (r: &Vec3)
        ensures
            *r == self.dir,
    {
        &self.dir
    }

    // Mutators
    pub fn set_pos(&mut self, pos: Vec3)
        ensures
            *final(self) == (Plane { pos, ..*old(self) }),
    {
        self.pos = pos;
    }

    pub fn set_dir(&mut self, dir: Vec3)
        ensures
            *final(self) == (Plane { dir, ..*old(self) }),
    {
        self.dir = dir;
    }

    // Constructor
    pub fn new(pos: Vec3, dir: Vec3) -> (p: Plane)
        ensures
            p == (Plane { pos, dir }),
    {
        Plane { pos, dir }
    }
}

} // verus!
