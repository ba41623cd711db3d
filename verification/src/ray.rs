//! Rays: an origin, a direction and a remaining bounce budget.

use vstd::prelude::*;
use crate::fixed::{absi, fmul, lemma_div_trunc_bound, SCALE};
use crate::vec3::{bounded, norm_sq, Vec3, MAX_DIR, MAX_POS};

verus! {

/// Distances at or below this threshold (a tenth of a unit) are treated as
/// self-intersection artefacts and discarded by every shape.
pub const HIT_EPSILON: i64 = 100;

/// Hits farther than this along the ray are treated as misses; with all
/// world coordinates bounded by `MAX_POS` no such hit could belong to a
/// scene element anyway, and the cap keeps every later product in range.
pub const MAX_T: i64 = 1_000_000_000_000;

/// The ray's point at fixed-point distance `t`, with each component
/// truncated exactly as the executable walk computes it.
pub open spec fn point_at(r: Ray, t: int) -> Vec3 {
    Vec3 {
        x: (r.pos.x + fmul(r.dir.x as int, t)) as i64,
        y: (r.pos.y + fmul(r.dir.y as int, t)) as i64,
        z: (r.pos.z + fmul(r.dir.z as int, t)) as i64,
    }
}

/// A ray cast through the scene.
#[derive(Clone, Copy, Debug, PartialEq, Eq, Structural)]
pub struct Ray {
    pub pos: Vec3,
    pub dir: Vec3,
    pub depth: u32,
}

impl Ray {
    /// A ray the intersection routines accept: origin within the world
    /// bounds, direction bounded and of nonzero length.
    pub open spec fn valid(self) -> bool {
        &&& bounded(self.pos, MAX_POS as int)
        &&& bounded(self.dir, MAX_DIR as int)
        &&& norm_sq(self.dir) > 0
    }

    /// Builds a ray; a zero-length direction is rejected here, as the one
    /// place where rays are made, so shapes never see one.
    pub fn new(pos: Vec3, dir: Vec3, depth: u32) -> (r: Ray)
        requires
            bounded(pos, MAX_POS as int),
            bounded(dir, MAX_DIR as int),
            norm_sq(dir) > 0,
        ensures
            r == (Ray { pos, dir, depth }),
            r.valid(),
    {
        Ray { pos, dir, depth }
    }

    pub fn get_pos(&self) -> (r: &Vec3)
        ensures
            *r == self.pos,
    {
        &self.pos
    }

    pub fn get_dir(&self) -> (r: &Vec3)
        ensures
            *r == self.dir,
    {
        &self.dir
    }

    pub fn get_depth(&self) -> (r: u32)
        ensures
            r == self.depth,
    {
        self.depth
    }

    /// Walks the ray: the point at fixed-point distance `t`.
    pub fn at(&self, t: i64) -> (p: Vec3)
        requires
            self.valid(),
            0 < t <= MAX_T,
        ensures
            p == point_at(*self, t as int),
            bounded(p, 1_100_000_000_000_000),
    {
        proof {
            assert(absi(self.dir.x * t) <= 1_000_000_000_000_000_000 && absi(self.dir.y * t)
                <= 1_000_000_000_000_000_000 && absi(self.dir.z * t)
                <= 1_000_000_000_000_000_000) by (nonlinear_arith)
                requires
                    bounded(self.dir, MAX_DIR as int),
                    MAX_DIR == 1_000_000i64,
                    0 < t <= MAX_T,
                    MAX_T == 1_000_000_000_000i64,
            ;
            lemma_div_trunc_bound(self.dir.x * t, SCALE as int);
            lemma_div_trunc_bound(self.dir.y * t, SCALE as int);
            lemma_div_trunc_bound(self.dir.z * t, SCALE as int);
        }
        let step = self.dir.scaled(t);
        self.pos.plus(&step)
    }
}

} // verus!
