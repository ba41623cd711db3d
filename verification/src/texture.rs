//! Displacement maps: a grid of fixed-point heights, sampled by the
//! texture coordinates of a hit.

use vstd::prelude::*;
use crate::fixed::SCALE;

verus! {

/// A per-surface-point height field, each entry in `[0, SCALE]`.
#[derive(Clone, Debug)]
pub struct DispMap {
    pub width: usize,
    pub height: usize,
    pub data: Vec<i64>,
}

impl DispMap {
    pub open spec fn wf(self) -> bool {
        &&& 0 < self.width <= 10_000
        &&& 0 < self.height <= 10_000
        &&& self.data@.len() == self.width * self.height
        &&& forall|k: int|
            0 <= k < self.data@.len() ==> 0 <= #[trigger] self.data@[k] <= SCALE
    }

    /// A map that displaces nothing anywhere.
    pub open spec fn flat_zero(self) -> bool {
        forall|k: int| 0 <= k < self.data@.len() ==> #[trigger] self.data@[k] == 0
    }

    /// The grid cell addressed by texture coordinates in `[0, SCALE)`.
    pub open spec fn cell(self, u: int, v: int) -> int {
        (v * self.height / (SCALE as int)) * self.width + u * self.width / (SCALE as int)
    }

    /// The sampled height at `(u, v)`.
    pub open spec fn sample_spec(self, u: int, v: int) -> int {
        self.data@[self.cell(u, v)] as int
    }

    /// Builds the all-zero map of the given size.
    pub fn flat(width: usize, height: usize) -> (m: DispMap)
        requires
            0 < width <= 10_000,
            0 < height <= 10_000,
        ensures
            m.wf(),
            m.flat_zero(),
            m.width == width,
            m.height == height,
    {
        proof {
            assert(width * height <= 100_000_000) by (nonlinear_arith)
                requires
                    0 < width <= 10_000,
                    0 < height <= 10_000,
            ;
        }
        let n = width * height;
        let mut data: Vec<i64> = Vec::new();
        let mut k: usize = 0;
        while k < n
            invariant
                k <= n,
                data@.len() == k,
                forall|j: int| 0 <= j < k ==> #[trigger] data@[j] == 0,
            decreases n - k,
        {
            data.push(0);
            k = k + 1;
        }
        DispMap { width, height, data }
    }

    /// Wraps a grid of heights; entries are clamped into `[0, SCALE]`.
    pub fn from_values(width: usize, height: usize, values: Vec<i64>) -> (m: DispMap)
        requires
            0 < width <= 10_000,
            0 < height <= 10_000,
            values@.len() == width * height,
        ensures
            m.wf(),
            m.width == width,
            m.height == height,
            m.data@.len() == values@.len(),
            forall|k: int|
                0 <= k < values@.len() ==> #[trigger] m.data@[k] == if values@[k] < 0 {
                    0
                } else if values@[k] > SCALE {
                    SCALE as int
                } else {
                    values@[k] as int
                },
    {
        let n = values.len();
        let mut data: Vec<i64> = Vec::new();
        let mut k: usize = 0;
        while k < n
            invariant
                k <= n,
                n == values@.len(),
                data@.len() == k,
                forall|j: int|
                    0 <= j < k ==> #[trigger] data@[j] == if values@[j] < 0 {
                        0
                    } else if values@[j] > SCALE {
                        SCALE as int
                    } else {
                        values@[j] as int
                    },
            decreases n - k,
        {
            let v = values[k];
            let c: i64 = if v < 0 {
                0
            } else if v > SCALE {
                SCALE
            } else {
                v
            };
            data.push(c);
            k = k + 1;
        }
        DispMap { width, height, data }
    }

    /// Samples the map at texture coordinates `(u, v)`.
    pub fn sample(&self, u: i64, v: i64) -> (r: i64)
        requires
            self.wf(),
            0 <= u < SCALE,
            0 <= v < SCALE,
        ensures
            r == self.sample_spec(u as int, v as int),
            0 <= r <= SCALE,
            self.flat_zero() ==> r == 0,
    {
        proof {
            assert(u * self.width <= 10_000_000 && v * self.height <= 10_000_000)
                by (nonlinear_arith)
                requires
                    0 <= u < 1000,
                    0 <= v < 1000,
                    0 < self.width <= 10_000,
                    0 < self.height <= 10_000,
            ;
        }
        let col = (u as usize * self.width) / 1000;
        let row = (v as usize * self.height) / 1000;
        proof {
            assert(col < self.width && row < self.height) by (nonlinear_arith)
                requires
                    col == u * self.width / 1000,
                    row == v * self.height / 1000,
                    0 <= u < 1000,
                    0 <= v < 1000,
                    0 < self.width <= 10_000,
                    0 < self.height <= 10_000,
            ;
            assert(row * self.width + col < self.width * self.height
                && row * self.width + col <= 100_000_000 && self.width * self.height
                <= 100_000_000) by (nonlinear_arith)
                requires
                    col < self.width,
                    row < self.height,
                    0 < self.width <= 10_000,
                    0 < self.height <= 10_000,
            ;
            assert(self.cell(u as int, v as int) == row * self.width + col);
        }
        let idx = row * self.width + col;
        self.data[idx]
    }
}

} // verus!
