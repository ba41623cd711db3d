//! Colours: three fixed-point channels, nominally in `[0, SCALE]`.

use vstd::prelude::*;
use crate::fixed::{absi, div_trunc, div_trunc_i64, fmul, fixed_mul, isqrt, isqrt_spec,
    lemma_div_trunc_bound, SCALE};

verus! {

#[derive(Clone, Copy, Debug, PartialEq, Eq, Structural)]
pub struct Color {
    pub r: i64,
    pub g: i64,
    pub b: i64,
}

impl Color {
    /// Channels within the displayable range.
    pub open spec fn wf(self) -> bool {
        &&& 0 <= self.r <= SCALE
        &&& 0 <= self.g <= SCALE
        &&& 0 <= self.b <= SCALE
    }

    // Getters
    pub fn r(&self) -> (c: i64)
        ensures
            c == self.r,
    {
        self.r
    }

    pub fn g(&self) -> (c: i64)
        ensures
            c == self.g,
    {
        self.g
    }

    pub fn b(&self) -> (c: i64)
        ensures
            c == self.b,
    {
        self.b
    }

    // Constructors
    pub fn new(r: i64, g: i64, b: i64) -> (c: Color)
        ensures
            c.r == r,
            c.g == g,
            c.b == b,
    {
        Color { r, g, b }
    }

    /// Packs the colour as one RGBA pixel, 255 steps per unit channel.
    pub fn to_rgba(self) -> (p: [u8; 4])
        requires
            self.wf(),
        ensures
            p[0] == div_trunc(self.r * 255, SCALE as int),
            p[1] == div_trunc(self.g * 255, SCALE as int),
            p[2] == div_trunc(self.b * 255, SCALE as int),
            p[3] == 255,
    {
        proof {
            lemma_div_trunc_bound(self.r * 255, SCALE as int);
            lemma_div_trunc_bound(self.g * 255, SCALE as int);
            lemma_div_trunc_bound(self.b * 255, SCALE as int);
        }
        let r = div_trunc_i64(self.r * 255, SCALE);
        let g = div_trunc_i64(self.g * 255, SCALE);
        let b = div_trunc_i64(self.b * 255, SCALE);
        [r as u8, g as u8, b as u8, 255u8]
    }

    /// Reads one RGBA pixel back into fixed-point channels.
    pub fn from_rgba(p: &[u8; 4]) -> (c: Color)
        ensures
            c.r == div_trunc(p[0] * SCALE, 255),
            c.g == div_trunc(p[1] * SCALE, 255),
            c.b == div_trunc(p[2] * SCALE, 255),
            c.wf(),
    {
        proof {
            lemma_div_trunc_bound((p[0] as i64) * SCALE, 255);
            lemma_div_trunc_bound((p[1] as i64) * SCALE, 255);
            lemma_div_trunc_bound((p[2] as i64) * SCALE, 255);
        }
        let r = div_trunc_i64((p[0] as i64) * SCALE, 255);
        let g = div_trunc_i64((p[1] as i64) * SCALE, 255);
        let b = div_trunc_i64((p[2] as i64) * SCALE, 255);
        proof {
            assert(0 <= r <= SCALE && 0 <= g <= SCALE && 0 <= b <= SCALE) by (nonlinear_arith)
                requires
                    r == div_trunc(p[0] * SCALE, 255),
                    g == div_trunc(p[1] * SCALE, 255),
                    b == div_trunc(p[2] * SCALE, 255),
                    0 <= p[0] < 256,
                    0 <= p[1] < 256,
                    0 <= p[2] < 256,
                    SCALE == 1000i64,
            ;
        }
        Color { r, g, b }
    }

    /// Clamps every channel into `[min, max]`.
    pub fn clamp(&self, min: i64, max: i64) -> (c: Color)
        requires
            min <= max,
        ensures
            c.r == if self.r < min { min } else if self.r > max { max } else { self.r },
            c.g == if self.g < min { min } else if self.g > max { max } else { self.g },
            c.b == if self.b < min { min } else if self.b > max { max } else { self.b },
    {
        Color {
            r: if self.r < min { min } else if self.r > max { max } else { self.r },
            g: if self.g < min { min } else if self.g > max { max } else { self.g },
            b: if self.b < min { min } else if self.b > max { max } else { self.b },
        }
    }

    /// Gamma correction: each channel becomes its fixed-point square
    /// root (`sqrt(c / SCALE)` in unit terms).
    pub fn apply_gamma(&mut self)
        requires
            old(self).wf(),
        ensures
            final(self).r == isqrt_spec(old(self).r * SCALE),
            final(self).g == isqrt_spec(old(self).g * SCALE),
            final(self).b == isqrt_spec(old(self).b * SCALE),
            final(self).wf(),
    {
        let r128 = isqrt((self.r * SCALE) as u128);
        let g128 = isqrt((self.g * SCALE) as u128);
        let b128 = isqrt((self.b * SCALE) as u128);
        proof {
            let orr = old(self).r as int;
            let org = old(self).g as int;
            let orb = old(self).b as int;
            assert(0 <= r128 <= SCALE && 0 <= g128 <= SCALE && 0 <= b128 <= SCALE)
                by (nonlinear_arith)
                requires
                    crate::fixed::is_isqrt(orr * SCALE, r128 as int),
                    crate::fixed::is_isqrt(org * SCALE, g128 as int),
                    crate::fixed::is_isqrt(orb * SCALE, b128 as int),
                    0 <= orr <= SCALE,
                    0 <= org <= SCALE,
                    0 <= orb <= SCALE,
                    SCALE == 1000i64,
            ;
        }
        self.r = r128 as i64;
        self.g = g128 as i64;
        self.b = b128 as i64;
    }

    /// Total luminance weight of the three channels.
    pub fn as_weight(&self) -> (w: i64)
        requires
            self.wf(),
        ensures
            w == self.r + self.g + self.b,
    {
        self.r + self.g + self.b
    }

    /// Componentwise sum.
    pub fn plus(&self, o: &Color) -> (c: Color)
        requires
            i64::MIN <= self.r + o.r <= i64::MAX,
            i64::MIN <= self.g + o.g <= i64::MAX,
            i64::MIN <= self.b + o.b <= i64::MAX,
        ensures
            c.r == self.r + o.r,
            c.g == self.g + o.g,
            c.b == self.b + o.b,
    {
        Color { r: self.r + o.r, g: self.g + o.g, b: self.b + o.b }
    }

    /// Componentwise fixed-point product.
    pub fn times(&self, o: &Color) -> (c: Color)
        requires
            self.wf(),
            o.wf(),
        ensures
            c.r == fmul(self.r as int, o.r as int),
            c.g == fmul(self.g as int, o.g as int),
            c.b == fmul(self.b as int, o.b as int),
    {
        proof {
            assert(absi(self.r * o.r) <= 1_000_000 && absi(self.g * o.g) <= 1_000_000 && absi(
                self.b * o.b,
            ) <= 1_000_000) by (nonlinear_arith)
                requires
                    0 <= self.r <= 1000,
                    0 <= self.g <= 1000,
                    0 <= self.b <= 1000,
                    0 <= o.r <= 1000,
                    0 <= o.g <= 1000,
                    0 <= o.b <= 1000,
            ;
        }
        Color {
            r: fixed_mul(self.r, o.r),
            g: fixed_mul(self.g, o.g),
            b: fixed_mul(self.b, o.b),
        }
    }

    /// Every channel scaled by a fixed-point factor.
    pub fn scaled(&self, k: i64) -> (c: Color)
        requires
            self.wf(),
            0 <= k <= 1_000_000_000,
        ensures
            c.r == fmul(self.r as int, k as int),
            c.g == fmul(self.g as int, k as int),
            c.b == fmul(self.b as int, k as int),
    {
        proof {
            assert(absi(self.r * k) <= 1_000_000_000_000 && absi(self.g * k)
                <= 1_000_000_000_000 && absi(self.b * k) <= 1_000_000_000_000)
                by (nonlinear_arith)
                requires
                    0 <= self.r <= 1000,
                    0 <= self.g <= 1000,
                    0 <= self.b <= 1000,
                    0 <= k <= 1_000_000_000,
            ;
        }
        Color {
            r: fixed_mul(self.r, k),
            g: fixed_mul(self.g, k),
            b: fixed_mul(self.b, k),
        }
    }
}

} // verus!
