//! Point lights and the ambient term, with the diffuse falloff rule.

use vstd::prelude::*;
use crate::color::Color;
use crate::fixed::{absi, div_trunc, div_trunc_i64, fmul, fixed_mul, lemma_div_trunc_bound, SCALE};
use crate::vec3::{bounded, dot3, lemma_dot3_bound, lemma_norm_sq_nonneg, norm_sq, normalized_x,
    normalized_y, normalized_z, unit_v, Vec3, MAX_POS};

verus! {

/// Largest fixed-point intensity a light may carry (1 000 units).
pub const MAX_INTENSITY: i64 = 1_000_000;

#[derive(Clone, Copy, Debug, PartialEq, Eq, Structural)]
pub struct Light {
    pub pos: Vec3,
    pub intensity: i64,
    pub color: Color,
}

impl Light {
    pub open spec fn wf(self) -> bool {
        &&& bounded(self.pos, MAX_POS as int)
        &&& 0 <= self.intensity <= MAX_INTENSITY
        &&& self.color.wf()
    }

    // Accessors
    pub fn pos(&self) -> (r: &Vec3)
        ensures
            *r == self.pos,
    {
        &self.pos
    }

    pub fn intensity(&self) -> (r: i64)
        ensures
            r == self.intensity,
    {
        self.intensity
    }

    pub fn color(&self) -> (r: &Color)
        ensures
            *r == self.color,
    {
        &self.color
    }

    // Mutators
    pub fn set_pos(&mut self, pos: Vec3)
        ensures
            *final(self) == (Light { pos, ..*old(self) }),
    {
        self.pos = pos;
    }

    pub fn set_intensity(&mut self, intensity: i64)
        ensures
            *final(self) == (Light { intensity, ..*old(self) }),
    {
        self.intensity = intensity;
    }

    pub fn set_color(&mut self, color: Color)
        ensures
            *final(self) == (Light { color, ..*old(self) }),
    {
        self.color = color;
    }

    // Constructor
    pub fn new(pos: Vec3, intensity: i64, color: Color) -> (l: Light)
        ensures
            l == (Light { pos, intensity, color }),
    {
        Light { pos, intensity, color }
    }

    /// The diffuse lambertian ratio at a hit: the unit vector toward the
    /// light dotted with the surface normal, as a fixed-point fraction.
    pub open spec fn diffuse_ratio(self, hit_pos: Vec3, hit_norm: Vec3) -> int {
        let d = Vec3 {
            x: (self.pos.x - hit_pos.x) as i64,
            y: (self.pos.y - hit_pos.y) as i64,
            z: (self.pos.z - hit_pos.z) as i64,
        };
        div_trunc(dot3(unit_v(d), hit_norm), SCALE as int)
    }

    /// The scalar weight of this light at a hit: intensity squared times
    /// the diffuse ratio over the squared distance.
    pub open spec fn diffuse_weight(self, hit_pos: Vec3, hit_norm: Vec3) -> int {
        let d = Vec3 {
            x: (self.pos.x - hit_pos.x) as i64,
            y: (self.pos.y - hit_pos.y) as i64,
            z: (self.pos.z - hit_pos.z) as i64,
        };
        div_trunc(
            fmul(fmul(self.intensity as int, self.intensity as int), self.diffuse_ratio(
                hit_pos,
                hit_norm,
            )) * SCALE * SCALE,
            norm_sq(d),
        )
    }

    /// The diffuse contribution as a value: black when the surface
    /// faces away, otherwise the light's colour scaled by the
    /// inverse-square weight, clamped into the displayable range.
    pub open spec fn diffuse_color_spec(self, hit_pos: Vec3, hit_norm: Vec3) -> Color {
        if self.diffuse_ratio(hit_pos, hit_norm) < 0 {
            Color { r: 0, g: 0, b: 0 }
        } else {
            let w = self.diffuse_weight(hit_pos, hit_norm);
            let wc = if w > 1_000_000_000 {
                1_000_000_000int
            } else {
                w
            };
            Color {
                r: (if fmul(self.color.r as int, wc) > SCALE {
                    SCALE as int
                } else {
                    fmul(self.color.r as int, wc)
                }) as i64,
                g: (if fmul(self.color.g as int, wc) > SCALE {
                    SCALE as int
                } else {
                    fmul(self.color.g as int, wc)
                }) as i64,
                b: (if fmul(self.color.b as int, wc) > SCALE {
                    SCALE as int
                } else {
                    fmul(self.color.b as int, wc)
                }) as i64,
            }
        }
    }

    /// Diffuse contribution of this light at a hit: black when the
    /// surface faces away, otherwise the light's colour scaled by the
    /// inverse-square weight, clamped into the displayable range.
    pub fn get_diffuse(&self, hit_pos: &Vec3, hit_norm: &Vec3) -> (c: Color)
        requires
            self.wf(),
            bounded(*hit_pos, MAX_POS as int),
            bounded(*hit_norm, SCALE as int),
            *hit_pos != self.pos,
        ensures
            self.diffuse_ratio(*hit_pos, *hit_norm) < 0 ==> c == (Color { r: 0, g: 0, b: 0 }),
            self.diffuse_ratio(*hit_pos, *hit_norm) >= 0 ==> ({
                let w = self.diffuse_weight(*hit_pos, *hit_norm);
                let wc = if w > 1_000_000_000 {
                    1_000_000_000int
                } else {
                    w
                };
                &&& c.r == if fmul(self.color.r as int, wc) > SCALE {
                    SCALE as int
                } else {
                    fmul(self.color.r as int, wc)
                }
                &&& c.g == if fmul(self.color.g as int, wc) > SCALE {
                    SCALE as int
                } else {
                    fmul(self.color.g as int, wc)
                }
                &&& c.b == if fmul(self.color.b as int, wc) > SCALE {
                    SCALE as int
                } else {
                    fmul(self.color.b as int, wc)
                }
            }),
            c == self.diffuse_color_spec(*hit_pos, *hit_norm),
            c.wf(),
    {
        let d = self.pos.minus(hit_pos);
        proof {
            lemma_norm_sq_nonneg(d);
            if norm_sq(d) == 0 {
                assert(d.x == 0 && d.y == 0 && d.z == 0);
                assert(*hit_pos == self.pos);
            }
        }
        let tl = d.normalize();
        let num = tl.dot(hit_norm);
        proof {
            lemma_dot3_bound(tl, *hit_norm, SCALE as int, SCALE as int);
        }
        let ratio = div_trunc_i64(num, SCALE);
        if ratio < 0 {
            return Color::new(0, 0, 0);
        }
        proof {
            lemma_div_trunc_bound(num as int, SCALE as int);
            assert(absi(self.intensity * self.intensity) <= 1_000_000_000_000)
                by (nonlinear_arith)
                requires
                    0 <= self.intensity <= 1_000_000,
            ;
            lemma_div_trunc_bound(self.intensity * self.intensity, SCALE as int);
            assert(0 <= fmul(self.intensity as int, self.intensity as int) <= 1_000_000_000);
        }
        let ii = fixed_mul(self.intensity, self.intensity);
        proof {
            assert(absi(ii * ratio) <= 3_000_000_000_000) by (nonlinear_arith)
                requires
                    0 <= ii <= 1_000_000_000,
                    0 <= ratio <= 3000,
            ;
            lemma_div_trunc_bound(ii * ratio, SCALE as int);
        }
        let iir = fixed_mul(ii, ratio);
        proof {
            assert(0 <= iir <= 3_000_000_000) by (nonlinear_arith)
                requires
                    iir == div_trunc(ii * ratio, SCALE as int),
                    0 <= ii,
                    0 <= ratio,
                    absi(div_trunc(ii * ratio, SCALE as int)) <= absi(ii * ratio),
                    absi(ii * ratio) <= 3_000_000_000_000,
                    SCALE == 1000i64,
            ;
        }
        let d2 = d.norm_sq_wide();
        let w_wide: u128 = ((iir as u128) * 1_000_000u128) / (d2 as u128);
        proof {
            assert(w_wide == div_trunc(iir * SCALE * SCALE, norm_sq(d))) by (nonlinear_arith)
                requires
                    w_wide as int == ((iir as u128) * 1_000_000u128) as int / (d2 as u128) as int,
                    d2 as u128 as int == d2 as int,
                    iir as u128 as int == iir as int,
                    d2 == norm_sq(d),
                    d2 > 0,
                    0 <= iir <= 3_000_000_000,
                    SCALE == 1000i64,
            ;
        }
        let w: i64 = if w_wide > 1_000_000_000 {
            1_000_000_000
        } else {
            w_wide as i64
        };
        let c = self.color.scaled(w);
        let out = c.clamp(0, SCALE);
        proof {
            lemma_div_trunc_bound(self.color.r * w, SCALE as int);
            lemma_div_trunc_bound(self.color.g * w, SCALE as int);
            lemma_div_trunc_bound(self.color.b * w, SCALE as int);
            assert(fmul(self.color.r as int, w as int) >= 0 && fmul(self.color.g as int, w as int)
                >= 0 && fmul(self.color.b as int, w as int) >= 0) by (nonlinear_arith)
                requires
                    0 <= self.color.r,
                    0 <= self.color.g,
                    0 <= self.color.b,
                    0 <= w,
                    fmul(self.color.r as int, w as int) == div_trunc(
                        self.color.r * w,
                        SCALE as int,
                    ),
                    fmul(self.color.g as int, w as int) == div_trunc(
                        self.color.g * w,
                        SCALE as int,
                    ),
                    fmul(self.color.b as int, w as int) == div_trunc(
                        self.color.b * w,
                        SCALE as int,
                    ),
                    SCALE == 1000i64,
            ;
        }
        out
    }
}

#[derive(Clone, Copy, Debug, PartialEq, Eq, Structural)]
pub struct AmbientLight {
    pub intensity: i64,
    pub color: Color,
}

impl AmbientLight {
    pub fn intensity(&self) -> (r: i64)
        ensures
            r == self.intensity,
    {
        self.intensity
    }

    pub fn color(&self) -> (r: &Color)
        ensures
            *r == self.color,
    {
        &self.color
    }

    pub fn new(intensity: i64, color: Color) -> (l: AmbientLight)
        ensures
            l == (AmbientLight { intensity, color }),
    {
        AmbientLight { intensity, color }
    }

    /// Half-strength white light.
    pub fn default() -> (l: AmbientLight)
        ensures
            l.intensity == SCALE / 2,
            l.color == (Color { r: SCALE, g: SCALE, b: SCALE }),
    {
        AmbientLight { intensity: 500, color: Color::new(SCALE, SCALE, SCALE) }
    }
}

} // verus!
