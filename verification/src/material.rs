//! Materials: per-channel parameters the shader samples at a hit.

use vstd::prelude::*;
use crate::color::Color;
use crate::fixed::SCALE;

verus! {

/// Surface parameters; scalar channels are fixed-point fractions and
/// `displacement` optionally names a height map in the scene's texture
/// table.
#[derive(Clone, Copy, Debug, PartialEq, Eq, Structural)]
pub struct Material {
    pub color: Color,
    pub roughness: i64,
    pub metalness: i64,
    pub emissive: i64,
    pub transparency: i64,
    pub displacement: Option<u32>,
}

impl Material {
    pub open spec fn wf(self) -> bool {
        &&& self.color.wf()
        &&& 0 <= self.roughness <= SCALE
        &&& 0 <= self.metalness <= SCALE
        &&& 0 <= self.emissive <= SCALE
        &&& 0 <= self.transparency <= SCALE
    }

    /// A plain material of the given colour, everything else off.
    pub fn new(color: Color) -> (m: Material)
        ensures
            m == (Material {
                color,
                roughness: 0,
                metalness: 0,
                emissive: 0,
                transparency: 0,
                displacement: None,
            }),
    {
        Material {
            color,
            roughness: 0,
            metalness: 0,
            emissive: 0,
            transparency: 0,
            displacement: None,
        }
    }

    /// The all-black default material.
    pub fn default() -> (m: Material)
        ensures
            m == (Material {
                color: Color { r: 0, g: 0, b: 0 },
                roughness: 0,
                metalness: 0,
                emissive: 0,
                transparency: 0,
                displacement: None,
            }),
            m.wf(),
    {
        Material {
            color: Color::new(0, 0, 0),
            roughness: 0,
            metalness: 0,
            emissive: 0,
            transparency: 0,
            displacement: None,
        }
    }

    pub fn color(&self) -> (c: &Color)
        ensures
            *c == self.color,
    {
        &self.color
    }

    pub fn displacement(&self) -> (d: Option<u32>)
        ensures
            d == self.displacement,
    {
        self.displacement
    }

    pub fn set_displacement(&mut self, d: Option<u32>)
        ensures
            *final(self) == (Material { displacement: d, ..*old(self) }),
    {
        self.displacement = d;
    }
}

} // verus!
