//! The shared scene aggregate: elements, lights, texture table.
//! Element ids are unique, handed out by a monotone counter.

use vstd::prelude::*;
use crate::element::Element;
use crate::fixed::SCALE;
use crate::light::{AmbientLight, Light};
use crate::texture::DispMap;

verus! {

#[derive(Debug)]
pub struct Scene {
    pub elements: Vec<Element>,
    pub lights: Vec<Light>,
    pub ambient: AmbientLight,
    pub textures: Vec<DispMap>,
    pub next_id: u32,
}

impl Scene {
    /// Scene invariant: every part well-formed and element ids unique
    /// (all below the id counter).
    pub open spec fn wf(self) -> bool {
        &&& forall|j: int|
            0 <= j < self.elements@.len() ==> (#[trigger] self.elements@[j]).wf()
        &&& forall|j: int|
            0 <= j < self.elements@.len() ==> (#[trigger] self.elements@[j]).id < self.next_id
        &&& forall|i: int, j: int|
            0 <= i < j < self.elements@.len() ==> (#[trigger] self.elements@[i]).id != (
            #[trigger] self.elements@[j]).id
        &&& forall|j: int| 0 <= j < self.lights@.len() ==> (#[trigger] self.lights@[j]).wf()
        &&& forall|j: int|
            0 <= j < self.textures@.len() ==> (#[trigger] self.textures@[j]).wf()
        &&& self.ambient.color.wf()
        &&& 0 <= self.ambient.intensity <= SCALE
    }

    /// An empty scene under default ambient light.
    pub fn new() -> (s: Scene)
        ensures
            s.wf(),
            s.elements@.len() == 0,
            s.lights@.len() == 0,
            s.textures@.len() == 0,
    {
        Scene {
            elements: Vec::new(),
            lights: Vec::new(),
            ambient: AmbientLight::default(),
            textures: Vec::new(),
            next_id: 0,
        }
    }

    pub fn elements(&self) -> (r: &Vec<Element>)
        ensures
            r == &self.elements,
    {
        &self.elements
    }

    pub fn lights(&self) -> (r: &Vec<Light>)
        ensures
            r == &self.lights,
    {
        &self.lights
    }

    pub fn ambient(&self) -> (r: &AmbientLight)
        ensures
            *r == self.ambient,
    {
        &self.ambient
    }

    pub fn textures(&self) -> (r: &Vec<DispMap>)
        ensures
            r == &self.textures,
    {
        &self.textures
    }

    /// Adds an element under a fresh id; returns the id.
    pub fn add_element(&mut self, element: Element) -> (id: u32)
        requires
            old(self).wf(),
            element.wf(),
            old(self).next_id < u32::MAX,
        ensures
            final(self).wf(),
            id == old(self).next_id,
            final(self).elements@.len() == old(self).elements@.len() + 1,
            final(self).elements@[old(self).elements@.len() as int].id == id,
            final(self).elements@[old(self).elements@.len() as int].shape == element.shape,
            final(self).elements@[old(self).elements@.len() as int].material
                == element.material,
            forall|j: int|
                0 <= j < old(self).elements@.len() ==> #[trigger] final(self).elements@[j]
                    == old(self).elements@[j],
            final(self).lights == old(self).lights,
            final(self).textures == old(self).textures,
            final(self).ambient == old(self).ambient,
    {
        let id = self.next_id;
        let mut e = element;
        e.set_id(id);
        self.elements.push(e);
        self.next_id = id + 1;
        id
    }

    /// Adds a light.
    pub fn add_light(&mut self, light: Light)
        requires
            old(self).wf(),
            light.wf(),
        ensures
            final(self).wf(),
            final(self).lights@ == old(self).lights@.push(light),
            final(self).elements == old(self).elements,
            final(self).textures == old(self).textures,
            final(self).ambient == old(self).ambient,
            final(self).next_id == old(self).next_id,
    {
        self.lights.push(light);
    }

    /// Adds a texture to the table; returns its index.
    pub fn add_texture(&mut self, map: DispMap) -> (id: usize)
        requires
            old(self).wf(),
            map.wf(),
        ensures
            final(self).wf(),
            id == old(self).textures@.len(),
            final(self).textures@.len() == old(self).textures@.len() + 1,
            final(self).elements == old(self).elements,
            final(self).lights == old(self).lights,
            final(self).ambient == old(self).ambient,
            final(self).next_id == old(self).next_id,
    {
        let id = self.textures.len();
        self.textures.push(map);
        id
    }
}

} // verus!
