//! Scene elements: one shape with one material, under a stable id; and
//! composed groups of elements edited as a unit.

use vstd::prelude::*;
use crate::material::Material;
use crate::shape::Shape;

verus! {

#[derive(Debug)]
pub struct Element {
    pub id: u32,
    pub material: Material,
    pub shape: Shape,
    pub composed_id: Option<u32>,
}

impl Element {
    pub open spec fn wf(self) -> bool {
        &&& self.shape.wf()
        &&& self.material.wf()
    }

    pub fn new(shape: Shape, material: Material) -> (e: Element)
        ensures
            e.shape == shape,
            e.material == material,
            e.id == 0,
            e.composed_id is None,
    {
        Element { shape, material, id: 0, composed_id: None }
    }

    pub fn material(&self) -> (m: &Material)
        ensures
            *m == self.material,
    {
        &self.material
    }

    pub fn shape(&self) -> (s: &Shape)
        ensures
            s == &self.shape,
    {
        &self.shape
    }

    pub fn id(&self) -> (i: u32)
        ensures
            i == self.id,
    {
        self.id
    }

    pub fn composed_id(&self) -> (c: Option<u32>)
        ensures
            c == self.composed_id,
    {
        self.composed_id
    }

    pub fn set_material(&mut self, material: Material)
        ensures
            final(self).material == material,
            final(self).shape == old(self).shape,
            final(self).id == old(self).id,
            final(self).composed_id == old(self).composed_id,
    {
        self.material = material;
    }

    pub fn set_shape(&mut self, shape: Shape)
        ensures
            final(self).shape == shape,
            final(self).material == old(self).material,
            final(self).id == old(self).id,
            final(self).composed_id == old(self).composed_id,
    {
        self.shape = shape;
    }

    pub fn set_id(&mut self, id: u32)
        ensures
            final(self).id == id,
            final(self).shape == old(self).shape,
            final(self).material == old(self).material,
            final(self).composed_id == old(self).composed_id,
    {
        self.id = id;
    }

    pub fn set_composed_id(&mut self, id: u32)
        ensures
            final(self).composed_id == Some(id),
            final(self).shape == old(self).shape,
            final(self).material == old(self).material,
            final(self).id == old(self).id,
    {
        self.composed_id = Some(id);
    }
}

/// A group of elements sharing one material, moved and edited together.
#[derive(Debug)]
pub struct ComposedShape {
    pub elements: Vec<Element>,
    pub material: Material,
}

impl ComposedShape {
    pub fn new(elements: Vec<Element>, material: Material) -> (c: ComposedShape)
        ensures
            c.elements == elements,
            c.material == material,
    {
        ComposedShape { elements, material }
    }

    pub fn material(&self) -> (m: &Material)
        ensures
            *m == self.material,
    {
        &self.material
    }

    /// Pushes the group's material back onto every member element.
    pub fn update(&mut self)
        ensures
            final(self).material == old(self).material,
            final(self).elements@.len() == old(self).elements@.len(),
            forall|j: int|
                0 <= j < old(self).elements@.len() ==> {
                    &&& (#[trigger] final(self).elements@[j]).material == old(self).material
                    &&& final(self).elements@[j].shape == old(self).elements@[j].shape
                    &&& final(self).elements@[j].id == old(self).elements@[j].id
                    &&& final(self).elements@[j].composed_id == old(
                        self,
                    ).elements@[j].composed_id
                },
    {
        let m = self.material;
        let n = self.elements.len();
        let mut updated: Vec<Element> = Vec::new();
        let mut k: usize = 0;
        while k < n
            invariant
                k <= n,
                self.material == old(self).material,
                m == old(self).material,
                n == old(self).elements@.len(),
                self.elements@.len() + k == n,
                forall|j: int|
                    0 <= j < self.elements@.len() ==> #[trigger] self.elements@[j] == old(
                        self,
                    ).elements@[j + k],
                updated@.len() == k,
                forall|j: int|
                    0 <= j < k ==> {
                        &&& (#[trigger] updated@[j]).material == old(self).material
                        &&& updated@[j].shape == old(self).elements@[j].shape
                        &&& updated@[j].id == old(self).elements@[j].id
                        &&& updated@[j].composed_id == old(self).elements@[j].composed_id
                    },
            decreases n - k,
        {
            let mut e = self.elements.remove(0);
            e.set_material(m);
            updated.push(e);
            k = k + 1;
        }
        self.elements = updated;
    }
}

/// An element group under a stable id.
#[derive(Debug)]
pub struct ComposedElement {
    pub composed_shape: ComposedShape,
    pub id: u32,
}

impl ComposedElement {
    pub fn new(composed_shape: ComposedShape) -> (c: ComposedElement)
        ensures
            c.composed_shape == composed_shape,
            c.id == 0,
    {
        ComposedElement { composed_shape, id: 0 }
    }

    pub fn composed_shape(&self) -> (c: &ComposedShape)
        ensures
            c == &self.composed_shape,
    {
        &self.composed_shape
    }

    pub fn composed_shape_mut(&mut self) -> (c: &mut ComposedShape)
        ensures
            final(self).composed_shape == *final(c),
            final(self).id == old(self).id,
    {
        &mut self.composed_shape
    }

    pub fn material(&self) -> (m: &Material)
        ensures
            *m == self.composed_shape.material,
    {
        self.composed_shape.material()
    }

    pub fn set_id(&mut self, id: u32)
        ensures
            final(self).id == id,
            final(self).composed_shape == old(self).composed_shape,
    {
        self.id = id;
    }

    pub fn id(&self) -> (i: u32)
        ensures
            i == self.id,
    {
        self.id
    }

    /// Re-propagates the group's shared state to its members.
    pub fn update(&mut self)
        ensures
            final(self).id == old(self).id,
            final(self).composed_shape.material == old(self).composed_shape.material,
            final(self).composed_shape.elements@.len() == old(
                self,
            ).composed_shape.elements@.len(),
    {
        self.composed_shape.update();
    }
}

} // verus!
