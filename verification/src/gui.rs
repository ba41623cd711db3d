//! Overlay bookkeeping: the text lines, hit boxes and edit state the
//! display layer draws over the rendered scene.

use vstd::prelude::*;
use crate::vec2::Vec2;
use vstd::pervasive::VecAdditionalExecFns;

verus! {

/// Screen geometry, in thousandths of a pixel.
pub const SCREEN_WIDTH: i64 = 1_600_000;

pub const SCREEN_HEIGHT: i64 = 900_000;

pub const GUI_WIDTH: i64 = 600_000;

pub const GUI_HEIGHT: i64 = 600_000;

/// Height of one overlay text line.
pub const LINE_HEIGHT: i64 = 26_000;

/// A property edit in progress.
#[derive(Clone, Debug)]
pub struct Editing {
    pub reference: String,
    pub value: String,
}

/// Render statistics shown in the overlay.
#[derive(Clone, Copy, Debug, PartialEq, Eq, Structural)]
pub struct Statistics {
    pub fps: u32,
}

/// Where the `i`-th overlay line starts: right-aligned against the
/// screen edge, one line height per index.
pub fn get_line_position(i: u32, size: &Vec2) -> (p: Vec2)
    requires
        -SCREEN_WIDTH <= size.x <= SCREEN_WIDTH,
    ensures
        p.x == SCREEN_WIDTH - size.x,
        p.y == i * LINE_HEIGHT,
{
    proof {
        assert(0 <= (i as i64) * LINE_HEIGHT <= 120_000_000_000_000) by (nonlinear_arith)
            requires
                0 <= i <= 0xffff_ffffu32,
                LINE_HEIGHT == 26_000i64,
        ;
    }
    Vec2 { x: SCREEN_WIDTH - size.x, y: (i as i64) * LINE_HEIGHT }
}

/// Whether a click at `pos` lands in the overlay's screen region; a
/// just-created overlay (nothing populated yet) absorbs no clicks.
pub fn gui_clicked(pos: (i64, i64), gui: &Gui) -> (r: bool)
    ensures
        r == (!gui.unpopulated() && SCREEN_WIDTH - GUI_WIDTH <= pos.0 <= SCREEN_WIDTH && 0
            <= pos.1 <= GUI_HEIGHT),
{
    if gui.is_unpopulated() {
        return false;
    }
    let x = pos.0;
    let y = pos.1;
    SCREEN_WIDTH - GUI_WIDTH <= x && x <= SCREEN_WIDTH && 0 <= y && y <= GUI_HEIGHT
}

/// Whether a click at `pos` lands inside the axis-aligned box spanned
/// by the two corners.
pub fn hitbox_contains(hitbox: &(Vec2, Vec2), pos: (i64, i64)) -> (r: bool)
    ensures
        r == (hitbox.0.x <= pos.0 <= hitbox.1.x && hitbox.0.y <= pos.1 <= hitbox.1.y),
{
    hitbox.0.x <= pos.0 && pos.0 <= hitbox.1.x && hitbox.0.y <= pos.1 && pos.1 <= hitbox.1.y
}

/// The overlay's retained state.
#[derive(Debug)]
pub struct Gui {
    pub keys: Vec<String>,
    pub values: Vec<String>,
    pub hitboxes: Vec<(Vec2, Vec2)>,
    pub apply_hitbox: (Vec2, Vec2),
    pub cancel_hitbox: (Vec2, Vec2),
    pub element_index: usize,
    pub updating: bool,
    pub updating_index: usize,
}

impl Gui {
    /// Nothing has been populated or selected yet.
    pub open spec fn unpopulated(self) -> bool {
        &&& self.keys@.len() == 0
        &&& self.values@.len() == 0
        &&& self.hitboxes@.len() == 0
        &&& self.element_index == 0
        &&& !self.updating
        &&& self.updating_index == 0
    }

    pub fn is_unpopulated(&self) -> (r: bool)
        ensures
            r == self.unpopulated(),
    {
        self.keys.len() == 0 && self.values.len() == 0 && self.hitboxes.len() == 0
            && self.element_index == 0 && !self.updating && self.updating_index == 0
    }

    pub fn new() -> (g: Gui)
        ensures
            g.unpopulated(),
            g.apply_hitbox == (
                Vec2 { x: 1_250_000, y: 540_000 },
                Vec2 { x: 1_350_000, y: 580_000 },
            ),
            g.cancel_hitbox == (
                Vec2 { x: 1_440_000, y: 540_000 },
                Vec2 { x: 1_550_000, y: 580_000 },
            ),
    {
        Gui {
            keys: Vec::new(),
            values: Vec::new(),
            hitboxes: Vec::new(),
            apply_hitbox: (Vec2 { x: 1_250_000, y: 540_000 }, Vec2 { x: 1_350_000, y: 580_000 }),
            cancel_hitbox: (Vec2 { x: 1_440_000, y: 540_000 }, Vec2 { x: 1_550_000, y: 580_000 }),
            element_index: 0,
            updating: false,
            updating_index: 0,
        }
    }

    pub fn keys(&self) -> (r: &Vec<String>)
        ensures
            r == &self.keys,
    {
        &self.keys
    }

    pub fn values(&self) -> (r: &Vec<String>)
        ensures
            r == &self.values,
    {
        &self.values
    }

    pub fn hitboxes(&self) -> (r: &Vec<(Vec2, Vec2)>)
        ensures
            r == &self.hitboxes,
    {
        &self.hitboxes
    }

    pub fn apply_hitbox(&self) -> (r: &(Vec2, Vec2))
        ensures
            r == &self.apply_hitbox,
    {
        &self.apply_hitbox
    }

    pub fn cancel_hitbox(&self) -> (r: &(Vec2, Vec2))
        ensures
            r == &self.cancel_hitbox,
    {
        &self.cancel_hitbox
    }

    pub fn element_index(&self) -> (r: usize)
        ensures
            r == self.element_index,
    {
        self.element_index
    }

    pub fn updating(&self) -> (r: bool)
        ensures
            r == self.updating,
    {
        self.updating
    }

    pub fn updating_index(&self) -> (r: usize)
        ensures
            r == self.updating_index,
    {
        self.updating_index
    }

    pub fn set_element_index(&mut self, index: usize)
        ensures
            final(self).element_index == index,
            final(self).keys == old(self).keys,
            final(self).values == old(self).values,
            final(self).hitboxes == old(self).hitboxes,
            final(self).updating == old(self).updating,
            final(self).updating_index == old(self).updating_index,
    {
        self.element_index = index;
    }

    pub fn set_updating(&mut self, updating: bool)
        ensures
            final(self).updating == updating,
            final(self).keys == old(self).keys,
            final(self).values == old(self).values,
            final(self).hitboxes == old(self).hitboxes,
            final(self).element_index == old(self).element_index,
            final(self).updating_index == old(self).updating_index,
    {
        self.updating = updating;
    }

    pub fn set_updating_index(&mut self, index: usize)
        ensures
            final(self).updating_index == index,
            final(self).keys == old(self).keys,
            final(self).values == old(self).values,
            final(self).hitboxes == old(self).hitboxes,
            final(self).element_index == old(self).element_index,
            final(self).updating == old(self).updating,
    {
        self.updating_index = index;
    }

    /// Replaces the value and hit box of one populated line.
    pub fn set_updates(&mut self, index: usize, value: &String, hitbox: &(Vec2, Vec2))
        requires
            index < old(self).values@.len(),
            index < old(self).hitboxes@.len(),
        ensures
            final(self).values@.len() == old(self).values@.len(),
            final(self).values@[index as int]@ == value@,
            forall|j: int|
                0 <= j < old(self).values@.len() && j != index ==> final(self).values@[j]
                    == #[trigger] old(self).values@[j],
            final(self).hitboxes@ == old(self).hitboxes@.update(index as int, *hitbox),
            final(self).keys == old(self).keys,
            final(self).element_index == old(self).element_index,
            final(self).updating == old(self).updating,
            final(self).updating_index == old(self).updating_index,
    {
        let v = value.clone();
        self.values.set(index, v);
        self.hitboxes.set(index, (hitbox.0, hitbox.1));
    }
}

} // verus!
