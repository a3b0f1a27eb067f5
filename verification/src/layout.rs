//! Layouts: frames that tile the canvas.

use vstd::prelude::*;
use crate::frame::Edge;
use crate::geometry::{Point, Rect};
use crate::ident::fresh_id;
use crate::tiling::{in_canvas, tiles_canvas};
use vstd::string::*;

verus! {

/// The content type of a frame to which no content has been assigned yet.
pub const UNKNOWN_FRAME_TYPE: usize = 9999;

/// A frame within the layout.
pub struct Frame {
    /// An index into the registry of frame contents, or
    /// [`UNKNOWN_FRAME_TYPE`].
    pub frame_type: usize,
    /// The part of the canvas this frame occupies.
    pub rect: Rect,
    /// The identity of this frame, under which its contents keep their state.
    pub id: egui::Id,
}

/// A layout, which is mostly just a list of frames and some helper info.
pub struct Layout {
    /// The identity of this layout.
    pub id: egui::Id,
    /// The display name of this layout.
    pub name: String,
    /// The frames that this layout is composed of.
    pub content: Vec<Frame>,
}

/// `rect` with its side `edge` moved to the coordinate `value`.
pub open spec fn with_edge(rect: Rect, edge: Edge, value: i32) -> Rect {
    match edge {
        Edge::Top => Rect { min: Point { x: rect.min.x, y: value }, max: rect.max },
        Edge::Bottom => Rect { min: rect.min, max: Point { x: rect.max.x, y: value } },
        Edge::Left => Rect { min: Point { x: value, y: rect.min.y }, max: rect.max },
        Edge::Right => Rect { min: rect.min, max: Point { x: value, y: rect.max.y } },
    }
}

impl Clone for Frame {
    fn clone(&self) -> (copy: Frame)
        ensures
            copy == *self,
    {
        Frame { frame_type: self.frame_type, rect: self.rect, id: self.id.clone() }
    }
}

impl Frame {
    /// A frame of the given content type and place, with a fresh identity.
    pub fn new(frame_type: usize, rect: Rect) -> (frame: Frame)
        ensures
            frame.frame_type == frame_type,
            frame.rect == rect,
    {
        Frame { id: fresh_id(), frame_type, rect }
    }

    /// Moves one side of the frame to the coordinate `value`.
    pub fn modify_size(&mut self, edge: Edge, value: i32)
        ensures
            final(self).rect == with_edge(old(self).rect, edge, value),
            final(self).frame_type == old(self).frame_type,
            final(self).id == old(self).id,
    {
        match edge {
            Edge::Top => self.rect.min.y = value,
            Edge::Bottom => self.rect.max.y = value,
            Edge::Left => self.rect.min.x = value,
            Edge::Right => self.rect.max.x = value,
        }
    }
}

impl Layout {
    /// A layout of the given name and frames, with a fresh identity.
    pub fn new(name: String, content: Vec<Frame>) -> (layout: Layout)
        ensures
            layout.name == name,
            layout.content == content,
            layout.content@ == content@,
    {
        Layout { id: fresh_id(), name, content }
    }

    /// Every frame of the layout lies within the canvas and is at least
    /// [`MIN_SIZE`](crate::geometry::MIN_SIZE) wide and tall.
    pub open spec fn well_formed(self) -> bool {
        well_formed(self.content@)
    }
}

/// The layouts of a session, of which one is shown.
pub struct Layouts {
    /// The layouts to choose from.
    pub layouts: Vec<Layout>,
    /// The place of the layout that is shown. A place past the last layout
    /// stands for the last one.
    pub selected: usize,
}

impl Layouts {
    /// The place of the layout that is shown: the selected place, or the last
    /// one where the selection lies past it.
    pub open spec fn spec_current(self) -> int {
        if self.selected < self.layouts@.len() {
            self.selected as int
        } else {
            self.layouts@.len() - 1
        }
    }

    /// The place of the layout that is shown.
    pub fn current(&self) -> (place: usize)
        requires
            self.layouts@.len() > 0,
        ensures
            place == self.spec_current(),
            place < self.layouts@.len(),
    {
        if self.selected < self.layouts.len() {
            self.selected
        } else {
            self.layouts.len() - 1
        }
    }

    /// The layouts a session starts with: the default layout alone, shown.
    pub fn new() -> (fresh: Layouts)
        ensures
            fresh.selected == 0,
            fresh.layouts@.len() == 1,
            is_default_layout(fresh.layouts@[0]),
    {
        let mut layouts: Vec<Layout> = Vec::new();
        layouts.push(default_layout());
        Layouts { layouts, selected: 0 }
    }
}

/// `layout` is the default layout: one large frame on the left, which takes
/// three quarters of the width, and two frames above each other on the right,
/// the upper one taking 66 hundredths of the height. Their contents are the
/// first three of the registry, in this order.
pub open spec fn is_default_layout(layout: Layout) -> bool {
    &&& layout.name@ == "Default"@
    &&& layout.content@.len() == 3
    &&& layout.content@[0].frame_type == 0
    &&& layout.content@[1].frame_type == 1
    &&& layout.content@[2].frame_type == 2
    &&& layout.content@[0].rect == (Rect {
        min: Point { x: 0, y: 0 },
        max: Point { x: 750_000, y: 1_000_000 },
    })
    &&& layout.content@[1].rect == (Rect {
        min: Point { x: 750_000, y: 0 },
        max: Point { x: 1_000_000, y: 660_000 },
    })
    &&& layout.content@[2].rect == (Rect {
        min: Point { x: 750_000, y: 660_000 },
        max: Point { x: 1_000_000, y: 1_000_000 },
    })
}

/// The default layout, which is well formed and tiles the canvas.
pub fn default_layout() -> (layout: Layout)
    ensures
        is_default_layout(layout),
        layout.well_formed(),
        tiles_canvas(layout.content@),
{
    let mut content: Vec<Frame> = Vec::new();
    content.push(Frame::new(0, Rect::from_x_y_ranges(0, 750_000, 0, 1_000_000)));
    content.push(Frame::new(1, Rect::from_x_y_ranges(750_000, 1_000_000, 0, 660_000)));
    content.push(Frame::new(2, Rect::from_x_y_ranges(750_000, 1_000_000, 660_000, 1_000_000)));
    let layout = Layout::new(String::from_str("Default"), content);
    proof {
        let frames = layout.content@;
        reveal(tiles_canvas);
        assert forall|x: int, y: int| #[trigger] in_canvas(x, y) implies exists|i: int|
            0 <= i < frames.len() && #[trigger] frames[i].rect.holds_cell(x, y) by {
            if x < 750_000 {
                assert(frames[0].rect.holds_cell(x, y));
            } else if y < 660_000 {
                assert(frames[1].rect.holds_cell(x, y));
            } else {
                assert(frames[2].rect.holds_cell(x, y));
            }
        }
    }
    layout
}

/// Every one of `frames` is at least
/// [`MIN_SIZE`](crate::geometry::MIN_SIZE) wide and tall.
pub open spec fn roomy(frames: Seq<Frame>) -> bool {
    forall|i: int| 0 <= i < frames.len() ==> (#[trigger] frames[i]).rect.is_roomy()
}

/// Every one of `frames` lies within the canvas and is at least
/// [`MIN_SIZE`](crate::geometry::MIN_SIZE) wide and tall.
pub open spec fn well_formed(frames: Seq<Frame>) -> bool {
    forall|i: int|
        0 <= i < frames.len() ==> (#[trigger] frames[i]).rect.fits_canvas()
            && frames[i].rect.is_roomy()
}

} // verus!
