//! The render-loop orchestration: the one piece of cross-frame state,
//! the buffer the terminal currently shows.
use vstd::prelude::*;

use crate::buffer::{spec_cell_count, Buffer};
use crate::cell::spec_default_cell;
use crate::diff::{diff, spec_diff, PatchEntry};
use crate::rect::Rect;

verus! {

/// What the physical terminal is showing, kept across frames.
///
/// Every frame is drawn from scratch into a fresh [`Buffer`];
/// [`Screen::commit`] computes the minimal patch list that brings the
/// terminal in sync and then replaces the previous frame atomically —
/// a frame that is never committed leaves the state untouched, so an
/// abandoned frame cannot corrupt later diffs.
#[derive(Debug, Clone)]
pub struct Screen {
    /// The last committed frame.
    pub previous: Buffer,
}

impl Screen {
    /// The shape invariant, and the bounds the diff needs: the grid
    /// positions of the area must exist.
    pub open spec fn well_formed(self) -> bool {
        &&& self.previous.well_formed()
        &&& self.previous.area.x + self.previous.area.width <= 0x1_0000
        &&& self.previous.area.y + self.previous.area.height <= 0x1_0000
    }

    /// A screen of the given area, showing nothing: the first commit
    /// repaints every differing cell.
    pub fn new(area: Rect) -> (r: Screen)
        requires
            area.x + area.width <= 0x1_0000,
            area.y + area.height <= 0x1_0000,
        ensures
            r.well_formed(),
            r.previous.area == area,
            forall|i: int|
                0 <= i < r.previous.content@.len() ==> #[trigger] r.previous.content@[i]
                    == spec_default_cell(),
    {
        Screen { previous: Buffer::empty(area) }
    }

    /// The region of the terminal this screen addresses.
    pub fn area(&self) -> (r: Rect)
        ensures
            r == self.previous.area,
    {
        self.previous.area
    }

    /// Commit a freshly drawn frame: the patch list that brings the
    /// terminal in sync comes back, and the frame becomes the previous
    /// one. The frame must address the same region as the screen;
    /// after a resize, call [`Screen::resize`] first.
    pub fn commit(&mut self, frame: Buffer) -> (r: Vec<PatchEntry>)
        requires
            old(self).well_formed(),
            frame.well_formed(),
            frame.area == old(self).previous.area,
        ensures
            final(self).well_formed(),
            final(self).previous == frame,
            r@ == spec_diff(old(self).previous.content@, frame.content@, frame.area),
    {
        let patches = diff(&self.previous, &frame);
        self.previous = frame;
        patches
    }

    /// Note a change of the terminal's size: the previous frame is
    /// discarded and replaced by a blank one over the new area, so the
    /// next commit repaints the full screen rather than diffing
    /// against stale content.
    pub fn resize(&mut self, area: Rect)
        requires
            area.x + area.width <= 0x1_0000,
            area.y + area.height <= 0x1_0000,
        ensures
            final(self).well_formed(),
            final(self).previous.area == area,
            final(self).previous.content@.len() == spec_cell_count(area),
            forall|i: int|
                0 <= i < final(self).previous.content@.len() ==> #[trigger] final(self).previous.content@[i] == spec_default_cell(),
    {
        self.previous = Buffer::empty(area);
    }
}

} // verus!
