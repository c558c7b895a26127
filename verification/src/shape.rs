//! The size a state gives a window in each slot, in physical pixels.
//!
//! A state is configured in logical pixels, with an optional fraction of the
//! edge to fill. Scaling those to the monitor is the caller's job; what is
//! left, and lives here, is choosing the size for a slot and stretching it
//! along the edge the slot is docked to.

use vstd::prelude::*;

use crate::geometry::{Anchor, Area, PhysicalSize};

verus! {

/// How far a window stretches along the edge it is docked to, on one monitor.
#[derive(Clone, Copy, Debug, PartialEq, Eq, Structural)]
pub enum Stretch {
    /// Use the state's declared size.
    Keep,
    /// Run the whole length of the edge, less the margin at each end.
    Full,
    /// Run part of the edge: `width` pixels along a top or bottom edge,
    /// `height` pixels along a left or right one, before the margin cap.
    Part { width: i64, height: i64 },
}

/// One named state's shape, scaled to a monitor.
#[derive(Clone, Copy, Debug, PartialEq, Eq, Structural)]
pub struct Shape {
    /// The size in any slot that does not run vertically.
    pub size: PhysicalSize,
    /// The size in the `left` and `right` slots, where the window runs up and
    /// down the screen. Absent means the state never turns.
    pub vertical_size: Option<PhysicalSize>,
    /// Whether to stretch along the docked edge, and how far.
    pub stretch: Stretch,
}

/// `v` held between `lo` and `hi`, as `clamp` does when `lo <= hi`.
pub open spec fn clamp(v: int, lo: int, hi: int) -> int {
    if v < lo {
        lo
    } else if v > hi {
        hi
    } else {
        v
    }
}

/// The longest a stretched window may be along an edge of `length`: the edge
/// less one margin per end, and never less than one pixel.
pub open spec fn stretch_cap(length: u32, margin: i32) -> int {
    if length - 2 * margin < 1 {
        1
    } else {
        length - 2 * margin
    }
}

/// How long a window is along an edge of `length` when it wants `wanted`
/// pixels of it.
pub open spec fn spec_stretch(length: u32, wanted: int, margin: i32) -> u32 {
    clamp(wanted, 1, stretch_cap(length, margin)) as u32
}

/// How long a window is along an edge of `area_length` when it wants `wanted`
/// pixels of it.
///
/// The cap is what puts the margin at *both* ends: a full stretch is the edge
/// less one margin per end, and the slot's own centring on that axis then
/// leaves exactly a margin at each. The floor of one pixel keeps a margin
/// wider than the screen from asking for a window of no height at all.
pub fn stretch(area_length: u32, wanted: i64, edge_margin: i32) -> (r: u32)
    ensures
        r == spec_stretch(area_length, wanted as int, edge_margin),
{
    let reach = area_length as i64 - 2 * (edge_margin as i64);
    let cap: i64 = if reach < 1 {
        1
    } else {
        reach
    };
    let clamped: i64 = if wanted < 1 {
        1
    } else if wanted > cap {
        cap
    } else {
        wanted
    };
    clamped as u32
}

/// A stretch asking for no more than the edge is at least one pixel long,
/// never longer than the edge less a margin at each end (when that leaves
/// anything), and asking for the whole edge gets exactly that much.
pub proof fn lemma_stretch_bounds(length: u32, wanted: int, margin: i32)
    requires
        wanted <= length,
    ensures
        1 <= spec_stretch(length, wanted, margin),
        spec_stretch(length, wanted, margin) <= stretch_cap(length, margin),
        spec_stretch(length, wanted, margin) <= length || length == 0,
        (wanted == length && margin >= 0 && length - 2 * margin >= 1) ==> spec_stretch(
            length,
            wanted,
            margin,
        ) == length - 2 * margin,
        (wanted >= 1 && wanted <= length - 2 * margin) ==> spec_stretch(length, wanted, margin)
            == wanted,
{
}

/// The pixels this shape wants along an edge of `length`, or `None` when it
/// does not stretch. `vertical` picks the left-and-right edge.
pub open spec fn spec_wanted(stretch: Stretch, length: u32, vertical: bool) -> Option<int> {
    match stretch {
        Stretch::Keep => None,
        Stretch::Full => Some(length as int),
        Stretch::Part { width, height } => Some(
            if vertical {
                height as int
            } else {
                width as int
            },
        ),
    }
}

impl Shape {
    /// The size this shape takes in `anchor`, before any stretching.
    pub open spec fn spec_size_in(self, anchor: Anchor) -> PhysicalSize {
        match self.vertical_size {
            Some(size) => if anchor.spec_runs_vertically() {
                size
            } else {
                self.size
            },
            None => self.size,
        }
    }

    /// The size this shape takes in `anchor` on `area`.
    pub open spec fn spec_physical_size(self, anchor: Anchor, area: Area, margin: i32) -> PhysicalSize {
        let base = self.spec_size_in(anchor);
        if !anchor.spec_is_side() {
            base
        } else if anchor.spec_runs_vertically() {
            match spec_wanted(self.stretch, area.size.height, true) {
                Some(w) => PhysicalSize {
                    width: base.width,
                    height: spec_stretch(area.size.height, w, margin),
                },
                None => base,
            }
        } else {
            match spec_wanted(self.stretch, area.size.width, false) {
                Some(w) => PhysicalSize {
                    width: spec_stretch(area.size.width, w, margin),
                    height: base.height,
                },
                None => base,
            }
        }
    }

    /// The size this shape takes in `anchor`, before any stretching: the
    /// vertical size in a slot that runs vertically, when there is one.
    pub fn size_in(&self, anchor: Anchor) -> (s: PhysicalSize)
        ensures
            s == self.spec_size_in(anchor),
    {
        match self.vertical_size {
            Some(size) => if anchor.runs_vertically() {
                size
            } else {
                self.size
            },
            None => self.size,
        }
    }

    fn wanted(&self, length: u32, vertical: bool) -> (w: Option<i64>)
        ensures
            match w {
                Some(v) => spec_wanted(self.stretch, length, vertical) == Some(v as int),
                None => spec_wanted(self.stretch, length, vertical) is None,
            },
    {
        match self.stretch {
            Stretch::Keep => None,
            Stretch::Full => Some(length as i64),
            Stretch::Part { width, height } => Some(
                if vertical {
                    height
                } else {
                    width
                },
            ),
        }
    }

    /// The size this shape takes in `anchor` on `area`.
    ///
    /// Stretching applies to the axis parallel to the docked edge, and only in
    /// the four edge slots: a corner touches two edges, so corners and the
    /// centre always use the declared size.
    pub fn physical_size(&self, anchor: Anchor, area: &Area, edge_margin: i32) -> (s: PhysicalSize)
        ensures
            s == self.spec_physical_size(anchor, *area, edge_margin),
    {
        let base = self.size_in(anchor);
        if !anchor.is_side() {
            return base;
        }
        if anchor.runs_vertically() {
            match self.wanted(area.size.height, true) {
                Some(w) => PhysicalSize::new(base.width, stretch(area.size.height, w, edge_margin)),
                None => base,
            }
        } else {
            match self.wanted(area.size.width, false) {
                Some(w) => PhysicalSize::new(stretch(area.size.width, w, edge_margin), base.height),
                None => base,
            }
        }
    }
}

/// A shape keeps its declared size in a corner and in the centre; a shape
/// that does not turn keeps its width and height on a side except along the
/// stretched axis; and a side slot stretches only the axis along its edge.
pub proof fn lemma_stretch_only_along_the_docked_edge(s: Shape, anchor: Anchor, area: Area, margin: i32)
    ensures
        !anchor.spec_is_side() ==> s.spec_physical_size(anchor, area, margin) == s.size,
        s.stretch == Stretch::Keep ==> s.spec_physical_size(anchor, area, margin) == s.spec_size_in(
            anchor,
        ),
        anchor.spec_runs_vertically() ==> s.spec_physical_size(anchor, area, margin).width
            == s.spec_size_in(anchor).width,
        (anchor.spec_is_side() && !anchor.spec_runs_vertically()) ==> s.spec_physical_size(
            anchor,
            area,
            margin,
        ).height == s.spec_size_in(anchor).height,
        s.vertical_size is None ==> s.spec_size_in(anchor) == s.size,
{
}

/// A filling shape measures the edge it is docked to: in a top or bottom slot
/// its width comes from the work area's width, in a left or right slot its
/// height from the work area's height. A full fill takes that whole edge and a
/// partial one its own share of it (`width` across, `height` down), each held
/// to at least one pixel and to the edge less a margin at each end.
pub proof fn lemma_fill_measures_the_docked_edge(s: Shape, anchor: Anchor, area: Area, margin: i32)
    requires
        anchor.spec_is_side(),
    ensures
        (!anchor.spec_runs_vertically() && s.stretch == Stretch::Full) ==> s.spec_physical_size(
            anchor,
            area,
            margin,
        ).width == clamp(area.size.width as int, 1, stretch_cap(area.size.width, margin)) as u32,
        (!anchor.spec_runs_vertically() && s.stretch is Part) ==> s.spec_physical_size(
            anchor,
            area,
            margin,
        ).width == clamp(s.stretch->width as int, 1, stretch_cap(area.size.width, margin)) as u32,
        (anchor.spec_runs_vertically() && s.stretch == Stretch::Full) ==> s.spec_physical_size(
            anchor,
            area,
            margin,
        ).height == clamp(area.size.height as int, 1, stretch_cap(area.size.height, margin)) as u32,
        (anchor.spec_runs_vertically() && s.stretch is Part) ==> s.spec_physical_size(
            anchor,
            area,
            margin,
        ).height == clamp(s.stretch->height as int, 1, stretch_cap(area.size.height, margin))
            as u32,
{
}

/// While filling, only the thickness matters: two shapes that differ only in
/// their declared length along the docked edge land the same size in an edge
/// slot.
pub proof fn lemma_fill_ignores_declared_length(
    a: Shape,
    b: Shape,
    anchor: Anchor,
    area: Area,
    margin: i32,
)
    requires
        a.stretch == b.stretch,
        a.stretch != Stretch::Keep,
        anchor.spec_is_side(),
        anchor.spec_runs_vertically() ==> a.spec_size_in(anchor).width == b.spec_size_in(
            anchor,
        ).width,
        !anchor.spec_runs_vertically() ==> a.spec_size_in(anchor).height == b.spec_size_in(
            anchor,
        ).height,
    ensures
        a.spec_physical_size(anchor, area, margin) == b.spec_physical_size(anchor, area, margin),
{
}

} // verus!
