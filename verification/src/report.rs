//! Telling the outside world where a window ended up.
//!
//! The plugin knows the answer at three moments -- the initial placement, the
//! end of a drag, and a re-park after the screen changed -- and they all funnel
//! through a [`Reporter`], one per managed window, which decides whether the
//! answer is news.

use vstd::prelude::*;

use crate::geometry::{Anchor, PhysicalSize};

verus! {

/// Event emitted when a window settles somewhere new.
pub const ANCHOR_EVENT: &'static str = "corner-snap://anchor";

/// Which way round the window is.
///
/// Measured from the size the window actually ends up with: taller than wide
/// is vertical, anything else is horizontal.
#[derive(Clone, Copy, Debug, PartialEq, Eq, Structural)]
pub enum Orientation {
    Horizontal,
    Vertical,
}

/// The orientation of a window of `size`.
pub open spec fn orientation_of(size: PhysicalSize) -> Orientation {
    if size.height > size.width {
        Orientation::Vertical
    } else {
        Orientation::Horizontal
    }
}

impl Orientation {
    /// Vertical when taller than wide; a square counts as the unturned one.
    pub fn of(size: PhysicalSize) -> (o: Self)
        ensures
            o == orientation_of(size),
    {
        if size.height > size.width {
            Orientation::Vertical
        } else {
            Orientation::Horizontal
        }
    }
}

/// A window taller than it is wide is vertical; one as wide as it is tall, or
/// wider, is horizontal; and turning a window round swaps the two, squares
/// aside.
pub proof fn lemma_orientation_follows_the_size(size: PhysicalSize)
    ensures
        size.height > size.width ==> orientation_of(size) == Orientation::Vertical,
        size.height <= size.width ==> orientation_of(size) == Orientation::Horizontal,
        size.height != size.width ==> orientation_of(size) != orientation_of(
            PhysicalSize { width: size.height, height: size.width },
        ),
{
}

/// Where a window is parked and which way round it is.
#[derive(Clone, Copy, Debug, PartialEq, Eq, Structural)]
pub struct Placement {
    pub anchor: Anchor,
    pub orientation: Orientation,
}

/// Payload of [`ANCHOR_EVENT`]: the window's label and its placement.
#[derive(Clone, Debug)]
pub struct AnchorChanged {
    pub label: String,
    pub placement: Placement,
}

impl AnchorChanged {
    pub fn new(label: &str, placement: Placement) -> (a: Self)
        ensures
            a.label@ == label@,
            a.placement == placement,
    {
        AnchorChanged { label: label.to_owned(), placement }
    }
}

/// Whether `placement` is news after `last`, and what is remembered after it.
pub open spec fn spec_note(last: Option<Placement>, placement: Placement) -> (bool, Option<Placement>) {
    (last != Some(placement), Some(placement))
}

/// The last placement reported for one window.
///
/// De-duplicating on the whole placement rather than the anchor alone:
/// either half can change without the other. There is one per window and it
/// is not copied: every path that reports on the window goes through the same
/// one, which is what keeps a placement from being announced twice.
#[derive(Debug)]
pub struct Reporter {
    last: Option<Placement>,
}

impl View for Reporter {
    type V = Option<Placement>;

    closed spec fn view(&self) -> Option<Placement> {
        self.last
    }
}

impl Reporter {
    /// A reporter that has reported nothing yet.
    pub fn new() -> (r: Self)
        ensures
            r@ is None,
    {
        Reporter { last: None }
    }

    /// Records the placement and says whether it changed.
    pub fn note(&mut self, placement: Placement) -> (news: bool)
        ensures
            (news, final(self)@) == spec_note(old(self)@, placement),
    {
        let news = match self.last {
            Some(last) => last != placement,
            None => true,
        };
        self.last = Some(placement);
        news
    }

    /// The last placement recorded, or `None` if none ever was.
    pub fn last(&self) -> (p: Option<Placement>)
        ensures
            p == self@,
    {
        self.last
    }
}

impl Default for Reporter {
    fn default() -> (r: Self)
        ensures
            r@ is None,
    {
        Reporter::new()
    }
}

/// The first placement is news; a repeat is not; and a placement differing
/// from the last one in either its anchor or its orientation is news again.
pub proof fn lemma_repeats_are_swallowed(last: Option<Placement>, p: Placement, q: Placement)
    ensures
        spec_note(None, p).0,
        !spec_note(spec_note(last, p).1, p).0,
        (p.anchor != q.anchor || p.orientation != q.orientation) ==> spec_note(
            spec_note(last, p).1,
            q,
        ).0,
        spec_note(last, p).1 == Some(p),
{
}

} // verus!
