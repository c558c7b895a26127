//! Keeps a window parked against an edge or corner of the screen.
//!
//! The window can be dragged anywhere; when the drag stops it slides back to
//! whichever slot it was dropped nearest, sized for that slot. There are nine
//! slots -- four corners, the middle of each edge, and the centre -- but only
//! the four corners are offered by default.
//!
//! This crate holds the decisions: which slot, what size, what rectangle, in
//! which steps to get there, and whether the result is news. Measuring the
//! window and the monitor, and moving the window, is the caller's part.

use vstd::prelude::*;

pub mod config;
pub mod geometry;
pub mod names;
pub mod placement;
pub mod record;
pub mod report;
pub mod shape;
pub mod watcher;

pub use config::{Manage, Problem, Rules, StateRules, WindowOverride};
pub use geometry::{Anchor, ALL_ANCHORS};
pub use report::{AnchorChanged, Orientation, Placement, ANCHOR_EVENT};
pub use watcher::Watcher;

verus! {

} // verus!
