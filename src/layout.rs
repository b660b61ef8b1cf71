//! Where a docked overlay is anchored.

use vstd::prelude::*;
use crate::config::{DockPosition, ScreenEdge};

verus! {

/// The anchors of a docked overlay.
pub struct DockAnchors {
    /// The screen edge the overlay sits on.
    pub primary: ScreenEdge,
    /// When stretched: the two edges across the primary one.
    pub stretch: Option<(ScreenEdge, ScreenEdge)>,
    /// When offset: the edge the offset is measured from, and the offset in pixels.
    pub offset: Option<(ScreenEdge, i32)>,
}

/// Where the primary edge starts: left for a horizontal edge, top for a vertical one.
pub open spec fn across_start(edge: ScreenEdge) -> ScreenEdge {
    match edge {
        ScreenEdge::Top | ScreenEdge::Bottom => ScreenEdge::Left,
        ScreenEdge::Left | ScreenEdge::Right => ScreenEdge::Top,
    }
}

/// Where the primary edge ends: right for a horizontal edge, bottom for a vertical one.
pub open spec fn across_end(edge: ScreenEdge) -> ScreenEdge {
    match edge {
        ScreenEdge::Top | ScreenEdge::Bottom => ScreenEdge::Right,
        ScreenEdge::Left | ScreenEdge::Right => ScreenEdge::Bottom,
    }
}

/// The anchors for an overlay docked on `edge` at `position`: always the
/// edge itself; a stretched overlay also both edges across it; an offset
/// overlay also the edge where the primary one starts, with the offset as
/// its margin. A centred overlay is anchored to its edge alone.
pub fn dock_anchors(edge: ScreenEdge, position: DockPosition) -> (r: DockAnchors)
    ensures
        r.primary == edge,
        position == DockPosition::Stretch ==> r.stretch == Some((across_start(edge), across_end(edge))),
        position != DockPosition::Stretch ==> r.stretch is None,
        position matches DockPosition::Offset(px) ==> r.offset == Some((across_start(edge), px)),
        !(position is Offset) ==> r.offset is None,
{
    let (start, end) = match edge {
        ScreenEdge::Top | ScreenEdge::Bottom => (ScreenEdge::Left, ScreenEdge::Right),
        ScreenEdge::Left | ScreenEdge::Right => (ScreenEdge::Top, ScreenEdge::Bottom),
    };
    match position {
        DockPosition::Center => DockAnchors { primary: edge, stretch: None, offset: None },
        DockPosition::Stretch => DockAnchors { primary: edge, stretch: Some((start, end)), offset: None },
        DockPosition::Offset(px) => DockAnchors { primary: edge, stretch: None, offset: Some((start, px)) },
    }
}

} // verus!
