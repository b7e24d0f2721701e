//! The cursor: the hand projected onto the plane of the panel.

use vstd::prelude::*;

use crate::panel::{Geometry, Panel};

verus! {

/// A pixel of the panel. Points beyond an edge have pixels beyond it.
#[derive(Debug, Clone, Copy, PartialEq, Eq, Structural)]
pub struct PixelPoint {
    pub x: i32,
    pub y: i32,
}

/// Whether the pointer's button is held.
#[derive(Debug, Clone, Copy, PartialEq, Eq, Hash, Structural)]
pub enum PointerHold {
    Up,
    Down,
}

/// Where the cursor is.
#[derive(Debug, Clone, Copy, PartialEq)]
pub enum CursorResolution<T> {
    /// On the panel.
    OnPanel(T),
    /// Beyond an edge, and followed because the button is held.
    BeyondEdgeWhileHeld(T),
    /// Nowhere.
    OffPanel,
}

impl<T> CursorResolution<T> {
    /// The point that the cursor is at, where it is anywhere.
    pub open spec fn at(self) -> Option<T> {
        match self {
            CursorResolution::OnPanel(p) => Some(p),
            CursorResolution::BeyondEdgeWhileHeld(p) => Some(p),
            CursorResolution::OffPanel => None,
        }
    }

    /// The point that the cursor is at, where it is anywhere.
    pub fn point(self) -> (r: Option<T>)
        ensures
            r == self.at(),
    {
        match self {
            CursorResolution::OnPanel(p) => Some(p),
            CursorResolution::BeyondEdgeWhileHeld(p) => Some(p),
            CursorResolution::OffPanel => None,
        }
    }

    /// Whether the cursor moves.
    pub fn moves_cursor(&self) -> (r: bool)
        ensures
            r == (self.at() is Some),
    {
        match self {
            CursorResolution::OnPanel(_) => true,
            CursorResolution::BeyondEdgeWhileHeld(_) => true,
            CursorResolution::OffPanel => false,
        }
    }
}

/// Where the cursor of a hand is: on the panel, or beyond an edge while the
/// button is held, or nowhere.
pub open spec fn cursor_at<G: Geometry>(
    size: G::Size,
    panel: G::Pose,
    hand: G::Pose,
    hold: PointerHold,
) -> CursorResolution<G::Point> {
    let point = G::projected(panel, hand);
    if G::covers(size, point) {
        CursorResolution::OnPanel(point)
    } else if hold == PointerHold::Down {
        CursorResolution::BeyondEdgeWhileHeld(point)
    } else {
        CursorResolution::OffPanel
    }
}

/// Where the cursor of a hand is.
pub fn resolve_cursor<G: Geometry>(
    panel: &Panel<G::Size, G::Pose>,
    hand: G::Pose,
    hold: PointerHold,
) -> (r: CursorResolution<G::Point>)
    ensures
        r == cursor_at::<G>(panel@.size, panel@.pose.pose, hand, hold),
{
    let point = G::project(panel.pose().pose, hand);
    if G::is_covered(panel.size(), point) {
        CursorResolution::OnPanel(point)
    } else {
        match hold {
            PointerHold::Down => CursorResolution::BeyondEdgeWhileHeld(point),
            PointerHold::Up => CursorResolution::OffPanel,
        }
    }
}

/// The pixel of a point of the panel's plane.
pub fn to_pixels<G: Geometry>(panel: &Panel<G::Size, G::Pose>, point: G::Point) -> (r: PixelPoint)
    ensures
        r == G::pixel(panel@.size, panel@.resolution, point),
{
    G::pixel_of(panel.size(), panel.resolution(), point)
}

/// Beyond an edge the cursor is followed exactly while the button is held.
pub proof fn law_beyond_the_edge_only_while_held<G: Geometry>(
    size: G::Size,
    panel: G::Pose,
    hand: G::Pose,
    hold: PointerHold,
)
    requires
        !G::covers(size, G::projected(panel, hand)),
    ensures
        cursor_at::<G>(size, panel, hand, hold).at() is Some <==> hold == PointerHold::Down,
{
}

/// On the panel the cursor does not depend on the button.
pub proof fn law_on_the_panel_whatever_the_button<G: Geometry>(
    size: G::Size,
    panel: G::Pose,
    hand: G::Pose,
    a: PointerHold,
    b: PointerHold,
)
    requires
        G::covers(size, G::projected(panel, hand)),
    ensures
        cursor_at::<G>(size, panel, hand, a) == cursor_at::<G>(size, panel, hand, b),
{
}

} // verus!
