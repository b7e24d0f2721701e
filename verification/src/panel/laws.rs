//! What the panel promises: who holds it, where it is carried, where the cursor is.

use vstd::prelude::*;

use crate::error::Error;
use crate::panel::cursor::{
    resolve_cursor, to_pixels, CursorResolution, PixelPoint, PointerHold,
};
use crate::panel::grab::{
    begin_grab, panel_pose_while_held, release_grab, ControllerId, GrabState,
};
use crate::panel::{Geometry, Panel, PanelPose, PanelResolution};
use crate::scope::DisplayPurpose;

verus! {

/// A hand that takes the panel holds it, whichever hand it is, and carries it at the distance
/// at which it took it.
pub proof fn law_hand_that_takes_the_panel_carries_it<G: Geometry>(
    controller: ControllerId,
    hand: G::Pose,
    panel: PanelPose<G::Pose>,
    taken: GrabState<G::Pose>,
    holder: Option<ControllerId>,
    held: bool,
    later: G::Pose,
    carried: Option<PanelPose<G::Pose>>,
)
    requires
        call_ensures(begin_grab::<G>, (controller, hand, panel), taken),
        call_ensures(GrabState::<G::Pose>::controller, (&taken,), holder),
        call_ensures(GrabState::<G::Pose>::is_held, (&taken,), held),
        call_ensures(panel_pose_while_held::<G>, (taken, later), carried),
    ensures
        held,
        holder == Some(controller),
        carried matches Some(p) && p.pose == G::carried(later, G::offset(hand, panel.pose)),
{
}

/// A panel that was let go is held by no hand and carried nowhere.
pub proof fn law_panel_let_go_is_free<G: Geometry>(
    free: GrabState<G::Pose>,
    holder: Option<ControllerId>,
    held: bool,
    hand: G::Pose,
    carried: Option<PanelPose<G::Pose>>,
)
    requires
        call_ensures(release_grab::<G::Pose>, (), free),
        call_ensures(GrabState::<G::Pose>::controller, (&free,), holder),
        call_ensures(GrabState::<G::Pose>::is_held, (&free,), held),
        call_ensures(panel_pose_while_held::<G>, (free, hand), carried),
    ensures
        !held,
        holder is None,
        carried is None,
{
}

/// The cursor, where there is one, is the foot of the hand on the panel's plane. There is one
/// exactly where that lies on the panel or the button is held.
pub proof fn law_cursor_is_the_foot_of_the_hand<G: Geometry>(
    panel: &Panel<G::Size, G::Pose>,
    hand: G::Pose,
    hold: PointerHold,
    r: CursorResolution<G::Point>,
    point: Option<G::Point>,
    moves: bool,
)
    requires
        call_ensures(resolve_cursor::<G>, (panel, hand, hold), r),
        call_ensures(CursorResolution::<G::Point>::point, (r,), point),
        call_ensures(CursorResolution::<G::Point>::moves_cursor, (&r,), moves),
    ensures
        ({
            let foot = G::projected(panel@.pose.pose, hand);
            let on = G::covers(panel@.size, foot);
            &&& moves == (point is Some)
            &&& moves <==> on || hold == PointerHold::Down
            &&& point matches Some(p) ==> p == foot
            &&& r is OnPanel <==> on
            &&& r is BeyondEdgeWhileHeld <==> !on && hold == PointerHold::Down
        }),
{
}

/// A panel keeps the size, the resolution and the place that it was made with, and is the one
/// panel, for work.
pub proof fn law_panel_keeps_what_it_was_made_with<S: Copy, P: Copy>(
    size: S,
    resolution: PanelResolution,
    pose: PanelPose<P>,
    panel: Panel<S, P>,
    told_size: S,
    told_resolution: PanelResolution,
    told_pose: PanelPose<P>,
    told_purpose: DisplayPurpose,
    told_count: u8,
)
    requires
        call_ensures(Panel::<S, P>::single, (size, resolution, pose), panel),
        call_ensures(Panel::<S, P>::size, (&panel,), told_size),
        call_ensures(Panel::<S, P>::resolution, (&panel,), told_resolution),
        call_ensures(Panel::<S, P>::pose, (&panel,), told_pose),
        call_ensures(Panel::<S, P>::purpose, (&panel,), told_purpose),
        call_ensures(Panel::<S, P>::count, (&panel,), told_count),
    ensures
        told_size == size,
        told_resolution == resolution,
        told_pose == pose,
        told_purpose == DisplayPurpose::Work,
        told_count == 1,
{
}

/// A panel that is moved stands where it was put, with its size and resolution as before.
pub proof fn law_moved_panel_changes_its_place_alone<S: Copy, P: Copy>(
    panel: Panel<S, P>,
    pose: PanelPose<P>,
    moved: Panel<S, P>,
    place: PanelPose<P>,
    sizes: (S, S),
    resolutions: (PanelResolution, PanelResolution),
)
    requires
        call_ensures(Panel::<S, P>::with_pose, (panel, pose), moved),
        call_ensures(Panel::<S, P>::pose, (&moved,), place),
        call_ensures(Panel::<S, P>::size, (&panel,), sizes.0),
        call_ensures(Panel::<S, P>::size, (&moved,), sizes.1),
        call_ensures(Panel::<S, P>::resolution, (&panel,), resolutions.0),
        call_ensures(Panel::<S, P>::resolution, (&moved,), resolutions.1),
    ensures
        place == pose,
        sizes.0 == sizes.1,
        resolutions.0 == resolutions.1,
{
}

/// Every resolution with pixels in both axes can be had, as it was asked for, and no other.
pub proof fn law_resolution_has_pixels(width_px: u32, height_px: u32, r: Result<
    PanelResolution,
    Error,
>)
    requires
        call_ensures(PanelResolution::new, (width_px, height_px), r),
    ensures
        width_px * height_px != 0 ==> r is Ok,
        width_px * height_px == 0 ==> r is Err,
        r matches Ok(p) ==> p.width_px == width_px && p.height_px == height_px,
{
    assert(width_px * height_px == 0 <==> width_px == 0 || height_px == 0) by (nonlinear_arith);
}

/// Points of a panel have their pixels in its own size and resolution.
pub proof fn law_pixels_are_those_of_the_panel<G: Geometry>(
    size: G::Size,
    resolution: PanelResolution,
    pose: PanelPose<G::Pose>,
    panel: Panel<G::Size, G::Pose>,
    point: G::Point,
    a: PixelPoint,
    b: PixelPoint,
)
    requires
        call_ensures(Panel::<G::Size, G::Pose>::single, (size, resolution, pose), panel),
        call_ensures(to_pixels::<G>, (&panel, point), a),
        call_ensures(G::pixel_of, (size, resolution, point), b),
    ensures
        a == b,
{
}

} // verus!
