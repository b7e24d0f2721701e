//! Grabbing the panel: it is carried by one hand until that hand lets go.

use vstd::prelude::*;

use crate::panel::{Geometry, PanelPose, PoseFrame};

verus! {

/// A hand.
#[derive(Debug, Clone, Copy, PartialEq, Eq, Hash, Structural)]
pub enum ControllerId {
    Left,
    Right,
}

/// Whether the panel is held, and how.
#[derive(Debug, Clone, Copy, PartialEq)]
pub enum GrabState<P> {
    Released,
    Held { controller: ControllerId, offset: P },
}

impl<P> GrabState<P> {
    /// The hand that holds the panel.
    pub open spec fn holder(self) -> Option<ControllerId> {
        match self {
            GrabState::Released => None,
            GrabState::Held { controller, .. } => Some(controller),
        }
    }

    /// The hand that holds the panel.
    pub fn controller(&self) -> (r: Option<ControllerId>)
        ensures
            r == self.holder(),
    {
        match self {
            GrabState::Released => None,
            GrabState::Held { controller, .. } => Some(*controller),
        }
    }

    /// Whether the panel is held.
    pub fn is_held(&self) -> (r: bool)
        ensures
            r == (self.holder() is Some),
    {
        match self {
            GrabState::Released => false,
            GrabState::Held { .. } => true,
        }
    }
}

/// The panel taken by a hand, at the place where it is.
pub fn begin_grab<G: Geometry>(
    controller: ControllerId,
    hand: G::Pose,
    panel: PanelPose<G::Pose>,
) -> (r: GrabState<G::Pose>)
    ensures
        r == (GrabState::Held { controller, offset: G::offset(hand, panel.pose) }),
{
    GrabState::Held { controller, offset: G::offset_of(hand, panel.pose) }
}

/// Where a hand carries the panel that it holds.
pub fn panel_pose_while_held<G: Geometry>(grab: GrabState<G::Pose>, hand: G::Pose) -> (r: Option<
    PanelPose<G::Pose>,
>)
    ensures
        match grab {
            GrabState::Released => r is None,
            GrabState::Held { offset, .. } => r == Some(
                PanelPose { frame: PoseFrame::World, pose: G::carried(hand, offset) },
            ),
        },
{
    match grab {
        GrabState::Released => None,
        GrabState::Held { controller: _, offset } => Some(PanelPose::world(G::carry(hand, offset))),
    }
}

/// The panel let go.
pub fn release_grab<P>() -> (r: GrabState<P>)
    ensures
        r == GrabState::<P>::Released,
{
    GrabState::Released
}

} // verus!
