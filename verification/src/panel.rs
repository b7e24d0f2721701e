//! The panel: one flat work surface that stands in the world.
//!
//! The arithmetic of poses and projections is that of a [`Geometry`].

use vstd::prelude::*;

use crate::error::{plain_error, DetailView, Error, ErrorCode};
use crate::id::TraceId;
use crate::panel::cursor::PixelPoint;
use crate::scope::{DisplayPurpose, V1_PANEL_COUNT};

pub mod cursor;
pub mod grab;
pub mod laws;
pub mod testing;

verus! {

/// What a pose is relative to: the world, and nothing else.
#[derive(Debug, Clone, Copy, PartialEq, Eq, Hash, Structural)]
pub enum PoseFrame {
    World,
}

impl PoseFrame {
    /// Every frame.
    pub const ALL: [PoseFrame; 1] = [PoseFrame::World];
}

/// The resolution of a panel, non-zero in both axes when made by
/// [`PanelResolution::new`].
#[derive(Debug, Clone, Copy, PartialEq, Eq, Structural)]
pub struct PanelResolution {
    pub width_px: u32,
    pub height_px: u32,
}

impl PanelResolution {
    /// A resolution; zero in either axis is refused.
    pub fn new(width_px: u32, height_px: u32) -> (r: Result<Self, Error>)
        ensures
            r is Ok <==> width_px > 0 && height_px > 0,
            r matches Ok(p) ==> p == (PanelResolution { width_px, height_px }),
            r matches Err(e) ==> e@ == plain_error(
                ErrorCode::InvalidArgument,
                "panel resolution must be non-zero in both axes"@,
            ).with("width_px"@, DetailView::Int(width_px as int)).with(
                "height_px"@,
                DetailView::Int(height_px as int),
            ),
    {
        if width_px == 0 || height_px == 0 {
            return Err(
                Error::new(
                    ErrorCode::InvalidArgument,
                    "panel resolution must be non-zero in both axes",
                    TraceId::unattributed(),
                ).with_detail("width_px", width_px as i64).with_detail(
                    "height_px",
                    height_px as i64,
                ),
            );
        }
        Ok(PanelResolution { width_px, height_px })
    }

    /// The resolution that a panel has unless told otherwise.
    pub fn default_resolution() -> (r: Self)
        ensures
            r == (PanelResolution { width_px: 1920, height_px: 1080 }),
    {
        PanelResolution { width_px: 1920, height_px: 1080 }
    }
}

/// Where a panel stands: a pose in the world.
#[derive(Debug, Clone, Copy, PartialEq)]
pub struct PanelPose<P> {
    pub frame: PoseFrame,
    pub pose: P,
}

impl<P> PanelPose<P> {
    /// A pose in the world.
    pub fn world(pose: P) -> (r: Self)
        ensures
            r == (PanelPose { frame: PoseFrame::World, pose }),
    {
        PanelPose { frame: PoseFrame::World, pose }
    }
}

/// The panel: its size, its resolution, where it stands, and what it is for.
#[derive(Debug, Clone, Copy, PartialEq)]
pub struct Panel<S, P> {
    size: S,
    resolution: PanelResolution,
    pose: PanelPose<P>,
    purpose: DisplayPurpose,
}

/// What a [`Panel`] holds.
pub struct PanelView<S, P> {
    pub size: S,
    pub resolution: PanelResolution,
    pub pose: PanelPose<P>,
}

impl<S, P> View for Panel<S, P> {
    type V = PanelView<S, P>;

    closed spec fn view(&self) -> PanelView<S, P> {
        PanelView { size: self.size, resolution: self.resolution, pose: self.pose }
    }
}

impl<S, P> Panel<S, P> {
    /// The one panel.
    pub fn single(size: S, resolution: PanelResolution, pose: PanelPose<P>) -> (r: Self)
        ensures
            r@ == (PanelView { size, resolution, pose }),
    {
        Panel { size, resolution, pose, purpose: DisplayPurpose::Work }
    }

    /// Its resolution.
    pub fn resolution(&self) -> (r: PanelResolution)
        ensures
            r == self@.resolution,
    {
        self.resolution
    }

    /// What it is for: work.
    pub fn purpose(&self) -> (r: DisplayPurpose)
        ensures
            r == DisplayPurpose::Work,
    {
        self.purpose
    }

    /// How many panels there are: one.
    pub fn count(&self) -> (r: u8)
        ensures
            r == 1,
    {
        V1_PANEL_COUNT
    }

    /// The same panel at another place.
    pub fn with_pose(self, pose: PanelPose<P>) -> (r: Self)
        ensures
            r@ == (PanelView { pose, ..self@ }),
    {
        Panel { size: self.size, resolution: self.resolution, pose, purpose: self.purpose }
    }
}

impl<S: Copy, P: Copy> Panel<S, P> {
    /// Its size.
    pub fn size(&self) -> (r: S)
        ensures
            r == self@.size,
    {
        self.size
    }

    /// Where it stands.
    pub fn pose(&self) -> (r: PanelPose<P>)
        ensures
            r == self@.pose,
    {
        self.pose
    }
}

/// The arithmetic of poses and of points on a panel.
pub trait Geometry: Sized {
    type Size: Copy;

    type Pose: Copy;

    type Point: Copy;

    /// The pose of a panel as seen from a hand.
    open spec fn offset(hand: Self::Pose, panel: Self::Pose) -> Self::Pose {
        arbitrary()
    }

    /// The pose of what stands at `offset` as seen from a hand.
    open spec fn carried(hand: Self::Pose, offset: Self::Pose) -> Self::Pose {
        arbitrary()
    }

    /// The foot of the perpendicular from a hand onto the plane of a panel.
    open spec fn projected(panel: Self::Pose, hand: Self::Pose) -> Self::Point {
        arbitrary()
    }

    /// Whether a point of the plane lies on a panel of the given size.
    open spec fn covers(size: Self::Size, point: Self::Point) -> bool {
        arbitrary()
    }

    /// The pixel of a point of the plane.
    open spec fn pixel(size: Self::Size, resolution: PanelResolution, point: Self::Point) -> PixelPoint {
        arbitrary()
    }

    fn offset_of(hand: Self::Pose, panel: Self::Pose) -> (r: Self::Pose)
        ensures
            r == Self::offset(hand, panel),
    ;

    fn carry(hand: Self::Pose, offset: Self::Pose) -> (r: Self::Pose)
        ensures
            r == Self::carried(hand, offset),
    ;

    fn project(panel: Self::Pose, hand: Self::Pose) -> (r: Self::Point)
        ensures
            r == Self::projected(panel, hand),
    ;

    fn is_covered(size: Self::Size, point: Self::Point) -> (r: bool)
        ensures
            r == Self::covers(size, point),
    ;

    fn pixel_of(size: Self::Size, resolution: PanelResolution, point: Self::Point) -> (r: PixelPoint)
        ensures
            r == Self::pixel(size, resolution, point),
    ;
}

} // verus!
