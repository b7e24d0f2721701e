//! A geometry of whole steps, without rotation.

use vstd::prelude::*;

use crate::panel::cursor::PixelPoint;
use crate::panel::{Geometry, PanelResolution};

verus! {

/// A place on the grid.
#[derive(Debug, Clone, Copy, PartialEq, Eq, Structural)]
pub struct GridPose {
    pub x: i16,
    pub y: i16,
    pub z: i16,
}

/// Half the extent of a panel, in steps.
#[derive(Debug, Clone, Copy, PartialEq, Eq, Structural)]
pub struct GridSize {
    pub half_width: u16,
    pub half_height: u16,
}

/// A point of the plane of a panel, in steps from its centre.
#[derive(Debug, Clone, Copy, PartialEq, Eq, Structural)]
pub struct GridPoint {
    pub u: i32,
    pub v: i32,
}

/// Poses on a grid that wraps around, panels that face along the third axis, one
/// pixel for each step.
#[derive(Debug)]
pub struct GridGeometry;

impl Geometry for GridGeometry {
    type Size = GridSize;

    type Pose = GridPose;

    type Point = GridPoint;

    open spec fn offset(hand: GridPose, panel: GridPose) -> GridPose {
        GridPose {
            x: panel.x.wrapping_sub(hand.x),
            y: panel.y.wrapping_sub(hand.y),
            z: panel.z.wrapping_sub(hand.z),
        }
    }

    open spec fn carried(hand: GridPose, offset: GridPose) -> GridPose {
        GridPose {
            x: hand.x.wrapping_add(offset.x),
            y: hand.y.wrapping_add(offset.y),
            z: hand.z.wrapping_add(offset.z),
        }
    }

    open spec fn projected(panel: GridPose, hand: GridPose) -> GridPoint {
        GridPoint { u: (hand.x - panel.x) as i32, v: (hand.y - panel.y) as i32 }
    }

    open spec fn covers(size: GridSize, point: GridPoint) -> bool {
        &&& -(size.half_width as int) <= point.u <= size.half_width
        &&& -(size.half_height as int) <= point.v <= size.half_height
    }

    open spec fn pixel(size: GridSize, resolution: PanelResolution, point: GridPoint) -> PixelPoint {
        PixelPoint {
            x: point.u.wrapping_add(size.half_width as i32),
            y: (size.half_height as i32).wrapping_sub(point.v),
        }
    }

    fn offset_of(hand: GridPose, panel: GridPose) -> (r: GridPose) {
        GridPose {
            x: panel.x.wrapping_sub(hand.x),
            y: panel.y.wrapping_sub(hand.y),
            z: panel.z.wrapping_sub(hand.z),
        }
    }

    fn carry(hand: GridPose, offset: GridPose) -> (r: GridPose) {
        GridPose {
            x: hand.x.wrapping_add(offset.x),
            y: hand.y.wrapping_add(offset.y),
            z: hand.z.wrapping_add(offset.z),
        }
    }

    fn project(panel: GridPose, hand: GridPose) -> (r: GridPoint) {
        GridPoint { u: hand.x as i32 - panel.x as i32, v: hand.y as i32 - panel.y as i32 }
    }

    fn is_covered(size: GridSize, point: GridPoint) -> (r: bool) {
        let w: i32 = size.half_width as i32;
        let h: i32 = size.half_height as i32;
        -w <= point.u && point.u <= w && -h <= point.v && point.v <= h
    }

    fn pixel_of(size: GridSize, resolution: PanelResolution, point: GridPoint) -> (r: PixelPoint) {
        PixelPoint {
            x: point.u.wrapping_add(size.half_width as i32),
            y: (size.half_height as i32).wrapping_sub(point.v),
        }
    }
}

/// On the grid, a panel that is taken and not moved stays where it is.
pub proof fn law_grid_grab_without_moving(hand: GridPose, panel: GridPose)
    ensures
        GridGeometry::carried(hand, GridGeometry::offset(hand, panel)) == panel,
{
}

} // verus!
