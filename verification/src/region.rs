//! Rectangles of whole pixels.

use vstd::prelude::*;

verus! {

/// A box of whole pixels: left, top, right and bottom edge, the last two not
/// included.
pub type Bounds = (u32, u32, u32, u32);

/// Whether the pixel `(x, y)` is in the box.
pub open spec fn in_bounds(bounds: Bounds, x: int, y: int) -> bool {
    bounds.0 <= x < bounds.2 && bounds.1 <= y < bounds.3
}

/// A part of the frame that has to be drawn anew.
#[derive(Clone, Copy, Debug, PartialEq, Eq, Structural)]
pub struct DirtyRegion {
    /// Left edge.
    pub x: u32,
    /// Top edge.
    pub y: u32,
    /// Width in pixels.
    pub width: u32,
    /// Height in pixels.
    pub height: u32,
}

impl DirtyRegion {
    /// Whether the pixel `(x, y)` is in the region.
    pub open spec fn contains(self, x: int, y: int) -> bool {
        self.x <= x < self.x + self.width && self.y <= y < self.y + self.height
    }

    /// Whether the half-open extents of the region and of `bounds` meet on
    /// both axes.
    pub open spec fn overlaps(self, bounds: Bounds) -> bool {
        bounds.0 < self.x + self.width && self.x < bounds.2 && bounds.1 < self.y
            + self.height && self.y < bounds.3
    }

    /// Whether the region and `bounds` meet.
    pub fn intersects(&self, bounds: Bounds) -> (r: bool)
        ensures
            r == self.overlaps(bounds),
    {
        let right: u64 = self.x as u64 + self.width as u64;
        let bottom: u64 = self.y as u64 + self.height as u64;
        (bounds.0 as u64) < right && self.x < bounds.2 && (bounds.1 as u64) < bottom
            && self.y < bounds.3
    }
}

/// A region and a box that share a pixel overlap, and two that overlap and are
/// not empty share one.
pub proof fn law_overlap_is_a_shared_pixel(region: DirtyRegion, bounds: Bounds)
    requires
        region.width > 0,
        region.height > 0,
        bounds.0 < bounds.2,
        bounds.1 < bounds.3,
    ensures
        region.overlaps(bounds) <==> exists|x: int, y: int| #[trigger]
            region.contains(x, y) && in_bounds(bounds, x, y),
{
    if region.overlaps(bounds) {
        let x = if region.x < bounds.0 {
            bounds.0 as int
        } else {
            region.x as int
        };
        let y = if region.y < bounds.1 {
            bounds.1 as int
        } else {
            region.y as int
        };
        assert(region.contains(x, y) && in_bounds(bounds, x, y));
    }
}

/// A region misses a box exactly where it ends left of the box or above it, or
/// starts right of it or below it, be one of them empty or not.
pub proof fn law_missing_is_lying_beside(region: DirtyRegion, bounds: Bounds)
    ensures
        !region.overlaps(bounds) <==> {
            ||| region.x + region.width <= bounds.0
            ||| region.y + region.height <= bounds.1
            ||| region.x >= bounds.2
            ||| region.y >= bounds.3
        },
{
}

} // verus!
