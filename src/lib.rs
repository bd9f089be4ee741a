//! Rendering of projected vector geometry onto a character grid, with the
//! viewport model and the pan / zoom session that drive it.
//!
//! Geographic coordinates are held in fixed point (units of 1e-7 degree) and
//! projected coordinates as integers of the projection's planar unit, so that
//! every step from the visible box down to the glyphs in the grid is exact.
use vstd::prelude::*;

pub mod grid;
pub mod line;
pub mod map;
pub mod projection;
pub mod render;
pub mod session;

verus! {

/// A geographic coordinate in units of 1e-7 degree.
#[derive(Clone, Copy, Debug, PartialEq, Eq, Structural)]
pub struct LngLat {
    pub lon: i32,
    pub lat: i32,
}

/// A point of the projection's plane.
#[derive(Clone, Copy, Debug, PartialEq, Eq, Structural)]
pub struct Point {
    pub x: i32,
    pub y: i32,
}

/// An axis-aligned box of the projection's plane, from its lower-left to its
/// upper-right corner.
#[derive(Clone, Copy, Debug, PartialEq, Eq, Structural)]
pub struct BoundingBox {
    pub min: Point,
    pub max: Point,
}

/// An axis-aligned box of geographic coordinates.
#[derive(Clone, Copy, Debug, PartialEq, Eq, Structural)]
pub struct GeoBox {
    pub min: LngLat,
    pub max: LngLat,
}

/// The geometry of one feature, in projected coordinates. A vertex that the
/// projection cannot represent is `None`.
pub enum Geometry {
    /// A single position, drawn as `'*'`.
    Point(Option<Point>),
    /// Positions drawn each as `'#'`, not joined.
    LineString(Vec<Option<Point>>),
    /// Rings, each closed from its last vertex back to the first, drawn as
    /// lines of `'+'`.
    Polygon(Vec<Vec<Option<Point>>>),
    /// Polygons, drawn as `Polygon` is.
    MultiPolygon(Vec<Vec<Vec<Option<Point>>>>),
}

impl BoundingBox {
    /// The lower-left corner lies below and to the left of the upper-right one.
    pub open spec fn wf(self) -> bool {
        self.min.x <= self.max.x && self.min.y <= self.max.y
    }

    /// `p` lies in the box, borders included.
    pub open spec fn contains(self, p: Point) -> bool {
        self.min.x <= p.x <= self.max.x && self.min.y <= p.y <= self.max.y
    }

    /// This box lies inside `outer`.
    pub open spec fn within(self, outer: BoundingBox) -> bool {
        outer.contains(self.min) && outer.contains(self.max)
    }
}

impl GeoBox {
    pub open spec fn wf(self) -> bool {
        self.min.lon <= self.max.lon && self.min.lat <= self.max.lat
    }

    pub open spec fn contains(self, c: LngLat) -> bool {
        self.min.lon <= c.lon <= self.max.lon && self.min.lat <= c.lat <= self.max.lat
    }
}

} // verus!
