//! The spherical Mercator projection's valid domain.
use vstd::prelude::*;

use crate::{GeoBox, LngLat};
use crate::map::clamp;

verus! {

/// The largest latitude that the spherical Mercator projection shows, in
/// units of 1e-7 degree: there the projected square closes.
pub const MERCATOR_MAX_LAT: i32 = 850_511_287;

/// The largest longitude, in units of 1e-7 degree.
pub const MAX_LON: i32 = 1_800_000_000;

/// The geographic box over which the spherical Mercator projection is used.
pub open spec fn mercator_domain() -> GeoBox {
    GeoBox {
        min: LngLat { lon: (-MAX_LON) as i32, lat: (-MERCATOR_MAX_LAT) as i32 },
        max: LngLat { lon: MAX_LON, lat: MERCATOR_MAX_LAT },
    }
}

/// The spherical Mercator projection. Its forward and inverse maps are
/// computed in floating point by the caller; this type carries its domain.
#[derive(Clone, Copy, Debug, PartialEq, Eq, Structural)]
pub struct Mercator;

impl Mercator {
    /// The geographic bounds of the projection's valid domain, which avoid
    /// the poles where the projected latitude diverges.
    pub fn get_map_bounds(&self) -> (r: GeoBox)
        ensures
            r == mercator_domain(),
            r.wf(),
    {
        GeoBox {
            min: LngLat { lon: -MAX_LON, lat: -MERCATOR_MAX_LAT },
            max: LngLat { lon: MAX_LON, lat: MERCATOR_MAX_LAT },
        }
    }

    /// The point of the valid domain nearest to `c`: a center panned beyond
    /// the domain is shown from its edge.
    pub fn clamp_to_domain(&self, c: LngLat) -> (r: LngLat)
        ensures
            r.lon as int == clamp(c.lon as int, -MAX_LON, MAX_LON as int),
            r.lat as int == clamp(c.lat as int, -MERCATOR_MAX_LAT, MERCATOR_MAX_LAT as int),
            mercator_domain().contains(r),
    {
        let lon = if c.lon < -MAX_LON { -MAX_LON } else if c.lon > MAX_LON { MAX_LON } else { c.lon };
        let lat = if c.lat < -MERCATOR_MAX_LAT {
            -MERCATOR_MAX_LAT
        } else if c.lat > MERCATOR_MAX_LAT {
            MERCATOR_MAX_LAT
        } else {
            c.lat
        };
        LngLat { lon, lat }
    }
}

} // verus!
