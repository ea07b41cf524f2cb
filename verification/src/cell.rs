//! This module provides a [`Cell`] representing a single point
//! on a 2D world map.
use crate::biomes::{
    bare_stops, grassland_stops, scorched_stops, shrubland_stops, snow_stops,
    subtropical_desert_stops, taiga_stops, temperate_deciduous_forest_stops,
    temperate_desert_stops, temperate_rain_forest_stops, tropical_rain_forest_stops,
    tropical_seasonal_forest_stops, tundra_stops,
};
use crate::biomes::{
    bare, grassland, ocean, ocean_stops, scorched, shrubland, snow, subtropical_desert, taiga,
    temperate_deciduous_forest, temperate_desert, temperate_rain_forest, tropical_rain_forest,
    tropical_seasonal_forest, tundra,
};
use crate::color::{clamp_unit, spec_gradient_at, GetColor, Rgb8};
use crate::utils::{normalize, spec_normalize, SCALE};
use vstd::prelude::*;

verus! {

/// A struct representing a single point on a world map.
#[derive(Debug, Clone, Copy, PartialEq, Eq, Structural)]
pub struct Cell {
    /// The elevation at a point on the map, as a fixed-point factor:
    /// usually normalized from 0 to [`SCALE`].
    pub elevation: i64,
    /// The moisture at a point on the map, as a fixed-point factor:
    /// usually normalized from 0 to [`SCALE`].
    pub moisture: i64,
}

/// The biome color of a cell: its elevation picks an elevation band, the
/// moisture picks a biome gradient within that band, and the elevation's
/// position within the band picks the color inside the gradient. Factors
/// outside the unit range are clamped to it first, so a cell slightly
/// above the top band still falls deterministically in the top band.
pub open spec fn spec_cell_color(cell: Cell) -> Rgb8 {
    let e = clamp_unit(cell.elevation as int);
    let m = clamp_unit(cell.moisture as int);
    if e < 100_000 {
        spec_gradient_at(ocean_stops(), spec_normalize(e, 0, 100_000))
    } else if e < 120_000 {
        // the beach: the fixed color #01c7dd
        Rgb8 { r: 0x01, g: 0xc7, b: 0xdd }
    } else if e < 300_000 {
        let v = spec_normalize(e, 120_000, 300_000);
        if m < 160_000 {
            spec_gradient_at(subtropical_desert_stops(), v)
        } else if m < 330_000 {
            spec_gradient_at(grassland_stops(), v)
        } else if m < 830_000 {
            spec_gradient_at(tropical_seasonal_forest_stops(), v)
        } else {
            spec_gradient_at(tropical_rain_forest_stops(), v)
        }
    } else if e < 600_000 {
        let v = spec_normalize(e, 300_000, 600_000);
        if m < 160_000 {
            spec_gradient_at(temperate_desert_stops(), v)
        } else if m < 500_000 {
            spec_gradient_at(grassland_stops(), v)
        } else if m < 830_000 {
            spec_gradient_at(temperate_deciduous_forest_stops(), v)
        } else {
            spec_gradient_at(temperate_rain_forest_stops(), v)
        }
    } else if e < 800_000 {
        let v = spec_normalize(e, 600_000, 800_000);
        if m < 330_000 {
            spec_gradient_at(temperate_desert_stops(), v)
        } else if m < 660_000 {
            spec_gradient_at(shrubland_stops(), v)
        } else {
            spec_gradient_at(taiga_stops(), v)
        }
    } else {
        let v = spec_normalize(e, 800_000, SCALE as int);
        if m < 100_000 {
            spec_gradient_at(scorched_stops(), v)
        } else if m < 200_000 {
            spec_gradient_at(bare_stops(), v)
        } else if m < 500_000 {
            spec_gradient_at(tundra_stops(), v)
        } else {
            spec_gradient_at(snow_stops(), v)
        }
    }
}

impl Cell {
    /// Uses the elevation and moisture to get a color representing the
    /// biome for this cell, as [`spec_cell_color`] lays it out.
    pub fn get_color(&self) -> (c: Rgb8)
        ensures
            c == spec_cell_color(*self),
    {
        let e: i64 = if self.elevation < 0 {
            0
        } else if self.elevation > SCALE {
            SCALE
        } else {
            self.elevation
        };
        let m: i64 = if self.moisture < 0 {
            0
        } else if self.moisture > SCALE {
            SCALE
        } else {
            self.moisture
        };
        if e < 100_000 {
            ocean(normalize(e, 0, 100_000))
        } else if e < 120_000 {
            Rgb8 { r: 0x01, g: 0xc7, b: 0xdd }
        } else if e < 300_000 {
            let v = normalize(e, 120_000, 300_000);
            if m < 160_000 {
                subtropical_desert(v)
            } else if m < 330_000 {
                grassland(v)
            } else if m < 830_000 {
                tropical_seasonal_forest(v)
            } else {
                tropical_rain_forest(v)
            }
        } else if e < 600_000 {
            let v = normalize(e, 300_000, 600_000);
            if m < 160_000 {
                temperate_desert(v)
            } else if m < 500_000 {
                grassland(v)
            } else if m < 830_000 {
                temperate_deciduous_forest(v)
            } else {
                temperate_rain_forest(v)
            }
        } else if e < 800_000 {
            let v = normalize(e, 600_000, 800_000);
            if m < 330_000 {
                temperate_desert(v)
            } else if m < 660_000 {
                shrubland(v)
            } else {
                taiga(v)
            }
        } else {
            let v = normalize(e, 800_000, SCALE);
            if m < 100_000 {
                scorched(v)
            } else if m < 200_000 {
                bare(v)
            } else if m < 500_000 {
                tundra(v)
            } else {
                snow(v)
            }
        }
    }
}

impl GetColor for Cell {
    /// The biome color of the cell, through the [`GetColor`] trait.
    fn get_color(&self) -> Rgb8 {
        Cell::get_color(self)
    }
}

} // verus!
