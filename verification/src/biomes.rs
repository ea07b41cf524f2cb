//! This module provides functions for getting the color at certain
//! points in the fixed biome gradients. The gradients represent the
//! colors used for different biomes on the map and the final colors are
//! chosen based on elevation and moisture.
use crate::color::{spec_gradient_at, Gradient, Rgb8};
use vstd::prelude::*;

verus! {

/// The color stops of the ocean biome gradient (#0a46ad to #35d6f2).
pub open spec fn ocean_stops() -> Seq<Rgb8> {
    seq![Rgb8 { r: 0x0a, g: 0x46, b: 0xad }, Rgb8 { r: 0x35, g: 0xd6, b: 0xf2 }]
}

/// Gets the color at `x` in the ocean biome gradient.
pub fn ocean(x: i64) -> (c: Rgb8)
    ensures
        c == spec_gradient_at(ocean_stops(), x as int),
{
    let g = Gradient::from_pair(Rgb8 { r: 0x0a, g: 0x46, b: 0xad }, Rgb8 { r: 0x35, g: 0xd6, b: 0xf2 });
    proof {
        assert(g.stops() =~= ocean_stops());
    }
    g.at(x)
}

/// The color stops of the scorched biome gradient (#3b3b3b to #6e6e6e).
pub open spec fn scorched_stops() -> Seq<Rgb8> {
    seq![Rgb8 { r: 0x3b, g: 0x3b, b: 0x3b }, Rgb8 { r: 0x6e, g: 0x6e, b: 0x6e }]
}

/// Gets the color at `x` in the scorched biome gradient.
pub fn scorched(x: i64) -> (c: Rgb8)
    ensures
        c == spec_gradient_at(scorched_stops(), x as int),
{
    let g = Gradient::from_pair(Rgb8 { r: 0x3b, g: 0x3b, b: 0x3b }, Rgb8 { r: 0x6e, g: 0x6e, b: 0x6e });
    proof {
        assert(g.stops() =~= scorched_stops());
    }
    g.at(x)
}

/// The color stops of the bare biome gradient (#7a7a7a to #a8a8a8).
pub open spec fn bare_stops() -> Seq<Rgb8> {
    seq![Rgb8 { r: 0x7a, g: 0x7a, b: 0x7a }, Rgb8 { r: 0xa8, g: 0xa8, b: 0xa8 }]
}

/// Gets the color at `x` in the bare biome gradient.
pub fn bare(x: i64) -> (c: Rgb8)
    ensures
        c == spec_gradient_at(bare_stops(), x as int),
{
    let g = Gradient::from_pair(Rgb8 { r: 0x7a, g: 0x7a, b: 0x7a }, Rgb8 { r: 0xa8, g: 0xa8, b: 0xa8 });
    proof {
        assert(g.stops() =~= bare_stops());
    }
    g.at(x)
}

/// The color stops of the tundra biome gradient (#adad9c to #d1cfba).
pub open spec fn tundra_stops() -> Seq<Rgb8> {
    seq![Rgb8 { r: 0xad, g: 0xad, b: 0x9c }, Rgb8 { r: 0xd1, g: 0xcf, b: 0xba }]
}

/// Gets the color at `x` in the tundra biome gradient.
pub fn tundra(x: i64) -> (c: Rgb8)
    ensures
        c == spec_gradient_at(tundra_stops(), x as int),
{
    let g = Gradient::from_pair(Rgb8 { r: 0xad, g: 0xad, b: 0x9c }, Rgb8 { r: 0xd1, g: 0xcf, b: 0xba });
    proof {
        assert(g.stops() =~= tundra_stops());
    }
    g.at(x)
}

/// The color stops of the snow biome gradient (#ceced6 to #e6e6f0).
pub open spec fn snow_stops() -> Seq<Rgb8> {
    seq![Rgb8 { r: 0xce, g: 0xce, b: 0xd6 }, Rgb8 { r: 0xe6, g: 0xe6, b: 0xf0 }]
}

/// Gets the color at `x` in the snow biome gradient.
pub fn snow(x: i64) -> (c: Rgb8)
    ensures
        c == spec_gradient_at(snow_stops(), x as int),
{
    let g = Gradient::from_pair(Rgb8 { r: 0xce, g: 0xce, b: 0xd6 }, Rgb8 { r: 0xe6, g: 0xe6, b: 0xf0 });
    proof {
        assert(g.stops() =~= snow_stops());
    }
    g.at(x)
}

/// The color stops of the temperate desert biome gradient (#bcc491 to #d4dea2).
pub open spec fn temperate_desert_stops() -> Seq<Rgb8> {
    seq![Rgb8 { r: 0xbc, g: 0xc4, b: 0x91 }, Rgb8 { r: 0xd4, g: 0xde, b: 0xa2 }]
}

/// Gets the color at `x` in the temperate desert biome gradient.
pub fn temperate_desert(x: i64) -> (c: Rgb8)
    ensures
        c == spec_gradient_at(temperate_desert_stops(), x as int),
{
    let g = Gradient::from_pair(Rgb8 { r: 0xbc, g: 0xc4, b: 0x91 }, Rgb8 { r: 0xd4, g: 0xde, b: 0xa2 });
    proof {
        assert(g.stops() =~= temperate_desert_stops());
    }
    g.at(x)
}

/// The color stops of the shrubland biome gradient (#7d8c6d to #9aad86).
pub open spec fn shrubland_stops() -> Seq<Rgb8> {
    seq![Rgb8 { r: 0x7d, g: 0x8c, b: 0x6d }, Rgb8 { r: 0x9a, g: 0xad, b: 0x86 }]
}

/// Gets the color at `x` in the shrubland biome gradient.
pub fn shrubland(x: i64) -> (c: Rgb8)
    ensures
        c == spec_gradient_at(shrubland_stops(), x as int),
{
    let g = Gradient::from_pair(Rgb8 { r: 0x7d, g: 0x8c, b: 0x6d }, Rgb8 { r: 0x9a, g: 0xad, b: 0x86 });
    proof {
        assert(g.stops() =~= shrubland_stops());
    }
    g.at(x)
}

/// The color stops of the taiga biome gradient (#8a996b to #a1b37d).
pub open spec fn taiga_stops() -> Seq<Rgb8> {
    seq![Rgb8 { r: 0x8a, g: 0x99, b: 0x6b }, Rgb8 { r: 0xa1, g: 0xb3, b: 0x7d }]
}

/// Gets the color at `x` in the taiga biome gradient.
pub fn taiga(x: i64) -> (c: Rgb8)
    ensures
        c == spec_gradient_at(taiga_stops(), x as int),
{
    let g = Gradient::from_pair(Rgb8 { r: 0x8a, g: 0x99, b: 0x6b }, Rgb8 { r: 0xa1, g: 0xb3, b: 0x7d });
    proof {
        assert(g.stops() =~= taiga_stops());
    }
    g.at(x)
}

/// The color stops of the grassland biome gradient (#81a150 to #99bf5e).
pub open spec fn grassland_stops() -> Seq<Rgb8> {
    seq![Rgb8 { r: 0x81, g: 0xa1, b: 0x50 }, Rgb8 { r: 0x99, g: 0xbf, b: 0x5e }]
}

/// Gets the color at `x` in the grassland biome gradient.
pub fn grassland(x: i64) -> (c: Rgb8)
    ensures
        c == spec_gradient_at(grassland_stops(), x as int),
{
    let g = Gradient::from_pair(Rgb8 { r: 0x81, g: 0xa1, b: 0x50 }, Rgb8 { r: 0x99, g: 0xbf, b: 0x5e });
    proof {
        assert(g.stops() =~= grassland_stops());
    }
    g.at(x)
}

/// The color stops of the temperate deciduous forest biome gradient (#5e8751 to #73a663).
pub open spec fn temperate_deciduous_forest_stops() -> Seq<Rgb8> {
    seq![Rgb8 { r: 0x5e, g: 0x87, b: 0x51 }, Rgb8 { r: 0x73, g: 0xa6, b: 0x63 }]
}

/// Gets the color at `x` in the temperate deciduous forest biome gradient.
pub fn temperate_deciduous_forest(x: i64) -> (c: Rgb8)
    ensures
        c == spec_gradient_at(temperate_deciduous_forest_stops(), x as int),
{
    let g = Gradient::from_pair(Rgb8 { r: 0x5e, g: 0x87, b: 0x51 }, Rgb8 { r: 0x73, g: 0xa6, b: 0x63 });
    proof {
        assert(g.stops() =~= temperate_deciduous_forest_stops());
    }
    g.at(x)
}

/// The color stops of the temperate rain forest biome gradient (#3b784b to #47915b).
pub open spec fn temperate_rain_forest_stops() -> Seq<Rgb8> {
    seq![Rgb8 { r: 0x3b, g: 0x78, b: 0x4b }, Rgb8 { r: 0x47, g: 0x91, b: 0x5b }]
}

/// Gets the color at `x` in the temperate rain forest biome gradient.
pub fn temperate_rain_forest(x: i64) -> (c: Rgb8)
    ensures
        c == spec_gradient_at(temperate_rain_forest_stops(), x as int),
{
    let g = Gradient::from_pair(Rgb8 { r: 0x3b, g: 0x78, b: 0x4b }, Rgb8 { r: 0x47, g: 0x91, b: 0x5b });
    proof {
        assert(g.stops() =~= temperate_rain_forest_stops());
    }
    g.at(x)
}

/// The color stops of the subtropical desert biome gradient (#827356 to #a6926c).
pub open spec fn subtropical_desert_stops() -> Seq<Rgb8> {
    seq![Rgb8 { r: 0x82, g: 0x73, b: 0x56 }, Rgb8 { r: 0xa6, g: 0x92, b: 0x6c }]
}

/// Gets the color at `x` in the subtropical desert biome gradient.
pub fn subtropical_desert(x: i64) -> (c: Rgb8)
    ensures
        c == spec_gradient_at(subtropical_desert_stops(), x as int),
{
    let g = Gradient::from_pair(Rgb8 { r: 0x82, g: 0x73, b: 0x56 }, Rgb8 { r: 0xa6, g: 0x92, b: 0x6c });
    proof {
        assert(g.stops() =~= subtropical_desert_stops());
    }
    g.at(x)
}

/// The color stops of the tropical seasonal forest biome gradient (#4d873d to #5a9e47).
pub open spec fn tropical_seasonal_forest_stops() -> Seq<Rgb8> {
    seq![Rgb8 { r: 0x4d, g: 0x87, b: 0x3d }, Rgb8 { r: 0x5a, g: 0x9e, b: 0x47 }]
}

/// Gets the color at `x` in the tropical seasonal forest biome gradient.
pub fn tropical_seasonal_forest(x: i64) -> (c: Rgb8)
    ensures
        c == spec_gradient_at(tropical_seasonal_forest_stops(), x as int),
{
    let g = Gradient::from_pair(Rgb8 { r: 0x4d, g: 0x87, b: 0x3d }, Rgb8 { r: 0x5a, g: 0x9e, b: 0x47 });
    proof {
        assert(g.stops() =~= tropical_seasonal_forest_stops());
    }
    g.at(x)
}

/// The color stops of the tropical rain forest biome gradient (#2c694a to #348059).
pub open spec fn tropical_rain_forest_stops() -> Seq<Rgb8> {
    seq![Rgb8 { r: 0x2c, g: 0x69, b: 0x4a }, Rgb8 { r: 0x34, g: 0x80, b: 0x59 }]
}

/// Gets the color at `x` in the tropical rain forest biome gradient.
pub fn tropical_rain_forest(x: i64) -> (c: Rgb8)
    ensures
        c == spec_gradient_at(tropical_rain_forest_stops(), x as int),
{
    let g = Gradient::from_pair(Rgb8 { r: 0x2c, g: 0x69, b: 0x4a }, Rgb8 { r: 0x34, g: 0x80, b: 0x59 });
    proof {
        assert(g.stops() =~= tropical_rain_forest_stops());
    }
    g.at(x)
}

} // verus!
