//! This module provides colors, gradients, and functions for getting the
//! color at certain points in a gradient. The gradients represent the
//! colors used for different biomes on the map and the final colors are
//! chosen based on elevation and moisture.
//!
//! Positions inside a gradient are fixed-point factors: 0 stands for the
//! first color stop, [`SCALE`] for the last, and the stops are evenly
//! spaced in between. A color channel between two stops is blended
//! linearly and rounded to the nearest 8-bit value.
use crate::config::{Biomes, ElevationLevel, MAX_TOTAL_WEIGHT};
use crate::utils::{
    lemma_sum_weights_bounds, lemma_sum_weights_step, normalize, spec_normalize, sum_weights, SCALE,
};
use vstd::string::StringSliceAdditionalSpecFns;
use vstd::prelude::*;

verus! {

/// The most color stops a gradient may hold, so that every fixed-point
/// position computation fits in 64-bit arithmetic.
pub const MAX_STOPS: usize = 1_000_000;

/// An 8-bit-per-channel RGB color.
#[derive(Clone, Copy, PartialEq, Eq, Structural, Debug)]
pub struct Rgb8 {
    pub r: u8,
    pub g: u8,
    pub b: u8,
}

/// The error type for color errors.
#[derive(Clone, Copy, PartialEq, Eq, Structural, Debug)]
pub enum ColorError {
    InvalidGradient,
}

/// A result type for [`ColorError`].
pub type ColorResult<T> = Result<T, ColorError>;

/// A trait for getting the color associated with an object.
pub trait GetColor {
    fn get_color(&self) -> Rgb8;
}

/// The error type returned when a color string cannot be parsed.
#[derive(Clone, Copy, PartialEq, Eq, Structural, Debug)]
pub struct ParseColorError;

/// Whether the character is an ASCII hexadecimal digit.
pub open spec fn is_hex_char(c: char) -> bool {
    ('0' <= c && c <= '9') || ('a' <= c && c <= 'f') || ('A' <= c && c <= 'F')
}

/// The numeric value of a hexadecimal digit character.
pub open spec fn spec_hex_val(c: char) -> int
    recommends
        is_hex_char(c),
{
    if '0' <= c && c <= '9' {
        c as int - '0' as int
    } else if 'a' <= c && c <= 'f' {
        c as int - 'a' as int + 10
    } else {
        c as int - 'A' as int + 10
    }
}

/// Whether every character of the sequence is a hexadecimal digit.
pub open spec fn all_hex(s: Seq<char>) -> bool {
    forall|i: int| 0 <= i < s.len() ==> is_hex_char(#[trigger] s[i])
}

/// The channel value written by the two hexadecimal digits at `i` and `i + 1`.
pub open spec fn spec_hex_pair(s: Seq<char>, i: int) -> int
    recommends
        0 <= i,
        i + 1 < s.len(),
{
    spec_hex_val(s[i]) * 16 + spec_hex_val(s[i + 1])
}

/// What an html-style hexadecimal color string stands for: a hash sign
/// followed by 3, 4, 6 or 8 hexadecimal digits. Three or six digits give
/// the three channels (one digit doubles, as in `#abc`); a fourth or
/// seventh and eighth digit write an alpha channel, which is checked for
/// validity and then dropped. Anything else is no color.
pub open spec fn spec_parse_color(s: Seq<char>) -> Option<Rgb8> {
    if s.len() == 0 || s[0] != '#' || !all_hex(s.skip(1)) {
        None
    } else if s.len() == 4 || s.len() == 5 {
        Some(
            Rgb8 {
                r: (spec_hex_val(s[1]) * 17) as u8,
                g: (spec_hex_val(s[2]) * 17) as u8,
                b: (spec_hex_val(s[3]) * 17) as u8,
            },
        )
    } else if s.len() == 7 || s.len() == 9 {
        Some(
            Rgb8 {
                r: spec_hex_pair(s, 1) as u8,
                g: spec_hex_pair(s, 3) as u8,
                b: spec_hex_pair(s, 5) as u8,
            },
        )
    } else {
        None
    }
}

/// The numeric value of an ASCII hexadecimal digit byte, or `None` when
/// the byte is no such digit.
fn hex_val_of(b: u8) -> (r: Option<u8>)
    ensures
        (r is Some) <==> is_hex_char(b as char),
        r matches Some(v) ==> v as int == spec_hex_val(b as char) && v < 16,
{
    if 48 <= b && b <= 57 {
        Some(b - 48)
    } else if 97 <= b && b <= 102 {
        Some(b - 97 + 10)
    } else if 65 <= b && b <= 70 {
        Some(b - 65 + 10)
    } else {
        None
    }
}

/// Converts the color string passed in into an RGB value, or reports that
/// it is not a well-formed hexadecimal color.
pub fn color_to_rgb(color: &str) -> (r: Result<Rgb8, ParseColorError>)
    ensures
        match r {
            Ok(c) => spec_parse_color(color@) == Some(c),
            Err(_) => spec_parse_color(color@) is None,
        },
{
    broadcast use vstd::string::is_ascii_spec_bytes;

    if !color.is_ascii() {
        proof {
            let i = choose|i: int|
                0 <= i < color@.len() && !('\0' <= #[trigger] color@[i] <= '\u{7f}');
            assert(color@.len() > 0);
            if color@[0] == '#' {
                assert(i >= 1);
                assert(!is_hex_char(color@.skip(1)[i - 1]));
            }
        }
        return Err(ParseColorError);
    }
    let bytes = color.as_bytes();
    let n = bytes.len();
    proof {
        assert(color.spec_bytes().len() == color@.len());
        assert forall|j: int| 0 <= j < color@.len() implies color.spec_bytes()[j] == (
        #[trigger] color@[j]) as u8 by {}
    }
    if n != 4 && n != 5 && n != 7 && n != 9 {
        return Err(ParseColorError);
    }
    if bytes[0] != 35 {
        // the '#' sign
        return Err(ParseColorError);
    }
    let mut i: usize = 1;
    while i < n
        invariant
            1 <= i <= n,
            n == color@.len(),
            vstd::string::is_ascii(color),
            bytes@ == color.spec_bytes(),
            forall|j: int| 0 <= j < color@.len() ==> bytes@[j] == (#[trigger] color@[j]) as u8,
            forall|j: int| 1 <= j < i ==> is_hex_char(#[trigger] color@[j]),
        decreases n - i,
    {
        if hex_val_of(bytes[i]).is_none() {
            proof {
                assert(!is_hex_char(color@.skip(1)[i - 1]));
            }
            return Err(ParseColorError);
        }
        i += 1;
    }
    proof {
        assert forall|j: int| 0 <= j < color@.skip(1).len() implies is_hex_char(
            #[trigger] color@.skip(1)[j],
        ) by {
            assert(color@.skip(1)[j] == color@[j + 1]);
        }
    }
    let (v1, v2, v3, v4, v5, v6) = if n == 4 || n == 5 {
        let d1 = hex_val_of(bytes[1]).unwrap();
        let d2 = hex_val_of(bytes[2]).unwrap();
        let d3 = hex_val_of(bytes[3]).unwrap();
        (d1, d1, d2, d2, d3, d3)
    } else {
        (
            hex_val_of(bytes[1]).unwrap(),
            hex_val_of(bytes[2]).unwrap(),
            hex_val_of(bytes[3]).unwrap(),
            hex_val_of(bytes[4]).unwrap(),
            hex_val_of(bytes[5]).unwrap(),
            hex_val_of(bytes[6]).unwrap(),
        )
    };
    Ok(Rgb8 { r: v1 * 16 + v2, g: v3 * 16 + v4, b: v5 * 16 + v6 })
}

/// Clamps a fixed-point factor to the unit range 0..=SCALE; a position
/// outside the gradient sticks to the nearest endpoint.
pub open spec fn clamp_unit(t: int) -> int {
    if t < 0 {
        0
    } else if t > SCALE as int {
        SCALE as int
    } else {
        t
    }
}

/// One linearly blended color channel: the weighted mean of `c0` and `c1`,
/// where `frac` out of SCALE is the weight of `c1`, rounded to the nearest
/// integer.
pub open spec fn spec_channel_at(c0: int, c1: int, frac: int) -> int {
    (c0 * (SCALE as int - frac) + c1 * frac + SCALE as int / 2) / (SCALE as int)
}

/// The color of a gradient at fixed-point position `t`: the position is
/// clamped to the unit range, mapped onto the segment between the two
/// bracketing stops, and each channel is blended linearly between them.
pub open spec fn spec_gradient_at(stops: Seq<Rgb8>, t: int) -> Rgb8
    recommends
        0 < stops.len(),
{
    let tc = clamp_unit(t);
    if stops.len() <= 1 {
        stops[0]
    } else {
        let pos = tc * (stops.len() - 1);
        let cut = pos / (SCALE as int);
        let seg = if cut > stops.len() - 2 {
            stops.len() - 2
        } else {
            cut
        };
        let frac = pos - seg * (SCALE as int);
        let a = stops[seg];
        let b = stops[seg + 1];
        Rgb8 {
            r: spec_channel_at(a.r as int, b.r as int, frac) as u8,
            g: spec_channel_at(a.g as int, b.g as int, frac) as u8,
            b: spec_channel_at(a.b as int, b.b as int, frac) as u8,
        }
    }
}

/// Blends one channel between `c0` and `c1` by `frac` out of SCALE.
fn channel_at(c0: u8, c1: u8, frac: i64) -> (c: u8)
    requires
        0 <= frac <= SCALE,
    ensures
        c as int == spec_channel_at(c0 as int, c1 as int, frac as int),
{
    proof {
        vstd::arithmetic::mul::lemma_mul_inequality(c0 as int, 255, SCALE - frac);
        vstd::arithmetic::mul::lemma_mul_inequality(c1 as int, 255, frac as int);
        vstd::arithmetic::mul::lemma_mul_nonnegative(c0 as int, SCALE - frac);
        vstd::arithmetic::mul::lemma_mul_nonnegative(c1 as int, frac as int);
        vstd::arithmetic::mul::lemma_mul_is_distributive_add(255, SCALE - frac, frac as int);
        vstd::arithmetic::div_mod::lemma_div_is_ordered(
            (c0 as int) * (SCALE - frac) + (c1 as int) * frac + SCALE / 2,
            255 * (SCALE as int) + SCALE / 2,
            SCALE as int,
        );
        assert((255 * (SCALE as int) + SCALE / 2) / (SCALE as int) == 255);
        vstd::arithmetic::div_mod::lemma_div_pos_is_pos(
            (c0 as int) * (SCALE - frac) + (c1 as int) * frac + SCALE / 2,
            SCALE as int,
        );
    }
    (((c0 as i64) * (SCALE - frac) + (c1 as i64) * frac + SCALE / 2) / SCALE) as u8
}

/// An ordered sequence of colors spanning the unit range, supporting
/// continuous interpolation. Immutable after construction.
#[derive(Clone, Debug)]
pub struct Gradient {
    stops: Vec<Rgb8>,
}

impl Gradient {
    /// The ordered color stops of the gradient.
    pub closed spec fn stops(&self) -> Seq<Rgb8> {
        self.stops@
    }

    /// A gradient always holds at least one stop, and few enough that
    /// position arithmetic cannot overflow.
    pub open spec fn wf(&self) -> bool {
        0 < self.stops().len() <= MAX_STOPS
    }

    /// Builds a gradient from its color stops. A gradient with no colors
    /// at all, or with more stops than [`MAX_STOPS`], cannot be built.
    pub fn new(stops: Vec<Rgb8>) -> (r: ColorResult<Gradient>)
        ensures
            match r {
                Ok(g) => g.stops() == stops@ && g.wf(),
                Err(e) => {
                    &&& e == ColorError::InvalidGradient
                    &&& (stops@.len() == 0 || stops@.len() > MAX_STOPS)
                },
            },
    {
        if stops.len() == 0 || stops.len() > MAX_STOPS {
            Err(ColorError::InvalidGradient)
        } else {
            Ok(Gradient { stops })
        }
    }

    /// Builds the two-stop gradient that blends from `a` to `b`.
    pub fn from_pair(a: Rgb8, b: Rgb8) -> (g: Gradient)
        ensures
            g.wf(),
            g.stops() =~= seq![a, b],
    {
        let mut stops: Vec<Rgb8> = Vec::new();
        stops.push(a);
        stops.push(b);
        Gradient { stops }
    }

    /// Gets the color at fixed-point position `t` in the gradient:
    /// linear interpolation between the two bracketing color stops,
    /// with positions outside the unit range clamped to the endpoints.
    pub fn at(&self, t: i64) -> (c: Rgb8)
        requires
            self.wf(),
        ensures
            c == spec_gradient_at(self.stops(), t as int),
    {
        let tc: i64 = if t < 0 {
            0
        } else if t > SCALE {
            SCALE
        } else {
            t
        };
        let n = self.stops.len();
        if n == 1 {
            return self.stops[0];
        }
        let n1: i64 = (n - 1) as i64;
        proof {
            vstd::arithmetic::mul::lemma_mul_inequality(tc as int, SCALE as int, n1 as int);
            vstd::arithmetic::mul::lemma_mul_upper_bound(
                tc as int,
                SCALE as int,
                n1 as int,
                MAX_STOPS as int,
            );
            vstd::arithmetic::mul::lemma_mul_nonnegative(tc as int, n1 as int);
        }
        let pos: i64 = tc * n1;
        let cut: i64 = pos / SCALE;
        proof {
            vstd::arithmetic::div_mod::lemma_fundamental_div_mod(pos as int, SCALE as int);
            vstd::arithmetic::div_mod::lemma_mod_bound(pos as int, SCALE as int);
            vstd::arithmetic::div_mod::lemma_div_pos_is_pos(pos as int, SCALE as int);
            if cut > n1 - 1 {
                vstd::arithmetic::mul::lemma_mul_inequality(n1 as int, cut as int, SCALE as int);
                vstd::arithmetic::mul::lemma_mul_is_commutative(cut as int, SCALE as int);
                vstd::arithmetic::mul::lemma_mul_is_commutative(n1 as int, SCALE as int);
                vstd::arithmetic::mul::lemma_mul_inequality(tc as int, SCALE as int, n1 as int);
                vstd::arithmetic::mul::lemma_mul_is_commutative(SCALE as int, n1 as int);
            }
        }
        let seg: i64 = if cut > n1 - 1 {
            n1 - 1
        } else {
            cut
        };
        proof {
            vstd::arithmetic::mul::lemma_mul_inequality(seg as int, n1 as int, SCALE as int);
            vstd::arithmetic::mul::lemma_mul_nonnegative(seg as int, SCALE as int);
        }
        let frac: i64 = pos - seg * SCALE;
        let a = self.stops[seg as usize];
        let b = self.stops[(seg + 1) as usize];
        Rgb8 {
            r: channel_at(a.r, b.r, frac),
            g: channel_at(a.g, b.g, frac),
            b: channel_at(a.b, b.b, frac),
        }
    }
}

/// Whether every color string in the list parses as a hexadecimal color.
pub open spec fn all_colors_parse(g: Seq<String>) -> bool {
    forall|i: int| 0 <= i < g.len() ==> spec_parse_color((#[trigger] g[i])@) is Some
}

/// Whether `g` is exactly the gradient written by the color strings
/// `strs`: one parsed stop per string, in order.
pub open spec fn spec_gradient_from(g: Gradient, strs: Seq<String>) -> bool {
    &&& g.wf()
    &&& g.stops().len() == strs.len()
    &&& forall|i: int|
        0 <= i < strs.len() ==> Some(#[trigger] g.stops()[i]) == spec_parse_color(strs[i]@)
}

/// Converts a gradient, given as a list of color strings, into a
/// [`Gradient`] value that can get a color from that gradient: the stops
/// are the parsed colors, in order. It fails exactly when some string is
/// no color, when the list is empty, or when it is longer than
/// [`MAX_STOPS`].
pub fn get_color_func(gradient: &Vec<String>) -> (r: ColorResult<Gradient>)
    ensures
        match r {
            Ok(g) => {
                &&& spec_gradient_from(g, gradient@)
                &&& all_colors_parse(gradient@)
                &&& 0 < gradient@.len() <= MAX_STOPS
            },
            Err(e) => {
                &&& e == ColorError::InvalidGradient
                &&& (gradient@.len() == 0 || gradient@.len() > MAX_STOPS || !all_colors_parse(
                    gradient@,
                ))
            },
        },
{
    let mut colors: Vec<Rgb8> = Vec::new();
    let mut i: usize = 0;
    while i < gradient.len()
        invariant
            i <= gradient@.len(),
            colors@.len() == i,
            forall|j: int|
                0 <= j < i ==> Some(#[trigger] colors@[j]) == spec_parse_color(gradient@[j]@),
        decreases gradient@.len() - i,
    {
        match color_to_rgb(gradient[i].as_str()) {
            Ok(c) => colors.push(c),
            Err(_) => {
                return Err(ColorError::InvalidGradient);
            },
        }
        i += 1;
    }
    let r = Gradient::new(colors);
    proof {
        if r is Ok {
            assert forall|j: int| 0 <= j < gradient@.len() implies spec_parse_color(
                (#[trigger] gradient@[j])@,
            ) is Some by {
                assert(Some(colors@[j]) == spec_parse_color(gradient@[j]@));
            }
        }
    }
    r
}

/// The index of the first entry of `thresholds` that `v` does not exceed,
/// or the last index when `v` lies above every threshold: a factor at the
/// top of a band, or beyond the top band, still picks a band
/// deterministically.
pub open spec fn spec_select_band(thresholds: Seq<int>, v: int) -> int
    recommends
        0 < thresholds.len(),
    decreases thresholds.len(),
{
    if thresholds.len() <= 1 {
        0
    } else if v <= thresholds[0] {
        0
    } else {
        1 + spec_select_band(thresholds.drop_first(), v)
    }
}

/// Law: band selection picks an index inside the band list, every earlier
/// band's threshold lies strictly below the factor, and the factor lies
/// within the selected band's threshold unless it lies above every band,
/// in which case the last band is selected.
pub proof fn lemma_select_band(thresholds: Seq<int>, v: int)
    requires
        0 < thresholds.len(),
    ensures
        0 <= spec_select_band(thresholds, v) < thresholds.len(),
        forall|j: int| 0 <= j < spec_select_band(thresholds, v) ==> v > thresholds[j],
        spec_select_band(thresholds, v) < thresholds.len() - 1 ==> v <= thresholds[spec_select_band(thresholds, v)],
    decreases thresholds.len(),
{
    if thresholds.len() > 1 && v > thresholds[0] {
        lemma_select_band(thresholds.drop_first(), v);
        assert forall|j: int| 0 <= j < spec_select_band(thresholds, v) implies v > thresholds[j] by {
            if j > 0 {
                assert(thresholds.drop_first()[j - 1] == thresholds[j]);
            }
        }
    }
}

/// Law: band selection is the unique index whose earlier thresholds all
/// lie strictly below the factor and which either admits the factor or is
/// the last band.
pub proof fn lemma_select_band_unique(thresholds: Seq<int>, v: int, i: int)
    requires
        0 <= i < thresholds.len(),
        forall|j: int| 0 <= j < i ==> thresholds[j] < v,
        v <= thresholds[i] || i == thresholds.len() - 1,
    ensures
        spec_select_band(thresholds, v) == i,
    decreases thresholds.len(),
{
    if thresholds.len() > 1 && v > thresholds[0] {
        assert forall|j: int| 0 <= j < i - 1 implies thresholds.drop_first()[j] < v by {
            assert(thresholds.drop_first()[j] == thresholds[j + 1]);
        }
        lemma_select_band_unique(thresholds.drop_first(), v, i - 1);
    }
}

/// Law: a factor exactly at a band's cumulative threshold selects that
/// band, provided the earlier thresholds lie strictly below it; the side
/// a boundary value falls on is fixed once and for all.
pub proof fn lemma_band_boundary(thresholds: Seq<int>, i: int)
    requires
        0 <= i < thresholds.len(),
        forall|j: int| 0 <= j < i ==> thresholds[j] < thresholds[i],
    ensures
        spec_select_band(thresholds, thresholds[i]) == i,
{
    lemma_select_band_unique(thresholds, thresholds[i], i);
}

/// A single moisture range, or the y axis of a biome map: the range of
/// the secondary factor up to its cumulative threshold, and the gradient
/// that colors it.
pub struct MoistureGradient {
    /// The cumulative normalized threshold of the secondary factor.
    pub moisture: i64,
    /// The gradient for getting the color in this range.
    pub get_color: Gradient,
}

/// A single elevation range, or the x axis of a biome map: the range of
/// the primary factor up to its cumulative threshold, and the moisture
/// ranges within it.
pub struct ElevationRange {
    /// The cumulative normalized threshold of the primary factor.
    pub elevation: i64,
    /// The moisture gradients associated with this range.
    pub moisture_gradients: Vec<MoistureGradient>,
}

impl ElevationRange {
    /// The cumulative moisture thresholds of this range, in order.
    pub open spec fn moisture_thresholds(&self) -> Seq<int> {
        self.moisture_gradients@.map_values(|m: MoistureGradient| m.moisture as int)
    }

    /// An elevation range holds a threshold inside the unit range and at
    /// least one well-formed moisture gradient.
    pub open spec fn wf(&self) -> bool {
        &&& 0 <= self.elevation <= SCALE
        &&& 0 < self.moisture_gradients@.len()
        &&& forall|j: int|
            0 <= j < self.moisture_gradients@.len() ==> {
                &&& (#[trigger] self.moisture_gradients@[j]).get_color.wf()
                &&& 0 <= self.moisture_gradients@[j].moisture <= SCALE
            }
    }
}

/// A structure for evaluating colors from biome maps. The primary
/// example of this structure's usage is in getting colors based on a
/// cell's elevation and moisture levels. Despite using the terms
/// "elevation" and "moisture", this can be used with any two factors to
/// get a color.
pub struct ColorEvaluator {
    /// The ranges for the "elevation" factor of the color evaluator.
    pub elevation_ranges: Vec<ElevationRange>,
}

impl ColorEvaluator {
    /// The cumulative elevation thresholds of the bands, in order.
    pub open spec fn elevation_thresholds(&self) -> Seq<int> {
        self.elevation_ranges@.map_values(|r: ElevationRange| r.elevation as int)
    }

    /// An evaluator holds at least one well-formed elevation range.
    pub open spec fn wf(&self) -> bool {
        &&& 0 < self.elevation_ranges@.len()
        &&& forall|i: int|
            0 <= i < self.elevation_ranges@.len() ==> (#[trigger] self.elevation_ranges@[i]).wf()
    }

    /// What evaluation returns: both factors are clamped to the unit
    /// range; the elevation picks the first band whose cumulative
    /// threshold admits it (the last band when it lies above them all);
    /// the moisture picks a moisture range within that band the same way;
    /// the elevation is normalized into the selected band's own sub-range
    /// and that position picks the color in the range's gradient. A band
    /// whose sub-range is empty hands the gradient its top position.
    pub open spec fn spec_evaluate(&self, elevation: int, moisture: int) -> Rgb8
        recommends
            self.wf(),
    {
        let e = clamp_unit(elevation);
        let m = clamp_unit(moisture);
        let i = spec_select_band(self.elevation_thresholds(), e);
        let range = self.elevation_ranges@[i];
        let prev = if i == 0 {
            0
        } else {
            self.elevation_thresholds()[i - 1]
        };
        let cur = self.elevation_thresholds()[i];
        let t = if prev < cur {
            spec_normalize(e, prev, cur)
        } else {
            SCALE as int
        };
        let j = spec_select_band(range.moisture_thresholds(), m);
        spec_gradient_at(range.moisture_gradients@[j].get_color.stops(), t)
    }

    /// Gets a color from a biome map based on two factors. These are
    /// called "elevation" and "moisture" for simplicity; in reality these
    /// arguments can describe other factors of map generation, such as
    /// temperature. The result is exactly what [`Self::spec_evaluate`]
    /// lays out.
    pub fn evaluate(&self, elevation: i64, moisture: i64) -> (c: Rgb8)
        requires
            self.wf(),
        ensures
            c == self.spec_evaluate(elevation as int, moisture as int),
    {
        let e: i64 = if elevation < 0 {
            0
        } else if elevation > SCALE {
            SCALE
        } else {
            elevation
        };
        let m: i64 = if moisture < 0 {
            0
        } else if moisture > SCALE {
            SCALE
        } else {
            moisture
        };
        let n = self.elevation_ranges.len();
        let mut i: usize = 0;
        while i + 1 < n && self.elevation_ranges[i].elevation < e
            invariant
                self.wf(),
                n == self.elevation_ranges@.len(),
                0 <= i < n,
                forall|j: int| 0 <= j < i ==> self.elevation_thresholds()[j] < e,
            decreases n - i,
        {
            i += 1;
        }
        proof {
            lemma_select_band_unique(self.elevation_thresholds(), e as int, i as int);
        }
        let range = &self.elevation_ranges[i];
        let prev: i64 = if i == 0 {
            0
        } else {
            self.elevation_ranges[i - 1].elevation
        };
        let cur: i64 = range.elevation;
        proof {
            assert(self.elevation_ranges@[i as int].wf());
            if i > 0 {
                assert(self.elevation_ranges@[i as int - 1].wf());
                assert(self.elevation_thresholds()[i as int - 1] < e as int);
            }
        }
        let t: i64 = if prev < cur {
            normalize(e, prev, cur)
        } else {
            SCALE
        };
        let k = range.moisture_gradients.len();
        let mut j: usize = 0;
        while j + 1 < k && range.moisture_gradients[j].moisture < m
            invariant
                range.wf(),
                k == range.moisture_gradients@.len(),
                0 <= j < k,
                forall|l: int| 0 <= l < j ==> range.moisture_thresholds()[l] < m,
            decreases k - j,
        {
            j += 1;
        }
        proof {
            lemma_select_band_unique(range.moisture_thresholds(), m as int, j as int);
        }
        range.moisture_gradients[j].get_color.at(t)
    }
}

/// Whether every moisture level of an elevation level carries a gradient
/// that can be built: nonempty, not over [`MAX_STOPS`], every color
/// parseable.
pub open spec fn level_gradients_ok(level: ElevationLevel) -> bool {
    forall|j: int|
        0 <= j < level.moisture_levels@.len() ==> {
            let g = (#[trigger] level.moisture_levels@[j]).gradient@;
            0 < g.len() <= MAX_STOPS && all_colors_parse(g)
        }
}

/// Whether every gradient of every level of a biome map can be built.
pub open spec fn biomes_gradients_ok(b: Biomes) -> bool {
    forall|i: int|
        0 <= i < b.elevation_levels@.len() ==> level_gradients_ok(#[trigger] b.elevation_levels@[i])
}

/// Whether `ev` is exactly the evaluator built from the biome map `b`:
/// one elevation range per level, whose cumulative threshold is the
/// level's cumulative share of the total elevation weight, and within it
/// one moisture gradient per moisture level, with its own cumulative
/// share of the level's total moisture weight and the gradient written by
/// the level's color strings.
pub open spec fn spec_evaluator_from(ev: ColorEvaluator, b: Biomes) -> bool {
    let levels = b.elevation_levels@;
    &&& ev.elevation_ranges@.len() == levels.len()
    &&& forall|i: int|
        0 <= i < levels.len() ==> {
            let range = #[trigger] ev.elevation_ranges@[i];
            let level = levels[i];
            &&& range.elevation as int == sum_weights(b.elevation_weights().take(i + 1)) * (
            SCALE as int) / b.spec_total_elevation()
            &&& range.moisture_gradients@.len() == level.moisture_levels@.len()
            &&& forall|j: int|
                0 <= j < level.moisture_levels@.len() ==> {
                    let mg = (#[trigger] range.moisture_gradients@[j]);
                    &&& mg.moisture as int == sum_weights(level.moisture_weights().take(j + 1)) * (
                    SCALE as int) / level.spec_total_moisture()
                    &&& spec_gradient_from(mg.get_color, level.moisture_levels@[j].gradient@)
                }
        }
}

/// Builds the moisture gradients of one elevation level: each moisture
/// level's cumulative share of the level's total moisture weight, paired
/// with the gradient written by its color strings.
fn moisture_gradients_of(level: &ElevationLevel) -> (r: ColorResult<Vec<MoistureGradient>>)
    requires
        0 < level.moisture_levels@.len(),
        forall|j: int|
            0 <= j < level.moisture_levels@.len() ==> (
            #[trigger] level.moisture_levels@[j]).moisture > 0,
        level.spec_total_moisture() <= MAX_TOTAL_WEIGHT,
    ensures
        match r {
            Ok(mgs) => {
                &&& mgs@.len() == level.moisture_levels@.len()
                &&& forall|j: int|
                    0 <= j < mgs@.len() ==> {
                        let mg = #[trigger] mgs@[j];
                        &&& mg.moisture as int == sum_weights(
                            level.moisture_weights().take(j + 1),
                        ) * (SCALE as int) / level.spec_total_moisture()
                        &&& 0 <= mg.moisture <= SCALE
                        &&& spec_gradient_from(mg.get_color, level.moisture_levels@[j].gradient@)
                    }
                &&& mgs@.last().moisture == SCALE
                &&& forall|j: int|
                    0 <= j < mgs@.len() - 1 ==> (#[trigger] mgs@[j]).moisture <= mgs@[j
                        + 1].moisture
                &&& level_gradients_ok(*level)
            },
            Err(e) => e == ColorError::InvalidGradient && !level_gradients_ok(*level),
        },
{
    let ghost w = level.moisture_weights();
    let total_moisture = level.total_moisture();
    proof {
        lemma_sum_weights_bounds(w, w.len() as int);
        assert(w.take(w.len() as int) =~= w);
    }
    let mut mgs: Vec<MoistureGradient> = Vec::new();
    let mut cumulative_moisture: i64 = 0;
    let mut j: usize = 0;
    while j < level.moisture_levels.len()
        invariant
            w == level.moisture_weights(),
            forall|l: int|
                0 <= l < level.moisture_levels@.len() ==> (
                #[trigger] level.moisture_levels@[l]).moisture > 0,
            0 < level.moisture_levels@.len(),
            level.spec_total_moisture() <= MAX_TOTAL_WEIGHT,
            total_moisture == level.spec_total_moisture(),
            0 < total_moisture,
            j <= level.moisture_levels@.len(),
            cumulative_moisture == sum_weights(w.take(j as int)),
            mgs@.len() == j,
            forall|l: int|
                0 <= l < j ==> {
                    let mg = #[trigger] mgs@[l];
                    &&& mg.moisture as int == sum_weights(w.take(l + 1)) * (SCALE as int)
                        / level.spec_total_moisture()
                    &&& 0 <= mg.moisture <= SCALE
                    &&& spec_gradient_from(mg.get_color, level.moisture_levels@[l].gradient@)
                },
        decreases level.moisture_levels@.len() - j,
    {
        let gradient = match get_color_func(&level.moisture_levels[j].gradient) {
            Ok(g) => g,
            Err(_) => {
                proof {
                    assert(!level_gradients_ok(*level)) by {
                        assert(level.moisture_levels@[j as int].gradient@.len() == 0
                            || level.moisture_levels@[j as int].gradient@.len() > MAX_STOPS
                            || !all_colors_parse(level.moisture_levels@[j as int].gradient@));
                    }
                }
                return Err(ColorError::InvalidGradient);
            },
        };
        proof {
            lemma_sum_weights_bounds(w, j as int);
            lemma_sum_weights_bounds(w, j as int + 1);
            lemma_sum_weights_step(w, j as int);
            vstd::arithmetic::mul::lemma_mul_inequality(
                sum_weights(w.take(j as int + 1)),
                MAX_TOTAL_WEIGHT as int,
                SCALE as int,
            );
            vstd::arithmetic::mul::lemma_mul_nonnegative(
                sum_weights(w.take(j as int + 1)),
                SCALE as int,
            );
            vstd::arithmetic::div_mod::lemma_div_pos_is_pos(
                sum_weights(w.take(j as int + 1)) * (SCALE as int),
                total_moisture as int,
            );
            vstd::arithmetic::mul::lemma_mul_inequality(
                sum_weights(w.take(j as int + 1)),
                total_moisture as int,
                SCALE as int,
            );
            vstd::arithmetic::div_mod::lemma_div_is_ordered(
                sum_weights(w.take(j as int + 1)) * (SCALE as int),
                (total_moisture as int) * (SCALE as int),
                total_moisture as int,
            );
            vstd::arithmetic::div_mod::lemma_div_by_multiple(SCALE as int, total_moisture as int);
            vstd::arithmetic::mul::lemma_mul_is_commutative(SCALE as int, total_moisture as int);
        }
        cumulative_moisture = cumulative_moisture + level.moisture_levels[j].moisture;
        let threshold: i64 = cumulative_moisture * SCALE / total_moisture;
        mgs.push(MoistureGradient { moisture: threshold, get_color: gradient });
        j += 1;
    }
    proof {
        let n = level.moisture_levels@.len() as int;
        assert(w.take(n) =~= w);
        assert(mgs@.last() == mgs@[n - 1]);
        vstd::arithmetic::div_mod::lemma_div_by_multiple(SCALE as int, total_moisture as int);
        vstd::arithmetic::mul::lemma_mul_is_commutative(SCALE as int, total_moisture as int);
        assert forall|l: int| 0 <= l < n - 1 implies (#[trigger] mgs@[l]).moisture <= mgs@[l
            + 1].moisture by {
            lemma_sum_weights_bounds(w, l);
            lemma_sum_weights_bounds(w, l + 1);
            vstd::arithmetic::mul::lemma_mul_inequality(
                sum_weights(w.take(l + 1)),
                sum_weights(w.take(l + 2)),
                SCALE as int,
            );
            vstd::arithmetic::div_mod::lemma_div_is_ordered(
                sum_weights(w.take(l + 1)) * (SCALE as int),
                sum_weights(w.take(l + 2)) * (SCALE as int),
                total_moisture as int,
            );
        }
        assert forall|l: int| 0 <= l < level.moisture_levels@.len() implies ({
            let g = (#[trigger] level.moisture_levels@[l]).gradient@;
            0 < g.len() <= MAX_STOPS && all_colors_parse(g)
        }) by {
            let mg = mgs@[l];
            assert(spec_gradient_from(mg.get_color, level.moisture_levels@[l].gradient@));
            assert forall|k: int|
                0 <= k < level.moisture_levels@[l].gradient@.len() implies spec_parse_color(
                (#[trigger] level.moisture_levels@[l].gradient@[k])@) is Some by {
                assert(Some(mg.get_color.stops()[k]) == spec_parse_color(
                    level.moisture_levels@[l].gradient@[k]@,
                ));
            }
        }
    }
    Ok(mgs)
}

impl ColorEvaluator {
    /// Creates a [`ColorEvaluator`] from a biome map loaded from a config
    /// file: each level's cumulative weight, divided by the total weight,
    /// becomes its band's threshold, so the last elevation threshold is
    /// exactly [`SCALE`] and the thresholds never decrease. It fails
    /// exactly when some gradient of the map cannot be built.
    pub fn from_biomes(biomes: &Biomes) -> (r: ColorResult<ColorEvaluator>)
        requires
            biomes.weights_valid(),
            biomes.weights_bounded(),
        ensures
            match r {
                Ok(ev) => {
                    &&& ev.wf()
                    &&& spec_evaluator_from(ev, *biomes)
                    &&& biomes_gradients_ok(*biomes)
                    &&& ev.elevation_thresholds().last() == SCALE
                    &&& forall|i: int|
                        0 <= i < ev.elevation_thresholds().len() - 1 ==> #[trigger] ev.elevation_thresholds()[i] <= ev.elevation_thresholds()[i + 1]
                    &&& forall|i: int|
                        0 <= i < ev.elevation_ranges@.len() ==> {
                            let mgs = (#[trigger] ev.elevation_ranges@[i]).moisture_gradients@;
                            &&& mgs.last().moisture == SCALE
                            &&& forall|j: int|
                                0 <= j < mgs.len() - 1 ==> (#[trigger] mgs[j]).moisture <= mgs[j
                                    + 1].moisture
                        }
                },
                Err(e) => e == ColorError::InvalidGradient && !biomes_gradients_ok(*biomes),
            },
    {
        let ghost w = biomes.elevation_weights();
        proof {
            assert forall|i: int| 0 <= i < w.len() implies #[trigger] w[i] > 0 by {
                assert(biomes.elevation_levels@[i].elevation > 0);
            }
        }
        let total_elevation = biomes.total_elevation();
        proof {
            lemma_sum_weights_bounds(w, w.len() as int);
            assert(w.take(w.len() as int) =~= w);
        }
        let mut elevation_ranges: Vec<ElevationRange> = Vec::new();
        let mut cumulative_elevation: i64 = 0;
        let mut i: usize = 0;
        while i < biomes.elevation_levels.len()
            invariant
                biomes.weights_valid(),
                biomes.weights_bounded(),
                w == biomes.elevation_weights(),
                forall|l: int| 0 <= l < w.len() ==> #[trigger] w[l] > 0,
                total_elevation == biomes.spec_total_elevation(),
                0 < total_elevation,
                i <= biomes.elevation_levels@.len(),
                cumulative_elevation == sum_weights(w.take(i as int)),
                elevation_ranges@.len() == i,
                forall|l: int|
                    0 <= l < i ==> {
                        let range = #[trigger] elevation_ranges@[l];
                        let level = biomes.elevation_levels@[l];
                        &&& range.elevation as int == sum_weights(w.take(l + 1)) * (SCALE as int)
                            / biomes.spec_total_elevation()
                        &&& range.wf()
                        &&& range.moisture_gradients@.len() == level.moisture_levels@.len()
                        &&& forall|j: int|
                            0 <= j < level.moisture_levels@.len() ==> {
                                let mg = (#[trigger] range.moisture_gradients@[j]);
                                &&& mg.moisture as int == sum_weights(
                                    level.moisture_weights().take(j + 1),
                                ) * (SCALE as int) / level.spec_total_moisture()
                                &&& spec_gradient_from(
                                    mg.get_color,
                                    level.moisture_levels@[j].gradient@,
                                )
                            }
                        &&& range.moisture_gradients@.last().moisture == SCALE
                        &&& forall|j: int|
                            0 <= j < range.moisture_gradients@.len() - 1 ==> (
                            #[trigger] range.moisture_gradients@[j]).moisture
                                <= range.moisture_gradients@[j + 1].moisture
                        &&& level_gradients_ok(level)
                    },
            decreases biomes.elevation_levels@.len() - i,
        {
            let level = &biomes.elevation_levels[i];
            let moisture_gradients = match moisture_gradients_of(level) {
                Ok(mgs) => mgs,
                Err(_) => {
                    proof {
                        assert(!biomes_gradients_ok(*biomes)) by {
                            assert(!level_gradients_ok(biomes.elevation_levels@[i as int]));
                        }
                    }
                    return Err(ColorError::InvalidGradient);
                },
            };
            proof {
                lemma_sum_weights_bounds(w, i as int);
                lemma_sum_weights_bounds(w, i as int + 1);
                lemma_sum_weights_step(w, i as int);
                vstd::arithmetic::mul::lemma_mul_inequality(
                    sum_weights(w.take(i as int + 1)),
                    MAX_TOTAL_WEIGHT as int,
                    SCALE as int,
                );
                vstd::arithmetic::mul::lemma_mul_nonnegative(
                    sum_weights(w.take(i as int + 1)),
                    SCALE as int,
                );
                vstd::arithmetic::div_mod::lemma_div_pos_is_pos(
                    sum_weights(w.take(i as int + 1)) * (SCALE as int),
                    total_elevation as int,
                );
                vstd::arithmetic::mul::lemma_mul_inequality(
                    sum_weights(w.take(i as int + 1)),
                    total_elevation as int,
                    SCALE as int,
                );
                vstd::arithmetic::div_mod::lemma_div_is_ordered(
                    sum_weights(w.take(i as int + 1)) * (SCALE as int),
                    (total_elevation as int) * (SCALE as int),
                    total_elevation as int,
                );
                vstd::arithmetic::div_mod::lemma_div_by_multiple(
                    SCALE as int,
                    total_elevation as int,
                );
                vstd::arithmetic::mul::lemma_mul_is_commutative(
                    SCALE as int,
                    total_elevation as int,
                );
            }
            cumulative_elevation = cumulative_elevation + level.elevation;
            let threshold: i64 = cumulative_elevation * SCALE / total_elevation;
            elevation_ranges.push(
                ElevationRange { elevation: threshold, moisture_gradients },
            );
            i += 1;
        }
        let ev = ColorEvaluator { elevation_ranges };
        proof {
            assert forall|l: int| 0 <= l < biomes.elevation_levels@.len() implies level_gradients_ok(
                #[trigger] biomes.elevation_levels@[l],
            ) by {
                assert(elevation_ranges@[l].wf());
            }
            let n = biomes.elevation_levels@.len() as int;
            assert(w.take(n) =~= w);
            assert(ev.elevation_thresholds().last() == ev.elevation_ranges@[n - 1].elevation);
            vstd::arithmetic::div_mod::lemma_div_by_multiple(
                SCALE as int,
                total_elevation as int,
            );
            vstd::arithmetic::mul::lemma_mul_is_commutative(SCALE as int, total_elevation as int);
            assert forall|l: int|
                0 <= l < ev.elevation_thresholds().len() - 1 implies #[trigger] ev.elevation_thresholds()[l] <= ev.elevation_thresholds()[l + 1] by {
                lemma_sum_weights_bounds(w, l);
                lemma_sum_weights_bounds(w, l + 1);
                vstd::arithmetic::mul::lemma_mul_inequality(
                    sum_weights(w.take(l + 1)),
                    sum_weights(w.take(l + 2)),
                    SCALE as int,
                );
                vstd::arithmetic::div_mod::lemma_div_is_ordered(
                    sum_weights(w.take(l + 1)) * (SCALE as int),
                    sum_weights(w.take(l + 2)) * (SCALE as int),
                    total_elevation as int,
                );
            }
        }
        Ok(ev)
    }
}

/// Law: an evaluator with a single elevation band of full weight, holding
/// a single moisture band whose gradient runs from black to white,
/// returns for any factors in the unit range exactly the gray whose
/// channels are the elevation rounded onto 0..=255.
pub proof fn lemma_single_band_gray(ev: ColorEvaluator, e: int, m: int)
    requires
        ev.elevation_ranges@.len() == 1,
        ev.elevation_ranges@[0].elevation == SCALE,
        ev.elevation_ranges@[0].moisture_gradients@.len() == 1,
        ev.elevation_ranges@[0].moisture_gradients@[0].get_color.stops() =~= seq![
            Rgb8 { r: 0, g: 0, b: 0 },
            Rgb8 { r: 255, g: 255, b: 255 },
        ],
        0 <= e <= SCALE,
    ensures
        ({
            let c = ((255 * e + SCALE as int / 2) / (SCALE as int)) as u8;
            ev.spec_evaluate(e, m) == Rgb8 { r: c, g: c, b: c }
        }),
{
    let thresholds = ev.elevation_thresholds();
    assert(thresholds.len() == 1);
    assert(spec_select_band(thresholds, clamp_unit(e)) == 0);
    let range = ev.elevation_ranges@[0];
    assert(spec_select_band(range.moisture_thresholds(), clamp_unit(m)) == 0);
    assert(clamp_unit(e) == e);
    let t = spec_normalize(e, 0, SCALE as int);
    vstd::arithmetic::div_mod::lemma_div_by_multiple(e, SCALE as int);
    vstd::arithmetic::mul::lemma_mul_is_commutative(e, SCALE as int);
    assert(t == e);
    let stops = range.moisture_gradients@[0].get_color.stops();
    let pos = clamp_unit(t) * (stops.len() - 1);
    assert(pos == e) by {
        vstd::arithmetic::mul::lemma_mul_basics(clamp_unit(t));
    }
    let cut = pos / (SCALE as int);
    if e < SCALE {
        vstd::arithmetic::div_mod::lemma_basic_div(pos, SCALE as int);
        assert(cut == 0);
    } else {
        vstd::arithmetic::div_mod::lemma_div_by_self(SCALE as int);
        assert(cut == 1);
    }
    let frac = pos - 0 * (SCALE as int);
    assert(frac == e) by {
        vstd::arithmetic::mul::lemma_mul_basics(SCALE as int);
    }
    assert(spec_channel_at(0, 255, e) == (255 * e + SCALE as int / 2) / (SCALE as int)) by {
        vstd::arithmetic::mul::lemma_mul_basics(SCALE as int - e);
    }
}

} // verus!
