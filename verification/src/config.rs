//! This module provides structures for the configuration of the program:
//! named biome gradients, noise-generation parameters, and biome maps,
//! together with their validation.
//!
//! Weights and factors that the configuration file format writes as
//! real numbers are carried as fixed-point integers: counts of millionths
//! (see [`crate::utils::SCALE`]).
use crate::color::{
    all_colors_parse, biomes_gradients_ok, color_to_rgb, get_color_func, spec_evaluator_from,
    spec_gradient_from, spec_parse_color, ColorEvaluator, Gradient, MAX_STOPS,
};
use crate::utils::{lemma_sum_weights_bounds, sum_weights};
use crate::utils::{first_invalid, lemma_first_invalid_is};
use vstd::prelude::*;

verus! {

/// The error type returned from validation of the config file.
#[derive(Debug, Clone, PartialEq, Eq)]
pub enum ConfigError {
    /// The file at the named path could not be opened.
    InvalidFilePath(String),
    /// A persistence that is not greater than 0, in millionths.
    InvalidPersistence(i64),
    /// A lacunarity that is not greater than 0, in millionths.
    InvalidLacunarity(i64),
    /// An elevation weight that is not greater than 0, in millionths.
    InvalidElevation(i64),
    /// A moisture weight that is not greater than 0, in millionths.
    InvalidMoisture(i64),
    /// A string that is not a well-formed hexadecimal color.
    InvalidColor(String),
    /// A biome map without elevation levels.
    MissingElevationLevels,
    /// An elevation level without moisture levels.
    MissingMoistureLevels,
    /// A gradient without colors.
    MissingColors,
    /// The config file could not be parsed.
    FailedToParse,
}

/// A Result type for [`ConfigError`].
pub type ConfigResult<T> = Result<T, ConfigError>;

/// The config structure for a single biome gradient.
#[derive(Debug, Clone)]
pub struct SimpleBiome {
    pub gradient: Vec<String>,
}

/// The config structure for noise generation.
#[derive(Debug, Clone, Copy, PartialEq, Eq, Structural)]
pub struct Noise {
    pub octaves: usize,
    pub persistence: i64,
    pub lacunarity: i64,
}

/// The config structure for a single moisture level.
#[derive(Debug, Clone)]
pub struct MoistureLevel {
    pub moisture: i64,
    pub gradient: Vec<String>,
}

/// The config structure for a single elevation level.
#[derive(Debug, Clone)]
pub struct ElevationLevel {
    pub elevation: i64,
    pub moisture_levels: Vec<MoistureLevel>,
}

/// The config structure for a set of biome gradients: a set of elevation
/// levels which contain moisture levels and a gradient.
#[derive(Debug, Clone)]
pub struct Biomes {
    pub elevation_levels: Vec<ElevationLevel>,
}

/// The structure representing the configuration of the program: maps
/// from names to biome gradients, to noise parameters, and to biome maps.
/// Each map is an association list; a lookup takes the first pair whose
/// key is the requested name.
#[derive(Debug, Clone)]
pub struct Config {
    pub biomes: Vec<(String, SimpleBiome)>,
    pub noise_generators: Vec<(String, Noise)>,
    pub biome_maps: Vec<(String, Biomes)>,
}

/// The index of the first color string of `g` that does not parse, or
/// the list's length when every one does.
pub open spec fn first_unparsable(g: Seq<String>) -> int {
    first_invalid(g, |s: String| spec_parse_color(s@) is Some)
}

/// Validates a gradient given as a list of color strings: it must be
/// nonempty and every string must be a well-formed hexadecimal color.
/// An empty list reports missing colors; otherwise the first string that
/// does not parse is reported.
fn validate_colors(gradient: &Vec<String>) -> (r: ConfigResult<()>)
    ensures
        r is Ok <==> (0 < gradient@.len() && all_colors_parse(gradient@)),
        r matches Err(e) ==> if gradient@.len() == 0 {
            e == ConfigError::MissingColors
        } else {
            &&& first_unparsable(gradient@) < gradient@.len()
            &&& e matches ConfigError::InvalidColor(c) && c@ == gradient@[first_unparsable(
                gradient@,
            )]@
        },
{
    let ghost valid = |s: String| spec_parse_color(s@) is Some;
    if gradient.len() == 0 {
        return Err(ConfigError::MissingColors);
    }
    let mut i: usize = 0;
    while i < gradient.len()
        invariant
            i <= gradient@.len(),
            valid == (|s: String| spec_parse_color(s@) is Some),
            forall|j: int| 0 <= j < i ==> valid(#[trigger] gradient@[j]),
        decreases gradient@.len() - i,
    {
        if color_to_rgb(gradient[i].as_str()).is_err() {
            proof {
                lemma_first_invalid_is(gradient@, valid, i as int);
            }
            return Err(ConfigError::InvalidColor(gradient[i].clone()));
        }
        i += 1;
    }
    proof {
        assert forall|j: int| 0 <= j < gradient@.len() implies spec_parse_color(
            (#[trigger] gradient@[j])@,
        ) is Some by {
            assert(valid(gradient@[j]));
        }
    }
    Ok(())
}

impl SimpleBiome {
    /// A biome gradient is valid when it holds at least one color string
    /// and every one parses.
    pub open spec fn valid(&self) -> bool {
        0 < self.gradient@.len() && all_colors_parse(self.gradient@)
    }

    /// The exact error an invalid biome reports: missing colors for an
    /// empty gradient, else the first color string that does not parse.
    pub open spec fn spec_err(&self, e: ConfigError) -> bool {
        if self.gradient@.len() == 0 {
            e == ConfigError::MissingColors
        } else {
            &&& first_unparsable(self.gradient@) < self.gradient@.len()
            &&& e matches ConfigError::InvalidColor(c) && c@ == self.gradient@[first_unparsable(
                self.gradient@,
            )]@
        }
    }

    /// Validates the parameters for a single biome.
    pub fn validate(&self) -> (r: ConfigResult<()>)
        ensures
            r is Ok <==> self.valid(),
            r matches Err(e) ==> self.spec_err(e),
    {
        validate_colors(&self.gradient)
    }
}

impl Noise {
    /// Noise parameters are valid when persistence and lacunarity are
    /// both positive.
    pub open spec fn valid(&self) -> bool {
        self.persistence > 0 && self.lacunarity > 0
    }

    /// The exact error invalid noise parameters report: a persistence
    /// that is not positive, else a lacunarity that is not positive.
    pub open spec fn spec_err(&self, e: ConfigError) -> bool {
        if self.persistence <= 0 {
            e == ConfigError::InvalidPersistence(self.persistence)
        } else {
            self.lacunarity <= 0 && e == ConfigError::InvalidLacunarity(self.lacunarity)
        }
    }

    /// Validates the noise generation config items.
    pub fn validate(&self) -> (r: ConfigResult<()>)
        ensures
            r is Ok <==> self.valid(),
            r matches Err(e) ==> self.spec_err(e),
    {
        if self.persistence <= 0 {
            return Err(ConfigError::InvalidPersistence(self.persistence));
        }
        if self.lacunarity <= 0 {
            return Err(ConfigError::InvalidLacunarity(self.lacunarity));
        }
        Ok(())
    }
}

impl MoistureLevel {
    /// A moisture level is valid when its weight is positive and its
    /// gradient is a nonempty list of well-formed colors.
    pub open spec fn valid(&self) -> bool {
        &&& self.moisture > 0
        &&& 0 < self.gradient@.len()
        &&& all_colors_parse(self.gradient@)
    }

    /// The exact error an invalid moisture level reports: a weight that
    /// is not positive, else an empty gradient, else the first color
    /// string that does not parse.
    pub open spec fn spec_err(&self, e: ConfigError) -> bool {
        if self.moisture <= 0 {
            e == ConfigError::InvalidMoisture(self.moisture)
        } else if self.gradient@.len() == 0 {
            e == ConfigError::MissingColors
        } else {
            &&& first_unparsable(self.gradient@) < self.gradient@.len()
            &&& e matches ConfigError::InvalidColor(c) && c@ == self.gradient@[first_unparsable(
                self.gradient@,
            )]@
        }
    }

    /// Validates the moisture level.
    pub fn validate(&self) -> (r: ConfigResult<()>)
        ensures
            r is Ok <==> self.valid(),
            r matches Err(e) ==> self.spec_err(e),
    {
        if self.moisture <= 0 {
            return Err(ConfigError::InvalidMoisture(self.moisture));
        }
        validate_colors(&self.gradient)
    }
}

impl ElevationLevel {
    /// An elevation level is valid when its weight is positive and it
    /// holds at least one valid moisture level.
    pub open spec fn valid(&self) -> bool {
        &&& self.elevation > 0
        &&& 0 < self.moisture_levels@.len()
        &&& forall|i: int|
            0 <= i < self.moisture_levels@.len() ==> (#[trigger] self.moisture_levels@[i]).valid()
    }

    /// The exact error an invalid elevation level reports: a weight that
    /// is not positive, else missing moisture levels, else whatever its
    /// first invalid moisture level reports.
    pub open spec fn spec_err(&self, e: ConfigError) -> bool {
        if self.elevation <= 0 {
            e == ConfigError::InvalidElevation(self.elevation)
        } else if self.moisture_levels@.len() == 0 {
            e == ConfigError::MissingMoistureLevels
        } else {
            let i = first_invalid(self.moisture_levels@, |m: MoistureLevel| m.valid());
            &&& i < self.moisture_levels@.len()
            &&& self.moisture_levels@[i].spec_err(e)
        }
    }

    /// Validates the elevation level.
    pub fn validate(&self) -> (r: ConfigResult<()>)
        ensures
            r is Ok <==> self.valid(),
            r matches Err(e) ==> self.spec_err(e),
    {
        let ghost valid = |m: MoistureLevel| m.valid();
        if self.elevation <= 0 {
            return Err(ConfigError::InvalidElevation(self.elevation));
        }
        if self.moisture_levels.len() == 0 {
            return Err(ConfigError::MissingMoistureLevels);
        }
        let mut i: usize = 0;
        while i < self.moisture_levels.len()
            invariant
                self.elevation > 0,
                0 < self.moisture_levels@.len(),
                i <= self.moisture_levels@.len(),
                valid == (|m: MoistureLevel| m.valid()),
                forall|j: int| 0 <= j < i ==> valid(#[trigger] self.moisture_levels@[j]),
            decreases self.moisture_levels@.len() - i,
        {
            match self.moisture_levels[i].validate() {
                Ok(()) => {
                },
                Err(e) => {
                    proof {
                        lemma_first_invalid_is(self.moisture_levels@, valid, i as int);
                    }
                    return Err(e);
                },
            }
            i += 1;
        }
        proof {
            assert forall|j: int|
                0 <= j < self.moisture_levels@.len() implies (
            #[trigger] self.moisture_levels@[j]).valid() by {
                assert(valid(self.moisture_levels@[j]));
            }
        }
        Ok(())
    }
}

impl Biomes {
    /// A biome map is valid when it holds at least one valid elevation
    /// level.
    pub open spec fn valid(&self) -> bool {
        &&& 0 < self.elevation_levels@.len()
        &&& forall|i: int|
            0 <= i < self.elevation_levels@.len() ==> (#[trigger] self.elevation_levels@[i]).valid()
    }

    /// The exact error an invalid biome map reports: missing elevation
    /// levels, else whatever its first invalid elevation level reports.
    pub open spec fn spec_err(&self, e: ConfigError) -> bool {
        if self.elevation_levels@.len() == 0 {
            e == ConfigError::MissingElevationLevels
        } else {
            let i = first_invalid(self.elevation_levels@, |l: ElevationLevel| l.valid());
            &&& i < self.elevation_levels@.len()
            &&& self.elevation_levels@[i].spec_err(e)
        }
    }

    /// Validates the biomes.
    pub fn validate(&self) -> (r: ConfigResult<()>)
        ensures
            r is Ok <==> self.valid(),
            r matches Err(e) ==> self.spec_err(e),
    {
        let ghost valid = |l: ElevationLevel| l.valid();
        if self.elevation_levels.len() == 0 {
            return Err(ConfigError::MissingElevationLevels);
        }
        let mut i: usize = 0;
        while i < self.elevation_levels.len()
            invariant
                0 < self.elevation_levels@.len(),
                i <= self.elevation_levels@.len(),
                valid == (|l: ElevationLevel| l.valid()),
                forall|j: int| 0 <= j < i ==> valid(#[trigger] self.elevation_levels@[j]),
            decreases self.elevation_levels@.len() - i,
        {
            match self.elevation_levels[i].validate() {
                Ok(()) => {
                },
                Err(e) => {
                    proof {
                        lemma_first_invalid_is(self.elevation_levels@, valid, i as int);
                    }
                    return Err(e);
                },
            }
            i += 1;
        }
        proof {
            assert forall|j: int|
                0 <= j < self.elevation_levels@.len() implies (
            #[trigger] self.elevation_levels@[j]).valid() by {
                assert(valid(self.elevation_levels@[j]));
            }
        }
        Ok(())
    }
}

/// The total weight a list of weights may reach, so that every cumulative
/// fixed-point threshold computation fits in 64-bit arithmetic.
pub const MAX_TOTAL_WEIGHT: i64 = 9_000_000_000_000;

impl ElevationLevel {
    /// The moisture weights of this level, in order.
    pub open spec fn moisture_weights(&self) -> Seq<int> {
        self.moisture_levels@.map_values(|m: MoistureLevel| m.moisture as int)
    }

    /// The total moisture weight in the elevation level.
    pub open spec fn spec_total_moisture(&self) -> int {
        sum_weights(self.moisture_weights())
    }

    /// Gets the total moisture in the elevation level.
    pub fn total_moisture(&self) -> (t: i64)
        requires
            forall|j: int| 0 <= j < self.moisture_levels@.len() ==> (
            #[trigger] self.moisture_levels@[j]).moisture > 0,
            self.spec_total_moisture() <= MAX_TOTAL_WEIGHT,
        ensures
            t == self.spec_total_moisture(),
    {
        let ghost w = self.moisture_weights();
        let mut acc: i64 = 0;
        let mut i: usize = 0;
        while i < self.moisture_levels.len()
            invariant
                w == self.moisture_weights(),
                forall|j: int| 0 <= j < w.len() ==> #[trigger] w[j] > 0,
                sum_weights(w) <= MAX_TOTAL_WEIGHT,
                i <= w.len(),
                w.len() == self.moisture_levels@.len(),
                acc == sum_weights(w.take(i as int)),
            decreases w.len() - i,
        {
            proof {
                lemma_sum_weights_bounds(w, i as int);
                lemma_sum_weights_bounds(w, i as int + 1);
                crate::utils::lemma_sum_weights_step(w, i as int);
            }
            acc = acc + self.moisture_levels[i].moisture;
            i += 1;
        }
        proof {
            assert(w.take(w.len() as int) =~= w);
        }
        acc
    }
}

impl Biomes {
    /// The elevation weights of the biome mapping, in order.
    pub open spec fn elevation_weights(&self) -> Seq<int> {
        self.elevation_levels@.map_values(|l: ElevationLevel| l.elevation as int)
    }

    /// The total elevation weight in the biome mapping.
    pub open spec fn spec_total_elevation(&self) -> int {
        sum_weights(self.elevation_weights())
    }

    /// Gets the total elevation in the biome mapping.
    pub fn total_elevation(&self) -> (t: i64)
        requires
            forall|j: int| 0 <= j < self.elevation_levels@.len() ==> (
            #[trigger] self.elevation_levels@[j]).elevation > 0,
            self.spec_total_elevation() <= MAX_TOTAL_WEIGHT,
        ensures
            t == self.spec_total_elevation(),
    {
        let ghost w = self.elevation_weights();
        let mut acc: i64 = 0;
        let mut i: usize = 0;
        while i < self.elevation_levels.len()
            invariant
                w == self.elevation_weights(),
                forall|j: int| 0 <= j < w.len() ==> #[trigger] w[j] > 0,
                sum_weights(w) <= MAX_TOTAL_WEIGHT,
                i <= w.len(),
                w.len() == self.elevation_levels@.len(),
                acc == sum_weights(w.take(i as int)),
            decreases w.len() - i,
        {
            proof {
                lemma_sum_weights_bounds(w, i as int);
                lemma_sum_weights_bounds(w, i as int + 1);
                crate::utils::lemma_sum_weights_step(w, i as int);
            }
            acc = acc + self.elevation_levels[i].elevation;
            i += 1;
        }
        proof {
            assert(w.take(w.len() as int) =~= w);
        }
        acc
    }

    /// Whether every weight in the biome mapping is positive and every
    /// level is populated: the arithmetic prerequisites for building a
    /// color evaluator, as the configuration contract demands.
    pub open spec fn weights_valid(&self) -> bool {
        &&& 0 < self.elevation_levels@.len()
        &&& forall|i: int|
            0 <= i < self.elevation_levels@.len() ==> {
                let l = #[trigger] self.elevation_levels@[i];
                &&& l.elevation > 0
                &&& 0 < l.moisture_levels@.len()
                &&& forall|j: int|
                    0 <= j < l.moisture_levels@.len() ==> (#[trigger] l.moisture_levels@[j]).moisture
                        > 0
            }
    }

    /// Whether the weight totals fit the fixed-point arithmetic: a machine
    /// limit on how heavy a biome mapping may be.
    pub open spec fn weights_bounded(&self) -> bool {
        &&& self.spec_total_elevation() <= MAX_TOTAL_WEIGHT
        &&& forall|i: int|
            0 <= i < self.elevation_levels@.len() ==> (
            #[trigger] self.elevation_levels@[i]).spec_total_moisture() <= MAX_TOTAL_WEIGHT
    }
}

/// The value under the first pair whose key is `name`, if any: how every
/// named lookup in the configuration is answered.
pub open spec fn spec_lookup<V>(m: Seq<(String, V)>, name: Seq<char>) -> Option<V>
    decreases m.len(),
{
    if m.len() == 0 {
        None
    } else if m[0].0@ == name {
        Some(m[0].1)
    } else {
        spec_lookup(m.drop_first(), name)
    }
}

/// Law: when the keys before `i` all differ from `name`, the lookup is
/// decided at `i`: the value there when its key is `name`, nothing when
/// `i` is the end of the list.
pub proof fn lemma_lookup_at<V>(m: Seq<(String, V)>, name: Seq<char>, i: int)
    requires
        0 <= i <= m.len(),
        forall|j: int| 0 <= j < i ==> (#[trigger] m[j]).0@ != name,
        i < m.len() ==> m[i].0@ == name,
    ensures
        spec_lookup(m, name) == if i < m.len() {
            Some(m[i].1)
        } else {
            None::<V>
        },
    decreases m.len(),
{
    if m.len() > 0 && m[0].0@ != name {
        assert forall|j: int| 0 <= j < i - 1 implies (#[trigger] m.drop_first()[j]).0@ != name by {
            assert(m.drop_first()[j] == m[j + 1]);
        }
        if i - 1 < m.len() - 1 {
            assert(m.drop_first()[i - 1] == m[i]);
        }
        lemma_lookup_at(m.drop_first(), name, i - 1);
    }
}

impl Config {
    /// A configuration is valid when every named biome gradient, every
    /// set of noise parameters and every biome map is valid.
    pub open spec fn valid(&self) -> bool {
        &&& forall|i: int| 0 <= i < self.biomes@.len() ==> (#[trigger] self.biomes@[i]).1.valid()
        &&& forall|i: int|
            0 <= i < self.noise_generators@.len() ==> (#[trigger] self.noise_generators@[i]).1.valid()
        &&& forall|i: int|
            0 <= i < self.biome_maps@.len() ==> (#[trigger] self.biome_maps@[i]).1.valid()
    }

    /// The exact error an invalid configuration reports: whatever the
    /// first invalid biome gradient reports; else whatever the first
    /// invalid set of noise parameters reports; else whatever the first
    /// invalid biome map reports.
    pub open spec fn spec_err(&self, e: ConfigError) -> bool {
        let bi = first_invalid(self.biomes@, |p: (String, SimpleBiome)| p.1.valid());
        let ni = first_invalid(self.noise_generators@, |p: (String, Noise)| p.1.valid());
        let mi = first_invalid(self.biome_maps@, |p: (String, Biomes)| p.1.valid());
        if bi < self.biomes@.len() {
            self.biomes@[bi].1.spec_err(e)
        } else if ni < self.noise_generators@.len() {
            self.noise_generators@[ni].1.spec_err(e)
        } else {
            &&& mi < self.biome_maps@.len()
            &&& self.biome_maps@[mi].1.spec_err(e)
        }
    }

    /// Validates the entire configuration.
    pub fn validate(&self) -> (r: ConfigResult<()>)
        ensures
            r is Ok <==> self.valid(),
            r matches Err(e) ==> self.spec_err(e),
    {
        let ghost bvalid = |p: (String, SimpleBiome)| p.1.valid();
        let ghost nvalid = |p: (String, Noise)| p.1.valid();
        let ghost mvalid = |p: (String, Biomes)| p.1.valid();
        let mut i: usize = 0;
        while i < self.biomes.len()
            invariant
                i <= self.biomes@.len(),
                bvalid == (|p: (String, SimpleBiome)| p.1.valid()),
                forall|j: int| 0 <= j < i ==> bvalid(#[trigger] self.biomes@[j]),
            decreases self.biomes@.len() - i,
        {
            match self.biomes[i].1.validate() {
                Ok(()) => {
                },
                Err(e) => {
                    proof {
                        lemma_first_invalid_is(self.biomes@, bvalid, i as int);
                    }
                    return Err(e);
                },
            }
            i += 1;
        }
        proof {
            lemma_first_invalid_is(self.biomes@, bvalid, self.biomes@.len() as int);
        }
        let mut i: usize = 0;
        while i < self.noise_generators.len()
            invariant
                i <= self.noise_generators@.len(),
                bvalid == (|p: (String, SimpleBiome)| p.1.valid()),
                nvalid == (|p: (String, Noise)| p.1.valid()),
                first_invalid(self.biomes@, bvalid) == self.biomes@.len(),
                forall|j: int| 0 <= j < self.biomes@.len() ==> bvalid(#[trigger] self.biomes@[j]),
                forall|j: int| 0 <= j < i ==> nvalid(#[trigger] self.noise_generators@[j]),
            decreases self.noise_generators@.len() - i,
        {
            match self.noise_generators[i].1.validate() {
                Ok(()) => {
                },
                Err(e) => {
                    proof {
                        lemma_first_invalid_is(self.noise_generators@, nvalid, i as int);
                    }
                    return Err(e);
                },
            }
            i += 1;
        }
        proof {
            lemma_first_invalid_is(self.noise_generators@, nvalid, self.noise_generators@.len() as int);
        }
        let mut i: usize = 0;
        while i < self.biome_maps.len()
            invariant
                i <= self.biome_maps@.len(),
                bvalid == (|p: (String, SimpleBiome)| p.1.valid()),
                nvalid == (|p: (String, Noise)| p.1.valid()),
                mvalid == (|p: (String, Biomes)| p.1.valid()),
                first_invalid(self.biomes@, bvalid) == self.biomes@.len(),
                first_invalid(self.noise_generators@, nvalid) == self.noise_generators@.len(),
                forall|j: int| 0 <= j < self.biomes@.len() ==> bvalid(#[trigger] self.biomes@[j]),
                forall|j: int|
                    0 <= j < self.noise_generators@.len() ==> nvalid(
                        #[trigger] self.noise_generators@[j],
                    ),
                forall|j: int| 0 <= j < i ==> mvalid(#[trigger] self.biome_maps@[j]),
            decreases self.biome_maps@.len() - i,
        {
            match self.biome_maps[i].1.validate() {
                Ok(()) => {
                },
                Err(e) => {
                    proof {
                        lemma_first_invalid_is(self.biome_maps@, mvalid, i as int);
                    }
                    return Err(e);
                },
            }
            i += 1;
        }
        Ok(())
    }

    /// Returns the noise parameters defined under the given name, if any.
    pub fn get_noise_generator(&self, name: &String) -> (r: Option<Noise>)
        ensures
            r == spec_lookup(self.noise_generators@, name@),
    {
        let mut i: usize = 0;
        while i < self.noise_generators.len()
            invariant
                i <= self.noise_generators@.len(),
                forall|j: int| 0 <= j < i ==> (#[trigger] self.noise_generators@[j]).0@ != name@,
            decreases self.noise_generators@.len() - i,
        {
            if self.noise_generators[i].0 == *name {
                proof {
                    lemma_lookup_at(self.noise_generators@, name@, i as int);
                }
                return Some(self.noise_generators[i].1);
            }
            i += 1;
        }
        proof {
            lemma_lookup_at(self.noise_generators@, name@, self.noise_generators@.len() as int);
        }
        None
    }

    /// Returns a color evaluator for the biome map defined under the
    /// given name: the lookup misses when the name is not defined, and
    /// yields nothing when some gradient of the map cannot be built.
    pub fn get_color_evaluator(&self, name: &String) -> (r: Option<ColorEvaluator>)
        requires
            spec_lookup(self.biome_maps@, name@) matches Some(b) ==> b.weights_valid()
                && b.weights_bounded(),
        ensures
            match spec_lookup(self.biome_maps@, name@) {
                Some(b) => match r {
                    Some(ev) => ev.wf() && spec_evaluator_from(ev, b) && biomes_gradients_ok(b),
                    None => !biomes_gradients_ok(b),
                },
                None => r is None,
            },
    {
        let mut i: usize = 0;
        while i < self.biome_maps.len()
            invariant
                spec_lookup(self.biome_maps@, name@) matches Some(b) ==> b.weights_valid()
                    && b.weights_bounded(),
                i <= self.biome_maps@.len(),
                forall|j: int| 0 <= j < i ==> (#[trigger] self.biome_maps@[j]).0@ != name@,
            decreases self.biome_maps@.len() - i,
        {
            if self.biome_maps[i].0 == *name {
                proof {
                    lemma_lookup_at(self.biome_maps@, name@, i as int);
                }
                return match ColorEvaluator::from_biomes(&self.biome_maps[i].1) {
                    Ok(ev) => Some(ev),
                    Err(_) => None,
                };
            }
            i += 1;
        }
        proof {
            lemma_lookup_at(self.biome_maps@, name@, self.biome_maps@.len() as int);
        }
        None
    }

    /// Returns a gradient for the biome defined under the given name:
    /// the lookup misses when the name is not defined, and yields nothing
    /// when the biome's gradient cannot be built.
    pub fn get_color_func(&self, name: &String) -> (r: Option<Gradient>)
        ensures
            match spec_lookup(self.biomes@, name@) {
                Some(b) => match r {
                    Some(g) => spec_gradient_from(g, b.gradient@),
                    None => b.gradient@.len() == 0 || b.gradient@.len() > MAX_STOPS
                        || !all_colors_parse(b.gradient@),
                },
                None => r is None,
            },
    {
        let mut i: usize = 0;
        while i < self.biomes.len()
            invariant
                i <= self.biomes@.len(),
                forall|j: int| 0 <= j < i ==> (#[trigger] self.biomes@[j]).0@ != name@,
            decreases self.biomes@.len() - i,
        {
            if self.biomes[i].0 == *name {
                proof {
                    lemma_lookup_at(self.biomes@, name@, i as int);
                }
                return match get_color_func(&self.biomes[i].1.gradient) {
                    Ok(g) => Some(g),
                    Err(_) => None,
                };
            }
            i += 1;
        }
        proof {
            lemma_lookup_at(self.biomes@, name@, self.biomes@.len() as int);
        }
        None
    }
}

} // verus!
