use ficture::color::{ColorEvaluator, Rgb8};
use ficture::config::{
    Biomes, Config, ConfigError, ElevationLevel, MoistureLevel, Noise, SimpleBiome,
};
use ficture::utils::SCALE;

fn moisture_level(weight: i64, colors: &[&str]) -> MoistureLevel {
    MoistureLevel {
        moisture: weight,
        gradient: colors.iter().map(|c| String::from(*c)).collect(),
    }
}

fn minimal_config() -> Config {
    Config {
        biomes: vec![(
            String::from("ocean"),
            SimpleBiome { gradient: vec![String::from("#0a46ad"), String::from("#35d6f2")] },
        )],
        noise_generators: vec![(
            String::from("elevation_noise"),
            Noise { octaves: 6, persistence: 2_000_000, lacunarity: 3_000_000 },
        )],
        biome_maps: vec![(
            String::from("default"),
            Biomes {
                elevation_levels: vec![ElevationLevel {
                    elevation: SCALE,
                    moisture_levels: vec![moisture_level(SCALE, &["#000000", "#ffffff"])],
                }],
            },
        )],
    }
}

#[test]
fn test_minimal_config_is_valid() {
    assert!(minimal_config().validate().is_ok());
}

#[test]
fn test_validate_rejects_nonpositive_persistence() {
    let mut config = minimal_config();
    config.noise_generators[0].1.persistence = 0;
    assert_eq!(config.validate().unwrap_err(), ConfigError::InvalidPersistence(0));
    config.noise_generators[0].1.persistence = -5;
    assert_eq!(config.validate().unwrap_err(), ConfigError::InvalidPersistence(-5));
}

#[test]
fn test_validate_rejects_nonpositive_lacunarity() {
    let mut config = minimal_config();
    config.noise_generators[0].1.lacunarity = -1_000_000;
    assert_eq!(config.validate().unwrap_err(), ConfigError::InvalidLacunarity(-1_000_000));
}

#[test]
fn test_validate_rejects_nonpositive_elevation_weight() {
    let mut config = minimal_config();
    config.biome_maps[0].1.elevation_levels[0].elevation = 0;
    assert_eq!(config.validate().unwrap_err(), ConfigError::InvalidElevation(0));
}

#[test]
fn test_validate_rejects_nonpositive_moisture_weight() {
    let mut config = minimal_config();
    config.biome_maps[0].1.elevation_levels[0].moisture_levels[0].moisture = -3;
    assert_eq!(config.validate().unwrap_err(), ConfigError::InvalidMoisture(-3));
}

#[test]
fn test_validate_rejects_empty_gradient() {
    let mut config = minimal_config();
    config.biomes[0].1.gradient.clear();
    assert_eq!(config.validate().unwrap_err(), ConfigError::MissingColors);
}

#[test]
fn test_validate_rejects_bad_color_string() {
    let mut config = minimal_config();
    config.biomes[0].1.gradient[1] = String::from("#not-a-color");
    assert_eq!(
        config.validate().unwrap_err(),
        ConfigError::InvalidColor(String::from("#not-a-color"))
    );
}

#[test]
fn test_validate_rejects_missing_levels() {
    let mut config = minimal_config();
    config.biome_maps[0].1.elevation_levels.clear();
    assert_eq!(config.validate().unwrap_err(), ConfigError::MissingElevationLevels);

    let mut config = minimal_config();
    config.biome_maps[0].1.elevation_levels[0].moisture_levels.clear();
    assert_eq!(config.validate().unwrap_err(), ConfigError::MissingMoistureLevels);
}

#[test]
fn test_get_noise_generator_looks_up_by_name() {
    let config = minimal_config();
    let noise = config.get_noise_generator(&String::from("elevation_noise"));
    assert_eq!(
        noise,
        Some(Noise { octaves: 6, persistence: 2_000_000, lacunarity: 3_000_000 })
    );
    assert_eq!(config.get_noise_generator(&String::from("moisture_noise")), None);
}

#[test]
fn test_get_color_func_looks_up_by_name() {
    let config = minimal_config();
    let gradient = config.get_color_func(&String::from("ocean")).unwrap();
    assert_eq!(gradient.at(0), Rgb8 { r: 10, g: 70, b: 173 });
    assert!(config.get_color_func(&String::from("lava")).is_none());
}

#[test]
fn test_single_band_evaluator_returns_gray() {
    let config = minimal_config();
    let evaluator = config.get_color_evaluator(&String::from("default")).unwrap();

    assert_eq!(evaluator.evaluate(SCALE / 2, 0), Rgb8 { r: 128, g: 128, b: 128 });
    assert_eq!(evaluator.evaluate(0, SCALE), Rgb8 { r: 0, g: 0, b: 0 });
    assert_eq!(evaluator.evaluate(SCALE, SCALE / 3), Rgb8 { r: 255, g: 255, b: 255 });
    assert_eq!(evaluator.evaluate(SCALE / 4, SCALE), Rgb8 { r: 64, g: 64, b: 64 });
}

#[test]
fn test_evaluator_band_boundary_is_deterministic() {
    // two equal elevation bands: red below one half, blue above; a factor
    // exactly at the boundary falls in the lower band
    let biomes = Biomes {
        elevation_levels: vec![
            ElevationLevel {
                elevation: SCALE,
                moisture_levels: vec![moisture_level(SCALE, &["#ff0000", "#ff0000"])],
            },
            ElevationLevel {
                elevation: SCALE,
                moisture_levels: vec![moisture_level(SCALE, &["#0000ff", "#0000ff"])],
            },
        ],
    };
    let evaluator = ColorEvaluator::from_biomes(&biomes).unwrap();

    assert_eq!(evaluator.evaluate(SCALE / 2, 0), Rgb8 { r: 255, g: 0, b: 0 });
    assert_eq!(evaluator.evaluate(SCALE / 2 + 1, 0), Rgb8 { r: 0, g: 0, b: 255 });
    // beyond every band's threshold the last band still answers
    assert_eq!(evaluator.evaluate(SCALE, 0), Rgb8 { r: 0, g: 0, b: 255 });
}

#[test]
fn test_get_color_evaluator_misses_unknown_names() {
    let config = minimal_config();
    assert!(config.get_color_evaluator(&String::from("nothing")).is_none());
}
