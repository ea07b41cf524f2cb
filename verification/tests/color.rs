use ficture::biomes::ocean;
use ficture::cell::Cell;
use ficture::color::{color_to_rgb, get_color_func, ColorError, Gradient, Rgb8};
use ficture::utils::{normalize, SCALE};

#[test]
fn test_color_to_rgb_parses_six_digits() {
    assert_eq!(color_to_rgb("#0a46ad"), Ok(Rgb8 { r: 10, g: 70, b: 173 }));
    assert_eq!(color_to_rgb("#01c7dd"), Ok(Rgb8 { r: 1, g: 199, b: 221 }));
    assert_eq!(color_to_rgb("#FFFFFF"), Ok(Rgb8 { r: 255, g: 255, b: 255 }));
}

#[test]
fn test_color_to_rgb_parses_short_and_alpha_forms() {
    assert_eq!(color_to_rgb("#abc"), Ok(Rgb8 { r: 0xaa, g: 0xbb, b: 0xcc }));
    assert_eq!(color_to_rgb("#abcf"), Ok(Rgb8 { r: 0xaa, g: 0xbb, b: 0xcc }));
    assert_eq!(color_to_rgb("#0a46ad80"), Ok(Rgb8 { r: 10, g: 70, b: 173 }));
}

#[test]
fn test_color_to_rgb_rejects_malformed_strings() {
    assert!(color_to_rgb("").is_err());
    assert!(color_to_rgb("red").is_err());
    assert!(color_to_rgb("0a46ad").is_err());
    assert!(color_to_rgb("#12345").is_err());
    assert!(color_to_rgb("#gg0000").is_err());
    assert!(color_to_rgb("#0a46adff00").is_err());
}

#[test]
fn test_gradient_interpolates_linearly() {
    let gradient = Gradient::new(vec![
        Rgb8 { r: 0, g: 0, b: 0 },
        Rgb8 { r: 255, g: 255, b: 255 },
    ])
    .unwrap();

    assert_eq!(gradient.at(0), Rgb8 { r: 0, g: 0, b: 0 });
    assert_eq!(gradient.at(SCALE), Rgb8 { r: 255, g: 255, b: 255 });
    // halfway: 127.5 rounds up to 128
    assert_eq!(gradient.at(SCALE / 2), Rgb8 { r: 128, g: 128, b: 128 });
    // a quarter: 63.75 rounds to 64
    assert_eq!(gradient.at(SCALE / 4), Rgb8 { r: 64, g: 64, b: 64 });
}

#[test]
fn test_gradient_clamps_outside_unit_range() {
    let gradient = Gradient::new(vec![
        Rgb8 { r: 10, g: 20, b: 30 },
        Rgb8 { r: 200, g: 210, b: 220 },
    ])
    .unwrap();

    assert_eq!(gradient.at(-123_456), Rgb8 { r: 10, g: 20, b: 30 });
    assert_eq!(gradient.at(SCALE + 123_456), Rgb8 { r: 200, g: 210, b: 220 });
}

#[test]
fn test_gradient_with_three_stops_picks_segments() {
    let gradient = Gradient::new(vec![
        Rgb8 { r: 0, g: 0, b: 0 },
        Rgb8 { r: 100, g: 100, b: 100 },
        Rgb8 { r: 200, g: 200, b: 200 },
    ])
    .unwrap();

    assert_eq!(gradient.at(0), Rgb8 { r: 0, g: 0, b: 0 });
    assert_eq!(gradient.at(SCALE / 2), Rgb8 { r: 100, g: 100, b: 100 });
    assert_eq!(gradient.at(SCALE), Rgb8 { r: 200, g: 200, b: 200 });
    // halfway through the first segment
    assert_eq!(gradient.at(SCALE / 4), Rgb8 { r: 50, g: 50, b: 50 });
}

#[test]
fn test_gradient_needs_at_least_one_stop() {
    assert_eq!(Gradient::new(vec![]).unwrap_err(), ColorError::InvalidGradient);
    let single = Gradient::new(vec![Rgb8 { r: 7, g: 8, b: 9 }]).unwrap();
    assert_eq!(single.at(SCALE / 2), Rgb8 { r: 7, g: 8, b: 9 });
}

#[test]
fn test_get_color_func_builds_parsed_stops() {
    let gradient =
        get_color_func(&vec![String::from("#000000"), String::from("#ffffff")]).unwrap();
    assert_eq!(gradient.at(SCALE / 2), Rgb8 { r: 128, g: 128, b: 128 });

    assert!(get_color_func(&vec![]).is_err());
    assert!(get_color_func(&vec![String::from("no color")]).is_err());
}

#[test]
fn test_normalize_is_linear() {
    assert_eq!(normalize(0, 0, 10), 0);
    assert_eq!(normalize(10, 0, 10), SCALE);
    assert_eq!(normalize(5, 0, 10), SCALE / 2);
    assert_eq!(normalize(25, 20, 40), SCALE / 4);
}

#[test]
fn test_ocean_gradient_endpoints() {
    assert_eq!(ocean(0), Rgb8 { r: 10, g: 70, b: 173 });
    assert_eq!(ocean(SCALE), Rgb8 { r: 53, g: 214, b: 242 });
    assert_eq!(ocean(SCALE / 2), Rgb8 { r: 32, g: 142, b: 208 });
}

#[test]
fn test_cell_biome_colors() {
    // halfway up the ocean band
    let cell = Cell { elevation: 50_000, moisture: 0 };
    assert_eq!(cell.get_color(), Rgb8 { r: 32, g: 142, b: 208 });

    // the beach band has one fixed color
    let cell = Cell { elevation: 110_000, moisture: 999_000 };
    assert_eq!(cell.get_color(), Rgb8 { r: 1, g: 199, b: 221 });

    // the very top of the map under heavy moisture is snowy
    let cell = Cell { elevation: SCALE, moisture: SCALE };
    assert_eq!(cell.get_color(), Rgb8 { r: 230, g: 230, b: 240 });
}
