use sigil::color::Rgb;
use sigil::gradient::{preset_names, preset_stops, unpack_rgb, Axis};

#[test]
fn all_presets_resolve() {
    for name in preset_names() {
        assert!(preset_stops(name).is_some(), "missing preset {name}");
    }
    assert!(preset_stops("nonsense").is_none());
}

#[test]
fn preset_stops_are_exact() {
    assert_eq!(
        preset_stops("Sunset").unwrap(),
        vec![Rgb::new(0xff, 0x5f, 0x6d), Rgb::new(0xff, 0xc3, 0x71)]
    );
    // The short table entries are plain numbers, not CSS shorthand.
    assert_eq!(
        preset_stops("cyberpunk").unwrap(),
        vec![Rgb::new(0, 0x0f, 0x0f), Rgb::new(0, 0, 0xff)]
    );
    assert_eq!(preset_stops("rainbow").unwrap().len(), 6);
    assert_eq!(unpack_rgb(0x2193b0), Rgb::new(0x21, 0x93, 0xb0));
}

#[test]
fn directions_parse() {
    assert_eq!(Axis::parse("horizontal").unwrap(), Axis::Horizontal);
    assert_eq!(Axis::parse("V").unwrap(), Axis::Vertical);
    assert_eq!(Axis::parse("d").unwrap(), Axis::Diagonal);
    assert_eq!(
        Axis::parse("spiral").unwrap_err(),
        "unknown direction: spiral (horizontal|vertical|diagonal|radial|conic)"
    );
}

#[test]
fn radial_and_conic_directions() {
    assert_eq!(Axis::parse("radial").unwrap(), Axis::Radial);
    assert_eq!(Axis::parse("Conic").unwrap(), Axis::Conic);
}

#[test]
fn aurora_preset_exists() {
    assert!(preset_stops("aurora").is_some());
    assert!(!preset_names().contains(&"aurora"));
    assert_eq!(
        preset_names(),
        ["sunset", "ocean", "fire", "mint", "grape", "cyberpunk", "gold", "ice", "vaporwave",
         "rainbow", "matrix", "flamingo", "mono"]
    );
}
