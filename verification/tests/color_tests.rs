use rich_rust::color::{rgb_to_standard, Color, ColorSystem, ColorTriplet, ColorType, EIGHT_BIT_PALETTE};


#[test]
fn test_color_triplet_hex() {
    let c = ColorTriplet::new(255, 0, 128);
    assert_eq!(c.hex(), "#ff0080");
}

#[test]
fn test_color_triplet_rgb_string() {
    let c = ColorTriplet::new(100, 150, 200);
    assert_eq!(c.rgb(), "rgb(100,150,200)");
}

#[test]
fn test_color_parse_hex() {
    let c = Color::parse("#ff0000").unwrap();
    assert_eq!(c.color_type, ColorType::TrueColor);
    assert_eq!(c.triplet, Some(ColorTriplet::new(255, 0, 0)));
}

#[test]
fn test_color_parse_named() {
    let c = Color::parse("red").unwrap();
    assert_eq!(c.color_type, ColorType::Standard);
    assert_eq!(c.number, Some(1));
}

#[test]
fn test_color_parse_color_number() {
    let c = Color::parse("color(196)").unwrap();
    assert_eq!(c.color_type, ColorType::EightBit);
    assert_eq!(c.number, Some(196));
}

#[test]
fn test_color_parse_rgb() {
    let c = Color::parse("rgb(100, 150, 200)").unwrap();
    assert_eq!(c.color_type, ColorType::TrueColor);
    assert_eq!(c.triplet, Some(ColorTriplet::new(100, 150, 200)));
}

#[test]
fn test_color_default() {
    let c = Color::default_color();
    assert!(c.is_default());
    assert_eq!(c.get_ansi_codes(true), vec!["39"]);
    assert_eq!(c.get_ansi_codes(false), vec!["49"]);
}

#[test]
fn test_color_ansi_codes_standard() {
    let c = Color::from_ansi(1); // Red
    assert_eq!(c.get_ansi_codes(true), vec!["31"]);
    assert_eq!(c.get_ansi_codes(false), vec!["41"]);
}

#[test]
fn test_color_ansi_codes_bright() {
    let c = Color::from_ansi(9); // Bright Red
    assert_eq!(c.get_ansi_codes(true), vec!["91"]);
    assert_eq!(c.get_ansi_codes(false), vec!["101"]);
}

#[test]
fn test_color_ansi_codes_eight_bit() {
    let c = Color::from_ansi(196);
    assert_eq!(c.get_ansi_codes(true), vec!["38", "5", "196"]);
}

#[test]
fn test_color_ansi_codes_truecolor() {
    let c = Color::from_rgb(255, 128, 64);
    assert_eq!(c.get_ansi_codes(true), vec!["38", "2", "255", "128", "64"]);
}

#[test]
fn test_color_downgrade() {
    let truecolor = Color::from_rgb(255, 0, 0);
    let eight_bit = truecolor.downgrade(ColorSystem::EightBit);
    assert_eq!(eight_bit.color_type, ColorType::EightBit);

    let standard = truecolor.downgrade(ColorSystem::Standard);
    assert_eq!(standard.color_type, ColorType::Standard);
    assert_eq!(standard.number, Some(1));
}

#[test]
fn test_rgb_to_standard() {
    let idx = rgb_to_standard(ColorTriplet::new(255, 0, 0));
    assert_eq!(idx, 1);
}

#[test]
fn test_eight_bit_palette_generation() {
    let palette = EIGHT_BIT_PALETTE();
    assert_eq!(palette[232], ColorTriplet::new(8, 8, 8));
    assert_eq!(palette[255], ColorTriplet::new(238, 238, 238));
    assert_eq!(palette[16], ColorTriplet::new(0, 0, 0));
    assert_eq!(palette[21], ColorTriplet::new(0, 0, 255));
}

#[test]
fn parse_trims_and_lowercases() {
    assert!(rich_rust::color::Color::parse(" RED ").is_ok());
    assert_eq!(rich_rust::color::Color::parse(" RED ").unwrap().name, "red");
}

#[test]
fn rgb_to_standard_picks_the_nearest_palette_entry() {
    assert_eq!(rgb_to_standard(ColorTriplet::new(1, 1, 1)), 0);
    assert_eq!(rgb_to_standard(ColorTriplet::new(170, 0, 0)), 1);
    assert_eq!(rgb_to_standard(ColorTriplet::new(128, 128, 128)), 7);
    assert_eq!(rgb_to_standard(ColorTriplet::new(250, 250, 250)), 15);
}
