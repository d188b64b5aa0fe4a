use tincture::Hex;
use tincture::HexParseError;
use tincture::Hue;
use tincture::Srgb;

const S: f64 = 100_000_000.0;

fn fx(v: f64) -> i64 {
    (v * S).round() as i64
}

#[test]
fn hue_from_degrees_rejects_out_of_range() {
    assert!(Hue::from_degrees(-1).is_none());
    assert!(Hue::from_degrees(fx(360.0) + 1).is_none());
    assert!(Hue::from_degrees(fx(-12.5)).is_none());
    assert!(Hue::from_degrees(0).is_some());
    assert!(Hue::from_degrees(fx(360.0)).is_some());
}

#[test]
fn hue_degrees_round_trip_exactly() {
    for &deg in &[0.0, 0.0000001, 45.0, 90.0, 179.9999999, 180.0, 180.0000001, 270.0, 359.9999999]
    {
        let stored = fx(deg);
        let h = Hue::from_degrees(stored).unwrap();
        assert_eq!(h.to_degrees(), stored, "at {deg} degrees");
    }
}

#[test]
fn hue_full_turn_reads_back_as_zero() {
    let h = Hue::from_degrees(fx(360.0)).unwrap();
    assert_eq!(h.to_degrees(), 0);
}

#[test]
fn hex_parses_six_digits() {
    let h = Hex::parse("663399").unwrap();
    assert_eq!(h, Hex { r: 0x66, g: 0x33, b: 0x99 });
}

#[test]
fn hex_parsing_is_case_insensitive() {
    assert_eq!(Hex::parse("FFAA00").unwrap(), Hex::parse("ffaa00").unwrap());
    assert_eq!(Hex::parse("AbCdEf").unwrap(), Hex { r: 0xab, g: 0xcd, b: 0xef });
}

#[test]
fn hex_rejects_wrong_length() {
    assert_eq!(Hex::parse(""), Err(HexParseError::WrongLength));
    assert_eq!(Hex::parse("12345"), Err(HexParseError::WrongLength));
    assert_eq!(Hex::parse("1234567"), Err(HexParseError::WrongLength));
    assert_eq!(Hex::parse("#663399"), Err(HexParseError::WrongLength));
}

#[test]
fn hex_rejects_invalid_digits() {
    assert_eq!(Hex::parse("12345g"), Err(HexParseError::InvalidDigit));
    assert_eq!(Hex::parse("zz0000"), Err(HexParseError::InvalidDigit));
    assert_eq!(Hex::parse("66 399"), Err(HexParseError::InvalidDigit));
}

#[test]
fn hex_formats_six_lowercase_digits() {
    let h = Hex { r: 0x66, g: 0x33, b: 0x99 };
    assert_eq!(h.to_hex_string(), "663399");
    let white = Hex { r: 255, g: 255, b: 255 };
    assert_eq!(white.to_hex_string(), "ffffff");
    let dark = Hex { r: 0, g: 10, b: 0xab };
    assert_eq!(dark.to_hex_string(), "000aab");
}

#[test]
fn hex_format_then_parse_round_trips() {
    let h = Hex { r: 18, g: 205, b: 77 };
    assert_eq!(Hex::parse(&h.to_hex_string()).unwrap(), h);
}

#[test]
fn srgb_round_trips_through_hex_within_one_part_in_255() {
    for &v in &[0.0, 0.1, 0.25, 0.5, 0.73, 0.999, 1.0] {
        let srgb = Srgb {
            r: fx(v),
            g: fx(v),
            b: fx(v),
        };
        let back = Hex::from_srgb(srgb).to_srgb();
        let err = ((back.r as f64) / S - v).abs();
        assert!(err <= 1.0 / 255.0, "channel {v}: err {err}");
    }
}

#[test]
fn quantization_rounds_to_nearest_and_clamps() {
    let h = Hex::from_srgb(Srgb {
        r: fx(-0.5),
        g: fx(1.5),
        b: fx(0.5),
    });
    assert_eq!(h, Hex { r: 0, g: 255, b: 128 });
}

#[test]
fn dequantization_spreads_bytes_over_the_unit_range() {
    let c = Hex { r: 0, g: 255, b: 51 }.to_srgb();
    assert_eq!(c.r, 0);
    assert_eq!(c.g, 100_000_000);
    assert_eq!(c.b, 20_000_000);
}

#[test]
fn hex_round_trips_through_srgb_exactly() {
    for n in 0..=255u8 {
        let h = Hex { r: n, g: n.wrapping_add(17) % 255, b: 255 - n };
        assert_eq!(Hex::from_srgb(h.to_srgb()), h, "byte {n}");
    }
}
