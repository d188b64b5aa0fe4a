use tincture::ColorSpace;
use tincture::CoreColorSpace;
use tincture::Hue;
use tincture::LinearRgb;
use tincture::Oklab;
use tincture::Oklch;
use tincture::Srgb;
use tincture::Xyz;
use tincture::SCALE;

/// One whole unit in the fixed-point component encoding.
const S: f64 = 100_000_000.0;

fn fx(v: f64) -> i64 {
    (v * S).round() as i64
}

fn close(actual: i64, expected: f64, tol: f64) -> bool {
    ((actual as f64) / S - expected).abs() <= tol
}

#[test]
fn scale_is_one_whole_unit() {
    assert_eq!(SCALE, 100_000_000);
}

#[test]
fn linear_rgb_to_oklab_reference_vector() {
    let rebeccapurple = LinearRgb {
        r: fx(0.4),
        g: fx(0.2),
        b: fx(0.6),
    };
    let oklab: Oklab = tincture::convert(rebeccapurple);
    assert!(close(oklab.l, 0.66066486, 1e-4));
    assert!(close(oklab.a, 0.079970956, 1e-4));
    assert!(close(oklab.b, -0.095915854, 1e-4));
}

#[test]
fn xyz_converts_to_itself_exactly() {
    let x = Xyz {
        x: fx(0.31),
        y: fx(0.72),
        z: fx(0.05),
    };
    let back: Xyz = tincture::convert(x);
    assert_eq!(back, x);
}

#[test]
fn linear_rgb_round_trips_through_oklab() {
    let c = LinearRgb {
        r: fx(0.4),
        g: fx(0.2),
        b: fx(0.6),
    };
    let lab: Oklab = tincture::convert(c);
    let back: LinearRgb = tincture::convert(lab);
    assert!(close(back.r, 0.4, 1e-4));
    assert!(close(back.g, 0.2, 1e-4));
    assert!(close(back.b, 0.6, 1e-4));
}

#[test]
fn oklab_round_trips_through_linear_rgb() {
    let c = Oklab {
        l: fx(0.7),
        a: fx(0.05),
        b: fx(-0.08),
    };
    let rgb: LinearRgb = tincture::convert(c);
    let back: Oklab = tincture::convert(rgb);
    assert!(close(back.l, 0.7, 1e-4));
    assert!(close(back.a, 0.05, 1e-4));
    assert!(close(back.b, -0.08, 1e-4));
}

#[test]
fn black_and_white_convert_to_expected_oklab() {
    let black: Oklab = tincture::convert(LinearRgb::black());
    assert!(close(black.l, 0.0, 1e-4));
    assert!(close(black.a, 0.0, 1e-4));
    assert!(close(black.b, 0.0, 1e-4));
    let white: Oklab = tincture::convert(LinearRgb::white());
    assert!(close(white.l, 1.0, 1e-3));
    assert!(close(white.a, 0.0, 1e-3));
    assert!(close(white.b, 0.0, 1e-3));
}

#[test]
fn black_and_white_are_in_bounds_in_every_space() {
    assert!(Xyz::black().in_bounds());
    assert!(Xyz::white().in_bounds());
    assert!(LinearRgb::black().in_bounds());
    assert!(LinearRgb::white().in_bounds());
    assert!(Srgb::black().in_bounds());
    assert!(Srgb::white().in_bounds());
    assert!(Oklab::black().in_bounds());
    assert!(Oklab::white().in_bounds());
    assert!(Oklch::black().in_bounds());
    assert!(Oklch::white().in_bounds());
}

#[test]
fn far_out_of_range_is_out_of_bounds() {
    let out_of_bounds = Srgb {
        r: fx(2.0),
        g: fx(-100.0),
        b: fx(0.5),
    };
    assert!(!out_of_bounds.in_bounds());
}

#[test]
fn well_inside_nominal_range_is_in_bounds() {
    let in_bounds = Srgb {
        r: fx(0.25),
        g: fx(0.75),
        b: fx(0.25),
    };
    assert!(in_bounds.in_bounds());
}

#[test]
fn oklch_to_oklab_matches_polar_formula() {
    let peach = Oklch {
        l: fx(0.8),
        c: fx(0.25),
        h: Hue::from_degrees(fx(40.0)).unwrap(),
    };
    let oklab = peach.to_oklab();
    let forty = 40.0f64.to_radians();
    assert_eq!(oklab.l, fx(0.8));
    assert!(close(oklab.a, 0.25 * forty.cos(), 1e-5));
    assert!(close(oklab.b, 0.25 * forty.sin(), 1e-5));
}

#[test]
fn oklab_round_trips_through_oklch() {
    let x = Oklch {
        l: fx(0.8),
        c: fx(0.25),
        h: Hue::from_degrees(fx(40.0)).unwrap(),
    };
    let lab = x.to_oklab();
    let back = Oklch::from_oklab(lab);
    assert_eq!(back.l, x.l);
    assert!(close(back.c, 0.25, 1e-6));
    let h = back.h.to_degrees();
    assert!(close(h, 40.0, 1e-4));
}

#[test]
fn oklch_quadrants_round_trip() {
    for &deg in &[10.0, 100.0, 190.0, 280.0, 359.5] {
        let x = Oklch {
            l: fx(0.5),
            c: fx(0.1),
            h: Hue::from_degrees(fx(deg)).unwrap(),
        };
        let back = Oklch::from_oklab(x.to_oklab());
        assert!(close(back.c, 0.1, 1e-6), "chroma at {deg}");
        let h = (back.h.to_degrees() as f64) / S;
        let diff = (h - deg).abs().min((h - deg + 360.0).abs()).min((h - deg - 360.0).abs());
        assert!(diff <= 1e-4, "hue at {deg}: got {h}");
    }
}

#[test]
fn zero_chroma_takes_hue_zero() {
    let gray = Oklab {
        l: fx(0.6),
        a: 0,
        b: 0,
    };
    let polar = Oklch::from_oklab(gray);
    assert_eq!(polar.c, 0);
    assert_eq!(polar.h.to_degrees(), 0);
}

#[test]
fn hue_at_the_seam_is_trigonometrically_continuous() {
    let at_zero = Oklch {
        l: fx(0.5),
        c: fx(0.2),
        h: Hue::from_degrees(0).unwrap(),
    };
    let at_full_turn = Oklch {
        l: fx(0.5),
        c: fx(0.2),
        h: Hue::from_degrees(fx(360.0)).unwrap(),
    };
    assert_eq!(at_zero.to_oklab(), at_full_turn.to_oklab());
}

#[test]
fn srgb_round_trips_through_linear() {
    for &v in &[0.0, 0.001, 0.0031308, 0.04, 0.25, 0.5, 0.75, 1.0] {
        let srgb = Srgb {
            r: fx(v),
            g: fx(v),
            b: fx(v),
        };
        let back = Srgb::from_linear(srgb.to_linear());
        assert!(close(back.r, v, 1e-6), "channel {v}");
    }
}

#[test]
fn srgb_transfer_matches_reference_curve() {
    for &v in &[0.0, 0.002, 0.1, 0.5, 1.0] {
        let lin = LinearRgb {
            r: fx(v),
            g: fx(v),
            b: fx(v),
        };
        let enc = Srgb::from_linear(lin);
        let reference = if v <= 0.0031308 {
            12.92 * v
        } else {
            1.055 * v.powf(1.0 / 2.4) - 0.055
        };
        assert!(close(enc.r, reference, 1e-6), "encode {v}");
    }
}

#[test]
fn self_conversion_is_identity_within_rounding() {
    let rgb = LinearRgb {
        r: fx(0.4),
        g: fx(0.2),
        b: fx(0.6),
    };
    let same: LinearRgb = tincture::convert(rgb);
    assert!(close(same.r, 0.4, 1e-6));
    assert!(close(same.g, 0.2, 1e-6));
    assert!(close(same.b, 0.6, 1e-6));
    let lab = Oklab {
        l: fx(0.7),
        a: fx(0.1),
        b: fx(-0.1),
    };
    let same: Oklab = tincture::convert(lab);
    assert!(close(same.l, 0.7, 1e-6));
    assert!(close(same.a, 0.1, 1e-6));
    assert!(close(same.b, -0.1, 1e-6));
}
