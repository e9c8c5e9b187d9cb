use rust_tracer::color::{intensity, pack_rgb, to_u32, unpack_rgb};
use rust_tracer::interval::Interval;
use rust_tracer::scalar::Scalar;
use rust_tracer::vec3::Vec3;

fn s(x: f32) -> Scalar {
    Scalar::from_bits(x.to_bits())
}

fn samples() -> Vec<f32> {
    vec![
        0.0,
        -0.0,
        1.0,
        -1.0,
        0.001,
        0.999,
        1e-8,
        -1e-8,
        0.5,
        2.0,
        255.99,
        255.5,
        256.0,
        1e10,
        -1e10,
        3.0e38,
        -3.0e38,
        4294967040.0,
        4294967296.0,
        16777216.0,
        16777217.0,
        8388608.5,
        1.9999999,
        f32::MIN_POSITIVE,
        f32::MIN_POSITIVE / 4.0,
        -f32::MIN_POSITIVE / 4.0,
        f32::from_bits(1),
        f32::from_bits(0x8000_0001),
        f32::MAX,
        f32::MIN,
        f32::INFINITY,
        f32::NEG_INFINITY,
        f32::NAN,
        -f32::NAN,
        f32::from_bits(0x7f80_0001),
        f32::from_bits(0xffff_ffff),
        89.0,
        -89.0,
        123.456,
        -123.456,
    ]
}

#[test]
fn comparisons_agree_with_the_hardware() {
    for &a in &samples() {
        for &b in &samples() {
            assert_eq!(s(a).lt(&s(b)), a < b, "{a} < {b}");
            assert_eq!(s(a).le(&s(b)), a <= b, "{a} <= {b}");
            assert_eq!(s(a).gt(&s(b)), a > b, "{a} > {b}");
        }
    }
}

#[test]
fn classification_agrees_with_the_hardware() {
    for &a in &samples() {
        assert_eq!(s(a).is_nan(), a.is_nan());
        assert_eq!(s(a).negated().to_bits(), (-a).to_bits());
        assert_eq!(s(a).abs().to_bits(), a.abs().to_bits());
    }
}

#[test]
fn max_and_min_agree_with_the_hardware_in_value() {
    for &a in &samples() {
        for &b in &samples() {
            let hi = f32::from_bits(s(a).max(&s(b)).to_bits());
            let lo = f32::from_bits(s(a).min(&s(b)).to_bits());
            if a.max(b).is_nan() {
                assert!(hi.is_nan());
                assert!(lo.is_nan());
            } else {
                assert!(hi == a.max(b), "max({a}, {b})");
                assert!(lo == a.min(b), "min({a}, {b})");
            }
        }
    }
}

#[test]
fn clamp_agrees_with_the_hardware() {
    let bounds = [(0.0f32, 0.999f32), (-89.0, 89.0), (-1.0, -1.0), (f32::NEG_INFINITY, 0.0)];
    for &(low, high) in &bounds {
        for &x in &samples() {
            let got = s(x).clamp(&s(low), &s(high)).to_bits();
            assert_eq!(got, x.clamp(low, high).to_bits(), "clamp({x}, {low}, {high})");
            assert_eq!(Interval::new(s(low), s(high)).clamp(s(x)).to_bits(), got);
        }
    }
}

#[test]
fn truncation_agrees_with_the_hardware() {
    for &a in &samples() {
        assert_eq!(s(a).to_u32(), a as u32, "{a} as u32");
        assert_eq!(s(a).to_u8(), a as u8, "{a} as u8");
    }
    assert_eq!(s(255.99).to_u32(), 255);
    assert_eq!(s(0.999 * 255.99).to_u8(), 255);
    assert_eq!(s(0.5).to_u32(), 0);
    assert_eq!(s(1.0).to_u32(), 1);
    assert_eq!(s(4294967040.0).to_u32(), 4294967040);
    assert_eq!(s(1e20).to_u32(), u32::MAX);
    assert_eq!(s(f32::NAN).to_u32(), 0);
    assert_eq!(s(-5.0).to_u32(), 0);
    assert_eq!(s(300.0).to_u8(), 255);
}

#[test]
fn truncation_agrees_with_the_hardware_on_many_encodings() {
    let mut bits: u32 = 0;
    loop {
        let x = f32::from_bits(bits);
        assert_eq!(Scalar::from_bits(bits).to_u32(), x as u32);
        assert_eq!(Scalar::from_bits(bits).to_u8(), x as u8);
        assert_eq!(Scalar::from_bits(bits).is_nan(), x.is_nan());
        match bits.checked_add(0x0001_2345) {
            Some(next) => bits = next,
            None => break,
        }
    }
}

#[test]
fn constants_are_the_numbers_they_are_named_for() {
    assert_eq!(Scalar::zero().to_bits(), 0.0f32.to_bits());
    assert_eq!(Scalar::one().to_bits(), 1.0f32.to_bits());
    assert_eq!(Scalar::infinity().to_bits(), f32::INFINITY.to_bits());
    assert_eq!(Scalar::neg_infinity().to_bits(), f32::NEG_INFINITY.to_bits());
    assert_eq!(intensity().min.to_bits(), 0.0f32.to_bits());
    assert_eq!(intensity().max.to_bits(), 0.999f32.to_bits());
    assert_eq!(rust_tracer::vec3::NEAR_ZERO_BITS, 1e-8f32.to_bits());
    assert_eq!(rust_tracer::camera::PITCH_LIMIT_BITS, 89.0f32.to_bits());
}

#[test]
fn ranks_order_infinities_and_zeros() {
    assert!(s(f32::NEG_INFINITY).lt(&s(f32::MIN)));
    assert!(s(f32::MAX).lt(&s(f32::INFINITY)));
    assert!(!s(0.0).lt(&s(-0.0)));
    assert!(!s(-0.0).lt(&s(0.0)));
    assert!(s(0.0).le(&s(-0.0)));
    assert!(s(-0.0).le(&s(0.0)));
    assert!(!s(f32::NAN).le(&s(f32::NAN)));
}

#[test]
fn colours_pack_red_high_and_blue_low() {
    assert_eq!(pack_rgb(0x12, 0x34, 0x56), 0x123456);
    assert_eq!(pack_rgb(255, 255, 255), 0xffffff);
    assert_eq!(pack_rgb(0, 0, 0), 0);
    assert_eq!(pack_rgb(255, 0, 0), 0xff0000);
    assert_eq!(pack_rgb(0, 255, 0), 0x00ff00);
    assert_eq!(pack_rgb(0, 0, 255), 0x0000ff);
    assert_eq!(unpack_rgb(0x123456), (0x12, 0x34, 0x56));
    assert_eq!(unpack_rgb(0xff123456), (0x12, 0x34, 0x56));
}

#[test]
fn tone_mapping_packs_the_whole_parts() {
    let map = |c: f32| 255.99 * f32::from_bits(intensity().clamp(s(c.sqrt())).to_bits());
    let packed = to_u32(Vec3::new(s(map(1.0)), s(map(0.25)), s(map(0.0))));
    assert_eq!(packed, (255 << 16) | (127 << 8));
    let over = to_u32(Vec3::new(s(map(4.0)), s(map(-1.0)), s(map(0.04))));
    assert_eq!(over, (255 << 16) | 51);
    let expected = |c: f32| (255.99 * c.sqrt().clamp(0.0, 0.999)) as u32;
    for &c in &[0.0f32, 0.1, 0.2, 0.33, 0.5, 0.75, 0.9, 1.0, 1.5] {
        let want = (expected(c) << 16) | (expected(c) << 8) | expected(c);
        assert_eq!(to_u32(Vec3::new(s(map(c)), s(map(c)), s(map(c)))), want);
    }
}
