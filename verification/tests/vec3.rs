use rust_tracer::interval::Interval;
use rust_tracer::ray::Ray;
use rust_tracer::scalar::Scalar;
use rust_tracer::vec3::Vec3;

fn s(x: f32) -> Scalar {
    Scalar::from_bits(x.to_bits())
}

fn v(x: f32, y: f32, z: f32) -> Vec3 {
    Vec3::new(s(x), s(y), s(z))
}

fn bits(a: Vec3) -> (u32, u32, u32) {
    (a.x().to_bits(), a.y().to_bits(), a.z().to_bits())
}

#[test]
fn components_come_back_as_given() {
    let a = v(1.5, -2.25, 1e-20);
    assert_eq!(bits(a), (1.5f32.to_bits(), (-2.25f32).to_bits(), 1e-20f32.to_bits()));
    assert_eq!(bits(Vec3::from_bits(1, 2, 3)), (1, 2, 3));
    assert_eq!(bits(Vec3::zero()), (0, 0, 0));
    assert_eq!(bits(Vec3::white()), bits(v(1.0, 1.0, 1.0)));
}

#[test]
fn negation_flips_every_sign() {
    assert_eq!(bits(-v(1.0, -2.0, 0.0)), bits(v(-1.0, 2.0, -0.0)));
    assert_eq!(bits(-(-v(0.3, 0.7, -5.0))), bits(v(0.3, 0.7, -5.0)));
}

#[test]
fn near_zero_needs_every_component_below_the_threshold() {
    let near = |x: f32, y: f32, z: f32| x.abs() < 1e-8 && y.abs() < 1e-8 && z.abs() < 1e-8;
    let values = [0.0f32, -0.0, 1e-9, -1e-9, 9.9e-9, 1e-8, -1e-8, 1.1e-8, 1.0, f32::NAN];
    for &x in &values {
        for &y in &values {
            for &z in &values {
                assert_eq!(v(x, y, z).near_zero(), near(x, y, z), "{x} {y} {z}");
            }
        }
    }
    assert!(v(0.0, 0.0, 0.0).near_zero());
    assert!(!v(0.0, 1e-8, 0.0).near_zero());
}

#[test]
fn samplers_accept_what_can_be_used() {
    for &l in &[0.0f32, -0.0, 1e-30, 0.5, 1.0, 1.0000001, 3.0, -1.0, f32::NAN] {
        assert_eq!(Vec3::unit_sphere_accepts(s(l)), 1e-160 < l && l <= 1.0, "{l}");
        assert_eq!(Vec3::unit_disk_accepts(s(l)), l < 1.0, "{l}");
    }
    assert!(!Vec3::unit_sphere_accepts(s(0.0)));
    assert!(Vec3::unit_sphere_accepts(s(1.0)));
    assert!(!Vec3::unit_disk_accepts(s(1.0)));
}

#[test]
fn hemisphere_keeps_or_flips() {
    let a = v(0.6, 0.0, 0.8);
    assert_eq!(bits(a.on_hemisphere(s(0.3))), bits(a));
    assert_eq!(bits(a.on_hemisphere(s(-0.3))), bits(-a));
    assert_eq!(bits(a.on_hemisphere(s(0.0))), bits(-a));
    assert_eq!(bits(a.on_hemisphere(s(f32::NAN))), bits(-a));
}

#[test]
fn rays_keep_origin_and_direction() {
    let r = Ray::new(v(1.0, 2.0, 3.0), v(0.0, 0.0, -2.0));
    assert_eq!(bits(r.origin()), bits(v(1.0, 2.0, 3.0)));
    assert_eq!(bits(r.direction()), bits(v(0.0, 0.0, -2.0)));
}

#[test]
fn intervals_test_both_ends() {
    let window = Interval::new(s(0.001), s(f32::INFINITY));
    assert!(window.surrounds(s(1.0)));
    assert!(!window.surrounds(s(0.001)));
    assert!(window.contains(s(0.001)));
    assert!(!window.surrounds(s(f32::INFINITY)));
    assert!(window.contains(s(f32::INFINITY)));
    assert!(!window.contains(s(0.0)));
    assert!(!window.contains(s(f32::NAN)));
    assert!(!window.surrounds(s(f32::NAN)));
    for &x in &[0.0f32, 1.0, -1.0, f32::INFINITY, f32::NEG_INFINITY, f32::NAN] {
        assert!(!Interval::empty().contains(s(x)));
        assert!(!Interval::empty().surrounds(s(x)));
        assert_eq!(Interval::universe().contains(s(x)), !x.is_nan());
    }
    assert!(Interval::universe().surrounds(s(1e30)));
    assert!(!Interval::universe().surrounds(s(f32::INFINITY)));
}

#[test]
fn clamping_a_channel_keeps_it_below_one() {
    let range = Interval::new(s(0.0), s(0.999));
    assert_eq!(range.clamp(s(0.5)).to_bits(), 0.5f32.to_bits());
    assert_eq!(range.clamp(s(7.0)).to_bits(), 0.999f32.to_bits());
    assert_eq!(range.clamp(s(-7.0)).to_bits(), 0.0f32.to_bits());
    assert!(f32::from_bits(range.clamp(s(f32::NAN)).to_bits()).is_nan());
}
