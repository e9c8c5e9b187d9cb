use rust_tracer::camera::{Axis, Camera, Direction, Pass, PREVIEW_DEPTH, SETTLED_DEPTH};
use rust_tracer::scalar::Scalar;
use rust_tracer::vec3::Vec3;
use rust_tracer::window::Size;

fn s(x: f32) -> Scalar {
    Scalar::from_bits(x.to_bits())
}

fn f(x: Scalar) -> f32 {
    f32::from_bits(x.to_bits())
}

fn v(x: f32, y: f32, z: f32) -> Vec3 {
    Vec3::new(s(x), s(y), s(z))
}

fn bits(a: Vec3) -> (u32, u32, u32) {
    (a.x().to_bits(), a.y().to_bits(), a.z().to_bits())
}

fn all_black(camera: &Camera) -> bool {
    camera.color_buffer().iter().all(|c| bits(*c) == (0, 0, 0))
}

fn sampled(ratio: u16) -> Camera {
    let mut camera = Camera::new(s(20.0), Size::new(5, 3), 100, ratio);
    while camera.full_res_count() < 3 {
        match camera.plan() {
            Pass::Coarse { cols, rows, .. } => {
                let mut buffer = vec![0u32; 15];
                assert!(camera.finish_coarse(&vec![0x112233; cols * rows], &mut buffer));
            }
            Pass::Full { .. } => {
                let sums = camera.color_buffer().iter().map(|_| v(0.25, 0.5, 0.75)).collect();
                assert!(camera.finish_full(sums));
            }
            Pass::Idle => unreachable!(),
        }
    }
    assert!(!all_black(&camera));
    assert!(camera.sample_current() >= 3);
    camera
}

fn assert_fresh(camera: &Camera) {
    assert_eq!(camera.sample_current(), 0);
    assert_eq!(camera.full_res_count(), 0);
    assert!(all_black(camera));
    assert_eq!(camera.color_buffer().len(), camera.image_size().area());
}

#[test]
fn a_new_camera_has_the_default_lens_and_pose() {
    let camera = Camera::new(s(20.0), Size::new(500, 400), 2000, 4);
    assert_eq!(f(camera.fov()), 20.0);
    assert_eq!(f(camera.defocus_angle()), 0.6);
    assert_eq!(f(camera.focus_dist()), 3.4);
    assert_eq!(bits(camera.center()), bits(v(0.0, 1.0, 3.0)));
    assert_eq!(f(camera.yaw()), -90.0);
    assert_eq!(f(camera.pitch()), 0.0);
    assert!(camera.image_size() == Size::new(500, 400));
    assert_eq!(camera.sample_max(), 2000);
    assert_eq!(camera.sample_ratio(), 4);
    assert_eq!(camera.color_buffer().len(), 200_000);
    assert_fresh(&camera);
    assert!(!camera.is_pinhole());
}

#[test]
fn every_change_of_view_forgets_the_samples() {
    let mut camera = sampled(4);
    camera.set_center(v(0.0, 1.0, 2.9));
    assert_fresh(&camera);
    assert_eq!(bits(camera.center()), bits(v(0.0, 1.0, 2.9)));

    let mut camera = sampled(4);
    camera.set_orientation(s(-80.0), s(10.0));
    assert_fresh(&camera);
    assert_eq!((f(camera.yaw()), f(camera.pitch())), (-80.0, 10.0));

    let mut camera = sampled(4);
    camera.resize(Size::new(8, 2));
    assert_fresh(&camera);
    assert!(camera.image_size() == Size::new(8, 2));
    assert_eq!(camera.color_buffer().len(), 16);

    let mut camera = sampled(4);
    camera.set_fov(s(21.0));
    assert_fresh(&camera);
    assert_eq!(f(camera.fov()), 21.0);

    let mut camera = sampled(4);
    camera.set_focus_dist(s(3.5));
    assert_fresh(&camera);
    assert_eq!(f(camera.focus_dist()), 3.5);

    let mut camera = sampled(4);
    camera.set_defocus_angle(s(0.0));
    assert_fresh(&camera);
    assert!(camera.is_pinhole());

    let mut camera = sampled(1);
    camera.clear();
    assert_fresh(&camera);
    assert_eq!(f(camera.fov()), 20.0);
}

#[test]
fn the_pitch_stays_within_89_degrees() {
    let mut camera = Camera::new(s(20.0), Size::new(2, 2), 10, 4);
    camera.set_orientation(s(400.0), s(120.0));
    assert_eq!((f(camera.yaw()), f(camera.pitch())), (400.0, 89.0));
    camera.set_orientation(s(-400.0), s(-89.5));
    assert_eq!((f(camera.yaw()), f(camera.pitch())), (-400.0, -89.0));
    camera.set_orientation(s(0.0), s(89.0));
    assert_eq!(f(camera.pitch()), 89.0);
    camera.set_orientation(s(0.0), s(-88.9));
    assert_eq!(f(camera.pitch()), -88.9);
}

#[test]
fn the_lens_is_a_pinhole_at_angle_zero_or_less() {
    let mut camera = Camera::new(s(20.0), Size::new(2, 2), 10, 4);
    for &(angle, pinhole) in &[(0.6f32, false), (0.0, true), (-0.1, true), (1e-30, false)] {
        camera.set_defocus_angle(s(angle));
        assert_eq!(camera.is_pinhole(), pinhole);
    }
}

#[test]
fn directions_name_an_axis_and_a_sense() {
    assert_eq!((Direction::Forward.axis(), Direction::Forward.against_axis()), (Axis::W, true));
    assert_eq!((Direction::Backward.axis(), Direction::Backward.against_axis()), (Axis::W, false));
    assert_eq!((Direction::Left.axis(), Direction::Left.against_axis()), (Axis::U, true));
    assert_eq!((Direction::Right.axis(), Direction::Right.against_axis()), (Axis::U, false));
}

#[test]
fn previews_halve_their_blocks_until_pixels_are_sampled() {
    let mut camera = Camera::new(s(20.0), Size::new(5, 3), 5, 4);
    let coarse = |block_size, cols, rows| Pass::Coarse { block_size, cols, rows, depth: 10 };
    assert_eq!(PREVIEW_DEPTH, 10);
    assert_eq!(SETTLED_DEPTH, 50);

    assert_eq!(camera.plan(), coarse(4, 2, 1));
    let mut buffer = vec![0u32; 15];
    assert!(camera.finish_coarse(&vec![0xaa, 0xbb], &mut buffer));
    let a = 0xaa;
    let b = 0xbb;
    assert_eq!(buffer, vec![a, a, a, a, b, a, a, a, a, b, a, a, a, a, b]);
    assert_eq!((camera.sample_current(), camera.full_res_count()), (1, 0));
    assert!(all_black(&camera));

    assert_eq!(camera.plan(), coarse(2, 3, 2));
    assert!(camera.finish_coarse(&vec![1, 2, 3, 4, 5, 6], &mut buffer));
    assert_eq!(buffer, vec![1, 1, 2, 2, 3, 1, 1, 2, 2, 3, 4, 4, 5, 5, 6]);
    assert_eq!((camera.sample_current(), camera.full_res_count()), (2, 0));

    assert_eq!(camera.plan(), Pass::Full { depth: 50 });
    let sums: Vec<Vec3> = (0..15).map(|i| v(i as f32, 0.5, 0.25)).collect();
    assert!(camera.finish_full(sums));
    assert_eq!((camera.sample_current(), camera.full_res_count()), (3, 1));
    assert_eq!(bits(camera.color_buffer()[7]), bits(v(7.0, 0.5, 0.25)));

    assert_eq!(camera.plan(), Pass::Full { depth: 50 });
    assert!(camera.finish_full((0..15).map(|_| v(1.0, 1.0, 1.0)).collect()));
    assert_eq!(camera.plan(), Pass::Full { depth: 50 });
    assert!(camera.finish_full((0..15).map(|_| v(2.0, 2.0, 2.0)).collect()));
    assert_eq!((camera.sample_current(), camera.full_res_count()), (5, 3));

    assert_eq!(camera.plan(), Pass::Idle);
    assert!(!camera.finish_full((0..15).map(|_| v(3.0, 3.0, 3.0)).collect()));
    assert!(!camera.finish_coarse(&vec![0; 15], &mut buffer));
    assert_eq!((camera.sample_current(), camera.full_res_count()), (5, 3));
    assert_eq!(bits(camera.color_buffer()[0]), bits(v(2.0, 2.0, 2.0)));
}

#[test]
fn a_pass_of_the_wrong_kind_or_size_changes_nothing() {
    let mut camera = Camera::new(s(20.0), Size::new(5, 3), 5, 4);
    let mut buffer = vec![7u32; 15];
    assert!(!camera.finish_full((0..15).map(|_| v(1.0, 1.0, 1.0)).collect()));
    assert!(!camera.finish_coarse(&vec![1, 2, 3], &mut buffer));
    let mut short = vec![7u32; 14];
    assert!(!camera.finish_coarse(&vec![1, 2], &mut short));
    assert_eq!(buffer, vec![7u32; 15]);
    assert_eq!(short, vec![7u32; 14]);
    assert_fresh(&camera);
    let mut settled = Camera::new(s(20.0), Size::new(5, 3), 5, 1);
    assert_eq!(settled.plan(), Pass::Full { depth: 50 });
    assert!(!settled.finish_coarse(&vec![1; 15], &mut buffer));
    assert!(!settled.finish_full((0..14).map(|_| v(1.0, 1.0, 1.0)).collect()));
    assert_fresh(&settled);
}

#[test]
fn block_sizes_follow_the_ratio() {
    let side = |ratio: u16, samples: u16| {
        let mut camera = Camera::new(s(20.0), Size::new(64, 64), 1000, ratio);
        for _ in 0..samples {
            match camera.plan() {
                Pass::Coarse { cols, rows, .. } => {
                    let mut buffer = vec![0u32; 64 * 64];
                    assert!(camera.finish_coarse(&vec![0; cols * rows], &mut buffer));
                }
                _ => return 1,
            }
        }
        match camera.plan() {
            Pass::Coarse { block_size, .. } => block_size,
            _ => 1,
        }
    };
    assert_eq!(side(16, 0), 16);
    assert_eq!(side(16, 1), 8);
    assert_eq!(side(16, 3), 2);
    assert_eq!(side(16, 4), 1);
    assert_eq!(side(16, 5), 1);
    assert_eq!(side(5, 1), 2);
    assert_eq!(side(5, 2), 1);
    assert_eq!(side(0, 0), 1);
    assert_eq!(side(1, 0), 1);
    assert_eq!(side(65535, 0), 65535);
    assert_eq!(side(65535, 15), 1);
    assert_eq!(side(65535, 14), 3);
    assert_eq!(side(65535, 40), 1);
}

#[test]
fn a_spent_budget_idles_from_the_start() {
    let camera = Camera::new(s(20.0), Size::new(5, 3), 0, 4);
    assert_eq!(camera.plan(), Pass::Idle);
    assert_eq!(camera.block_center(0), None);
}

#[test]
fn a_block_is_sampled_at_its_middle_or_at_the_edge() {
    let camera = Camera::new(s(20.0), Size::new(5, 3), 5, 4);
    let at = |bi: usize| camera.block_center(bi).map(|c| (c.x, c.y));
    assert_eq!(at(0), Some((2, 2)));
    assert_eq!(at(1), Some((4, 2)));
    assert_eq!(at(2), None);
    let wide = Camera::new(s(20.0), Size::new(10, 9), 5, 4);
    let at = |bi: usize| wide.block_center(bi).map(|c| (c.x, c.y));
    assert_eq!(wide.plan(), Pass::Coarse { block_size: 4, cols: 3, rows: 3, depth: 10 });
    assert_eq!(at(0), Some((2, 2)));
    assert_eq!(at(1), Some((6, 2)));
    assert_eq!(at(2), Some((9, 2)));
    assert_eq!(at(3), Some((2, 6)));
    assert_eq!(at(8), Some((9, 8)));
    assert_eq!(at(9), None);
    let settled = Camera::new(s(20.0), Size::new(10, 9), 5, 1);
    assert_eq!(settled.block_center(0), None);
}

#[test]
fn pixels_are_counted_row_by_row() {
    let camera = Camera::new(s(20.0), Size::new(5, 3), 5, 4);
    let at = |i: usize| camera.pixel(i).map(|c| (c.x, c.y));
    assert_eq!(at(0), Some((0, 0)));
    assert_eq!(at(4), Some((4, 0)));
    assert_eq!(at(5), Some((0, 1)));
    assert_eq!(at(14), Some((4, 2)));
    assert_eq!(at(15), None);
    let empty = Camera::new(s(20.0), Size::new(0, 3), 5, 4);
    assert_eq!(empty.pixel(0).map(|c| (c.x, c.y)), None);
    assert_eq!(empty.plan(), Pass::Coarse { block_size: 4, cols: 0, rows: 1, depth: 10 });
    assert_eq!(empty.block_center(0).map(|c| (c.x, c.y)), None);
}

#[test]
fn the_mean_of_equal_samples_is_the_sample() {
    let sample = [0.25f32, 0.5, 0.75];
    for &passes in &[1u32, 2, 4, 8, 16] {
        let mut camera = Camera::new(s(20.0), Size::new(4, 2), 100, 1);
        for _ in 0..passes {
            assert_eq!(camera.plan(), Pass::Full { depth: 50 });
            let sums: Vec<Vec3> = camera
                .color_buffer()
                .iter()
                .map(|sum| {
                    v(f(sum.x()) + sample[0], f(sum.y()) + sample[1], f(sum.z()) + sample[2])
                })
                .collect();
            assert!(camera.finish_full(sums));
        }
        assert_eq!(camera.full_res_count(), passes);
        assert_eq!(camera.sample_current() as u32, passes);
        let count = camera.full_res_count() as f32;
        for sum in camera.color_buffer() {
            assert_eq!(f(sum.x()) / count, sample[0]);
            assert_eq!(f(sum.y()) / count, sample[1]);
            assert_eq!(f(sum.z()) / count, sample[2]);
        }
    }
}
