use ray_tracing::color::{color_line, file_info, push_decimal};
use ray_tracing::hittable_list::{closest_hit, Hit};
use ray_tracing::image::Image;
use ray_tracing::integrator::{is_exhausted, next_step, Contact, PathStep};
use ray_tracing::material::DefaultMaterial;
use ray_tracing::sphere::{in_min_max, pick_root, Root, Roots};

fn roots(near: u64, far: u64) -> Option<Roots> {
    Some(Roots { near, far })
}

#[test]
fn image_keeps_its_size() {
    let image = Image::new(384, 216);
    assert_eq!(image.width(), 384);
    assert_eq!(image.height(), 216);
    assert_eq!(image.pixel_count(), 384 * 216);
}

#[test]
fn image_scans_rows_from_the_top() {
    let image = Image::new(3, 2);
    let order: Vec<(u32, u32)> = (0..image.pixel_count()).map(|k| image.pixel_at(k)).collect();
    assert_eq!(order, vec![(0, 1), (1, 1), (2, 1), (0, 0), (1, 0), (2, 0)]);
}

#[test]
fn largest_image_counts_without_overflow() {
    let image = Image::new(u32::MAX, u32::MAX);
    assert_eq!(image.pixel_count(), u32::MAX as u64 * u32::MAX as u64);
    assert_eq!(image.pixel_at(0), (0, u32::MAX - 1));
}

#[test]
fn header_is_plain_ppm() {
    assert_eq!(file_info(384, 216), b"P3\n384 216\n255\n".to_vec());
    assert_eq!(file_info(0, 7), b"P3\n0 7\n255\n".to_vec());
}

#[test]
fn color_line_writes_three_channels() {
    assert_eq!(color_line(255, 0, 17), b"255 0 17\n".to_vec());
    assert_eq!(color_line(9, 10, 100), b"9 10 100\n".to_vec());
}

#[test]
fn decimal_appends_digits() {
    let mut out = b"x".to_vec();
    push_decimal(&mut out, 4294967295);
    assert_eq!(out, b"x4294967295".to_vec());
    let mut zero = Vec::new();
    push_decimal(&mut zero, 0);
    assert_eq!(zero, b"0".to_vec());
}

#[test]
fn window_is_open_at_both_ends() {
    assert!(in_min_max(5, 1, 10));
    assert!(!in_min_max(1, 1, 10));
    assert!(!in_min_max(10, 1, 10));
    assert!(!in_min_max(3, 3, 3));
}

#[test]
fn near_root_is_preferred() {
    let r = Roots { near: 4, far: 6 };
    assert_eq!(pick_root(r, 1, 100), Some(Root::Near));
}

#[test]
fn far_root_when_near_is_behind() {
    let r = Roots { near: 4, far: 6 };
    assert_eq!(pick_root(r, 5, 100), Some(Root::Far));
}

#[test]
fn no_root_outside_window() {
    let r = Roots { near: 4, far: 6 };
    assert_eq!(pick_root(r, 6, 100), None);
    assert_eq!(pick_root(r, 0, 4), None);
}

#[test]
fn tangent_ray_has_one_root() {
    let r = Roots { near: 5, far: 5 };
    assert_eq!(pick_root(r, 1, 10), Some(Root::Near));
}

#[test]
fn overlapping_spheres_report_the_nearer() {
    let far_sphere = roots(30, 50);
    let near_sphere = roots(20, 40);
    let a = closest_hit(&vec![far_sphere, near_sphere], 1, u64::MAX);
    assert_eq!(a, Some(Hit { index: 1, root: Root::Near, t: 20 }));
    let b = closest_hit(&vec![near_sphere, far_sphere], 1, u64::MAX);
    assert_eq!(b, Some(Hit { index: 0, root: Root::Near, t: 20 }));
}

#[test]
fn inside_one_sphere_reports_its_far_side() {
    let around = roots(2, 90);
    let ahead = roots(40, 60);
    let h = closest_hit(&vec![around, ahead], 10, u64::MAX);
    assert_eq!(h, Some(Hit { index: 1, root: Root::Near, t: 40 }));
    let h = closest_hit(&vec![around, None], 10, u64::MAX);
    assert_eq!(h, Some(Hit { index: 0, root: Root::Far, t: 90 }));
}

#[test]
fn equal_hits_keep_the_first_member() {
    let h = closest_hit(&vec![None, roots(7, 9), roots(7, 8)], 1, 100);
    assert_eq!(h, Some(Hit { index: 1, root: Root::Near, t: 7 }));
}

#[test]
fn empty_scene_has_no_hit() {
    assert_eq!(closest_hit(&Vec::new(), 1, 100), None);
    assert_eq!(closest_hit(&vec![None, roots(200, 300)], 1, 100), None);
}

#[test]
fn exhausted_path_is_black() {
    assert!(is_exhausted(0));
    assert!(!is_exhausted(1));
    assert_eq!(next_step(0, Contact::Scattered), PathStep::Black);
    assert_eq!(next_step(0, Contact::Missed), PathStep::Black);
}

#[test]
fn path_steps_follow_the_contact() {
    assert_eq!(next_step(50, Contact::Missed), PathStep::Sky);
    assert_eq!(next_step(50, Contact::Absorbed), PathStep::Black);
    assert_eq!(next_step(50, Contact::Scattered), PathStep::Bounce { depth: 49 });
    assert_eq!(next_step(1, Contact::Scattered), PathStep::Bounce { depth: 0 });
}

#[test]
fn path_stops_within_its_depth() {
    let mut depth: u32 = 3;
    let mut bounces = 0;
    loop {
        match next_step(depth, Contact::Scattered) {
            PathStep::Bounce { depth: left } => {
                bounces += 1;
                depth = left;
            }
            step => {
                assert_eq!(step, PathStep::Black);
                break;
            }
        }
    }
    assert_eq!(bounces, 3);
}

#[test]
fn default_material_absorbs() {
    let m = DefaultMaterial::new();
    assert_eq!(m, DefaultMaterial {});
    assert!(!m.scatters());
}
