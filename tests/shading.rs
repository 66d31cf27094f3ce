use pathtracer::accum::{Accumulator, Sum};
use pathtracer::dispatch::row_chunks;
use pathtracer::fresnel::{reflectance_at_normal, reflected_fraction, schlick, total_internal_reflection, Ratio};
use pathtracer::material::Color;
use pathtracer::morton::{deinterleave, morton_order};
use pathtracer::path::{conductor_event, dielectric_event, roulette, Action, Event, PathState};
use pathtracer::polygon::fan_triangulate;

#[test]
fn reflectance_at_normal_incidence_glass() {
    let r0 = reflectance_at_normal(1000, 1500);
    assert_eq!(r0, Ratio { num: 250_000, den: 6_250_000 });
    // Exactly 0.04.
    assert_eq!(r0.num * 25, r0.den);
    assert_eq!(reflectance_at_normal(1500, 1000), r0);
}

#[test]
fn schlick_at_zero_degrees_is_r0_exactly() {
    let r0 = reflectance_at_normal(1000, 1500);
    for cd in [1u32, 7, 4096] {
        let r = schlick(r0, cd, cd);
        assert_eq!(r.num * r0.den, r0.num * r.den);
        assert_eq!(r.num * 25, r.den);
    }
}

#[test]
fn schlick_at_grazing_angle_reflects_everything() {
    let r = schlick(reflectance_at_normal(1000, 1500), 0, 1);
    assert_eq!(r.num, r.den);
}

#[test]
fn schlick_at_sixty_degrees() {
    // R = 0.04 + 0.96 * 0.5^5 = 0.07.
    let r = schlick(reflectance_at_normal(1000, 1500), 1, 2);
    assert_eq!(r.num * 100, r.den * 7);
}

#[test]
fn total_internal_reflection_only_from_denser_side() {
    assert!(total_internal_reflection(1500, 1000, 0, 1));
    assert!(!total_internal_reflection(1500, 1000, 1, 1));
    assert!(!total_internal_reflection(1000, 1500, 0, 1));
    // Critical cosine for 1.5 -> 1.0 is sqrt(5) / 3 = 0.745.
    assert!(total_internal_reflection(1500, 1000, 7, 10));
    assert!(!total_internal_reflection(1500, 1000, 8, 10));
    assert_eq!(reflected_fraction(1500, 1000, 0, 1), Ratio { num: 1, den: 1 });
    let r = reflected_fraction(1000, 1500, 1, 1);
    assert_eq!(r.num * 25, r.den);
}

fn c(r: u32, g: u32, b: u32) -> Color {
    Color { r, g, b }
}

#[test]
fn first_frame_holds_only_fresh_samples() {
    let mut acc = Accumulator::new(2);
    acc.add_frame(&vec![c(1, 2, 3), c(4, 5, 6)], 1);
    acc.add_frame(&vec![c(10, 20, 30), c(40, 50, 60)], 2);
    assert_eq!(acc.sums[0], Sum { r: 11, g: 22, b: 33 });
    acc.add_frame(&vec![c(7, 8, 9), c(0, 0, u32::MAX)], 1);
    assert_eq!(acc.frames, 1);
    assert_eq!(acc.sums[0], Sum { r: 7, g: 8, b: 9 });
    assert_eq!(acc.sums[1], Sum { r: 0, g: 0, b: u32::MAX as u64 });
}

#[test]
fn average_divides_by_frame_count() {
    let mut acc = Accumulator::new(1);
    acc.add_frame(&vec![c(3, 6, 9)], 1);
    acc.add_frame(&vec![c(4, 6, 0)], 2);
    acc.add_frame(&vec![c(5, 6, 0)], 3);
    assert_eq!(acc.average(0), c(4, 6, 3));
}

#[test]
fn energy_sums_all_channels_over_frames() {
    let mut acc = Accumulator::new(2);
    acc.add_frame(&vec![c(1, 2, 3), c(4, 5, 6)], 1);
    acc.add_frame(&vec![c(1, 2, 3), c(4, 5, 6)], 2);
    assert_eq!(acc.energy(2), 21);
    assert_eq!(acc.energy(4), 10);
    assert_eq!(Accumulator::new(0).energy(1), 0);
}

#[test]
fn light_hit_counts_after_specular_bounce_only_with_nee() {
    let start = PathState::new(5, true);
    let (s, a) = start.step(Event::Light);
    assert_eq!(a, Action::Emit);
    assert!(!s.alive);
    let (after_diffuse, a) = start.step(Event::Diffuse);
    assert_eq!(a, Action::Scatter);
    assert_eq!(after_diffuse.depth, 1);
    assert_eq!(after_diffuse.step(Event::Light).1, Action::Stop);
    let (after_mirror, _) = after_diffuse.step(Event::Mirror);
    assert_eq!(after_mirror.step(Event::Light).1, Action::Emit);
    let no_nee = PathState::new(5, false);
    let (d, _) = no_nee.step(Event::Diffuse);
    assert_eq!(d.step(Event::Light).1, Action::Emit);
}

#[test]
fn path_ends_at_miss_and_at_max_depth() {
    let s = PathState::new(2, true);
    assert_eq!(s.step(Event::Miss).1, Action::Background);
    let (s1, a1) = s.step(Event::Dielectric { refract: true });
    assert_eq!(a1, Action::Refract);
    let (s2, a2) = s1.step(Event::Dielectric { refract: false });
    assert_eq!(a2, Action::Reflect);
    assert_eq!(s2.depth, 2);
    let (s3, a3) = s2.step(Event::Diffuse);
    assert_eq!(a3, Action::Stop);
    assert!(!s3.alive);
}

#[test]
fn roulette_survival_is_clamped_throughput() {
    assert_eq!(roulette(30_000, 6_553, 62_259, 29_999), Some(30_000));
    assert_eq!(roulette(30_000, 6_553, 62_259, 30_000), None);
    assert_eq!(roulette(10, 6_553, 62_259, 6_552), Some(6_553));
    assert_eq!(roulette(70_000, 6_553, 62_259, 62_258), Some(62_259));
    assert_eq!(roulette(70_000, 6_553, 62_259, 62_259), None);
}

#[test]
fn rows_are_split_into_disjoint_covering_chunks() {
    assert_eq!(row_chunks(10, 4), vec![(0, 4), (4, 8), (8, 10)]);
    assert_eq!(row_chunks(8, 4), vec![(0, 4), (4, 8)]);
    assert_eq!(row_chunks(0, 4), vec![]);
    assert_eq!(row_chunks(3, 16), vec![(0, 3)]);
}

#[test]
fn polygons_become_triangle_fans() {
    assert_eq!(fan_triangulate(&vec![5, 6, 7, 8, 9]), vec![(5, 6, 7), (5, 7, 8), (5, 8, 9)]);
    assert_eq!(fan_triangulate(&vec![0, 1, 2]), vec![(0, 1, 2)]);
    assert_eq!(fan_triangulate(&vec![0, 1]), vec![]);
}

#[test]
fn morton_order_of_small_grids() {
    assert_eq!(morton_order(0), vec![(0, 0)]);
    assert_eq!(morton_order(1), vec![(0, 0), (1, 0), (0, 1), (1, 1)]);
    let two = morton_order(2);
    assert_eq!(&two[4..8], &[(2, 0), (3, 0), (2, 1), (3, 1)]);
    assert_eq!(two[15], (3, 3));
    assert_eq!(deinterleave(0b10_01_11), (0b011, 0b101));
    assert_eq!(deinterleave(u32::MAX), (65535, 65535));
}

#[test]
fn morton_order_visits_each_cell_once() {
    let lut = morton_order(5);
    assert_eq!(lut.len(), 1024);
    let mut seen = vec![false; 1024];
    for &(x, y) in &lut {
        assert!(x < 32 && y < 32);
        let i = (y * 32 + x) as usize;
        assert!(!seen[i]);
        seen[i] = true;
    }
    assert!(seen.iter().all(|&s| s));
}

#[test]
fn conductor_and_dielectric_choices_follow_the_draw() {
    assert_eq!(conductor_event(300, 299), Event::Mirror);
    assert_eq!(conductor_event(300, 300), Event::Diffuse);
    assert_eq!(conductor_event(0, 0), Event::Diffuse);
    // Glass at normal incidence reflects 1 / 25: draws below 40000 of 10^6 reflect.
    let r = reflected_fraction(1000, 1500, 1, 1);
    assert_eq!(dielectric_event(r, 39_999, 1_000_000), Event::Dielectric { refract: false });
    assert_eq!(dielectric_event(r, 40_000, 1_000_000), Event::Dielectric { refract: true });
    // Total internal reflection never refracts.
    let all = reflected_fraction(1500, 1000, 0, 1);
    assert_eq!(dielectric_event(all, 999_999, 1_000_000), Event::Dielectric { refract: false });
}
