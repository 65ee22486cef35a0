use disk_sampler::angle::{dir_from_angle, FULL_TURN, SCALE};
use disk_sampler::geom::{is_strictly_inside, Point};
use disk_sampler::math::isqrt;

#[test]
fn isqrt_exact_values() {
    assert_eq!(isqrt(0), 0);
    assert_eq!(isqrt(1), 1);
    assert_eq!(isqrt(3), 1);
    assert_eq!(isqrt(4), 2);
    assert_eq!(isqrt(15), 3);
    assert_eq!(isqrt(16), 4);
    assert_eq!(isqrt(1 << 30), 1 << 15);
    assert_eq!(isqrt(u32::MAX as u64), 65535);
}

#[test]
fn cardinal_directions_exact() {
    assert_eq!(dir_from_angle(0), (SCALE as i64, 0));
    assert_eq!(dir_from_angle(1024), (0, SCALE as i64));
    assert_eq!(dir_from_angle(2048), (-(SCALE as i64), 0));
    assert_eq!(dir_from_angle(3072), (0, -(SCALE as i64)));
}

#[test]
fn every_direction_stays_in_the_unit_disk() {
    let s = SCALE as i64;
    for a in 0..FULL_TURN {
        let (c, v) = dir_from_angle(a);
        assert!(c * c + v * v <= s * s);
        assert!(-s <= c && c <= s);
        assert!(-s <= v && v <= s);
    }
}

#[test]
fn directions_wind_once_around_the_circle() {
    // The eighth-turn marks land close to the diagonal; the components
    // there are near SCALE / sqrt(2), about 46341, up to the small error
    // of the polynomial half-angle tangent.
    let (c, s) = dir_from_angle(512);
    assert!((c - s).abs() < 1500);
    assert!((c - 46341).abs() < 1500);
    let (c, s) = dir_from_angle(1536);
    assert!(c < 0 && s > 0);
    assert!((c + 46341).abs() < 1500);
}

#[test]
fn strict_inside_boundary_cases() {
    let c = Point { x: 0, y: 0 };
    assert!(!is_strictly_inside(Point { x: 10, y: 0 }, c, 10));
    assert!(is_strictly_inside(Point { x: 9, y: 0 }, c, 10));
    assert!(!is_strictly_inside(Point { x: 8, y: 6 }, c, 10));
    assert!(is_strictly_inside(Point { x: 7, y: 6 }, c, 10));
    assert!(!is_strictly_inside(Point { x: 0, y: 0 }, c, 0));
}
