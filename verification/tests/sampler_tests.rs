use disk_sampler::geom::Point;
use disk_sampler::harness::measure_and_place;
use disk_sampler::sampler::{
    place, place_reject, place_reject_from, place_trig, place_trig_from, Strategy,
};
use rand::SeedableRng;

fn dist2(p: Point, c: Point) -> i128 {
    let dx = (p.x - c.x) as i128;
    let dy = (p.y - c.y) as i128;
    dx * dx + dy * dy
}

#[test]
fn trig_count_and_disk_bound() {
    let mut rng = rand::rngs::StdRng::seed_from_u64(7);
    let center = Point { x: 300, y: -200 };
    let radius: i64 = 1000;
    let pts = place_trig(100, center, radius, &mut rng);
    assert_eq!(pts.len(), 100);
    for p in &pts {
        assert!(dist2(*p, center) <= (radius as i128) * (radius as i128));
    }
}

#[test]
fn rejection_count_and_strict_bound() {
    let mut rng = rand::rngs::StdRng::seed_from_u64(11);
    let center = Point { x: -50, y: 75 };
    let radius: i64 = 800;
    let pts = place_reject(100, center, radius, &mut rng).unwrap();
    assert_eq!(pts.len(), 100);
    for p in &pts {
        assert!(dist2(*p, center) < (radius as i128) * (radius as i128));
    }
}

#[test]
fn both_strategies_deterministic_for_equal_seeds() {
    let center = Point { x: 0, y: 0 };
    let radius: i64 = 5000;
    let mut rng_a = rand::rngs::StdRng::seed_from_u64(123);
    let mut rng_b = rand::rngs::StdRng::seed_from_u64(123);
    let a = place_trig(50, center, radius, &mut rng_a);
    let b = place_trig(50, center, radius, &mut rng_b);
    assert_eq!(a, b);
    let mut rng_a = rand::rngs::StdRng::seed_from_u64(321);
    let mut rng_b = rand::rngs::StdRng::seed_from_u64(321);
    let a = place_reject(50, center, radius, &mut rng_a).unwrap();
    let b = place_reject(50, center, radius, &mut rng_b).unwrap();
    assert_eq!(a, b);
}

#[test]
fn trig_points_are_a_function_of_the_draws() {
    let center = Point { x: 10, y: 20 };
    let radius: i64 = 400;
    let draws = vec![(0u64, 0u64), (16384, 1024), (65535, 4095), (32768, 2048)];
    let a = place_trig_from(center, radius, &draws);
    let b = place_trig_from(center, radius, &draws);
    assert_eq!(a, b);
    assert_eq!(a.len(), draws.len());
}

#[test]
fn trig_point_formula_exact() {
    // u = 16384 is a quarter of the radial draw space, so the square-root
    // transform puts the point at half the radius; angle 0 points along
    // the positive x axis, angle 1024 a quarter turn up.
    let center = Point { x: 0, y: 0 };
    let pts = place_trig_from(center, 1000, &vec![(16384u64, 0u64), (16384, 1024)]);
    assert_eq!(pts[0], Point { x: 500, y: 0 });
    assert_eq!(pts[1], Point { x: 0, y: 500 });
}

#[test]
fn rejection_keeps_accepted_candidates_in_order() {
    let center = Point { x: 0, y: 0 };
    let radius: i64 = 10;
    // The second candidate misses the disk and the fourth sits exactly on
    // the boundary, which the strict accept test also refuses.
    let cands = vec![(0i64, 0i64), (9, 9), (5, -5), (-10, 0), (-3, 4)];
    let r = place_reject_from(3, center, radius, &cands).unwrap();
    assert_eq!(
        r,
        vec![
            Point { x: 0, y: 0 },
            Point { x: 5, y: -5 },
            Point { x: -3, y: 4 },
        ]
    );
    // Success comes exactly when enough candidates are accepted.
    assert!(place_reject_from(4, center, radius, &cands).is_none());
    assert_eq!(place_reject_from(0, center, radius, &vec![]).unwrap(), vec![]);
}

#[test]
fn zero_count_gives_empty_set_for_both() {
    let center = Point { x: 1, y: 2 };
    let mut rng = rand::rngs::StdRng::seed_from_u64(5);
    let a = place(Strategy::Trigonometric, 0, center, 100, &mut rng).unwrap();
    assert!(a.is_empty());
    let b = place(Strategy::RejectionLoop, 0, center, 100, &mut rng).unwrap();
    assert!(b.is_empty());
    // Success at a count of zero is owed for both strategies: no draw is
    // made, so even the rejection loop cannot fail.
    let mut buffer = vec![Point { x: 4, y: 4 }];
    let t = measure_and_place(Strategy::RejectionLoop, 0, center, 100, &mut buffer, &mut rng);
    assert!(t.is_some());
    assert!(buffer.is_empty());
}

#[test]
fn zero_radius_trig_degenerates_to_center() {
    // With a zero radius the trigonometric strategy yields copies of the
    // center. The rejection loop is a different story: no candidate can
    // ever fall strictly inside a disk of radius zero, so the original
    // sampling design would spin forever — a known limitation. This
    // library therefore requires a radius of at least one for the
    // rejection strategy and the degenerate case cannot be run at all.
    let center = Point { x: -7, y: 9 };
    let mut rng = rand::rngs::StdRng::seed_from_u64(99);
    let pts = place_trig(10, center, 0, &mut rng);
    assert_eq!(pts.len(), 10);
    for p in &pts {
        assert_eq!(*p, center);
    }
}

#[test]
fn seeded_end_to_end_golden_values() {
    let mut rng = rand::rngs::StdRng::seed_from_u64(42);
    let pts = place(
        Strategy::Trigonometric,
        3,
        Point { x: 0, y: 0 },
        10,
        &mut rng,
    )
    .unwrap();
    assert_eq!(pts.len(), 3);
    assert_eq!(pts, vec![
        Point { x: -6, y: -1 },
        Point { x: 0, y: -6 },
        Point { x: 2, y: 0 },
    ]);
}

#[test]
fn measure_and_place_fills_buffer() {
    let mut rng = rand::rngs::StdRng::seed_from_u64(1);
    let center = Point { x: 0, y: 0 };
    let mut buffer: Vec<Point> = Vec::new();
    let t = measure_and_place(
        Strategy::Trigonometric,
        100,
        center,
        475,
        &mut buffer,
        &mut rng,
    );
    assert!(t.is_some());
    assert_eq!(buffer.len(), 100);
    for p in &buffer {
        assert!(dist2(*p, center) <= 475 * 475);
    }
    let t = measure_and_place(
        Strategy::RejectionLoop,
        100,
        center,
        475,
        &mut buffer,
        &mut rng,
    );
    assert!(t.is_some());
    assert_eq!(buffer.len(), 100);
    for p in &buffer {
        assert!(dist2(*p, center) < 475 * 475);
    }
}
