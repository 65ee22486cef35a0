use disk_sampler::geom::Point;
use disk_sampler::sampler::place_trig;
use rand::SeedableRng;

// Approximate uniformity of the trigonometric strategy per unit area:
// with four radial bands of equal area the counts should be close to
// equal (the square-root transform is what makes this true — without it
// the innermost band would hold far more than a quarter of the points),
// and the eight octants should hold close to an eighth of the points
// each. The tolerances are loose; the seed is fixed, so the test is
// reproducible.
#[test]
fn trig_density_is_roughly_uniform_per_area() {
    let n = 20000usize;
    let radius: i64 = 1 << 20;
    let center = Point { x: 0, y: 0 };
    let mut rng = rand::rngs::StdRng::seed_from_u64(2024);
    let pts = place_trig(n, center, radius, &mut rng);
    assert_eq!(pts.len(), n);

    let r2 = (radius as i128) * (radius as i128);
    let mut bands = [0usize; 4];
    let mut octants = [0usize; 8];
    for p in &pts {
        let d2 = (p.x as i128) * (p.x as i128) + (p.y as i128) * (p.y as i128);
        assert!(d2 <= r2);
        let band = if 4 * d2 < r2 {
            0
        } else if 2 * d2 < r2 {
            1
        } else if 4 * d2 < 3 * r2 {
            2
        } else {
            3
        };
        bands[band] += 1;

        let angle = (p.y as f64).atan2(p.x as f64);
        let turn = angle / (2.0 * std::f64::consts::PI);
        let turn = if turn < 0.0 { turn + 1.0 } else { turn };
        let oct = ((turn * 8.0) as usize).min(7);
        octants[oct] += 1;
    }

    let expected_band = n / 4;
    for &b in &bands {
        assert!(b > expected_band - expected_band / 10);
        assert!(b < expected_band + expected_band / 10);
    }
    let expected_oct = n / 8;
    for &o in &octants {
        assert!(o > expected_oct - expected_oct / 8);
        assert!(o < expected_oct + expected_oct / 8);
    }
}
