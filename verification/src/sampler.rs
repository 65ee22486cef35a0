//! The two point-placement strategies.

use vstd::prelude::*;
use crate::angle::{dir_from_angle, dir_of_angle, FULL_TURN, SCALE};
use crate::geom::{in_disk, is_strictly_inside, strictly_in_disk, valid_center, valid_radius, Point, RADIUS_LIMIT};
use crate::math::{isqrt, lemma_div_le, lemma_mul_le, lemma_norm_shrink, sqrt_floor};
use crate::rng::gen_range_i64;

verus! {

/// Which sampling algorithm fills the point set.
#[derive(Clone, Copy, PartialEq, Eq, Structural, Debug)]
pub enum Strategy {
    /// Two draws per point: a square-root transform of the first gives the
    /// distance from the center, the second gives the direction.
    Trigonometric,
    /// Candidates drawn from the bounding square until one falls strictly
    /// inside the disk.
    RejectionLoop,
}

/// The distance from the center encoded by the draw `u`: the square-root
/// transform that makes the point density uniform per unit area rather
/// than per unit radius.
pub open spec fn trig_radius(radius: int, u: int) -> int {
    (radius * sqrt_floor((u * SCALE) as nat)) / (SCALE as int)
}

/// A signed fixed-point product: `r` scaled by the direction component
/// `c`, rounded toward zero.
pub open spec fn mul_dir(r: int, c: int) -> int {
    if c >= 0 {
        (r * c) / (SCALE as int)
    } else {
        -((r * -c) / (SCALE as int))
    }
}

/// The point the trigonometric strategy builds from the two draws `u`
/// (radial) and `a` (angular).
pub open spec fn trig_point_of(center: Point, radius: int, u: int, a: int) -> Point {
    let r = trig_radius(radius, u);
    let cs = dir_of_angle(a);
    Point {
        x: (center.x + mul_dir(r, cs.0)) as i64,
        y: (center.y + mul_dir(r, cs.1)) as i64,
    }
}

/// Scale `r` by the signed direction component `c`; the magnitude of the
/// result never exceeds `r`.
fn scale_by_dir(r: u64, c: i64) -> (d: i64)
    requires
        r <= RADIUS_LIMIT,
        -(SCALE as int) <= c <= SCALE,
    ensures
        d == mul_dir(r as int, c as int),
        c >= 0 ==> 0 <= d && d * SCALE <= r * c,
        c < 0 ==> d <= 0 && (-d) * SCALE <= r * (-c),
        -(r as int) <= d <= r as int,
{
    if c >= 0 {
        let cu = c as u64;
        proof {
            lemma_mul_le(r as int, cu as int, RADIUS_LIMIT as int, SCALE as int);
            lemma_mul_le(r as int, cu as int, r as int, SCALE as int);
            crate::math::lemma_div_mul_le((r * cu) as int, SCALE as int);
            lemma_div_le((r * cu) as int, SCALE as int, r as int);
        }
        let d = (r * cu) / SCALE;
        d as i64
    } else {
        let cu = (-c) as u64;
        proof {
            lemma_mul_le(r as int, cu as int, RADIUS_LIMIT as int, SCALE as int);
            lemma_mul_le(r as int, cu as int, r as int, SCALE as int);
            crate::math::lemma_div_mul_le((r * cu) as int, SCALE as int);
            lemma_div_le((r * cu) as int, SCALE as int, r as int);
        }
        let d = (r * cu) / SCALE;
        -(d as i64)
    }
}

/// One point of the trigonometric strategy. The result is exactly the
/// point the two draws encode, and it lies in the closed disk; with a
/// zero radius it is the center itself.
pub fn trig_point(center: Point, radius: i64, u: u64, a: u64) -> (p: Point)
    requires
        valid_center(center),
        valid_radius(radius),
        u < SCALE,
        a < FULL_TURN,
    ensures
        p == trig_point_of(center, radius as int, u as int, a as int),
        in_disk(p, center, radius as int),
        radius == 0 ==> p == center,
{
    let n: u64 = u * SCALE;
    let isq: u64 = isqrt(n);
    proof {
        assert(isq < SCALE) by (nonlinear_arith)
            requires
                isq * isq <= n,
                n < SCALE * SCALE,
                0 <= isq,
        ;
    }
    let rad: u64 = radius as u64;
    proof {
        lemma_mul_le(rad as int, isq as int, RADIUS_LIMIT as int, SCALE as int);
        lemma_mul_le(rad as int, isq as int, rad as int, SCALE as int);
        lemma_div_le((rad * isq) as int, SCALE as int, rad as int);
        crate::math::lemma_div_mul_le((rad * isq) as int, SCALE as int);
    }
    let r: u64 = (rad * isq) / SCALE;
    let cs = dir_from_angle(a);
    let dx = scale_by_dir(r, cs.0);
    let dy = scale_by_dir(r, cs.1);
    proof {
        lemma_trig_offset_in_disk(r as int, cs.0 as int, cs.1 as int, dx as int, dy as int);
        lemma_mul_le(r as int, r as int, radius as int, radius as int);
        assert(r as int == trig_radius(radius as int, u as int));
    }
    Point { x: center.x + dx, y: center.y + dy }
}

/// Deterministic core of the trigonometric strategy: one point per draw
/// pair, each pinned to the point its draws encode — the same draw
/// sequence always yields the same point set.
pub fn place_trig_from(center: Point, radius: i64, draws: &Vec<(u64, u64)>) -> (pts: Vec<Point>)
    requires
        valid_center(center),
        valid_radius(radius),
        forall|i: int|
            0 <= i < draws@.len() ==> (#[trigger] draws@[i]).0 < SCALE && draws@[i].1 < FULL_TURN,
    ensures
        pts@.len() == draws@.len(),
        forall|i: int|
            0 <= i < draws@.len() ==> #[trigger] pts@[i] == trig_point_of(
                center,
                radius as int,
                draws@[i].0 as int,
                draws@[i].1 as int,
            ),
        forall|i: int| 0 <= i < draws@.len() ==> in_disk(#[trigger] pts@[i], center, radius as int),
        radius == 0 ==> forall|i: int| 0 <= i < draws@.len() ==> #[trigger] pts@[i] == center,
{
    let mut pts: Vec<Point> = Vec::new();
    let mut k: usize = 0;
    while k < draws.len()
        invariant
            valid_center(center),
            valid_radius(radius),
            k <= draws@.len(),
            pts@.len() == k,
            forall|i: int|
                0 <= i < draws@.len() ==> (#[trigger] draws@[i]).0 < SCALE && draws@[i].1
                    < FULL_TURN,
            forall|i: int|
                0 <= i < k ==> #[trigger] pts@[i] == trig_point_of(
                    center,
                    radius as int,
                    draws@[i].0 as int,
                    draws@[i].1 as int,
                ),
            forall|i: int| 0 <= i < k ==> in_disk(#[trigger] pts@[i], center, radius as int),
            radius == 0 ==> forall|i: int| 0 <= i < k ==> #[trigger] pts@[i] == center,
        decreases draws@.len() - k,
    {
        let d = draws[k];
        let p = trig_point(center, radius, d.0, d.1);
        pts.push(p);
        k = k + 1;
    }
    pts
}

/// Trigonometric strategy: exactly `count` points, every one inside the
/// closed disk; a zero radius degenerates to `count` copies of the center.
pub fn place_trig(count: usize, center: Point, radius: i64, rng: &mut rand::rngs::StdRng) -> (pts:
    Vec<Point>)
    requires
        valid_center(center),
        valid_radius(radius),
    ensures
        pts@.len() == count,
        forall|i: int| 0 <= i < count ==> in_disk(#[trigger] pts@[i], center, radius as int),
        radius == 0 ==> forall|i: int| 0 <= i < count ==> #[trigger] pts@[i] == center,
{
    let mut draws: Vec<(u64, u64)> = Vec::new();
    let mut k: usize = 0;
    while k < count
        invariant
            k <= count,
            draws@.len() == k,
            forall|i: int|
                0 <= i < k ==> (#[trigger] draws@[i]).0 < SCALE && draws@[i].1 < FULL_TURN,
        decreases count - k,
    {
        let u = gen_range_i64(rng, 0, SCALE as i64);
        let a = gen_range_i64(rng, 0, FULL_TURN as i64);
        draws.push((u as u64, a as u64));
        k = k + 1;
    }
    place_trig_from(center, radius, &draws)
}

/// An offset built by scaling a direction by `r` stays in the closed disk
/// of radius `r` around the origin.
proof fn lemma_trig_offset_in_disk(r: int, c: int, s: int, dx: int, dy: int)
    requires
        0 <= r,
        c * c + s * s <= SCALE * SCALE,
        c >= 0 ==> 0 <= dx && dx * SCALE <= r * c,
        c < 0 ==> dx <= 0 && (-dx) * SCALE <= r * (-c),
        s >= 0 ==> 0 <= dy && dy * SCALE <= r * s,
        s < 0 ==> dy <= 0 && (-dy) * SCALE <= r * (-s),
    ensures
        dx * dx + dy * dy <= r * r,
{
    let ax = if dx >= 0 { dx } else { -dx };
    let ay = if dy >= 0 { dy } else { -dy };
    let cx = if c >= 0 { c } else { -c };
    let cy = if s >= 0 { s } else { -s };
    assert((r * cx) * (r * cx) + (r * cy) * (r * cy) <= r * r * (SCALE * SCALE))
        by (nonlinear_arith)
        requires
            0 <= r,
            (c >= 0 ==> cx == c) && (c < 0 ==> cx == -c),
            (s >= 0 ==> cy == s) && (s < 0 ==> cy == -s),
            c * c + s * s <= SCALE * SCALE,
    ;
    lemma_norm_shrink(ax, ay, r * cx, r * cy, SCALE as int, r);
    assert(dx * dx + dy * dy == ax * ax + ay * ay) by (nonlinear_arith)
        requires
            (dx >= 0 ==> ax == dx) && (dx < 0 ==> ax == -dx),
            (dy >= 0 ==> ay == dy) && (dy < 0 ==> ay == -dy),
    ;
}

/// The point a candidate pair of coordinates denotes.
pub open spec fn point_of(cand: (i64, i64)) -> Point {
    Point { x: cand.0, y: cand.1 }
}

/// The accept test of the rejection strategy: the candidate lies strictly
/// inside the disk.
pub open spec fn accepted(cand: (i64, i64), center: Point, radius: int) -> bool {
    strictly_in_disk(point_of(cand), center, radius)
}

/// The candidate lies in the half-open bounding square the rejection
/// strategy draws from.
pub open spec fn in_square(cand: (i64, i64), center: Point, radius: int) -> bool {
    &&& center.x - radius <= cand.0 < center.x + radius
    &&& center.y - radius <= cand.1 < center.y + radius
}

/// The accepted candidates, in order.
pub open spec fn reject_filter(cands: Seq<(i64, i64)>, center: Point, radius: int) -> Seq<Point>
    decreases cands.len(),
{
    if cands.len() == 0 {
        Seq::empty()
    } else {
        let front = reject_filter(cands.drop_last(), center, radius);
        if accepted(cands.last(), center, radius) {
            front.push(point_of(cands.last()))
        } else {
            front
        }
    }
}

/// Every point the filter keeps was accepted, so it lies strictly inside
/// the disk; and the filter keeps at most one point per candidate.
pub proof fn lemma_reject_filter_sound(cands: Seq<(i64, i64)>, center: Point, radius: int)
    ensures
        reject_filter(cands, center, radius).len() <= cands.len(),
        forall|j: int|
            0 <= j < reject_filter(cands, center, radius).len() ==> strictly_in_disk(
                #[trigger] reject_filter(cands, center, radius)[j],
                center,
                radius,
            ),
    decreases cands.len(),
{
    if cands.len() > 0 {
        lemma_reject_filter_sound(cands.drop_last(), center, radius);
    }
}

/// The first `n` points of `s`, or all of `s` when it is shorter.
pub open spec fn prefix_at_most(s: Seq<Point>, n: int) -> Seq<Point> {
    if s.len() <= n {
        s
    } else {
        s.take(n)
    }
}

/// Deterministic core of the rejection strategy: scan the candidate
/// sequence in order, keep the accepted ones, and succeed exactly when
/// `count` of them are accepted — the same candidates always yield the
/// same point set.
pub fn place_reject_from(count: usize, center: Point, radius: i64, cands: &Vec<(i64, i64)>) -> (r:
    Option<Vec<Point>>)
    requires
        valid_center(center),
        valid_radius(radius),
        forall|i: int| 0 <= i < cands@.len() ==> in_square(#[trigger] cands@[i], center, radius as int),
    ensures
        r.is_some() == (reject_filter(cands@, center, radius as int).len() >= count),
        r.is_some() ==> r.unwrap()@ == reject_filter(cands@, center, radius as int).take(
            count as int,
        ),
        r.is_some() ==> r.unwrap()@.len() == count,
        r.is_some() ==> forall|j: int|
            0 <= j < count ==> strictly_in_disk(
                #[trigger] r.unwrap()@[j],
                center,
                radius as int,
            ),
{
    let ghost rad = radius as int;
    let mut pts: Vec<Point> = Vec::new();
    let mut k: usize = 0;
    while k < cands.len()
        invariant
            valid_center(center),
            valid_radius(radius),
            rad == radius as int,
            forall|i: int| 0 <= i < cands@.len() ==> in_square(#[trigger] cands@[i], center, rad),
            k <= cands@.len(),
            pts@.len() <= count,
            pts@ == prefix_at_most(reject_filter(cands@.take(k as int), center, rad), count as int),
        decreases cands@.len() - k,
    {
        let ghost filtk = reject_filter(cands@.take(k as int), center, rad);
        let ghost filtk1 = reject_filter(cands@.take(k as int + 1), center, rad);
        proof {
            assert(cands@.take(k as int + 1).drop_last() =~= cands@.take(k as int));
            assert(cands@.take(k as int + 1).last() == cands@[k as int]);
        }
        let cand = cands[k];
        let p = Point { x: cand.0, y: cand.1 };
        if is_strictly_inside(p, center, radius) {
            proof {
                assert(filtk1 == filtk.push(p));
                if pts@.len() < count {
                    assert(filtk.len() < count);
                    assert(pts@ == filtk);
                    assert(prefix_at_most(filtk1, count as int) == filtk.push(p));
                } else {
                    assert(filtk.len() >= count);
                    assert(prefix_at_most(filtk1, count as int) =~= prefix_at_most(
                        filtk,
                        count as int,
                    ));
                }
            }
            if pts.len() < count {
                pts.push(p);
            }
        } else {
            proof {
                assert(filtk1 == filtk);
            }
        }
        k = k + 1;
    }
    proof {
        assert(cands@.take(k as int) =~= cands@);
        lemma_reject_filter_sound(cands@, center, rad);
    }
    let ghost filt = reject_filter(cands@, center, rad);
    if pts.len() == count {
        proof {
            assert(filt.len() >= count);
            assert(pts@ =~= filt.take(count as int));
        }
        Some(pts)
    } else {
        proof {
            assert(filt.len() < count);
        }
        None
    }
}

/// Candidate draws the rejection strategy is allowed per point before it
/// gives up. Acceptance succeeds with probability about pi/4 per draw, so
/// exhausting this budget is practically impossible for any radius of at
/// least one.
pub const DRAW_BUDGET: u64 = 4096;

/// One point of the rejection strategy: candidates are drawn uniformly
/// from the bounding square until one falls strictly inside the disk. A
/// point that comes back is strictly inside; `None` comes back only when
/// `budget` draws in a row were rejected.
pub fn reject_point(center: Point, radius: i64, budget: u64, rng: &mut rand::rngs::StdRng) -> (r:
    Option<Point>)
    requires
        valid_center(center),
        valid_radius(radius),
        radius >= 1,
    ensures
        r matches Some(p) ==> strictly_in_disk(p, center, radius as int),
{
    let mut tries: u64 = 0;
    while tries < budget
        invariant
            valid_center(center),
            valid_radius(radius),
            radius >= 1,
        decreases budget - tries,
    {
        let x = gen_range_i64(rng, center.x - radius, center.x + radius);
        let y = gen_range_i64(rng, center.y - radius, center.y + radius);
        let p = Point { x, y };
        if is_strictly_inside(p, center, radius) {
            return Some(p);
        }
        tries = tries + 1;
    }
    None
}

/// Rejection strategy: `count` points, each strictly inside the disk.
/// `None` comes back only in the practically impossible case that some
/// point exhausted its draw budget.
pub fn place_reject(count: usize, center: Point, radius: i64, rng: &mut rand::rngs::StdRng) -> (r:
    Option<Vec<Point>>)
    requires
        valid_center(center),
        valid_radius(radius),
        radius >= 1,
    ensures
        count == 0 ==> r.is_some(),
        r matches Some(pts) ==> pts@.len() == count,
        r matches Some(pts) ==> forall|i: int|
            0 <= i < count ==> strictly_in_disk(#[trigger] pts@[i], center, radius as int),
{
    let mut pts: Vec<Point> = Vec::new();
    let mut k: usize = 0;
    while k < count
        invariant
            valid_center(center),
            valid_radius(radius),
            radius >= 1,
            k <= count,
            pts@.len() == k,
            forall|i: int|
                0 <= i < k ==> strictly_in_disk(#[trigger] pts@[i], center, radius as int),
        decreases count - k,
    {
        match reject_point(center, radius, DRAW_BUDGET, rng) {
            Some(p) => {
                pts.push(p);
                k = k + 1;
            },
            None => {
                return None;
            },
        }
    }
    Some(pts)
}

/// Place `count` points inside the disk of the given center and radius
/// with the chosen strategy.
///
/// The trigonometric strategy always succeeds: exactly `count` points in
/// the closed disk, all equal to the center when the radius is zero. The
/// rejection strategy returns `count` points strictly inside the disk, or
/// `None` in the practically impossible case that a draw budget ran out;
/// it requires a positive radius, since with a zero radius no candidate
/// can ever be accepted and the loop could never end.
pub fn place(
    strategy: Strategy,
    count: usize,
    center: Point,
    radius: i64,
    rng: &mut rand::rngs::StdRng,
) -> (r: Option<Vec<Point>>)
    requires
        valid_center(center),
        valid_radius(radius),
        strategy == Strategy::RejectionLoop ==> radius >= 1,
    ensures
        strategy == Strategy::Trigonometric ==> r.is_some(),
        count == 0 ==> r.is_some(),
        r matches Some(pts) ==> pts@.len() == count,
        r matches Some(pts) ==> forall|i: int|
            0 <= i < count ==> in_disk(#[trigger] pts@[i], center, radius as int),
        strategy == Strategy::RejectionLoop ==> (r matches Some(pts) ==> forall|i: int|
            0 <= i < count ==> strictly_in_disk(#[trigger] pts@[i], center, radius as int)),
        strategy == Strategy::Trigonometric && radius == 0 ==> (r matches Some(pts)
            ==> forall|i: int| 0 <= i < count ==> #[trigger] pts@[i] == center),
{
    match strategy {
        Strategy::Trigonometric => Some(place_trig(count, center, radius, rng)),
        Strategy::RejectionLoop => {
            let r = place_reject(count, center, radius, rng);
            proof {
                if r.is_some() {
                    lemma_strict_implies_closed(r.unwrap()@, center, radius as int);
                }
            }
            r
        },
    }
}

/// A point strictly inside the disk is inside the closed disk.
proof fn lemma_strict_implies_closed(pts: Seq<Point>, center: Point, radius: int)
    requires
        forall|i: int| 0 <= i < pts.len() ==> strictly_in_disk(#[trigger] pts[i], center, radius),
    ensures
        forall|i: int| 0 <= i < pts.len() ==> in_disk(#[trigger] pts[i], center, radius),
{
}

} // verus!
