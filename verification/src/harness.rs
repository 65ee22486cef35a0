//! The timing harness: run one placement and measure how long it took.

use vstd::prelude::*;
use crate::geom::{in_disk, strictly_in_disk, valid_center, valid_radius, Point};
use crate::sampler::{place, Strategy};

verus! {

#[verifier::external_type_specification]
#[verifier::external_body]
pub struct ExInstant(std::time::Instant);

/// Relies on std's `Instant::now`: a reading of the monotonic clock.
/// Nothing can be promised about what the clock reads.
#[verifier::external_body]
fn instant_now() -> std::time::Instant {
    std::time::Instant::now()
}

/// Relies on std's `Instant::elapsed`: the time since `start` was read
/// from the clock. Nothing can be promised about how much that is.
#[verifier::external_body]
fn instant_elapsed(start: &std::time::Instant) -> core::time::Duration {
    start.elapsed()
}

/// Relies on std's `Duration::as_nanos`: the whole duration in
/// nanoseconds.
#[verifier::external_body]
fn duration_as_nanos(d: &core::time::Duration) -> u128 {
    d.as_nanos()
}

/// Clear the buffer, run one placement, and measure the wall-clock time
/// the sampling took, in nanoseconds. The buffer ends up holding exactly
/// the new point set; in the practically impossible case that the
/// rejection strategy gave up, it ends up empty and no duration comes
/// back.
pub fn measure_and_place(
    strategy: Strategy,
    count: usize,
    center: Point,
    radius: i64,
    buffer: &mut Vec<Point>,
    rng: &mut rand::rngs::StdRng,
) -> (elapsed: Option<u128>)
    requires
        valid_center(center),
        valid_radius(radius),
        strategy == Strategy::RejectionLoop ==> radius >= 1,
    ensures
        strategy == Strategy::Trigonometric ==> elapsed.is_some(),
        count == 0 ==> elapsed.is_some(),
        elapsed.is_some() ==> final(buffer)@.len() == count,
        elapsed.is_some() ==> forall|i: int|
            0 <= i < count ==> in_disk(#[trigger] final(buffer)@[i], center, radius as int),
        strategy == Strategy::RejectionLoop && elapsed.is_some() ==> forall|i: int|
            0 <= i < count ==> strictly_in_disk(#[trigger] final(buffer)@[i], center, radius as int),
        strategy == Strategy::Trigonometric && radius == 0 ==> forall|i: int|
            0 <= i < count ==> #[trigger] final(buffer)@[i] == center,
        elapsed.is_none() ==> final(buffer)@.len() == 0,
{
    buffer.clear();
    let start = instant_now();
    match place(strategy, count, center, radius, rng) {
        Some(pts) => {
            let d = instant_elapsed(&start);
            *buffer = pts;
            Some(duration_as_nanos(&d))
        },
        None => None,
    }
}

} // verus!
