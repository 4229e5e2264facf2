use vstd::prelude::*;
use rand::Rng;

verus! {

/// A biased coin: `true` with probability one in three.
///
/// Relies on rand's `thread_rng` and `Rng::gen_ratio(1, 3)`, which never
/// panics for a numerator below the denominator. Nothing is promised of
/// the outcome.
#[verifier::external_body]
pub fn random_bool() -> bool {
    rand::thread_rng().gen_ratio(1, 3)
}

/// Relies on rand's `thread_rng` and `Rng::gen_range(low, high)`: a value
/// in `[low, high)`; it panics when `low >= high`, which `requires` leaves out.
#[verifier::external_body]
fn sample_range(low: i64, high: i64) -> (r: i64)
    requires
        low < high,
    ensures
        low <= r < high,
{
    rand::thread_rng().gen_range(low, high)
}

/// A uniformly drawn number between the two bounds, in either order: at
/// least the smaller, below the larger.
pub fn random_number(min_v: i64, max_v: i64) -> (r: i64)
    requires
        min_v != max_v,
    ensures
        min_v < max_v ==> min_v <= r < max_v,
        max_v < min_v ==> max_v <= r < min_v,
{
    let a = if min_v < max_v {
        min_v
    } else {
        max_v
    };
    let b = if min_v < max_v {
        max_v
    } else {
        min_v
    };
    sample_range(a, b)
}

} // verus!
