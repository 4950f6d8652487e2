//! The random source.

use vstd::prelude::*;

use rand::Rng;
use rand::ThreadRng;

verus! {

/// `rand::ThreadRng`, the random source of the thread. Nothing is claimed of
/// what it holds.
#[verifier::external_type_specification]
#[verifier::external_body]
pub struct ExThreadRng(ThreadRng);

/// Draws an integer from `low..high` with `rand::Rng::gen_range`.
///
/// Claimed of that function: it returns, for `low < high`, a value that is at
/// least `low` and less than `high`. Which one is left open. The outside
/// function panics for `low >= high`.
#[verifier::external_body]
pub(crate) fn gen_range(rng: &mut ThreadRng, low: i64, high: i64) -> (r: i64)
    requires
        low < high,
    ensures
        low <= r < high,
{
    rng.gen_range(low, high)
}

/// Flips a coin that shows `true` once in `n` throws, with
/// `rand::Rng::gen_weighted_bool`.
///
/// Claimed of that function: for `n` of 0 or 1 it returns `true`. For any
/// other `n` the result is left open.
#[verifier::external_body]
pub(crate) fn gen_weighted_bool(rng: &mut ThreadRng, n: u32) -> (b: bool)
    ensures
        n <= 1 ==> b,
{
    rng.gen_weighted_bool(n)
}

} // verus!
