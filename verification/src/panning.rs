//! Per-channel gain coefficients for placing a clip's energy across the
//! output channels.
//!
//! A pan is a `position` in thousandths of a channel index (so in a four
//! channel setup, position `3000` is "full right") and a `spread` in
//! thousandths of a channel width (`0` keeps the signal as focussed as
//! possible, one channel wide).
//!
//! Gains are returned as exact fractions over one common denominator: channel
//! `i` receives `gains[i] / denominator`, where the denominator is one
//! channel width plus the spread. A numerator equal to the denominator is a
//! gain of one.

use vstd::prelude::*;

verus! {

use crate::SCALE;

/// Common denominator of the per-channel gain fractions: one channel width
/// plus the spread, in thousandths.
pub open spec fn pan_denom(spread: u32) -> int {
    SCALE as int + spread as int
}

/// Distance, in thousandths of a channel width, between the pan position and
/// channel `i`.
pub open spec fn pan_distance(position: i32, i: int) -> int {
    vstd::math::abs(position as int - i * SCALE as int) as int
}

/// Numerator of the gain fraction for channel `i`: the gain falls off
/// linearly from one at distance zero to zero at one denominator's distance.
pub open spec fn pan_gain(position: i32, spread: u32, i: int) -> int {
    if pan_distance(position, i) >= pan_denom(spread) {
        0
    } else {
        pan_denom(spread) - pan_distance(position, i)
    }
}

/// Every channel's gain is between zero and one (one full denominator).
pub broadcast proof fn lemma_pan_gain_in_range(position: i32, spread: u32, i: int)
    ensures
        0 <= #[trigger] pan_gain(position, spread, i) <= pan_denom(spread),
{
}

/// A position resting exactly on channel `k` gives channel `k` a gain of one,
/// whatever the spread.
pub proof fn lemma_pan_peak_at_integer_position(position: i32, spread: u32, k: int)
    requires
        position as int == k * SCALE as int,
    ensures
        pan_gain(position, spread, k) == pan_denom(spread),
{
}

/// With zero spread and a position resting exactly on channel `k`, channel
/// `k` has a gain of one and every other channel a gain of zero.
pub proof fn lemma_pan_zero_spread_single_peak(position: i32, k: int, i: int)
    requires
        position as int == k * SCALE as int,
    ensures
        pan_gain(position, 0, k) == pan_denom(0),
        i != k ==> pan_gain(position, 0, i) == 0,
{
    if i != k {
        assert(pan_distance(position, i) >= SCALE as int) by (nonlinear_arith)
            requires
                position as int == k * SCALE as int,
                i != k,
                pan_distance(position, i) == vstd::math::abs(
                    k * SCALE as int - i * SCALE as int,
                ),
                SCALE == 1000,
        ;
    }
}

/// Calculates a final set of per-channel volume levels, given a "position"
/// and a "spread" value, as well as the number of output channels available.
///
/// Returns one numerator per output channel together with the common
/// denominator; channel `i` gets the fraction `result.0[i] / result.1`.
pub fn simple_panning_channel_volumes(
    position: i32,
    spread: u32,
    output_channel_count: u16,
) -> (result: (Vec<u64>, u64))
    ensures
        result.1 == pan_denom(spread),
        result.0.len() == output_channel_count,
        forall|i: int|
            0 <= i < output_channel_count ==> result.0[i] == pan_gain(position, spread, i),
{
    let denom: u64 = SCALE as u64 + spread as u64;
    let mut result: Vec<u64> = Vec::new();
    let mut i: u16 = 0;
    while i < output_channel_count
        invariant
            denom == pan_denom(spread),
            i <= output_channel_count,
            result.len() == i,
            forall|j: int| 0 <= j < i ==> result[j] == pan_gain(position, spread, j),
        decreases output_channel_count - i,
    {
        let centre: i64 = (i as i64) * 1000;
        assert(centre == i as int * SCALE as int);
        let signed_distance: i64 = (position as i64) - centre;
        let distance: u64 = if signed_distance < 0 {
            (-signed_distance) as u64
        } else {
            signed_distance as u64
        };
        assert(distance == pan_distance(position, i as int));
        let this_channel_volume: u64 = if distance >= denom {
            0
        } else {
            denom - distance
        };
        result.push(this_channel_volume);
        i = i + 1;
    }
    (result, denom)
}

} // verus!
