//! Angles on the chart wheel and the circular metric between them.
//!
//! An angle is a whole number of hundredths of an arcsecond, so that one
//! degree is `UNITS_PER_DEGREE` units and the wheel is `FULL_TURN` units
//! round. Angles need not lie in `[0, FULL_TURN)`: every operation here works
//! through the circular distance, never through raw subtraction.
use vstd::arithmetic::div_mod::{lemma_fundamental_div_mod, lemma_mod_multiples_vanish, lemma_small_mod};
use vstd::prelude::*;

verus! {

/// Units in one degree (hundredths of an arcsecond).
pub const UNITS_PER_DEGREE: i64 = 360000;

/// Units in a whole turn of 360 degrees.
pub const FULL_TURN: i64 = 129600000;

/// Units in half a turn, the largest circular distance.
pub const HALF_TURN: i64 = 64800000;

/// The absolute value of an integer.
pub open spec fn abs(x: int) -> int {
    if x < 0 {
        -x
    } else {
        x
    }
}

/// The circular distance between `a` and `b`: the shorter of the two arcs,
/// `min(|a - b| mod 360°, 360° - |a - b| mod 360°)`.
pub open spec fn dist(a: int, b: int) -> int {
    let m = abs(a - b) % (FULL_TURN as int);
    if m <= FULL_TURN - m {
        m
    } else {
        FULL_TURN - m
    }
}

/// The forward (clockwise) arc from `a` to `b`, in `[0, 360°)`.
pub open spec fn forward_arc(a: int, b: int) -> int {
    (b - a) % (FULL_TURN as int)
}

/// `b` lies ahead of `a` when the forward arc from `a` to `b` is the shorter
/// one. At exactly half a turn both arcs are equal and `b` counts as ahead.
pub open spec fn ahead(a: int, b: int) -> bool {
    forward_arc(a, b) == dist(a, b)
}

/// The circular metric is symmetric, bounded by half a turn, and zero from
/// an angle to itself.
pub proof fn lemma_dist_metric(a: int, b: int)
    ensures
        dist(a, b) == dist(b, a),
        0 <= dist(a, b) <= HALF_TURN,
        dist(a, a) == 0,
{
    assert(abs(a - b) == abs(b - a));
}

/// The circular distance from `a` to `b`, in units.
pub fn distance(a: i64, b: i64) -> (d: i64)
    ensures
        d == dist(a as int, b as int),
        0 <= d <= HALF_TURN,
{
    let diff: i128 = (a as i128) - (b as i128);
    let magnitude: u128 = if diff < 0 {
        (-diff) as u128
    } else {
        diff as u128
    };
    let m: u128 = magnitude % (FULL_TURN as u128);
    let d: u128 = if m <= (FULL_TURN as u128) - m {
        m
    } else {
        (FULL_TURN as u128) - m
    };
    d as i64
}

/// The forward arc from `a` to `b`, in `[0, FULL_TURN)`.
fn forward(a: i64, b: i64) -> (f: i64)
    ensures
        f == forward_arc(a as int, b as int),
        0 <= f < FULL_TURN,
{
    let diff: i128 = (b as i128) - (a as i128);
    if diff >= 0 {
        ((diff as u128) % (FULL_TURN as u128)) as i64
    } else {
        let n: u128 = (-diff) as u128;
        let r: u128 = n % (FULL_TURN as u128);
        proof {
            let fi = FULL_TURN as int;
            let q = (n as int) / fi;
            lemma_fundamental_div_mod(n as int, fi);
            lemma_mod_multiples_vanish(q + 1, diff as int, fi);
            assert(fi * (q + 1) + diff == fi - r) by (nonlinear_arith)
                requires
                    n as int == fi * q + r,
                    diff == -(n as int),
            ;
            if r > 0 {
                lemma_small_mod((fi - r) as nat, fi as nat);
            } else {
                assert(fi * (q + 1) + diff == fi * 1 + 0);
                lemma_mod_multiples_vanish(1, 0, fi);
            }
        }
        if r == 0 {
            0
        } else {
            ((FULL_TURN as u128) - r) as i64
        }
    }
}

/// Whether `b` lies ahead of `a` along the shorter arc (see `ahead`).
pub fn is_ahead(a: i64, b: i64) -> (r: bool)
    ensures
        r == ahead(a as int, b as int),
{
    forward(a, b) == distance(a, b)
}

} // verus!
