//! The positions of the chart's points and the harmonic chart derived from them.
use crate::angle::FULL_TURN;
use vstd::prelude::*;

verus! {

/// Number of chart points: eleven bodies from the Sun to the Node, then the
/// descendant and the ascendant.
pub const NUM_POINTS: usize = 13;

/// The angle of each chart point, in units (see `crate::angle`), by index:
/// Sun, Moon, Mercury, Venus, Mars, Jupiter, Saturn, Uranus, Neptune, Pluto,
/// Node, descendant, ascendant.
#[derive(Clone, Copy, Debug, PartialEq)]
pub struct Positions(pub [i64; 13]);

impl Default for Positions {
    fn default() -> (r: Self)
        ensures
            forall|i: int| 0 <= i < 13 ==> #[trigger] r.0@[i] == 0,
    {
        Positions([0i64; 13])
    }
}

impl Positions {
    /// The position of the Sun.
    pub fn sun(&self) -> (r: i64)
        ensures
            r == self.0@[0],
    {
        self.0[0]
    }

    /// The position of the Moon.
    pub fn moon(&self) -> (r: i64)
        ensures
            r == self.0@[1],
    {
        self.0[1]
    }

    /// The position of the descendant.
    pub fn descendant(&self) -> (r: i64)
        ensures
            r == self.0@[11],
    {
        self.0[11]
    }

    /// The position of the ascendant.
    pub fn ascendant(&self) -> (r: i64)
        ensures
            r == self.0@[12],
    {
        self.0[12]
    }

    /// The positions of the eleven bodies, from the Sun up to and including
    /// the Node.
    pub fn planets(&self) -> (r: &[i64])
        ensures
            r@ == self.0@.subrange(0, 11),
    {
        vstd::slice::slice_subrange(self.0.as_slice(), 0, 11)
    }

    /// The positions of the ten bodies from the Sun up to and including
    /// Pluto, without the Node.
    pub fn planets_without_node(&self) -> (r: &[i64])
        ensures
            r@ == self.0@.subrange(0, 10),
    {
        vstd::slice::slice_subrange(self.0.as_slice(), 0, 10)
    }
}

/// The remainder of `x` by a whole turn, with the sign of `x` (as the `%` of
/// machine numbers gives it).
pub open spec fn turn_rem(x: int) -> int {
    if x >= 0 {
        x % (FULL_TURN as int)
    } else {
        -((-x) % (FULL_TURN as int))
    }
}

/// Angle `a` of the harmonic chart of order `harmonic`: `a` times the
/// harmonic, reduced by whole turns toward zero.
pub open spec fn harmonic_angle(a: int, harmonic: int) -> int {
    turn_rem(a * harmonic)
}

fn harmonic_of(a: i64, harmonic: u16) -> (r: i64)
    ensures
        r == harmonic_angle(a as int, harmonic as int),
{
    proof {
        let (x, h) = (a as int, harmonic as int);
        assert(-0x8000_0000_0000_0000 * 0x10000 <= x * h <= 0x8000_0000_0000_0000 * 0x10000)
            by (nonlinear_arith)
            requires
                -0x8000_0000_0000_0000 <= x < 0x8000_0000_0000_0000,
                0 <= h < 0x10000,
        ;
    }
    let p: i128 = (a as i128) * (harmonic as i128);
    if p >= 0 {
        ((p as u128) % (FULL_TURN as u128)) as i64
    } else {
        -((((-p) as u128) % (FULL_TURN as u128)) as i64)
    }
}

/// The harmonic chart of order `harmonic`: every position multiplied by the
/// harmonic and reduced by whole turns.
pub fn harmonics(positions: &Positions, harmonic: u16) -> (r: Positions)
    ensures
        forall|i: int|
            0 <= i < 13 ==> #[trigger] r.0@[i] == harmonic_angle(
                positions.0@[i] as int,
                harmonic as int,
            ),
{
    let mut out: [i64; 13] = [0i64; 13];
    let mut i: usize = 0;
    while i < NUM_POINTS
        invariant
            i <= NUM_POINTS,
            forall|k: int|
                0 <= k < i ==> #[trigger] out@[k] == harmonic_angle(
                    positions.0@[k] as int,
                    harmonic as int,
                ),
        decreases NUM_POINTS - i,
    {
        out[i] = harmonic_of(positions.0[i], harmonic);
        i = i + 1;
    }
    Positions(out)
}

} // verus!
