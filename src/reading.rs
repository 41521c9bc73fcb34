//! Reading an angle as a sign of the zodiac, degrees within it and minutes,
//! as the position list shows it.
use crate::angle::{FULL_TURN, UNITS_PER_DEGREE};
use vstd::prelude::*;

verus! {

/// An angle read as sign index (0 for Aries), whole degrees within the sign
/// and minutes rounded to the nearest whole minute.
#[derive(Clone, Copy, Debug, PartialEq, Eq, Structural)]
pub struct SignReading {
    pub sign: usize,
    pub degrees: u32,
    pub minutes: u32,
}

/// The reading of angle `a` in `[0, 360°)`. The sign is taken from the whole
/// degrees; minutes that round up to 60 carry into the degrees, which may
/// then read 30.
pub open spec fn reading_of(a: int) -> SignReading {
    let u = UNITS_PER_DEGREE as int;
    let deg = a / u;
    let m = ((a % u) * 60 + u / 2) / u;
    if m > 59 {
        SignReading { sign: (deg / 30) as usize, degrees: (deg % 30 + 1) as u32, minutes: (m - 60) as u32 }
    } else {
        SignReading { sign: (deg / 30) as usize, degrees: (deg % 30) as u32, minutes: m as u32 }
    }
}

/// The sign, degrees and minutes of `angle`, which lies in one turn.
pub fn sign_reading(angle: i64) -> (r: SignReading)
    requires
        0 <= angle < FULL_TURN,
    ensures
        r == reading_of(angle as int),
        r.sign < 12,
        r.degrees <= 30,
        r.minutes <= 59,
{
    let deg = angle / UNITS_PER_DEGREE;
    let frac = angle % UNITS_PER_DEGREE;
    let m = (frac * 60 + UNITS_PER_DEGREE / 2) / UNITS_PER_DEGREE;
    if m > 59 {
        SignReading { sign: (deg / 30) as usize, degrees: (deg % 30 + 1) as u32, minutes: (m - 60) as u32 }
    } else {
        SignReading { sign: (deg / 30) as usize, degrees: (deg % 30) as u32, minutes: m as u32 }
    }
}

/// The abbreviation that the position list shows for sign `k`.
pub fn sign_label(k: usize) -> (r: &'static str)
    requires
        k < 12,
    ensures
        r@ == (if k == 0 {
            "Ari"@
        } else if k == 1 {
            "Tau"@
        } else if k == 2 {
            "Gem"@
        } else if k == 3 {
            "Can"@
        } else if k == 4 {
            "Leo"@
        } else if k == 5 {
            "Vir"@
        } else if k == 6 {
            "Lib"@
        } else if k == 7 {
            "Sco"@
        } else if k == 8 {
            "Sag"@
        } else if k == 9 {
            "Cap"@
        } else if k == 10 {
            "Aqu"@
        } else {
            "Psc"@
        }),
{
    if k == 0 {
        "Ari"
    } else if k == 1 {
        "Tau"
    } else if k == 2 {
        "Gem"
    } else if k == 3 {
        "Can"
    } else if k == 4 {
        "Leo"
    } else if k == 5 {
        "Vir"
    } else if k == 6 {
        "Lib"
    } else if k == 7 {
        "Sco"
    } else if k == 8 {
        "Sag"
    } else if k == 9 {
        "Cap"
    } else if k == 10 {
        "Aqu"
    } else {
        "Psc"
    }
}

} // verus!
