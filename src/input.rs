//! Reading positions out of the text that the ZET9 program exports.
//!
//! Each record reads `<name> <degrees>°<minutes>'<seconds>.<fraction>"<sign>`.
//! The records are found by a regular expression; what they mean is decided
//! here.
use crate::angle::UNITS_PER_DEGREE;
use crate::positions::Positions;
use vstd::prelude::*;
use vstd::string::*;

verus! {

/// One record: name, degrees, minutes, seconds with a fraction, sign.
pub const RECORD_PATTERN: &'static str = "(\\w+)\\s+(\\d+)\u{b0}(\\d+)'(\\d+\\.\\d+)\"(\\w+)";

/// A sample of the export: the bodies with their speeds and houses, then the
/// house cusps.
pub const SAMPLE_EXPORT: &'static str = "Sun     \t22\u{b0}14'35.78\"Cap\t  1\u{b0} 1' 9\"\tIX\n\
Moon    \t 2\u{b0}39'38.96\"Sgr\t 11\u{b0}57'25\"\tVI\n\
Mercury \t 1\u{b0}45'01.32\"Cap\t  1\u{b0}21'23\"\tVII\n\
Venus   \t23\u{b0}00'48.61\"Cap\t  1\u{b0}15'28\"\tIX\n\
Mars    \t21\u{b0}20'04.68\"Sco\t  0\u{b0}37'15\"\tVI\n\
Jupiter \t18\u{b0}45'55.73\"Sco\t  0\u{b0} 8'54\"\tVI\n\
Saturn  \t 2\u{b0}43'17.49\"Cap\t  0\u{b0} 6'49\"\tVII\n\
Uranus  \t24\u{b0}36'45.68\"Ari\t  0\u{b0} 0'31\"\tXII\n\
Neptune \t12\u{b0}11'05.10\"Psc\t  0\u{b0} 1'37\"\tXI\n\
Pluto   \t19\u{b0}10'15.12\"Cap\t  0\u{b0} 2' 3\"\tVIII\n\
Node    \t15\u{b0}09'50.25\"Leo\t- 0\u{b0} 3'42\"\tIV\n\
Lilith  \t 7\u{b0}10'07.07\"Cap\t  0\u{b0} 6'41\"\tVII\n\
\n\
I\t27\u{b0}22'14.79\"Gem\n\
II\t 9\u{b0}32'04.66\"Cnc\n\
III\t21\u{b0}31'12.67\"Cnc\n\
IV\t 6\u{b0}23'53.77\"Leo\n\
V\t29\u{b0}48'25.89\"Leo\n\
VI\t18\u{b0}51'29.91\"Lib\n\
VII\t27\u{b0}22'14.79\"Sgr\n\
VIII\t 9\u{b0}32'04.66\"Cap\n\
IX\t21\u{b0}31'12.67\"Cap\n\
X\t 6\u{b0}23'53.77\"Aqr\n\
XI\t29\u{b0}48'25.89\"Aqr\n\
XII\t18\u{b0}51'29.91\"Ari";

/// Units in one minute of arc.
pub const UNITS_PER_MINUTE: i64 = 6000;

/// The five fields of one record, as the pattern captured them.
#[derive(Clone, Debug)]
pub struct Zet9Record {
    pub name: String,
    pub degrees: String,
    pub minutes: String,
    pub seconds: String,
    pub sign: String,
}

/// The fields of a record as text, in capture order.
pub open spec fn record_text(r: Zet9Record) -> Seq<Seq<char>> {
    seq![r.name@, r.degrees@, r.minutes@, r.seconds@, r.sign@]
}

/// The capture groups of each successive non-overlapping match of
/// `RECORD_PATTERN` in `text`.
pub uninterp spec fn zet9_matches(text: Seq<char>) -> Seq<Seq<Seq<char>>>;

/// Relies on `regex::Regex::new` and `regex::Regex::captures_iter`: the
/// fixed pattern compiles, and each successive match yields its five
/// groups, all of which take part in every match of this pattern.
#[verifier::external_body]
fn find_records(text: &str) -> (r: Vec<Zet9Record>)
    ensures
        r.len() == zet9_matches(text@).len(),
        forall|i: int| 0 <= i < r.len() ==> record_text(#[trigger] r@[i]) == zet9_matches(text@)[i],
{
    let pattern = regex::Regex::new(RECORD_PATTERN).expect("the record pattern is valid");
    pattern.captures_iter(text).map(|c| Zet9Record {
        name: c[1].to_string(),
        degrees: c[2].to_string(),
        minutes: c[3].to_string(),
        seconds: c[4].to_string(),
        sign: c[5].to_string(),
    }).collect()
}

/// Why a text could not be read.
#[derive(Clone, Debug, PartialEq, Eq)]
pub enum Error {
    /// A record names a sign that is not one of the twelve abbreviations.
    UnknownZodiacSign(String),
    /// A number field is not a run of ASCII digits (seconds: two such runs
    /// joined by a point), or the angle would not fit in `i64` once it is
    /// added.
    MalformedNumber(String),
}

/// What an `Error` says, as text.
pub enum Fault {
    UnknownZodiacSign(Seq<char>),
    MalformedNumber(Seq<char>),
}

impl View for Error {
    type V = Fault;

    open spec fn view(&self) -> Fault {
        match self {
            Error::UnknownZodiacSign(s) => Fault::UnknownZodiacSign(s@),
            Error::MalformedNumber(s) => Fault::MalformedNumber(s@),
        }
    }
}

/// The sign abbreviations of the export, from Aries to Pisces.
pub open spec fn zodiac_abbrev(k: int) -> Seq<char> {
    if k == 0 {
        "Ari"@
    } else if k == 1 {
        "Tau"@
    } else if k == 2 {
        "Gem"@
    } else if k == 3 {
        "Cnc"@
    } else if k == 4 {
        "Leo"@
    } else if k == 5 {
        "Vir"@
    } else if k == 6 {
        "Lib"@
    } else if k == 7 {
        "Sco"@
    } else if k == 8 {
        "Sgr"@
    } else if k == 9 {
        "Cap"@
    } else if k == 10 {
        "Aqr"@
    } else {
        "Psc"@
    }
}

/// The first sign index at or after `k` whose abbreviation is `s`.
pub open spec fn sign_index_from(s: Seq<char>, k: int) -> Option<int>
    decreases 12 - k,
{
    if k >= 12 {
        None
    } else if s == zodiac_abbrev(k) {
        Some(k)
    } else {
        sign_index_from(s, k + 1)
    }
}

/// The index in `Positions` that a record of this name fills, if any.
pub open spec fn slot_of(name: Seq<char>) -> Option<int> {
    if name == "Sun"@ {
        Some(0)
    } else if name == "Moon"@ {
        Some(1)
    } else if name == "Mercury"@ {
        Some(2)
    } else if name == "Venus"@ {
        Some(3)
    } else if name == "Mars"@ {
        Some(4)
    } else if name == "Jupiter"@ {
        Some(5)
    } else if name == "Saturn"@ {
        Some(6)
    } else if name == "Uranus"@ {
        Some(7)
    } else if name == "Neptune"@ {
        Some(8)
    } else if name == "Pluto"@ {
        Some(9)
    } else if name == "Node"@ {
        Some(10)
    } else if name == "X"@ {
        Some(11)
    } else if name == "I"@ {
        Some(12)
    } else {
        None
    }
}

pub open spec fn is_digit(c: char) -> bool {
    '0' <= c && c <= '9'
}

pub open spec fn digit(c: char) -> int {
    c as int - '0' as int
}

pub open spec fn all_digits(s: Seq<char>) -> bool {
    forall|i: int| 0 <= i < s.len() ==> is_digit(#[trigger] s[i])
}

/// The value of a run of decimal digits.
pub open spec fn decimal(s: Seq<char>) -> int
    decreases s.len(),
{
    if s.len() == 0 {
        0
    } else {
        decimal(s.drop_last()) * 10 + digit(s.last())
    }
}

/// A whole-number field: one or more ASCII digits.
pub open spec fn whole_field(s: Seq<char>) -> bool {
    1 <= s.len() && all_digits(s)
}

/// The index of the first point in `s` at or after `k`, or the length of `s`.
pub open spec fn dot_from(s: Seq<char>, k: int) -> int
    decreases s.len() - k,
{
    if k >= s.len() {
        s.len() as int
    } else if s[k] == '.' {
        k
    } else {
        dot_from(s, k + 1)
    }
}

/// A seconds field: a whole-number field, a point, and at least one digit.
pub open spec fn seconds_field(s: Seq<char>) -> bool {
    let p = dot_from(s, 0);
    p < s.len() && whole_field(s.take(p)) && p + 1 < s.len() && all_digits(s.skip(p + 1))
}

/// The hundredths of a fraction's digits; later digits are dropped.
pub open spec fn hundredths(f: Seq<char>) -> int {
    if f.len() == 1 {
        digit(f[0]) * 10
    } else {
        digit(f[0]) * 10 + digit(f[1])
    }
}

/// A seconds field in units (hundredths of an arcsecond).
pub open spec fn seconds_units(s: Seq<char>) -> int {
    let p = dot_from(s, 0);
    decimal(s.take(p)) * 100 + hundredths(s.skip(p + 1))
}

/// The angle that record `r` (its fields as text) gives, or why it gives none.
/// The sign is read first; then degrees, minutes and seconds are added in
/// turn, and the first field that is not a number, or whose addition takes
/// the angle past `i64::MAX`, is the fault.
pub open spec fn record_value(r: Seq<Seq<char>>) -> Result<i64, Fault> {
    match sign_index_from(r[4], 0) {
        None => Err(Fault::UnknownZodiacSign(r[4])),
        Some(k) => {
            let with_degrees = k * 30 * UNITS_PER_DEGREE + decimal(r[1]) * UNITS_PER_DEGREE;
            let with_minutes = with_degrees + decimal(r[2]) * UNITS_PER_MINUTE;
            let with_seconds = with_minutes + seconds_units(r[3]);
            if !whole_field(r[1]) || with_degrees > i64::MAX {
                Err(Fault::MalformedNumber(r[1]))
            } else if !whole_field(r[2]) || with_minutes > i64::MAX {
                Err(Fault::MalformedNumber(r[2]))
            } else if !seconds_field(r[3]) || with_seconds > i64::MAX {
                Err(Fault::MalformedNumber(r[3]))
            } else {
                Ok(with_seconds as i64)
            }
        },
    }
}

/// The positions after the first `k` records: each record whose name has a
/// slot sets that slot, a later one over an earlier; the first record with
/// a slot whose value fails ends the reading with its fault.
pub open spec fn read_records(recs: Seq<Seq<Seq<char>>>, k: int) -> Result<Seq<i64>, Fault>
    decreases k,
{
    if k <= 0 {
        Ok(Seq::new(13, |i: int| 0i64))
    } else {
        match read_records(recs, k - 1) {
            Err(e) => Err(e),
            Ok(p) => match slot_of(recs[k - 1][0]) {
                None => Ok(p),
                Some(s) => match record_value(recs[k - 1]) {
                    Err(e) => Err(e),
                    Ok(v) => Ok(p.update(s, v)),
                },
            },
        }
    }
}

/// The outcome of a reading as values.
pub open spec fn outcome(r: Result<Positions, Error>) -> Result<Seq<i64>, Fault> {
    match r {
        Ok(p) => Ok(p.0@),
        Err(e) => Err(e@),
    }
}

/// Whether two texts are equal, character by character.
fn same_text(a: &str, b: &str) -> (r: bool)
    ensures
        r == (a@ == b@),
{
    let n = a.unicode_len();
    if n != b.unicode_len() {
        return false;
    }
    let mut i: usize = 0;
    while i < n
        invariant
            n == a@.len() == b@.len(),
            i <= n,
            forall|k: int| 0 <= k < i ==> a@[k] == b@[k],
        decreases n - i,
    {
        if a.get_char(i) != b.get_char(i) {
            return false;
        }
        i = i + 1;
    }
    assert(a@ =~= b@);
    true
}

proof fn lemma_decimal_nonneg(s: Seq<char>)
    requires
        all_digits(s),
    ensures
        decimal(s) >= 0,
    decreases s.len(),
{
    if s.len() > 0 {
        assert(all_digits(s.drop_last())) by {
            assert forall|i: int| 0 <= i < s.drop_last().len() implies is_digit(
                #[trigger] s.drop_last()[i],
            ) by {
                assert(s.drop_last()[i] == s[i]);
            }
        }
        lemma_decimal_nonneg(s.drop_last());
        assert(is_digit(s[s.len() - 1]));
    }
}

/// `x` fits under `l` after scaling by `u` exactly when it fits under `l / u`.
proof fn lemma_scaled_fits(x: int, l: int, u: int)
    requires
        0 <= x,
        0 <= l,
        0 < u,
    ensures
        (x <= l / u) <==> (x * u <= l),
{
    let q = l / u;
    let r = l % u;
    vstd::arithmetic::div_mod::lemma_fundamental_div_mod(l, u);
    assert((x <= q) <==> (x * u <= l)) by (nonlinear_arith)
        requires
            l == u * q + r,
            0 <= r < u,
            0 <= x,
            0 < u,
    ;
}

/// The value of a whole-number field, if it is one and its value is at most
/// `limit`.
fn parse_whole(s: &str, limit: i64) -> (r: Option<i64>)
    requires
        0 <= limit,
    ensures
        r == (if whole_field(s@) && decimal(s@) <= limit {
            Some(decimal(s@) as i64)
        } else {
            None::<i64>
        }),
        r matches Some(v) ==> v == decimal(s@) && 0 <= v <= limit,
        whole_field(s@) ==> decimal(s@) >= 0,
{
    let n = s.unicode_len();
    if n == 0 {
        return None;
    }
    let mut v: i64 = 0;
    let mut over = false;
    let mut i: usize = 0;
    while i < n
        invariant
            n == s@.len(),
            0 <= limit,
            i <= n,
            all_digits(s@.take(i as int)),
            decimal(s@.take(i as int)) >= 0,
            over ==> decimal(s@.take(i as int)) > limit,
            !over ==> v == decimal(s@.take(i as int)) && 0 <= v <= limit,
        decreases n - i,
    {
        let c = s.get_char(i);
        if !('0' <= c && c <= '9') {
            assert(!is_digit(s@[i as int]));
            return None;
        }
        proof {
            assert(s@.take(i + 1).drop_last() =~= s@.take(i as int));
            assert(all_digits(s@.take(i + 1)));
        }
        let d = (c as u32 - '0' as u32) as i64;
        if !over {
            let w: i128 = (v as i128) * 10 + (d as i128);
            if w <= limit as i128 {
                v = w as i64;
            } else {
                over = true;
            }
        }
        i = i + 1;
    }
    assert(s@.take(n as int) =~= s@);
    if over {
        None
    } else {
        Some(v)
    }
}

/// The value of a seconds field in units, if it is one and its value is at
/// most `limit`.
fn parse_seconds(s: &str, limit: i64) -> (r: Option<i64>)
    requires
        0 <= limit,
    ensures
        r == (if seconds_field(s@) && seconds_units(s@) <= limit {
            Some(seconds_units(s@) as i64)
        } else {
            None::<i64>
        }),
        r matches Some(v) ==> v == seconds_units(s@) && 0 <= v <= limit,
{
    let n = s.unicode_len();
    let mut p: usize = 0;
    loop
        invariant_except_break
            n == s@.len(),
            p <= n,
            dot_from(s@, p as int) == dot_from(s@, 0),
        ensures
            n == s@.len(),
            p <= n,
            p == dot_from(s@, 0),
        decreases n - p,
    {
        if p >= n {
            break;
        }
        if s.get_char(p) == '.' {
            break;
        }
        p = p + 1;
    }
    if p >= n || n - p < 2 {
        return None;
    }
    let ghost frac = s@.skip(p + 1);
    let mut k: usize = p + 1;
    while k < n
        invariant
            n == s@.len(),
            p + 1 <= k <= n,
            p == dot_from(s@, 0),
            frac == s@.skip(p + 1),
            forall|i: int| 0 <= i < k - (p + 1) ==> is_digit(#[trigger] frac[i]),
        decreases n - k,
    {
        let c = s.get_char(k);
        if !('0' <= c && c <= '9') {
            assert(!is_digit(frac[k - (p + 1)]));
            assert(!all_digits(frac));
            assert(!seconds_field(s@));
            return None;
        }
        k = k + 1;
    }
    assert(is_digit(frac[0]) && frac[0] == s@[p + 1]);
    let first = s.get_char(p + 1);
    let mut h: i64 = ((first as u32 - '0' as u32) as i64) * 10;
    if p + 2 < n {
        assert(is_digit(frac[1]) && frac[1] == s@[p + 2]);
        let second = s.get_char(p + 2);
        h = h + ((second as u32 - '0' as u32) as i64);
    }
    assert(h == hundredths(frac));
    let whole_text = vstd::string::StrSliceExecFns::substring_char(s, 0, p);
    assert(whole_text@ =~= s@.take(p as int));
    if h > limit {
        proof {
            if whole_field(whole_text@) {
                lemma_decimal_nonneg(whole_text@);
            }
        }
        return None;
    }
    let whole = match parse_whole(whole_text, (limit - h) / 100) {
        Some(w) => w,
        None => {
            proof {
                if whole_field(whole_text@) {
                    lemma_scaled_fits(decimal(whole_text@), limit - h, 100);
                }
            }
            return None;
        },
    };
    proof {
        lemma_scaled_fits(whole as int, limit - h, 100);
    }
    Some(whole * 100 + h)
}

/// The abbreviation of sign `k`.
fn abbrev(k: usize) -> (r: &'static str)
    requires
        k < 12,
    ensures
        r@ == zodiac_abbrev(k as int),
{
    if k == 0 {
        "Ari"
    } else if k == 1 {
        "Tau"
    } else if k == 2 {
        "Gem"
    } else if k == 3 {
        "Cnc"
    } else if k == 4 {
        "Leo"
    } else if k == 5 {
        "Vir"
    } else if k == 6 {
        "Lib"
    } else if k == 7 {
        "Sco"
    } else if k == 8 {
        "Sgr"
    } else if k == 9 {
        "Cap"
    } else if k == 10 {
        "Aqr"
    } else {
        "Psc"
    }
}

/// The index of the sign whose abbreviation is `s`, if any.
fn sign_index(s: &str) -> (r: Option<usize>)
    ensures
        r matches Some(k) ==> k < 12 && sign_index_from(s@, 0) == Some(k as int),
        r is None ==> sign_index_from(s@, 0) is None,
{
    let mut k: usize = 0;
    while k < 12
        invariant
            k <= 12,
            sign_index_from(s@, 0) == sign_index_from(s@, k as int),
        decreases 12 - k,
    {
        if same_text(s, abbrev(k)) {
            return Some(k);
        }
        k = k + 1;
    }
    None
}

/// The slot that a record of this name fills, if any.
fn slot_index(name: &str) -> (r: Option<usize>)
    ensures
        r matches Some(k) ==> slot_of(name@) == Some(k as int),
        r is None ==> slot_of(name@) is None,
{
    if same_text(name, "Sun") {
        Some(0)
    } else if same_text(name, "Moon") {
        Some(1)
    } else if same_text(name, "Mercury") {
        Some(2)
    } else if same_text(name, "Venus") {
        Some(3)
    } else if same_text(name, "Mars") {
        Some(4)
    } else if same_text(name, "Jupiter") {
        Some(5)
    } else if same_text(name, "Saturn") {
        Some(6)
    } else if same_text(name, "Uranus") {
        Some(7)
    } else if same_text(name, "Neptune") {
        Some(8)
    } else if same_text(name, "Pluto") {
        Some(9)
    } else if same_text(name, "Node") {
        Some(10)
    } else if same_text(name, "X") {
        Some(11)
    } else if same_text(name, "I") {
        Some(12)
    } else {
        None
    }
}

/// The angle of a record: thirty degrees per sign before its sign, plus its
/// degrees, minutes and seconds. Fails on an unknown sign first, then on
/// the first malformed number field.
pub fn to_num(rec: &Zet9Record) -> (r: Result<i64, Error>)
    ensures
        match r {
            Ok(v) => record_value(record_text(*rec)) == Ok::<i64, Fault>(v),
            Err(e) => record_value(record_text(*rec)) == Err::<i64, Fault>(e@),
        },
{
    let k = match sign_index(rec.sign.as_str()) {
        Some(k) => k,
        None => {
            return Err(Error::UnknownZodiacSign(rec.sign.clone()));
        },
    };
    let base: i64 = (k as i64) * 30 * UNITS_PER_DEGREE;
    let deg = match parse_whole(rec.degrees.as_str(), (i64::MAX - base) / UNITS_PER_DEGREE) {
        Some(v) => v,
        None => {
            proof {
                if whole_field(rec.degrees@) {
                    lemma_scaled_fits(decimal(rec.degrees@), i64::MAX - base, UNITS_PER_DEGREE as int);
                }
            }
            return Err(Error::MalformedNumber(rec.degrees.clone()));
        },
    };
    proof {
        lemma_scaled_fits(deg as int, i64::MAX - base, UNITS_PER_DEGREE as int);
    }
    let with_degrees = base + deg * UNITS_PER_DEGREE;
    let min = match parse_whole(rec.minutes.as_str(), (i64::MAX - with_degrees) / UNITS_PER_MINUTE) {
        Some(v) => v,
        None => {
            proof {
                if whole_field(rec.minutes@) {
                    lemma_scaled_fits(
                        decimal(rec.minutes@),
                        i64::MAX - with_degrees,
                        UNITS_PER_MINUTE as int,
                    );
                }
            }
            return Err(Error::MalformedNumber(rec.minutes.clone()));
        },
    };
    proof {
        lemma_scaled_fits(min as int, i64::MAX - with_degrees, UNITS_PER_MINUTE as int);
    }
    let with_minutes = with_degrees + min * UNITS_PER_MINUTE;
    let sec = match parse_seconds(rec.seconds.as_str(), i64::MAX - with_minutes) {
        Some(v) => v,
        None => {
            return Err(Error::MalformedNumber(rec.seconds.clone()));
        },
    };
    Ok(with_minutes + sec)
}

/// The fields of every record as text.
pub open spec fn records_text(records: Seq<Zet9Record>) -> Seq<Seq<Seq<char>>> {
    records.map_values(|x: Zet9Record| record_text(x))
}

proof fn lemma_fault_stays(recs: Seq<Seq<Seq<char>>>, k: int, m: int)
    requires
        0 <= k <= m,
        read_records(recs, k) is Err,
    ensures
        read_records(recs, m) == read_records(recs, k),
    decreases m - k,
{
    if m > k {
        lemma_fault_stays(recs, k, m - 1);
    }
}

/// The positions that `records` give, read in order: a record whose name
/// has a slot sets that slot (a later record over an earlier one), other
/// records are skipped, and the first failing record ends the reading with
/// its error. Slots that no record sets stay at zero.
pub fn positions_from_records(records: &Vec<Zet9Record>) -> (r: Result<Positions, Error>)
    ensures
        outcome(r) == read_records(records_text(records@), records.len() as int),
{
    let ghost recs = records_text(records@);
    let mut positions = Positions::default();
    assert(positions.0@ =~= Seq::new(13, |i: int| 0i64));
    let n = records.len();
    let mut i: usize = 0;
    while i < n
        invariant
            n == records.len(),
            recs == records_text(records@),
            i <= n,
            read_records(recs, i as int) == Ok::<Seq<i64>, Fault>(positions.0@),
        decreases n - i,
    {
        let rec = &records[i];
        assert(recs[i as int] == record_text(*rec));
        match slot_index(rec.name.as_str()) {
            None => {},
            Some(slot) => match to_num(rec) {
                Ok(v) => {
                    positions.0[slot] = v;
                },
                Err(e) => {
                    proof {
                        lemma_fault_stays(recs, i + 1, n as int);
                    }
                    return Err(e);
                },
            },
        }
        i = i + 1;
    }
    Ok(positions)
}

/// The positions that an exported text gives: its records, as the pattern
/// finds them, read in order (see `positions_from_records`).
pub fn parse_zet9(text: &str) -> (r: Result<Positions, Error>)
    ensures
        outcome(r) == read_records(zet9_matches(text@), zet9_matches(text@).len() as int),
{
    let records = find_records(text);
    assert(records_text(records@) =~= zet9_matches(text@));
    positions_from_records(&records)
}

} // verus!
