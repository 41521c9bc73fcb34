//! The aspect classifier: which canonical separation, if any, two positions
//! form, and how close they come to it.
use crate::angle::{abs, dist, distance, lemma_dist_metric, UNITS_PER_DEGREE};
use crate::pairs::{index_pairs, index_pairs_below, lemma_index_pairs_bounds};
use vstd::prelude::*;

verus! {

/// The tolerance that the chart passes to the classifier: 8 degrees.
pub const CHART_ORBIS: i64 = 8 * UNITS_PER_DEGREE;

/// The canonical separations, in the order in which they are tested.
#[derive(Clone, Copy, Debug, PartialEq, Eq, Structural)]
pub enum Type {
    /// Conjunction, 0 degrees.
    Zero,
    /// Semisextile, 30 degrees.
    Thirty,
    /// Sextile, 60 degrees.
    Sixty,
    /// Square, 90 degrees.
    Ninety,
    /// Trine, 120 degrees.
    OneTwenty,
    /// Opposition, 180 degrees.
    OneEighty,
}

/// A detected aspect. Its closeness is the exact fraction
/// `close_num / close_den`, in `[0, 1]`. For a conjunction it grows with the
/// distance from exact (0 exact, 1 at the edge of the window); for every
/// other type it shrinks (1 exact, toward 0 at the edge).
#[derive(Clone, Copy, Debug, PartialEq, Eq, Structural)]
pub struct Aspect {
    pub aspect_type: Type,
    pub close_num: i64,
    pub close_den: i64,
}

/// The aspect of two positions at circular distance `d`, with tolerance
/// `orbis`: the first window in priority order that holds `d`.
pub open spec fn classify(d: int, orbis: int) -> Option<Aspect> {
    let deg = UNITS_PER_DEGREE as int;
    if d < orbis {
        Some(Aspect { aspect_type: Type::Zero, close_num: d as i64, close_den: orbis as i64 })
    } else if 4 * abs(d - 30 * deg) < orbis {
        Some(
            Aspect {
                aspect_type: Type::Thirty,
                close_num: (orbis - 4 * abs(30 * deg - d)) as i64,
                close_den: orbis as i64,
            },
        )
    } else if 4 * abs(d - 60 * deg) < 3 * orbis {
        Some(
            Aspect {
                aspect_type: Type::Sixty,
                close_num: (3 * orbis - 4 * abs(60 * deg - d)) as i64,
                close_den: (3 * orbis) as i64,
            },
        )
    } else if abs(d - 90 * deg) < orbis {
        Some(
            Aspect {
                aspect_type: Type::Ninety,
                close_num: (orbis - abs(90 * deg - d)) as i64,
                close_den: orbis as i64,
            },
        )
    } else if abs(d - 120 * deg) < orbis {
        Some(
            Aspect {
                aspect_type: Type::OneTwenty,
                close_num: (orbis - abs(120 * deg - d)) as i64,
                close_den: orbis as i64,
            },
        )
    } else if abs(d - 180 * deg) < orbis {
        Some(
            Aspect {
                aspect_type: Type::OneEighty,
                close_num: (orbis - abs(180 * deg - d)) as i64,
                close_den: orbis as i64,
            },
        )
    } else {
        None
    }
}

/// The aspect between positions `a` and `b` with tolerance `orbis`.
pub open spec fn aspect_of(a: int, b: int, orbis: int) -> Option<Aspect> {
    classify(dist(a, b), orbis)
}

/// The aspect of a pair does not depend on the order of the two positions.
pub proof fn lemma_aspect_symmetric(a: int, b: int, orbis: int)
    ensures
        aspect_of(a, b, orbis) == aspect_of(b, a, orbis),
{
    lemma_dist_metric(a, b);
}

/// The closeness of an aspect lies in `[0, 1]`, with a positive denominator.
pub open spec fn closeness_in_unit(x: Aspect) -> bool {
    0 <= x.close_num <= x.close_den && 0 < x.close_den
}

/// The aspect between positions `a` and `b`, with tolerance `orbis` in
/// units: the first of conjunction, semisextile, sextile, square, trine and
/// opposition whose window holds their circular distance, or `None`.
pub fn aspect(a: i64, b: i64, orbis: i64) -> (r: Option<Aspect>)
    ensures
        r == aspect_of(a as int, b as int, orbis as int),
        r matches Some(x) ==> closeness_in_unit(x),
{
    let d = distance(a, b);
    let deg = UNITS_PER_DEGREE;
    if d < orbis {
        return Some(Aspect { aspect_type: Type::Zero, close_num: d, close_den: orbis });
    }
    if orbis <= 0 {
        // No window is open: every test below compares a magnitude with `orbis`.
        return None;
    }
    // From here on `0 < orbis <= d <= HALF_TURN`, so no product below overflows.
    let off30 = if d < 30 * deg { 30 * deg - d } else { d - 30 * deg };
    let off60 = if d < 60 * deg { 60 * deg - d } else { d - 60 * deg };
    let off90 = if d < 90 * deg { 90 * deg - d } else { d - 90 * deg };
    let off120 = if d < 120 * deg { 120 * deg - d } else { d - 120 * deg };
    let off180 = 180 * deg - d;
    if 4 * off30 < orbis {
        Some(Aspect { aspect_type: Type::Thirty, close_num: orbis - 4 * off30, close_den: orbis })
    } else if 4 * off60 < 3 * orbis {
        Some(
            Aspect {
                aspect_type: Type::Sixty,
                close_num: 3 * orbis - 4 * off60,
                close_den: 3 * orbis,
            },
        )
    } else if off90 < orbis {
        Some(Aspect { aspect_type: Type::Ninety, close_num: orbis - off90, close_den: orbis })
    } else if off120 < orbis {
        Some(Aspect { aspect_type: Type::OneTwenty, close_num: orbis - off120, close_den: orbis })
    } else if off180 < orbis {
        Some(Aspect { aspect_type: Type::OneEighty, close_num: orbis - off180, close_den: orbis })
    } else {
        None
    }
}

/// Whether the chart draws a chord for an aspect of type `t`: conjunctions
/// and semisextiles are left out.
pub open spec fn drawn(t: Type) -> bool {
    !(t == Type::Zero || t == Type::Thirty)
}

impl Type {
    /// Whether the chart draws a chord for an aspect of this type.
    pub fn is_drawn(&self) -> (r: bool)
        ensures
            r == drawn(*self),
    {
        match self {
            Type::Zero | Type::Thirty => false,
            _ => true,
        }
    }

    /// Whether a chord of this type is drawn in the tense style (square and
    /// opposition) rather than the harmonious one.
    pub fn is_tense(&self) -> (r: bool)
        ensures
            r == (*self == Type::Ninety || *self == Type::OneEighty),
    {
        match self {
            Type::Ninety | Type::OneEighty => true,
            _ => false,
        }
    }
}

/// A chord that the chart draws between two positions.
#[derive(Clone, Copy, Debug, PartialEq, Eq, Structural)]
pub struct Chord {
    pub from: i64,
    pub to: i64,
    pub aspect: Aspect,
}

/// The chord between positions `i` and `j` of `s`, if their aspect is drawn.
pub open spec fn chord_at(s: Seq<i64>, i: int, j: int, orbis: int) -> Seq<Chord> {
    match aspect_of(s[i] as int, s[j] as int, orbis) {
        Some(x) => if drawn(x.aspect_type) {
            seq![Chord { from: s[i], to: s[j], aspect: x }]
        } else {
            seq![]
        },
        None => seq![],
    }
}

/// The chords of the pairs `ps` of `s`, in the order of `ps`.
pub open spec fn chords_of(s: Seq<i64>, ps: Seq<(usize, usize)>, orbis: int) -> Seq<Chord>
    decreases ps.len(),
{
    if ps.len() == 0 {
        seq![]
    } else {
        chords_of(s, ps.drop_last(), orbis) + chord_at(
            s,
            ps.last().0 as int,
            ps.last().1 as int,
            orbis,
        )
    }
}

/// The chords that the chart draws for `positions`: for every pair `i < j`,
/// in lexicographic order, the aspect of the two positions with tolerance
/// `orbis`, where there is one and its type is drawn.
pub fn aspect_chords(positions: &Vec<i64>, orbis: i64) -> (r: Vec<Chord>)
    ensures
        r@ == chords_of(positions@, index_pairs_below(positions.len() as int), orbis as int),
{
    let pairs = index_pairs(positions.len());
    proof {
        lemma_index_pairs_bounds(0, positions.len() as int);
    }
    let mut r: Vec<Chord> = Vec::new();
    let mut k: usize = 0;
    while k < pairs.len()
        invariant
            pairs@ == index_pairs_below(positions.len() as int),
            forall|m: int|
                0 <= m < pairs.len() ==> 0 <= (#[trigger] pairs@[m]).0 < pairs@[m].1
                    < positions.len(),
            k <= pairs.len(),
            r@ == chords_of(positions@, pairs@.take(k as int), orbis as int),
        decreases pairs.len() - k,
    {
        let (i, j) = pairs[k];
        assert(pairs@[k as int] == (i, j));
        let ghost before = r@;
        match aspect(positions[i], positions[j], orbis) {
            Some(x) => {
                if x.aspect_type.is_drawn() {
                    r.push(Chord { from: positions[i], to: positions[j], aspect: x });
                }
            },
            None => {},
        }
        assert(pairs@.take(k + 1).drop_last() =~= pairs@.take(k as int));
        assert(r@ =~= before + chord_at(positions@, i as int, j as int, orbis as int));
        k = k + 1;
    }
    assert(pairs@.take(pairs.len() as int) =~= pairs@);
    r
}

} // verus!
