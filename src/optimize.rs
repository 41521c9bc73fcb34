//! The label declutter optimizer: nudges a set of angles apart where their
//! labels would overlap, while pulling each back toward its true position.
use crate::angle::{
    abs, ahead, dist, distance, forward_arc, is_ahead, lemma_dist_metric, FULL_TURN, UNITS_PER_DEGREE,
};
use crate::pairs::{
    index_pairs, index_pairs_below, index_pairs_from, lemma_index_pairs_bounds, lemma_index_pairs_len,
};
use vstd::arithmetic::div_mod::{lemma_mod_multiples_vanish, lemma_small_mod};
use vstd::prelude::*;

verus! {

/// Number of update rounds; there is no early stop.
pub const ITERATIONS: usize = 30;

/// Learning rate, in tenths.
pub const LEARN_RATE_TENTHS: i64 = 1;

/// Weight of the pull toward the true position, in tenths.
pub const DIST_WEIGHT_TENTHS: i64 = 3;

/// Weight of the push between overlapping labels, in tenths (the complement
/// of the pull weight).
pub const OVERLAP_WEIGHT_TENTHS: i64 = 10 - DIST_WEIGHT_TENTHS;

/// Two labels closer than this (6 degrees) push each other apart.
pub const OVERLAP_THRESHOLD: i64 = 6 * UNITS_PER_DEGREE;

/// How far one overlapping pair moves each of its labels in one round:
/// learning rate times overlap weight (0.1 * 0.7 = 0.07 degrees), as units.
pub const OVERLAP_STEP: i64 = 25200;

/// Most positions the optimizer takes at once.
pub const MAX_POSITIONS: usize = 1000000;

/// Largest magnitude of an input angle. Together with `MAX_POSITIONS` this
/// keeps every candidate of every round within `i64`.
pub const MAX_INPUT_ANGLE: i64 = 0x4000000000000000;

/// A bound on how far one label moves in one round: one overlap step for
/// each of at most `MAX_POSITIONS` squared pairs, plus the largest pull.
pub const MAX_ROUND_MOVE: i64 = 25200000000000000 + 1944000;

/// A sequence of machine angles as mathematical integers.
pub open spec fn ints(v: Seq<i64>) -> Seq<int> {
    v.map_values(|x: i64| x as int)
}

/// The forces after the pairs `ps` of candidate vector `c` have pushed. For a
/// pair `(i, j)` closer than the threshold, the one ahead (see `ahead`,
/// judged from `c[i]`) moves forward by one overlap step and the other
/// backward; a pair at the same angle counts `j` as ahead.
pub open spec fn pair_forces(c: Seq<int>, ps: Seq<(usize, usize)>) -> Seq<int>
    decreases ps.len(),
{
    if ps.len() == 0 {
        Seq::new(c.len(), |i: int| 0)
    } else {
        let f = pair_forces(c, ps.drop_last());
        let i = ps.last().0 as int;
        let j = ps.last().1 as int;
        if dist(c[i], c[j]) >= OVERLAP_THRESHOLD {
            f
        } else if ahead(c[i], c[j]) {
            f.update(i, f[i] - OVERLAP_STEP).update(j, f[j] + OVERLAP_STEP)
        } else {
            f.update(i, f[i] + OVERLAP_STEP).update(j, f[j] - OVERLAP_STEP)
        }
    }
}

/// The pull of candidate `c` toward its target `t` in one round: learning
/// rate times pull weight times the circular distance, rounded toward zero,
/// along the shorter arc.
pub open spec fn pull(c: int, t: int) -> int {
    let m = (LEARN_RATE_TENTHS * DIST_WEIGHT_TENTHS * dist(c, t)) / 100;
    if ahead(c, t) {
        m
    } else {
        -m
    }
}

/// One round: every label moves by the pushes of every unordered pair and
/// by its pull, all read from the candidates at the start of the round.
pub open spec fn step(c: Seq<int>, t: Seq<int>) -> Seq<int> {
    let f = pair_forces(c, index_pairs_below(c.len() as int));
    Seq::new(c.len(), |i: int| c[i] + f[i] + pull(c[i], t[i]))
}

/// The candidates after `k` rounds, starting from the targets themselves.
pub open spec fn after_rounds(t: Seq<int>, k: nat) -> Seq<int>
    decreases k,
{
    if k == 0 {
        t
    } else {
        step(after_rounds(t, (k - 1) as nat), t)
    }
}

/// The display positions for targets `t`.
pub open spec fn optimized(t: Seq<int>) -> Seq<int> {
    after_rounds(t, ITERATIONS as nat)
}

/// Every label of `t` is at least the threshold away from every other.
pub open spec fn well_apart(t: Seq<int>) -> bool {
    forall|i: int, j: int|
        0 <= i < t.len() && 0 <= j < t.len() && i != j ==> dist(t[i], t[j]) >= OVERLAP_THRESHOLD
}

/// The inputs that the optimizer takes: few enough and small enough for
/// every round to stay within `i64`.
pub open spec fn valid_targets(t: Seq<i64>) -> bool {
    &&& t.len() <= MAX_POSITIONS
    &&& forall|i: int| 0 <= i < t.len() ==> abs(#[trigger] t[i] as int) <= MAX_INPUT_ANGLE
}

/// Pairs of distinct indices of a vector of length `n`.
pub open spec fn pairs_within(ps: Seq<(usize, usize)>, n: int) -> bool {
    forall|k: int| 0 <= k < ps.len() ==> (#[trigger] ps[k]).0 < ps[k].1 < n
}

proof fn lemma_pairs_within_prefix(ps: Seq<(usize, usize)>, n: int)
    requires
        pairs_within(ps, n),
        ps.len() > 0,
    ensures
        pairs_within(ps.drop_last(), n),
        ps.last().0 < ps.last().1 < n,
{
    assert forall|k: int| 0 <= k < ps.drop_last().len() implies (
    #[trigger] ps.drop_last()[k]).0 < ps.drop_last()[k].1 < n by {
        assert(ps.drop_last()[k] == ps[k]);
    }
    assert(ps.last() == ps[ps.len() - 1]);
}

proof fn lemma_pair_forces_len(c: Seq<int>, ps: Seq<(usize, usize)>)
    requires
        pairs_within(ps, c.len() as int),
    ensures
        pair_forces(c, ps).len() == c.len(),
    decreases ps.len(),
{
    if ps.len() > 0 {
        lemma_pairs_within_prefix(ps, c.len() as int);
        lemma_pair_forces_len(c, ps.drop_last());
    }
}

proof fn lemma_pair_forces_zero(c: Seq<int>, ps: Seq<(usize, usize)>)
    requires
        well_apart(c),
        pairs_within(ps, c.len() as int),
    ensures
        pair_forces(c, ps) == Seq::new(c.len(), |i: int| 0int),
    decreases ps.len(),
{
    if ps.len() > 0 {
        lemma_pairs_within_prefix(ps, c.len() as int);
        lemma_pair_forces_zero(c, ps.drop_last());
    }
}

/// Rounds never change the number of labels.
pub proof fn lemma_after_rounds_len(t: Seq<int>, k: nat)
    ensures
        after_rounds(t, k).len() == t.len(),
    decreases k,
{
    if k > 0 {
        lemma_after_rounds_len(t, (k - 1) as nat);
    }
}

/// The optimizer keeps the number of labels, so that index `i` of the output
/// is the display position of index `i` of the input.
pub proof fn lemma_optimized_len(t: Seq<int>)
    ensures
        optimized(t).len() == t.len(),
{
    lemma_after_rounds_len(t, ITERATIONS as nat);
}

/// Labels that are all at least the threshold apart stay where they are: no
/// push fires and every candidate already sits on its target.
pub proof fn lemma_well_apart_fixed(t: Seq<int>)
    requires
        t.len() <= usize::MAX,
        well_apart(t),
    ensures
        optimized(t) == t,
{
    let ps = index_pairs_below(t.len() as int);
    lemma_index_pairs_bounds(0, t.len() as int);
    assert(pairs_within(ps, t.len() as int));
    lemma_pair_forces_zero(t, ps);
    assert(step(t, t) =~= t) by {
        assert forall|i: int| 0 <= i < t.len() implies #[trigger] step(t, t)[i] == t[i] by {
            lemma_dist_metric(t[i], t[i]);
        }
    }
    lemma_fixed_rounds(t, ITERATIONS as nat);
}

proof fn lemma_fixed_rounds(t: Seq<int>, k: nat)
    requires
        step(t, t) == t,
    ensures
        after_rounds(t, k) == t,
    decreases k,
{
    if k > 0 {
        lemma_fixed_rounds(t, (k - 1) as nat);
    }
}

/// The optimizer is a function of its input alone: equal inputs give equal
/// outputs, with no hidden state and no chance.
pub proof fn lemma_optimized_deterministic(t: Seq<int>, u: Seq<int>)
    requires
        t == u,
    ensures
        optimized(t) == optimized(u),
{
}

/// How far each of two labels on one target has moved from it after `k`
/// rounds: each round adds one overlap step and takes back the pull.
pub open spec fn pair_spread(k: nat) -> int
    decreases k,
{
    if k == 0 {
        0
    } else {
        let e = pair_spread((k - 1) as nat);
        e + OVERLAP_STEP - (LEARN_RATE_TENTHS * DIST_WEIGHT_TENTHS * e) / 100
    }
}

proof fn lemma_pair_spread_bound(k: nat)
    ensures
        0 <= pair_spread(k) <= OVERLAP_STEP * k,
        k > 0 ==> pair_spread(k) >= OVERLAP_STEP,
    decreases k,
{
    if k > 0 {
        lemma_pair_spread_bound((k - 1) as nat);
        let e = pair_spread((k - 1) as nat);
        assert(0 <= (3 * e) / 100 <= e);
    }
}

proof fn lemma_small_arc(x: int, e: int)
    requires
        0 <= e,
        2 * e < OVERLAP_THRESHOLD,
    ensures
        dist(x - e, x + e) == 2 * e,
        ahead(x - e, x + e),
        dist(x - e, x) == e,
        dist(x + e, x) == e,
        ahead(x - e, x),
        e > 0 ==> !ahead(x + e, x),
{
    let f = FULL_TURN as int;
    assert(abs((x - e) - (x + e)) == 2 * e);
    assert(abs((x - e) - x) == e);
    assert(abs((x + e) - x) == e);
    lemma_small_mod((2 * e) as nat, f as nat);
    lemma_small_mod(e as nat, f as nat);
    if e > 0 {
        lemma_mod_multiples_vanish(1, -e, f);
        lemma_small_mod((f - e) as nat, f as nat);
        assert(forward_arc(x + e, x) == f - e);
    }
}

proof fn lemma_pair_round(x: int, e: int)
    requires
        0 <= e <= OVERLAP_STEP * ITERATIONS,
    ensures
        step(seq![x - e, x + e], seq![x, x]) == seq![
            x - (e + OVERLAP_STEP - (LEARN_RATE_TENTHS * DIST_WEIGHT_TENTHS * e) / 100),
            x + (e + OVERLAP_STEP - (LEARN_RATE_TENTHS * DIST_WEIGHT_TENTHS * e) / 100),
        ],
{
    let c = seq![x - e, x + e];
    lemma_small_arc(x, e);
    let ps = index_pairs_below(2);
    assert(index_pairs_from(2, 2) =~= seq![]);
    assert(index_pairs_from(1, 2) =~= seq![]);
    assert(ps =~= seq![(0usize, 1usize)]);
    assert(ps.drop_last() =~= seq![]);
    assert(c[0] == x - e && c[1] == x + e);
    assert(pair_forces(c, ps.drop_last()) =~= seq![0int, 0int]);
    assert(ps.last() == (0usize, 1usize));
    assert(dist(c[0], c[1]) < OVERLAP_THRESHOLD);
    assert(pair_forces(c, ps) =~= seq![-OVERLAP_STEP as int, OVERLAP_STEP as int]);
    assert(step(c, seq![x, x]) =~= seq![
        x - (e + OVERLAP_STEP - (LEARN_RATE_TENTHS * DIST_WEIGHT_TENTHS * e) / 100),
        x + (e + OVERLAP_STEP - (LEARN_RATE_TENTHS * DIST_WEIGHT_TENTHS * e) / 100),
    ]);
}

proof fn lemma_pair_rounds(x: int, k: nat)
    requires
        k <= ITERATIONS,
    ensures
        after_rounds(seq![x, x], k) == seq![x - pair_spread(k), x + pair_spread(k)],
    decreases k,
{
    if k == 0 {
        assert(seq![x, x] =~= seq![x - 0, x + 0]);
    } else {
        lemma_pair_rounds(x, (k - 1) as nat);
        lemma_pair_spread_bound((k - 1) as nat);
        lemma_pair_round(x, pair_spread((k - 1) as nat));
    }
}

/// Two labels on the same target `x` split evenly: the lower index moves
/// back and the higher forward by the same amount, so their midpoint stays
/// at `x`, and they end strictly apart but still closer than the threshold.
pub proof fn lemma_coincident_pair(x: int)
    ensures
        optimized(seq![x, x]).len() == 2,
        optimized(seq![x, x])[0] + optimized(seq![x, x])[1] == 2 * x,
        optimized(seq![x, x])[0] < x < optimized(seq![x, x])[1],
        0 < dist(optimized(seq![x, x])[0], optimized(seq![x, x])[1]) < OVERLAP_THRESHOLD,
{
    lemma_pair_rounds(x, ITERATIONS as nat);
    lemma_pair_spread_bound(ITERATIONS as nat);
    lemma_small_arc(x, pair_spread(ITERATIONS as nat));
}

/// The forces that the pairs `pairs` of `c` exert in one round.
fn round_forces(c: &Vec<i64>, pairs: &Vec<(usize, usize)>) -> (f: Vec<i64>)
    requires
        c.len() <= MAX_POSITIONS,
        pairs.len() <= MAX_POSITIONS * MAX_POSITIONS,
        pairs_within(pairs@, c.len() as int),
    ensures
        f.len() == c.len(),
        ints(f@) == pair_forces(ints(c@), pairs@),
        forall|i: int| 0 <= i < f.len() ==> abs(#[trigger] f@[i] as int) <= OVERLAP_STEP * pairs.len(),
{
    let ghost s = ints(c@);
    let n = c.len();
    let mut f: Vec<i64> = Vec::new();
    let mut i: usize = 0;
    while i < n
        invariant
            n == c.len(),
            i <= n,
            f.len() == i,
            forall|k: int| 0 <= k < i ==> #[trigger] f@[k] == 0,
        decreases n - i,
    {
        f.push(0);
        i = i + 1;
    }
    assert(ints(f@) =~= pair_forces(s, pairs@.take(0)));
    let mut k: usize = 0;
    while k < pairs.len()
        invariant
            n == c.len() <= MAX_POSITIONS,
            pairs.len() <= MAX_POSITIONS * MAX_POSITIONS,
            pairs_within(pairs@, n as int),
            s == ints(c@),
            k <= pairs.len(),
            f.len() == n,
            ints(f@) == pair_forces(s, pairs@.take(k as int)),
            forall|m: int| 0 <= m < n ==> abs(#[trigger] f@[m] as int) <= OVERLAP_STEP * k,
        decreases pairs.len() - k,
    {
        let (a, b) = pairs[k];
        assert(pairs@[k as int] == (a, b));
        assert(pairs@.take(k + 1).drop_last() =~= pairs@.take(k as int));
        assert(pairs@.take(k + 1).last() == (a, b));
        let ghost before = f@;
        if distance(c[a], c[b]) < OVERLAP_THRESHOLD {
            let fa = f[a];
            let fb = f[b];
            if is_ahead(c[a], c[b]) {
                f.set(a, fa - OVERLAP_STEP);
                f.set(b, fb + OVERLAP_STEP);
            } else {
                f.set(a, fa + OVERLAP_STEP);
                f.set(b, fb - OVERLAP_STEP);
            }
        }
        assert(ints(f@) =~= pair_forces(s, pairs@.take(k + 1)));
        k = k + 1;
    }
    assert(pairs@.take(pairs.len() as int) =~= pairs@);
    f
}

/// The pull of candidate `c` toward target `t`.
fn pull_toward(c: i64, t: i64) -> (p: i64)
    ensures
        p == pull(c as int, t as int),
        abs(p as int) <= 1944000,
{
    let d = distance(c, t);
    let m: i64 = ((d as u64) * 3 / 100) as i64;
    assert(LEARN_RATE_TENTHS * DIST_WEIGHT_TENTHS * d == 3 * d);
    if is_ahead(c, t) {
        m
    } else {
        -m
    }
}

/// One round of the optimizer over candidates `c` with targets `t`, where
/// `pairs` are the index pairs of `c`.
fn one_round(c: &Vec<i64>, t: &Vec<i64>, pairs: &Vec<(usize, usize)>, Ghost(bound): Ghost<int>) -> (r:
    Vec<i64>)
    requires
        c.len() == t.len() <= MAX_POSITIONS,
        pairs@ == index_pairs_below(c.len() as int),
        0 <= bound <= MAX_INPUT_ANGLE + 29 * MAX_ROUND_MOVE,
        forall|i: int| 0 <= i < c.len() ==> abs(#[trigger] c@[i] as int) <= bound,
    ensures
        r.len() == c.len(),
        ints(r@) == step(ints(c@), ints(t@)),
        forall|i: int| 0 <= i < r.len() ==> abs(#[trigger] r@[i] as int) <= bound + MAX_ROUND_MOVE,
{
    let n = c.len();
    proof {
        lemma_index_pairs_bounds(0, n as int);
        lemma_index_pairs_len(0, n as int);
        let m = MAX_POSITIONS as int;
        assert(n * n <= m * m) by (nonlinear_arith)
            requires
                0 <= n <= m,
        ;
        assert(OVERLAP_STEP * pairs.len() <= OVERLAP_STEP * (m * m)) by (nonlinear_arith)
            requires
                pairs.len() <= m * m,
                OVERLAP_STEP > 0,
        ;
    }
    let f = round_forces(c, pairs);
    proof {
        lemma_pair_forces_len(ints(c@), pairs@);
    }
    let mut r: Vec<i64> = Vec::new();
    let mut i: usize = 0;
    while i < n
        invariant
            n == c.len() == t.len() == f.len() <= MAX_POSITIONS,
            pairs@ == index_pairs_below(n as int),
            ints(f@) == pair_forces(ints(c@), pairs@),
            forall|k: int| 0 <= k < n ==> abs(#[trigger] f@[k] as int) <= MAX_ROUND_MOVE - 1944000,
            0 <= bound <= MAX_INPUT_ANGLE + 29 * MAX_ROUND_MOVE,
            forall|k: int| 0 <= k < c.len() ==> abs(#[trigger] c@[k] as int) <= bound,
            i <= n,
            r.len() == i,
            forall|k: int| 0 <= k < i ==> #[trigger] r@[k] as int == step(ints(c@), ints(t@))[k],
            forall|k: int| 0 <= k < i ==> abs(#[trigger] r@[k] as int) <= bound + MAX_ROUND_MOVE,
        decreases n - i,
    {
        let p = pull_toward(c[i], t[i]);
        assert(abs(c@[i as int] as int) <= bound);
        assert(abs(f@[i as int] as int) <= MAX_ROUND_MOVE - 1944000);
        assert(ints(f@)[i as int] == f@[i as int] as int);
        r.push(c[i] + f[i] + p);
        i = i + 1;
    }
    assert(ints(r@) =~= step(ints(c@), ints(t@)));
    r
}

/// The display positions for `targets`: `ITERATIONS` rounds of pushes between
/// labels closer than `OVERLAP_THRESHOLD` and pulls toward each target, all
/// updates of a round read from the candidates at its start. The output has
/// one entry per input, in the same order, and is not reduced into one turn.
pub fn optimize(targets: &Vec<i64>) -> (r: Vec<i64>)
    requires
        valid_targets(targets@),
    ensures
        r.len() == targets.len(),
        ints(r@) == optimized(ints(targets@)),
{
    let ghost t = ints(targets@);
    let n = targets.len();
    let pairs = index_pairs(n);
    let mut candidate: Vec<i64> = Vec::new();
    let mut i: usize = 0;
    while i < n
        invariant
            n == targets.len(),
            i <= n,
            candidate.len() == i,
            forall|k: int| 0 <= k < i ==> #[trigger] candidate@[k] == targets@[k],
        decreases n - i,
    {
        candidate.push(targets[i]);
        i = i + 1;
    }
    assert(ints(candidate@) =~= t);
    let mut round: usize = 0;
    while round < ITERATIONS
        invariant
            valid_targets(targets@),
            t == ints(targets@),
            n == targets.len(),
            pairs@ == index_pairs_below(n as int),
            candidate.len() == n,
            round <= ITERATIONS,
            ints(candidate@) == after_rounds(t, round as nat),
            forall|k: int| 0 <= k < candidate.len() ==> abs(#[trigger] candidate@[k] as int)
                <= MAX_INPUT_ANGLE + round * MAX_ROUND_MOVE,
        decreases ITERATIONS - round,
    {
        proof {
            let m = MAX_ROUND_MOVE as int;
            assert(round * m <= 29 * m && round * m + m == (round + 1) * m) by (nonlinear_arith)
                requires
                    round < 30,
                    m > 0,
            ;
        }
        candidate = one_round(
            &candidate,
            targets,
            &pairs,
            Ghost(MAX_INPUT_ANGLE + round * MAX_ROUND_MOVE),
        );
        round = round + 1;
    }
    candidate
}

} // verus!
