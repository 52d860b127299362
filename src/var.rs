//! Monte Carlo value-at-risk over a portfolio snapshot.
//!
//! Returns and volatilities are integers in millionths (parts per million);
//! prices and values are integers in currency units. The random returns are
//! drawn outside and handed in, one row per trial and one column per position,
//! so that any sampler, a seeded one included, can drive the estimate.

use vstd::prelude::*;
use vstd::relations::sorted_by;
use vstd::seq_lib::lemma_sorted_unique;

verus! {

broadcast use vstd::seq_lib::group_to_multiset_ensures, vstd::multiset::group_multiset_axioms;

/// One currency unit in the simulated values; returns are in these units too.
pub const RETURN_SCALE: i128 = 1_000_000;

/// Confidence levels are given in basis points.
pub const CONFIDENCE_SCALE: u32 = 10_000;

/// The widest portfolio an estimate accepts.
pub const MAX_POSITIONS: usize = 10_000;

/// The largest magnitude of `quantity * current_price` an estimate accepts.
pub const MAX_POSITION_VALUE: i128 = 1_000_000_000_000_000_000;

/// Bound on one simulated term: `MAX_POSITION_VALUE` times the largest
/// price factor `RETURN_SCALE + i32::MAX + 1`.
const TERM_BOUND: i128 = 2_148_483_648_000_000_000_000_000_000;

/// Bound on the simulated value of a whole portfolio.
const SIMULATED_BOUND: i128 = 21_484_836_480_000_000_000_000_000_000_000;

/// Adding one bounded term to a sum of `i` bounded terms.
proof fn lemma_sum_step(i: int, acc: int, term: int, c: int)
    requires
        0 <= i,
        -i * c <= acc <= i * c,
        -c <= term <= c,
    ensures
        -(i + 1) * c <= acc + term <= (i + 1) * c,
{
    assert(-(i + 1) * c <= acc + term <= (i + 1) * c) by (nonlinear_arith)
        requires
            0 <= i,
            -i * c <= acc <= i * c,
            -c <= term <= c,
    ;
}

/// A sum of at most `MAX_POSITIONS` terms bounded by `c` is bounded by `MAX_POSITIONS * c`.
proof fn lemma_sum_bound(i: int, acc: int, c: int)
    requires
        0 <= i <= MAX_POSITIONS,
        0 <= c,
        -i * c <= acc <= i * c,
    ensures
        -10_000 * c <= acc <= 10_000 * c,
{
    assert(-10_000 * c <= acc <= 10_000 * c) by (nonlinear_arith)
        requires
            0 <= i <= 10_000,
            0 <= c,
            -i * c <= acc <= i * c,
    ;
}

/// The values of a sequence as mathematical integers.
pub open spec fn widen(s: Seq<i128>) -> Seq<int> {
    s.map_values(|x: i128| x as int)
}

/// Mapping two reorderings of one sequence gives two reorderings of one sequence.
proof fn lemma_map_multiset<A, B>(a: Seq<A>, b: Seq<A>, f: spec_fn(A) -> B)
    requires
        a.to_multiset() == b.to_multiset(),
    ensures
        a.map_values(f).to_multiset() == b.map_values(f).to_multiset(),
    decreases a.len(),
{
    if a.len() == 0 {
        assert(b.to_multiset().len() == 0);
        assert(a.map_values(f) =~= Seq::<B>::empty());
        assert(b.map_values(f) =~= Seq::<B>::empty());
    } else {
        let x = a.last();
        let a0 = a.drop_last();
        assert(a =~= a0.push(x));
        assert(a.to_multiset() =~= a0.to_multiset().insert(x));
        assert(b.to_multiset().count(x) > 0);
        assert(b.contains(x));
        let j = choose|j: int| 0 <= j < b.len() && b[j] == x;
        let b0 = b.remove(j);
        assert(b0.to_multiset() =~= b.to_multiset().remove(x));
        assert(b0.to_multiset() =~= a0.to_multiset());
        lemma_map_multiset(a0, b0, f);
        assert(a.map_values(f) =~= a0.map_values(f).push(f(x)));
        assert(b.map_values(f).remove(j) =~= b0.map_values(f));
        assert(b.map_values(f)[j] == f(x));
        assert(b0.map_values(f).to_multiset() =~= b.map_values(f).to_multiset().remove(f(x)));
        assert(b.map_values(f).to_multiset().count(f(x)) > 0);
        assert(a.map_values(f).to_multiset() =~= a0.map_values(f).to_multiset().insert(f(x)));
        assert(b.map_values(f).to_multiset() =~= b0.map_values(f).to_multiset().insert(f(x)));
    }
}

/// An ascending reordering of `v` is, widened, the sorted sequence of `v`'s values.
proof fn lemma_ascending_copy_is_sorted(v: Seq<i128>, w: Seq<i128>)
    requires
        w.to_multiset() == v.to_multiset(),
        forall|i: int, j: int| 0 <= i < j < w.len() ==> w[i] <= w[j],
    ensures
        widen(w) == widen(v).sort(),
{
    lemma_map_multiset(w, v, |x: i128| x as int);
    widen(v).lemma_sort_ensures();
    let leq = |x: int, y: int| x <= y;
    assert(sorted_by(widen(w), leq));
    lemma_sorted_unique(widen(w), widen(v).sort(), leq);
}

/// Relies on `slice::sort_unstable` from std: it leaves the same values in
/// ascending order.
#[verifier::external_body]
fn sort_ascending(v: &mut Vec<i128>)
    ensures
        final(v)@.to_multiset() == old(v)@.to_multiset(),
        forall|i: int, j: int| 0 <= i < j < final(v)@.len() ==> final(v)@[i] <= final(v)@[j],
{
    v.sort_unstable();
}

/// One holding of the portfolio snapshot.
#[derive(Debug, Clone)]
pub struct Position {
    pub symbol: String,
    /// Signed: negative for a short holding.
    pub quantity: i64,
    pub current_price: u64,
    /// Standard deviation of daily returns, in parts per million.
    pub volatility_ppm: u32,
}

/// What one estimate yields.
#[derive(Debug, Clone, Copy, PartialEq, Eq, Structural)]
pub struct VarEstimate {
    pub confidence_bps: u32,
    /// Loss at the confidence level, rounded down to a currency unit; a
    /// negative amount is a gain and is kept as it is.
    pub var_amount: i128,
    /// Signed net value of the portfolio before the simulated day.
    pub portfolio_value: i128,
}

/// Why no estimate was made.
#[derive(Debug, Clone, Copy, PartialEq, Eq, Structural)]
pub enum VarError {
    /// The confidence level is not strictly between 0 and 1.
    InvalidConfidence,
    /// No trial was given.
    NoTrials,
    /// More than `MAX_POSITIONS` positions.
    TooManyPositions,
    /// A position's value is beyond `MAX_POSITION_VALUE` in magnitude.
    PositionTooLarge,
    /// A trial does not hold exactly one return per position.
    SampleShape,
}

pub open spec fn position_value(p: Position) -> int {
    p.quantity as int * p.current_price as int
}

/// Net value of the first positions: the sum of quantity times price.
pub open spec fn portfolio_value(ps: Seq<Position>) -> int
    decreases ps.len(),
{
    if ps.len() == 0 {
        0
    } else {
        portfolio_value(ps.drop_last()) + position_value(ps.last())
    }
}

/// Value of the positions after each price moved by its return, in
/// millionths of a currency unit: `moves[i]` is the return of position `i`.
pub open spec fn simulated_value(ps: Seq<Position>, moves: Seq<i32>) -> int
    decreases ps.len(),
{
    if ps.len() == 0 {
        0
    } else {
        simulated_value(ps.drop_last(), moves) + position_value(ps.last()) * (RETURN_SCALE
            + moves[ps.len() - 1])
    }
}

/// Loss of one trial, in millionths of a currency unit: the value before
/// less the simulated value.
pub open spec fn trial_loss(ps: Seq<Position>, moves: Seq<i32>) -> int {
    portfolio_value(ps) * RETURN_SCALE - simulated_value(ps, moves)
}

pub open spec fn trial_losses(ps: Seq<Position>, trials: Seq<Seq<i32>>) -> Seq<int> {
    Seq::new(trials.len(), |t: int| trial_loss(ps, trials[t]))
}

/// Index of the loss at confidence `c` among `n` sorted losses:
/// `floor(n * c)`, clamped to the last index.
pub open spec fn percentile_index(n: nat, confidence_bps: u32) -> int {
    let i = n * confidence_bps / CONFIDENCE_SCALE as int;
    if i < n {
        i
    } else {
        n - 1
    }
}

/// The loss at the confidence level, in millionths of a currency unit.
pub open spec fn var_scaled(ps: Seq<Position>, trials: Seq<Seq<i32>>, confidence_bps: u32) -> int {
    trial_losses(ps, trials).sort()[percentile_index(trials.len(), confidence_bps)]
}

pub open spec fn value_in_range(p: Position) -> bool {
    -MAX_POSITION_VALUE <= position_value(p) <= MAX_POSITION_VALUE
}

pub open spec fn positions_in_range(ps: Seq<Position>) -> bool {
    forall|i: int| 0 <= i < ps.len() ==> value_in_range(#[trigger] ps[i])
}

pub open spec fn trials_match(trials: Seq<Seq<i32>>, n: nat) -> bool {
    forall|t: int| 0 <= t < trials.len() ==> (#[trigger] trials[t]).len() == n
}

/// The returns of each trial.
pub open spec fn rows(samples: Seq<Vec<i32>>) -> Seq<Seq<i32>> {
    samples.map_values(|r: Vec<i32>| r@)
}

/// Why the inputs admit no estimate, checked in this order.
pub open spec fn var_error(ps: Seq<Position>, trials: Seq<Seq<i32>>, confidence_bps: u32) -> Option<
    VarError,
> {
    if confidence_bps == 0 || confidence_bps >= CONFIDENCE_SCALE {
        Some(VarError::InvalidConfidence)
    } else if trials.len() == 0 {
        Some(VarError::NoTrials)
    } else if ps.len() > MAX_POSITIONS {
        Some(VarError::TooManyPositions)
    } else if !positions_in_range(ps) {
        Some(VarError::PositionTooLarge)
    } else if !trials_match(trials, ps.len()) {
        Some(VarError::SampleShape)
    } else {
        None
    }
}

/// The estimate for a snapshot, its trials and a confidence level.
pub open spec fn var_outcome(ps: Seq<Position>, trials: Seq<Seq<i32>>, confidence_bps: u32) -> Result<
    VarEstimate,
    VarError,
> {
    match var_error(ps, trials, confidence_bps) {
        Some(e) => Err(e),
        None => Ok(
            VarEstimate {
                confidence_bps,
                var_amount: (var_scaled(ps, trials, confidence_bps) / RETURN_SCALE as int) as i128,
                portfolio_value: portfolio_value(ps) as i128,
            },
        ),
    }
}

/// The value of a position fits an `i128`.
proof fn lemma_position_value_fits(p: Position)
    ensures
        -0x8000_0000_0000_0000 * 0xffff_ffff_ffff_ffff <= position_value(p)
            <= 0x8000_0000_0000_0000 * 0xffff_ffff_ffff_ffff,
{
    let q = p.quantity as int;
    let c = p.current_price as int;
    assert(-0x8000_0000_0000_0000 * 0xffff_ffff_ffff_ffff <= q * c
        <= 0x8000_0000_0000_0000 * 0xffff_ffff_ffff_ffff) by (nonlinear_arith)
        requires
            -0x8000_0000_0000_0000 <= q <= 0x7fff_ffff_ffff_ffff,
            0 <= c <= 0xffff_ffff_ffff_ffff,
    ;
}

/// A simulated term is bounded by the largest position value times the largest price factor.
proof fn lemma_term_bound(v: int, r: i32)
    requires
        -MAX_POSITION_VALUE <= v <= MAX_POSITION_VALUE,
    ensures
        -MAX_POSITION_VALUE * 2_148_483_648 <= v * (RETURN_SCALE + r)
            <= MAX_POSITION_VALUE * 2_148_483_648,
{
    let f = RETURN_SCALE + r;
    let m = MAX_POSITION_VALUE as int;
    assert(-m * 2_148_483_648 <= v * f <= m * 2_148_483_648) by (nonlinear_arith)
        requires
            -m <= v <= m,
            -2_148_483_648 <= f <= 2_148_483_648,
            m >= 0,
    ;
}

/// Simulated value of one trial, from the precomputed position values.
fn simulate_trial(positions: &Vec<Position>, values: &Vec<i128>, row: &Vec<i32>) -> (r: i128)
    requires
        values@.len() == positions@.len(),
        row@.len() == positions@.len(),
        positions@.len() <= MAX_POSITIONS,
        forall|k: int|
            0 <= k < values@.len() ==> values@[k] == position_value(#[trigger] positions@[k]),
        positions_in_range(positions@),
    ensures
        r == simulated_value(positions@, row@),
        -SIMULATED_BOUND <= r <= SIMULATED_BOUND,
{
    let n = values.len();
    let mut acc: i128 = 0;
    let mut i: usize = 0;
    while i < n
        invariant
            n == values@.len(),
            values@.len() == positions@.len(),
            row@.len() == positions@.len(),
            n <= MAX_POSITIONS,
            forall|k: int|
                0 <= k < values@.len() ==> values@[k] == position_value(#[trigger] positions@[k]),
            positions_in_range(positions@),
            i <= n,
            acc == simulated_value(positions@.subrange(0, i as int), row@),
            -(i as int) * TERM_BOUND <= acc <= (i as int) * TERM_BOUND,
        decreases n - i,
    {
        let ghost prefix = positions@.subrange(0, i as int + 1);
        assert(prefix.drop_last() =~= positions@.subrange(0, i as int));
        assert(prefix.last() == positions@[i as int]);
        assert(value_in_range(positions@[i as int]));
        proof {
            lemma_term_bound(values@[i as int] as int, row@[i as int]);
        }
        let term: i128 = values[i] * (RETURN_SCALE + row[i] as i128);
        proof {
            lemma_sum_step(i as int, acc as int, term as int, TERM_BOUND as int);
            lemma_sum_bound(i as int + 1, acc + term, TERM_BOUND as int);
        }
        acc = acc + term;
        i = i + 1;
    }
    assert(positions@.subrange(0, n as int) =~= positions@);
    proof {
        lemma_sum_bound(n as int, acc as int, TERM_BOUND as int);
    }
    acc
}

/// Estimates the value at risk of `positions` at `confidence_bps` (basis
/// points) from the trials in `samples`: `samples[t][i]` is the return of
/// position `i` in trial `t`, in parts per million. The estimate is the
/// trial loss at sorted index `floor(N * confidence)`, clamped to `N - 1`.
pub fn compute_var(positions: &Vec<Position>, samples: &Vec<Vec<i32>>, confidence_bps: u32) -> (r:
    Result<VarEstimate, VarError>)
    ensures
        r == var_outcome(positions@, rows(samples@), confidence_bps),
{
    let ghost ps = positions@;
    let ghost trials = rows(samples@);
    if confidence_bps == 0 || confidence_bps >= CONFIDENCE_SCALE {
        return Err(VarError::InvalidConfidence);
    }
    let count = samples.len();
    if count == 0 {
        return Err(VarError::NoTrials);
    }
    let n = positions.len();
    if n > MAX_POSITIONS {
        return Err(VarError::TooManyPositions);
    }
    let mut values: Vec<i128> = Vec::new();
    let mut initial: i128 = 0;
    let mut i: usize = 0;
    while i < n
        invariant
            0 < confidence_bps < CONFIDENCE_SCALE,
            count == samples@.len(),
            count > 0,
            ps == positions@,
            n == ps.len(),
            n <= MAX_POSITIONS,
            i <= n,
            values@.len() == i,
            forall|k: int| 0 <= k < i ==> values@[k] == position_value(#[trigger] ps[k]),
            forall|k: int| 0 <= k < i ==> value_in_range(#[trigger] ps[k]),
            initial == portfolio_value(ps.subrange(0, i as int)),
            -(i as int) * MAX_POSITION_VALUE <= initial <= (i as int) * MAX_POSITION_VALUE,
        decreases n - i,
    {
        let ghost prefix = ps.subrange(0, i as int + 1);
        assert(prefix.drop_last() =~= ps.subrange(0, i as int));
        assert(prefix.last() == ps[i as int]);
        proof {
            lemma_position_value_fits(ps[i as int]);
        }
        let value: i128 = positions[i].quantity as i128 * positions[i].current_price as i128;
        if value > MAX_POSITION_VALUE || value < -MAX_POSITION_VALUE {
            assert(!value_in_range(ps[i as int]));
            return Err(VarError::PositionTooLarge);
        }
        proof {
            lemma_sum_step(i as int, initial as int, value as int, MAX_POSITION_VALUE as int);
            lemma_sum_bound(i as int + 1, initial + value, MAX_POSITION_VALUE as int);
        }
        values.push(value);
        initial = initial + value;
        i = i + 1;
    }
    assert(ps.subrange(0, n as int) =~= ps);
    assert(positions_in_range(ps));
    let mut t: usize = 0;
    while t < count
        invariant
            0 < confidence_bps < CONFIDENCE_SCALE,
            count == samples@.len(),
            count > 0,
            trials == rows(samples@),
            ps == positions@,
            n == ps.len(),
            n <= MAX_POSITIONS,
            positions_in_range(ps),
            t <= count,
            forall|k: int| 0 <= k < t ==> (#[trigger] trials[k]).len() == n,
        decreases count - t,
    {
        if samples[t].len() != n {
            assert(!trials_match(trials, n as nat)) by {
                assert(trials[t as int].len() != n);
            }
            return Err(VarError::SampleShape);
        }
        t = t + 1;
    }
    assert(trials_match(trials, n as nat));
    let mut losses: Vec<i128> = Vec::new();
    let mut t: usize = 0;
    while t < count
        invariant
            ps == positions@,
            count == samples@.len(),
            trials == rows(samples@),
            n == ps.len(),
            n <= MAX_POSITIONS,
            values@.len() == n,
            forall|k: int| 0 <= k < n ==> values@[k] == position_value(#[trigger] ps[k]),
            positions_in_range(ps),
            trials_match(trials, n as nat),
            initial == portfolio_value(ps),
            -(n as int) * MAX_POSITION_VALUE <= initial <= (n as int) * MAX_POSITION_VALUE,
            t <= count,
            losses@.len() == t,
            forall|k: int| 0 <= k < t ==> losses@[k] == trial_loss(ps, #[trigger] trials[k]),
        decreases count - t,
    {
        assert(trials[t as int] == samples@[t as int]@);
        let simulated = simulate_trial(positions, &values, &samples[t]);
        proof {
            assert(simulated_value(ps, trials[t as int]) == simulated);
        }
        proof {
            lemma_sum_bound(n as int, initial as int, MAX_POSITION_VALUE as int);
        }
        let loss: i128 = initial * RETURN_SCALE - simulated;
        losses.push(loss);
        t = t + 1;
    }
    let ghost unsorted = losses@;
    assert(widen(unsorted) =~= trial_losses(ps, trials));
    sort_ascending(&mut losses);
    proof {
        lemma_ascending_copy_is_sorted(unsorted, losses@);
    }
    assert(losses@.len() == count) by {
        assert(losses@.to_multiset().len() == unsorted.to_multiset().len());
    }
    assert(count as int * confidence_bps as int <= 0xffff_ffff_ffff_ffff * 0xffff_ffff) by (nonlinear_arith)
        requires
            count <= 0xffff_ffff_ffff_ffff,
            confidence_bps <= 0xffff_ffff,
    ;
    let scaled_index: u128 = count as u128 * confidence_bps as u128 / CONFIDENCE_SCALE as u128;
    let index: usize = if scaled_index < count as u128 {
        scaled_index as usize
    } else {
        count - 1
    };
    assert(index == percentile_index(count as nat, confidence_bps));
    let at_index: i128 = losses[index];
    assert(at_index == var_scaled(ps, trials, confidence_bps));
    // Rounds toward negative infinity; the division by a positive constant cannot fail.
    let var_amount: i128 = match at_index.checked_div_euclid(RETURN_SCALE) {
        Some(q) => q,
        None => 0,
    };
    Ok(VarEstimate { confidence_bps, var_amount, portfolio_value: initial })
}

/// A published estimate: the latest one replaces any earlier one.
#[derive(Debug, Clone)]
pub struct VaRResult {
    pub confidence_bps: u32,
    pub var_amount: i128,
    pub portfolio_value: i128,
    pub timestamp_utc: String,
}

/// The result carries the figures of the estimate.
pub open spec fn carries(v: VaRResult, e: VarEstimate) -> bool {
    &&& v.confidence_bps == e.confidence_bps
    &&& v.var_amount == e.var_amount
    &&& v.portfolio_value == e.portfolio_value
}

/// Holds the latest published result, or nothing before the first estimate.
pub struct VarSlot {
    latest: Option<VaRResult>,
}

impl View for VarSlot {
    type V = Option<VaRResult>;

    closed spec fn view(&self) -> Option<VaRResult> {
        self.latest
    }
}

impl VarSlot {
    /// A slot with nothing published yet.
    pub fn new() -> (s: VarSlot)
        ensures
            s@ is None,
    {
        VarSlot { latest: None }
    }

    /// Replaces whatever was published before.
    pub fn publish(&mut self, result: VaRResult)
        ensures
            final(self)@ == Some(result),
    {
        self.latest = Some(result);
    }

    /// The latest result; `None` means that no estimate was made yet.
    pub fn latest(&self) -> (r: Option<&VaRResult>)
        ensures
            r == match self@ {
                Some(v) => Some(&v),
                None => None::<&VaRResult>,
            },
    {
        match &self.latest {
            Some(v) => Some(v),
            None => None,
        }
    }
}

/// One estimation cycle: estimates, stamps the result with `timestamp_utc`
/// (the time the cycle ran, read by the caller) and publishes it. When no
/// estimate can be made the cycle has no effect.
pub fn run_var_cycle(
    slot: &mut VarSlot,
    positions: &Vec<Position>,
    samples: &Vec<Vec<i32>>,
    confidence_bps: u32,
    timestamp_utc: String,
) -> (r: Result<VarEstimate, VarError>)
    ensures
        r == var_outcome(positions@, rows(samples@), confidence_bps),
        match r {
            Ok(e) => final(slot)@ matches Some(v) && carries(v, e) && v.timestamp_utc
                == timestamp_utc,
            Err(_) => final(slot)@ == old(slot)@,
        },
{
    let estimate = compute_var(positions, samples, confidence_bps);
    match estimate {
        Ok(e) => {
            let stamped = VaRResult {
                confidence_bps: e.confidence_bps,
                var_amount: e.var_amount,
                portfolio_value: e.portfolio_value,
                timestamp_utc,
            };
            slot.publish(stamped);
            Ok(e)
        },
        Err(err) => Err(err),
    }
}

/// The demonstration portfolio: 10 BTC at 60000 with 2% daily volatility and
/// 50 ETH at 3000 with 3% daily volatility.
pub fn load_initial_portfolio() -> (ps: Vec<Position>)
    ensures
        ps@.len() == 2,
        ps@[0].symbol@ == "BTC"@,
        ps@[0].quantity == 10,
        ps@[0].current_price == 60_000,
        ps@[0].volatility_ppm == 20_000,
        ps@[1].symbol@ == "ETH"@,
        ps@[1].quantity == 50,
        ps@[1].current_price == 3_000,
        ps@[1].volatility_ppm == 30_000,
{
    let mut ps: Vec<Position> = Vec::new();
    ps.push(
        Position {
            symbol: "BTC".to_owned(),
            quantity: 10,
            current_price: 60_000,
            volatility_ppm: 20_000,
        },
    );
    ps.push(
        Position {
            symbol: "ETH".to_owned(),
            quantity: 50,
            current_price: 3_000,
            volatility_ppm: 30_000,
        },
    );
    ps
}

/// The estimate depends on the trials as a collection and on nothing else
/// but the snapshot and the confidence level: a sampler that replays the same
/// trials, in the same order or in any other, reproduces the same estimate.
pub proof fn lemma_estimate_is_reproducible(
    ps: Seq<Position>,
    first: Seq<Seq<i32>>,
    second: Seq<Seq<i32>>,
    confidence_bps: u32,
)
    requires
        first.to_multiset() == second.to_multiset(),
    ensures
        var_outcome(ps, first, confidence_bps) == var_outcome(ps, second, confidence_bps),
{
    let f = |r: Seq<i32>| trial_loss(ps, r);
    first.to_multiset_ensures();
    second.to_multiset_ensures();
    assert(trials_match(first, ps.len()) == trials_match(second, ps.len())) by {
        if trials_match(first, ps.len()) {
            assert forall|t: int| 0 <= t < second.len() implies (#[trigger] second[t]).len()
                == ps.len() by {
                assert(second.contains(second[t]));
                assert(first.to_multiset().count(second[t]) > 0);
                assert(first.contains(second[t]));
            }
        }
        if trials_match(second, ps.len()) {
            assert forall|t: int| 0 <= t < first.len() implies (#[trigger] first[t]).len()
                == ps.len() by {
                assert(first.contains(first[t]));
                assert(second.to_multiset().count(first[t]) > 0);
                assert(second.contains(first[t]));
            }
        }
    }
    assert(trial_losses(ps, first) =~= first.map_values(f));
    assert(trial_losses(ps, second) =~= second.map_values(f));
    lemma_map_multiset(first, second, f);
    let l1 = trial_losses(ps, first);
    let l2 = trial_losses(ps, second);
    l1.lemma_sort_ensures();
    l2.lemma_sort_ensures();
    lemma_sorted_unique(l1.sort(), l2.sort(), |x: int, y: int| x <= y);
}

} // verus!
