//! Tempo engine: holds the authoritative tempo state (BPM, confidence,
//! downbeat reference, tap history) and applies the estimation strategies.
//!
//! BPM is held in milli-BPM (thousandths of a beat per minute) and
//! confidence in milli-units (thousandths of full confidence), so the
//! clamping and statistics below are exact integer arithmetic.

use vstd::prelude::*;

verus! {

/// Lowest admissible tempo, in milli-BPM (20 BPM).
pub const BPM_MIN_MILLI: u64 = 20_000;
/// Highest admissible tempo, in milli-BPM (300 BPM).
pub const BPM_MAX_MILLI: u64 = 300_000;
/// Full confidence, in milli-units.
pub const CONFIDENCE_FULL_MILLI: u64 = 1_000;

/// How the current tempo value was obtained.
#[derive(Debug, Clone, Copy, PartialEq, Eq, Structural)]
pub enum TempoSource {
    Manual,
    Tap,
    Link,
    MidiClock,
    Auto,
}

/// Snapshot of the tempo engine's authoritative state.
#[derive(Debug, Clone, Copy, PartialEq, Eq, Structural)]
pub struct TempoState {
    /// Current tempo in milli-BPM, always in [`BPM_MIN_MILLI`, `BPM_MAX_MILLI`].
    pub bpm_milli: u64,
    /// Confidence in the current tempo, in [0, `CONFIDENCE_FULL_MILLI`].
    pub confidence_milli: u64,
    /// Absolute wall-clock milliseconds marking the grid origin.
    pub downbeat_epoch_ms: u64,
    /// Strategy that produced the current tempo.
    pub source: TempoSource,
    /// Number of taps currently held in the tap history.
    pub tap_count: usize,
}

/// Clamps a milli-BPM value into the admissible band.
pub open spec fn clamp_bpm_spec(bpm_milli: int) -> u64 {
    if bpm_milli < BPM_MIN_MILLI as int {
        BPM_MIN_MILLI
    } else if bpm_milli > BPM_MAX_MILLI as int {
        BPM_MAX_MILLI
    } else {
        bpm_milli as u64
    }
}

/// A tempo state is well formed when its clamped quantities sit in their bands.
pub open spec fn state_wf(s: TempoState) -> bool {
    &&& BPM_MIN_MILLI <= s.bpm_milli <= BPM_MAX_MILLI
    &&& s.confidence_milli <= CONFIDENCE_FULL_MILLI
}

/// Ghost image of the tempo engine: the public snapshot plus the tap history.
pub struct TempoEngineView {
    pub state: TempoState,
    pub taps: Seq<u64>,
}

/// Tempo engine: owns the tempo state and the bounded tap history.
#[derive(Debug)]
pub struct TempoEngine {
    state: TempoState,
    taps: Vec<u64>,
}

impl View for TempoEngine {
    type V = TempoEngineView;

    closed spec fn view(&self) -> TempoEngineView {
        TempoEngineView { state: self.state, taps: self.taps@ }
    }
}

/// Exact clamp of a milli-BPM value into [20, 300] BPM.
pub fn clamp_bpm(bpm_milli: u64) -> (r: u64)
    ensures
        r == clamp_bpm_spec(bpm_milli as int),
{
    if bpm_milli < BPM_MIN_MILLI {
        BPM_MIN_MILLI
    } else if bpm_milli > BPM_MAX_MILLI {
        BPM_MAX_MILLI
    } else {
        bpm_milli
    }
}

impl TempoEngine {
    #[verifier::type_invariant]
    spec fn wf(&self) -> bool {
        &&& state_wf(self@.state)
        &&& self@.taps.len() <= TAP_HISTORY_CAP
    }

    /// Engine whose downbeat origin is the given wall-clock instant:
    /// 120 BPM, full confidence, manual source, empty tap history.
    pub fn new_at(now_ms: u64) -> (r: TempoEngine)
        ensures
            r@.state == (TempoState {
                bpm_milli: 120_000u64,
                confidence_milli: CONFIDENCE_FULL_MILLI,
                downbeat_epoch_ms: now_ms,
                source: TempoSource::Manual,
                tap_count: 0usize,
            }),
            r@.taps == Seq::<u64>::empty(),
    {
        TempoEngine {
            state: TempoState {
                bpm_milli: 120_000,
                confidence_milli: CONFIDENCE_FULL_MILLI,
                downbeat_epoch_ms: now_ms,
                source: TempoSource::Manual,
                tap_count: 0,
            },
            taps: Vec::new(),
        }
    }

    /// Read-only snapshot of the current tempo state; no side effects.
    pub fn state(&self) -> (r: TempoState)
        ensures
            r == self@.state,
    {
        self.state
    }

    /// Sets the tempo by hand: clamps into [20, 300] BPM, resets confidence
    /// to full, marks the source manual, and clears the tap history.
    pub fn set_bpm(&mut self, bpm_milli: u64) -> (r: TempoState)
        ensures
            final(self)@.state == (TempoState {
                bpm_milli: clamp_bpm_spec(bpm_milli as int),
                confidence_milli: CONFIDENCE_FULL_MILLI,
                downbeat_epoch_ms: old(self)@.state.downbeat_epoch_ms,
                source: TempoSource::Manual,
                tap_count: 0usize,
            }),
            final(self)@.taps == Seq::<u64>::empty(),
            r == final(self)@.state,
            BPM_MIN_MILLI <= r.bpm_milli <= BPM_MAX_MILLI,
    {
        proof {
            use_type_invariant(&*self);
        }
        self.state = TempoState {
            bpm_milli: clamp_bpm(bpm_milli),
            confidence_milli: CONFIDENCE_FULL_MILLI,
            downbeat_epoch_ms: self.state.downbeat_epoch_ms,
            source: TempoSource::Manual,
            tap_count: 0,
        };
        self.taps = Vec::new();
        self.state
    }

    /// Offsets the tempo by a signed milli-BPM delta and clamps; confidence
    /// is left unchanged and the source becomes manual.
    pub fn nudge_bpm(&mut self, delta_milli: i64) -> (r: TempoState)
        ensures
            final(self)@.state == (TempoState {
                bpm_milli: clamp_bpm_spec(old(self)@.state.bpm_milli + delta_milli),
                source: TempoSource::Manual,
                ..old(self)@.state
            }),
            final(self)@.taps == old(self)@.taps,
            r == final(self)@.state,
            BPM_MIN_MILLI <= r.bpm_milli <= BPM_MAX_MILLI,
    {
        proof {
            use_type_invariant(&*self);
        }
        let bpm = self.state.bpm_milli;
        let new_bpm: u64 = if delta_milli >= 0 {
            let d = delta_milli as u64;
            if d >= BPM_MAX_MILLI - bpm {
                BPM_MAX_MILLI
            } else {
                bpm + d
            }
        } else if delta_milli + (BPM_MAX_MILLI as i64) <= 0 {
            BPM_MIN_MILLI
        } else {
            let d = (0 - delta_milli) as u64;
            if d >= bpm - BPM_MIN_MILLI {
                BPM_MIN_MILLI
            } else {
                bpm - d
            }
        };
        self.state.bpm_milli = new_bpm;
        self.state.source = TempoSource::Manual;
        self.state
    }

    /// Re-anchors the downbeat grid origin to the given wall-clock instant;
    /// tempo, confidence and source are untouched.
    pub fn resync_downbeat_at(&mut self, timestamp_ms: u64) -> (r: TempoState)
        ensures
            final(self)@.state == (TempoState {
                downbeat_epoch_ms: timestamp_ms,
                ..old(self)@.state
            }),
            final(self)@.taps == old(self)@.taps,
            r == final(self)@.state,
    {
        proof {
            use_type_invariant(&*self);
        }
        self.state.downbeat_epoch_ms = timestamp_ms;
        self.state
    }
}

/// Capacity of the tap history: only this many most-recent taps are kept.
pub const TAP_HISTORY_CAP: usize = 8;

/// Shortest tap interval accepted as a plausible beat, in milliseconds.
pub const TAP_INTERVAL_MIN_MS: u64 = 80;
/// Longest tap interval accepted as a plausible beat, in milliseconds.
pub const TAP_INTERVAL_MAX_MS: u64 = 3_000;

/// A sequence is sorted in non-decreasing order.
pub open spec fn sorted_u64(s: Seq<u64>) -> bool {
    forall|i: int, j: int| 0 <= i < j < s.len() ==> s[i] <= s[j]
}

/// Inserts `v` into `s` behind every element that is at most `v`.
pub open spec fn insert_sorted_u64(v: u64, s: Seq<u64>) -> Seq<u64>
    decreases s.len(),
{
    if s.len() == 0 {
        seq![v]
    } else if s[0] <= v {
        seq![s[0]] + insert_sorted_u64(v, s.drop_first())
    } else {
        seq![v] + s
    }
}

/// Insertion sort of a sequence, the mathematical image of [`sort_vec_u64`].
pub open spec fn sort_u64(s: Seq<u64>) -> Seq<u64>
    decreases s.len(),
{
    if s.len() == 0 {
        Seq::<u64>::empty()
    } else {
        insert_sorted_u64(s.last(), sort_u64(s.drop_last()))
    }
}

/// Order-statistic median: middle element of the sorted values for an odd
/// count, the mean of the two middle elements for an even count.
pub open spec fn median_spec(s: Seq<u64>) -> u64
    recommends
        s.len() > 0,
{
    let ss = sort_u64(s);
    let mid = s.len() as int / 2;
    if s.len() % 2 == 0 {
        ((ss[mid - 1] + ss[mid]) / 2) as u64
    } else {
        ss[mid]
    }
}

proof fn lemma_insert_sorted_at(v: u64, s: Seq<u64>, j: int)
    requires
        0 <= j <= s.len(),
        forall|k: int| 0 <= k < j ==> s[k] <= v,
        j < s.len() ==> s[j] > v,
    ensures
        insert_sorted_u64(v, s) == s.insert(j, v),
    decreases j,
{
    if j == 0 {
        if s.len() == 0 {
            assert(insert_sorted_u64(v, s) =~= s.insert(0, v));
        } else {
            assert(s[0] > v);
            assert(insert_sorted_u64(v, s) =~= s.insert(0, v));
        }
    } else {
        assert(s[0] <= v);
        lemma_insert_sorted_at(v, s.drop_first(), j - 1);
        assert(seq![s[0]] + s.drop_first().insert(j - 1, v) =~= s.insert(j, v));
    }
}

proof fn lemma_insert_sorted_len(v: u64, s: Seq<u64>)
    ensures
        insert_sorted_u64(v, s).len() == s.len() + 1,
    decreases s.len(),
{
    if s.len() > 0 && s[0] <= v {
        lemma_insert_sorted_len(v, s.drop_first());
    }
}

proof fn lemma_insert_sorted_stays_sorted(v: u64, s: Seq<u64>)
    requires
        sorted_u64(s),
    ensures
        sorted_u64(insert_sorted_u64(v, s)),
    decreases s.len(),
{
    lemma_insert_sorted_len(v, s);
    if s.len() == 0 {
    } else if s[0] <= v {
        lemma_insert_sorted_stays_sorted(v, s.drop_first());
        lemma_insert_sorted_len(v, s.drop_first());
        let r = seq![s[0]] + insert_sorted_u64(v, s.drop_first());
        assert forall|i: int, j: int| 0 <= i < j < r.len() implies r[i] <= r[j] by {
            if i == 0 {
                lemma_insert_sorted_first_bound(v, s.drop_first(), s[0]);
            }
        }
    }
}

/// Every element of `insert_sorted_u64(v, s)` is at least `lo` when `v` and
/// all of `s` are.
proof fn lemma_insert_sorted_first_bound(v: u64, s: Seq<u64>, lo: u64)
    requires
        lo <= v,
        forall|k: int| 0 <= k < s.len() ==> lo <= s[k],
    ensures
        forall|k: int| 0 <= k < insert_sorted_u64(v, s).len()
            ==> lo <= #[trigger] insert_sorted_u64(v, s)[k],
    decreases s.len(),
{
    if s.len() > 0 && s[0] <= v {
        lemma_insert_sorted_first_bound(v, s.drop_first(), lo);
        let rec = insert_sorted_u64(v, s.drop_first());
        let r = seq![s[0]] + rec;
        assert forall|k: int| 0 <= k < r.len() implies lo <= r[k] by {
            if k > 0 {
                assert(r[k] == rec[k - 1]);
            }
        }
    }
}

proof fn lemma_insert_sorted_range(v: u64, s: Seq<u64>, lo: u64, hi: u64)
    requires
        lo <= v <= hi,
        forall|k: int| 0 <= k < s.len() ==> lo <= #[trigger] s[k] <= hi,
    ensures
        forall|k: int| 0 <= k < insert_sorted_u64(v, s).len()
            ==> lo <= #[trigger] insert_sorted_u64(v, s)[k] <= hi,
    decreases s.len(),
{
    if s.len() > 0 && s[0] <= v {
        lemma_insert_sorted_range(v, s.drop_first(), lo, hi);
        let rec = insert_sorted_u64(v, s.drop_first());
        let r = seq![s[0]] + rec;
        assert forall|k: int| 0 <= k < r.len() implies lo <= #[trigger] r[k] <= hi by {
            if k > 0 {
                assert(r[k] == rec[k - 1]);
            }
        }
    }
}

/// Sorting keeps the length and yields a non-decreasing sequence.
pub proof fn lemma_sort_u64_ensures(s: Seq<u64>)
    ensures
        sort_u64(s).len() == s.len(),
        sorted_u64(sort_u64(s)),
    decreases s.len(),
{
    if s.len() > 0 {
        lemma_sort_u64_ensures(s.drop_last());
        lemma_insert_sorted_len(s.last(), sort_u64(s.drop_last()));
        lemma_insert_sorted_stays_sorted(s.last(), sort_u64(s.drop_last()));
    }
}

proof fn lemma_sort_u64_range(s: Seq<u64>, lo: u64, hi: u64)
    requires
        forall|k: int| 0 <= k < s.len() ==> lo <= #[trigger] s[k] <= hi,
    ensures
        forall|k: int| 0 <= k < sort_u64(s).len() ==> lo <= #[trigger] sort_u64(s)[k] <= hi,
    decreases s.len(),
{
    if s.len() > 0 {
        lemma_sort_u64_range(s.drop_last(), lo, hi);
        lemma_insert_sorted_range(s.last(), sort_u64(s.drop_last()), lo, hi);
    }
}

/// The median of values inside a band stays inside the band.
pub proof fn lemma_median_in_range(s: Seq<u64>, lo: u64, hi: u64)
    requires
        s.len() > 0,
        forall|k: int| 0 <= k < s.len() ==> lo <= #[trigger] s[k] <= hi,
    ensures
        lo <= median_spec(s) <= hi,
{
    lemma_sort_u64_ensures(s);
    lemma_sort_u64_range(s, lo, hi);
}

/// Sorts a copy of the values in non-decreasing order by insertion.
pub fn sort_vec_u64(values: &Vec<u64>) -> (r: Vec<u64>)
    ensures
        r@ == sort_u64(values@),
{
    let mut r: Vec<u64> = Vec::new();
    let mut i: usize = 0;
    proof {
        assert(values@.take(0) =~= Seq::<u64>::empty());
    }
    while i < values.len()
        invariant
            i <= values@.len(),
            r@ == sort_u64(values@.take(i as int)),
        decreases values@.len() - i,
    {
        proof {
            lemma_sort_u64_ensures(values@.take(i as int));
        }
        let v = values[i];
        let mut j: usize = 0;
        while j < r.len() && r[j] <= v
            invariant
                j <= r@.len(),
                forall|k: int| 0 <= k < j ==> r@[k] <= v,
            decreases r@.len() - j,
        {
            j += 1;
        }
        r.insert(j, v);
        proof {
            let prev = values@.take(i as int);
            lemma_insert_sorted_at(v, sort_u64(prev), j as int);
            assert(values@.take(i + 1).drop_last() =~= prev);
            assert(values@.take(i + 1).last() == v);
            assert(sort_u64(prev).insert(j as int, v) =~= r@);
        }
        i += 1;
    }
    proof {
        assert(values@.take(values@.len() as int) =~= values@);
    }
    r
}

/// Sum of a sequence of millisecond values.
pub open spec fn sum_u64(s: Seq<u64>) -> int
    decreases s.len(),
{
    if s.len() == 0 {
        0
    } else {
        sum_u64(s.drop_last()) + s.last()
    }
}

/// Sum of squared deviations of the values (scaled to milli-milliseconds)
/// from a mean given in milli-milliseconds.
pub open spec fn sq_dev_sum_milli(s: Seq<u64>, mean_milli: int) -> int
    decreases s.len(),
{
    if s.len() == 0 {
        0
    } else {
        sq_dev_sum_milli(s.drop_last(), mean_milli) + (s.last() * 1000 - mean_milli) * (
        s.last() * 1000 - mean_milli)
    }
}

/// Integer square root, rounded down.
pub open spec fn sqrt_floor(n: int) -> int
    recommends
        n >= 0,
{
    choose|r: int| 0 <= r && #[trigger] (r * r) <= n < (r + 1) * (r + 1)
}

/// The defining property pins the integer square root down.
pub proof fn lemma_sqrt_floor_unique(n: int, r: int)
    requires
        0 <= r,
        r * r <= n < (r + 1) * (r + 1),
    ensures
        sqrt_floor(n) == r,
{
    assert(exists|c: int| 0 <= c && #[trigger] (c * c) <= n < (c + 1) * (c + 1)) by {
        assert(0 <= r && r * r <= n < (r + 1) * (r + 1));
    }
    let c = choose|c: int| 0 <= c && #[trigger] (c * c) <= n < (c + 1) * (c + 1);
    assert(c == r) by {
        if c < r {
            assert((c + 1) * (c + 1) <= r * r) by (nonlinear_arith)
                requires
                    0 <= c,
                    c < r,
            ;
        }
        if c > r {
            assert((r + 1) * (r + 1) <= c * c) by (nonlinear_arith)
                requires
                    0 <= r,
                    r < c,
            ;
        }
    }
}

/// Clamp of an integer into a closed band.
pub open spec fn clamp_int(x: int, lo: int, hi: int) -> int {
    if x < lo {
        lo
    } else if x > hi {
        hi
    } else {
        x
    }
}

/// Weight given to the size of the tap sample: count over six, clamped to
/// [0.4, 1.0], in milli-units.
pub open spec fn sample_weight_milli(n: int) -> int {
    clamp_int(n * 1000 / 6, 400, 1000)
}

/// Temporal regularity of the intervals in milli-units: one minus the
/// coefficient of variation (standard deviation over mean), floored at zero.
pub open spec fn consistency_milli(s: Seq<u64>) -> int
    recommends
        s.len() >= 2,
        sum_u64(s) * 1000 / s.len() as int > 0,
{
    let n = s.len() as int;
    let mean = sum_u64(s) * 1000 / n;
    let var = sq_dev_sum_milli(s, mean) / n;
    let cv = sqrt_floor(var) * 1000 / mean;
    if cv >= 1000 {
        0
    } else {
        1000 - cv
    }
}

/// Confidence assigned to a tap estimate, in milli-units: 0.35 for a single
/// interval; otherwise regularity times sample weight, clamped to [0.2, 0.99]
/// (0.2 outright when the mean rounds to zero).
pub open spec fn tap_confidence_spec(s: Seq<u64>) -> u64
    recommends
        s.len() >= 1,
{
    if s.len() == 1 {
        350
    } else {
        let n = s.len() as int;
        let mean = sum_u64(s) * 1000 / n;
        if mean == 0 {
            200
        } else {
            clamp_int(consistency_milli(s) * sample_weight_milli(n) / 1000, 200, 990) as u64
        }
    }
}

/// Binary-search integer square root.
fn isqrt_u64(n: u64) -> (r: u64)
    requires
        n <= 5_000_000_000_000_000,
    ensures
        (r as int) * (r as int) <= n as int,
        (n as int) < (r as int + 1) * (r as int + 1),
{
    let mut lo: u64 = 0;
    let mut hi: u64 = 71_000_000;
    proof {
        assert((71_000_000 as int) * (71_000_000 as int) > n as int) by (nonlinear_arith)
            requires
                n <= 5_000_000_000_000_000,
        ;
    }
    while lo + 1 < hi
        invariant
            lo < hi <= 71_000_000,
            (lo as int) * (lo as int) <= n as int,
            (n as int) < (hi as int) * (hi as int),
        decreases hi - lo,
    {
        let mid = lo + (hi - lo) / 2;
        proof {
            assert((mid as int) * (mid as int) <= 5_041_000_000_000_000) by (nonlinear_arith)
                requires
                    mid <= 71_000_000,
            ;
        }
        if mid * mid <= n {
            lo = mid;
        } else {
            hi = mid;
        }
    }
    lo
}

/// Confidence of a tap estimate from its valid inter-tap intervals: rewards
/// both temporal regularity and a larger sample. The bounds asked of the
/// input are those the tap filter guarantees: at most one interval per
/// history slot, each within the plausible band, which keeps the scaled
/// statistics inside 64 bits.
pub fn tap_confidence(intervals: &Vec<u64>) -> (r: u64)
    requires
        1 <= intervals@.len() <= TAP_HISTORY_CAP,
        forall|k: int|
            0 <= k < intervals@.len() ==> #[trigger] intervals@[k] <= TAP_INTERVAL_MAX_MS,
    ensures
        r == tap_confidence_spec(intervals@),
        r <= CONFIDENCE_FULL_MILLI,
{
    let n = intervals.len();
    if n == 1 {
        return 350;
    }

    let mut sum: u64 = 0;
    let mut i: usize = 0;
    proof {
        assert(intervals@.take(0) =~= Seq::<u64>::empty());
    }
    while i < n
        invariant
            n == intervals@.len(),
            i <= n,
            n <= TAP_HISTORY_CAP,
            forall|k: int|
                0 <= k < intervals@.len() ==> #[trigger] intervals@[k] <= TAP_INTERVAL_MAX_MS,
            sum == sum_u64(intervals@.take(i as int)),
            sum <= i * 3_000,
        decreases n - i,
    {
        proof {
            assert(intervals@.take(i + 1).drop_last() =~= intervals@.take(i as int));
        }
        sum = sum + intervals[i];
        i += 1;
    }
    proof {
        assert(intervals@.take(n as int) =~= intervals@);
    }

    let mean: u64 = sum * 1000 / (n as u64);
    proof {
        vstd::arithmetic::div_mod::lemma_div_nonincreasing((sum * 1000) as int, n as int);
    }
    if mean == 0 {
        return 200;
    }

    let ghost mean_g = mean as int;
    let mut acc: u64 = 0;
    i = 0;
    proof {
        assert(intervals@.take(0) =~= Seq::<u64>::empty());
    }
    while i < n
        invariant
            n == intervals@.len(),
            i <= n,
            n <= TAP_HISTORY_CAP,
            forall|k: int|
                0 <= k < intervals@.len() ==> #[trigger] intervals@[k] <= TAP_INTERVAL_MAX_MS,
            mean <= 24_000_000,
            acc == sq_dev_sum_milli(intervals@.take(i as int), mean as int),
            acc <= i * 576_000_000_000_000,
        decreases n - i,
    {
        let scaled = intervals[i] * 1000;
        let diff = if scaled >= mean {
            scaled - mean
        } else {
            mean - scaled
        };
        proof {
            assert(intervals@.take(i + 1).drop_last() =~= intervals@.take(i as int));
            assert((diff as int) * (diff as int) == (scaled as int - mean as int) * (scaled as int
                - mean as int)) by (nonlinear_arith)
                requires
                    diff == if scaled >= mean {
                        (scaled - mean) as u64
                    } else {
                        (mean - scaled) as u64
                    },
            ;
            assert((diff as int) * (diff as int) <= 576_000_000_000_000) by (nonlinear_arith)
                requires
                    diff <= 24_000_000,
            ;
        }
        acc = acc + diff * diff;
        i += 1;
    }
    proof {
        assert(intervals@.take(n as int) =~= intervals@);
    }

    let var: u64 = acc / (n as u64);
    proof {
        vstd::arithmetic::div_mod::lemma_div_nonincreasing(acc as int, n as int);
    }
    let sd = isqrt_u64(var);
    proof {
        lemma_sqrt_floor_unique(var as int, sd as int);
        assert(sd <= 71_000_000) by (nonlinear_arith)
            requires
                (sd as int) * (sd as int) <= var as int,
                var <= 5_000_000_000_000_000,
        ;
    }
    let cv = sd * 1000 / mean;
    let consistency: u64 = if cv >= 1000 {
        0
    } else {
        1000 - cv
    };
    let sw_raw = (n as u64) * 1000 / 6;
    let sw: u64 = if sw_raw < 400 {
        400
    } else if sw_raw > 1000 {
        1000
    } else {
        sw_raw
    };
    proof {
        assert(consistency * sw <= 1_000_000) by (nonlinear_arith)
            requires
                consistency <= 1000,
                sw <= 1000,
        ;
    }
    let conf_raw = consistency * sw / 1000;
    let conf: u64 = if conf_raw < 200 {
        200
    } else if conf_raw > 990 {
        990
    } else {
        conf_raw
    };
    conf
}

/// Order-statistic median of a non-empty list of millisecond values; for an
/// even count, the mean of the two middle values.
pub fn median_ms(values: &Vec<u64>) -> (r: u64)
    requires
        values@.len() > 0,
    ensures
        r == median_spec(values@),
{
    let sorted = sort_vec_u64(values);
    proof {
        lemma_sort_u64_ensures(values@);
    }
    let mid = sorted.len() / 2;
    if sorted.len() % 2 == 0 {
        let a = sorted[mid - 1];
        let b = sorted[mid];
        proof {
            assert(a / 2 + b / 2 + (a % 2 + b % 2) / 2 == ((a + b) / 2) as u64) by (nonlinear_arith);
        }
        a / 2 + b / 2 + (a % 2 + b % 2) / 2
    } else {
        sorted[mid]
    }
}

proof fn lemma_sum_const(s: Seq<u64>, c: u64)
    requires
        forall|k: int| 0 <= k < s.len() ==> s[k] == c,
    ensures
        sum_u64(s) == s.len() * c,
    decreases s.len(),
{
    if s.len() > 0 {
        lemma_sum_const(s.drop_last(), c);
        assert(s.len() * c == (s.len() - 1) * c + c) by (nonlinear_arith);
    }
}

proof fn lemma_sq_dev_zero(s: Seq<u64>, mean_milli: int)
    requires
        forall|k: int| 0 <= k < s.len() ==> s[k] * 1000 == mean_milli,
    ensures
        sq_dev_sum_milli(s, mean_milli) == 0,
    decreases s.len(),
{
    if s.len() > 0 {
        assert forall|k: int| 0 <= k < s.drop_last().len() implies #[trigger] s.drop_last()[k]
            * 1000 == mean_milli by {
            assert(s.drop_last()[k] == s[k]);
        }
        lemma_sq_dev_zero(s.drop_last(), mean_milli);
        let d = s.last() * 1000 - mean_milli;
        assert(s.last() == s[s.len() - 1]);
        assert(d == 0);
        assert(d * d == 0) by (nonlinear_arith)
            requires
                d == 0,
        ;
    }
}

proof fn lemma_sum_nonneg(s: Seq<u64>)
    ensures
        sum_u64(s) >= 0,
    decreases s.len(),
{
    if s.len() > 0 {
        lemma_sum_nonneg(s.drop_last());
    }
}

proof fn lemma_sq_dev_nonneg(s: Seq<u64>, mean_milli: int)
    ensures
        sq_dev_sum_milli(s, mean_milli) >= 0,
    decreases s.len(),
{
    if s.len() > 0 {
        lemma_sq_dev_nonneg(s.drop_last(), mean_milli);
        let d = s.last() * 1000 - mean_milli;
        assert(d * d >= 0) by (nonlinear_arith);
    }
}

/// Every non-negative integer has an integer square root.
proof fn lemma_sqrt_floor_exists(n: int)
    requires
        n >= 0,
    ensures
        0 <= sqrt_floor(n),
        sqrt_floor(n) * sqrt_floor(n) <= n,
        n < (sqrt_floor(n) + 1) * (sqrt_floor(n) + 1),
    decreases n,
{
    if n == 0 {
        lemma_sqrt_floor_unique(0, 0);
    } else {
        lemma_sqrt_floor_exists(n - 1);
        let r = sqrt_floor(n - 1);
        if n < (r + 1) * (r + 1) {
            lemma_sqrt_floor_unique(n, r);
        } else {
            assert(n == (r + 1) * (r + 1));
            assert((r + 1) * (r + 1) < (r + 2) * (r + 2)) by (nonlinear_arith)
                requires
                    r >= 0,
            ;
            lemma_sqrt_floor_unique(n, r + 1);
        }
    }
}

/// Perfectly regular intervals are at least as confident as any other
/// intervals of the same count: with zero spread the coefficient of
/// variation vanishes, so the sample weight alone bounds every other score.
pub proof fn lemma_confidence_regular_is_max(a: Seq<u64>, b: Seq<u64>)
    requires
        a.len() == b.len(),
        a.len() >= 2,
        forall|k: int| 0 <= k < a.len() ==> #[trigger] a[k] == a[0],
        a[0] >= 1,
    ensures
        tap_confidence_spec(a) == clamp_int(sample_weight_milli(a.len() as int), 200, 990) as u64,
        tap_confidence_spec(b) <= tap_confidence_spec(a),
{
    let n = a.len() as int;
    let sw = sample_weight_milli(n);
    assert(400 <= sw <= 1000);

    // The regular side: mean is exactly a[0] * 1000, variance is zero.
    lemma_sum_const(a, a[0]);
    let mean_a = sum_u64(a) * 1000 / n;
    assert(sum_u64(a) * 1000 == n * (a[0] * 1000)) by (nonlinear_arith)
        requires
            sum_u64(a) == n * a[0],
    ;
    vstd::arithmetic::div_mod::lemma_div_multiples_vanish(a[0] * 1000 as int, n);
    assert(mean_a == a[0] * 1000);
    lemma_sq_dev_zero(a, mean_a);
    assert(sq_dev_sum_milli(a, mean_a) / n == 0);
    lemma_sqrt_floor_unique(0, 0);
    assert(sqrt_floor(0) * 1000 / mean_a == 0);
    assert(consistency_milli(a) == 1000);
    vstd::arithmetic::div_mod::lemma_div_multiples_vanish(sw, 1000);
    assert(1000 * sw == sw * 1000) by (nonlinear_arith);
    assert(consistency_milli(a) * sw / 1000 == sw);
    assert(tap_confidence_spec(a) == clamp_int(sw, 200, 990));

    // The other side: consistency can never exceed 1000.
    let mean_b = sum_u64(b) * 1000 / n;
    if mean_b == 0 {
        assert(tap_confidence_spec(b) == 200);
    } else {
        lemma_sum_nonneg(b);
        vstd::arithmetic::div_mod::lemma_div_pos_is_pos(sum_u64(b) * 1000, n);
        assert(mean_b > 0);
        lemma_sq_dev_nonneg(b, mean_b);
        vstd::arithmetic::div_mod::lemma_div_pos_is_pos(sq_dev_sum_milli(b, mean_b), n);
        let var_b = sq_dev_sum_milli(b, mean_b) / n;
        lemma_sqrt_floor_exists(var_b);
        vstd::arithmetic::div_mod::lemma_div_pos_is_pos(sqrt_floor(var_b) * 1000, mean_b);
        let cons_b = consistency_milli(b);
        assert(cons_b <= 1000);
        assert(cons_b * sw <= 1000 * sw) by (nonlinear_arith)
            requires
                cons_b <= 1000,
                sw >= 0,
        ;
        vstd::arithmetic::div_mod::lemma_div_is_ordered(cons_b * sw, 1000 * sw, 1000);
        assert(cons_b * sw / 1000 <= sw);
        assert(tap_confidence_spec(b) == clamp_int(cons_b * sw / 1000, 200, 990) as u64);
    }
}

/// Difference of two timestamps, floored at zero.
pub open spec fn sat_sub(a: u64, b: u64) -> u64 {
    if a >= b {
        (a - b) as u64
    } else {
        0
    }
}

/// An inter-tap interval is plausible when it sits in the accepted band.
pub open spec fn valid_interval(d: u64) -> bool {
    TAP_INTERVAL_MIN_MS <= d <= TAP_INTERVAL_MAX_MS
}

/// Pairwise differences between consecutive taps, floored at zero.
pub open spec fn raw_intervals(taps: Seq<u64>) -> Seq<u64>
    recommends
        taps.len() >= 1,
{
    Seq::new((taps.len() - 1) as nat, |i: int| sat_sub(taps[i + 1], taps[i]))
}

/// The plausible intervals of a sequence of millisecond values.
pub open spec fn filter_valid(s: Seq<u64>) -> Seq<u64> {
    s.filter(|d: u64| valid_interval(d))
}

/// The plausible inter-tap intervals of a tap history.
pub open spec fn valid_intervals(taps: Seq<u64>) -> Seq<u64>
    recommends
        taps.len() >= 1,
{
    filter_valid(raw_intervals(taps))
}

/// Tap history after a new tap: the newcomer is appended and only the most
/// recent [`TAP_HISTORY_CAP`] taps are kept.
pub open spec fn taps_after(taps: Seq<u64>, t: u64) -> Seq<u64> {
    let all = taps.push(t);
    if all.len() > TAP_HISTORY_CAP {
        all.skip(all.len() - TAP_HISTORY_CAP as int)
    } else {
        all
    }
}

/// Full effect of one tap on the engine. With no plausible interval only the
/// tap count moves; otherwise the tempo becomes 60000 over the median
/// interval (clamped), confidence is re-estimated, the source becomes tap,
/// and the downbeat re-anchors on the tap itself.
pub open spec fn tap_step(v: TempoEngineView, t: u64) -> TempoEngineView {
    let taps = taps_after(v.taps, t);
    let ivs = valid_intervals(taps);
    if ivs.len() == 0 {
        TempoEngineView { state: (TempoState { tap_count: taps.len() as usize, ..v.state }), taps }
    } else {
        TempoEngineView {
            state: (TempoState {
                bpm_milli: clamp_bpm_spec(60_000_000 as int / median_spec(ivs) as int),
                confidence_milli: tap_confidence_spec(ivs),
                downbeat_epoch_ms: t,
                source: TempoSource::Tap,
                tap_count: taps.len() as usize,
            }),
            taps,
        }
    }
}

proof fn lemma_filter_valid_push(s: Seq<u64>, x: u64)
    ensures
        filter_valid(s.push(x)) == if valid_interval(x) {
            filter_valid(s).push(x)
        } else {
            filter_valid(s)
        },
{
    reveal(Seq::filter);
    assert(s.push(x).drop_last() =~= s);
    assert(s.push(x).last() == x);
}

proof fn lemma_filter_valid_facts(s: Seq<u64>)
    ensures
        filter_valid(s).len() <= s.len(),
        forall|k: int|
            0 <= k < filter_valid(s).len() ==> valid_interval(#[trigger] filter_valid(s)[k]),
    decreases s.len(),
{
    reveal(Seq::filter);
    if s.len() > 0 {
        lemma_filter_valid_facts(s.drop_last());
        lemma_filter_valid_push(s.drop_last(), s.last());
        assert(s.drop_last().push(s.last()) =~= s);
    }
}

/// Relies on std::time::SystemTime::now and its documented distance from the
/// Unix epoch: the current wall-clock time in milliseconds, zero if the clock
/// reads before the epoch. Nothing is promised of the value.
#[verifier::external_body]
pub fn now_ms() -> u64 {
    match std::time::SystemTime::now().duration_since(std::time::UNIX_EPOCH) {
        Ok(duration) => duration.as_millis() as u64,
        Err(_) => 0,
    }
}

impl TempoEngine {
    /// Records a tap at the given instant and re-estimates the tempo from
    /// the median plausible inter-tap interval.
    pub fn tap_bpm_at(&mut self, timestamp_ms: u64) -> (r: TempoState)
        ensures
            final(self)@ == tap_step(old(self)@, timestamp_ms),
            r == final(self)@.state,
    {
        proof {
            use_type_invariant(&*self);
        }
        let t = timestamp_ms;
        let old_len = self.taps.len();
        let start: usize = if old_len + 1 > TAP_HISTORY_CAP {
            old_len + 1 - TAP_HISTORY_CAP
        } else {
            0
        };
        let mut taps: Vec<u64> = Vec::new();
        let mut i: usize = start;
        proof {
            assert(taps@ =~= self@.taps.subrange(start as int, start as int));
        }
        while i < old_len
            invariant
                start <= i <= old_len,
                old_len == self@.taps.len(),
                self@ == old(self)@,
                taps@ == self@.taps.subrange(start as int, i as int),
            decreases old_len - i,
        {
            let v = self.taps[i];
            taps.push(v);
            proof {
                assert(taps@ =~= self@.taps.subrange(start as int, i + 1));
            }
            i += 1;
        }
        taps.push(t);
        proof {
            assert(taps@ =~= taps_after(old(self)@.taps, t));
            assert(taps@.len() <= TAP_HISTORY_CAP);
            assert(taps@.last() == t);
        }

        let mut ivs: Vec<u64> = Vec::new();
        let ghost d_all = raw_intervals(taps@);
        let mut j: usize = 1;
        proof {
            assert(d_all.take(0) =~= Seq::<u64>::empty());
            reveal(Seq::filter);
        }
        while j < taps.len()
            invariant
                1 <= j,
                j <= taps@.len() || j == 1,
                taps@.len() >= 1,
                taps@.len() <= TAP_HISTORY_CAP,
                d_all == raw_intervals(taps@),
                ivs@ == filter_valid(d_all.take(j - 1)),
            decreases taps@.len() - j,
        {
            let prev = taps[j - 1];
            let cur = taps[j];
            let d = if cur >= prev {
                cur - prev
            } else {
                0
            };
            proof {
                assert(d == d_all[j - 1]);
                lemma_filter_valid_push(d_all.take(j - 1), d);
                assert(d_all.take(j as int) =~= d_all.take(j - 1).push(d));
            }
            if TAP_INTERVAL_MIN_MS <= d && d <= TAP_INTERVAL_MAX_MS {
                ivs.push(d);
            }
            j += 1;
        }
        proof {
            assert(d_all.take(taps@.len() - 1) =~= d_all);
            assert(ivs@ == valid_intervals(taps@));
            lemma_filter_valid_facts(d_all);
        }

        if ivs.len() == 0 {
            self.state.tap_count = taps.len();
            self.taps = taps;
            proof {
                assert(self@.taps =~= tap_step(old(self)@, t).taps);
            }
            return self.state;
        }

        proof {
            lemma_median_in_range(ivs@, TAP_INTERVAL_MIN_MS, TAP_INTERVAL_MAX_MS);
        }
        let med = median_ms(&ivs);
        let bpm = clamp_bpm(60_000_000 / med);
        let conf = tap_confidence(&ivs);
        self.state = TempoState {
            bpm_milli: bpm,
            confidence_milli: conf,
            downbeat_epoch_ms: t,
            source: TempoSource::Tap,
            tap_count: taps.len(),
        };
        self.taps = taps;
        proof {
            assert(self@.taps =~= tap_step(old(self)@, t).taps);
        }
        self.state
    }

    /// Records a tap at the given instant, or at the current wall-clock time
    /// when none is given.
    pub fn tap_bpm(&mut self, timestamp_ms: Option<u64>) -> (r: TempoState)
        ensures
            (match timestamp_ms {
                Option::Some(t) => final(self)@ == tap_step(old(self)@, t),
                Option::None => exists|t: u64| final(self)@ == tap_step(old(self)@, t),
            }),
            r == final(self)@.state,
    {
        let t = match timestamp_ms {
            Option::Some(t) => t,
            Option::None => now_ms(),
        };
        self.tap_bpm_at(t)
    }

    /// Re-anchors the downbeat to the given instant, or to the current
    /// wall-clock time when none is given; tempo and source are untouched.
    pub fn resync_downbeat(&mut self, timestamp_ms: Option<u64>) -> (r: TempoState)
        ensures
            (match timestamp_ms {
                Option::Some(t) => final(self)@.state == (TempoState {
                    downbeat_epoch_ms: t,
                    ..old(self)@.state
                }),
                Option::None => final(self)@.state == (TempoState {
                    downbeat_epoch_ms: final(self)@.state.downbeat_epoch_ms,
                    ..old(self)@.state
                }),
            }),
            final(self)@.taps == old(self)@.taps,
            r == final(self)@.state,
    {
        let t = match timestamp_ms {
            Option::Some(t) => t,
            Option::None => now_ms(),
        };
        self.resync_downbeat_at(t)
    }
}

impl Default for TempoEngine {
    /// Fresh engine anchored on the current wall-clock time: 120 BPM, full
    /// confidence, manual source, empty tap history.
    fn default() -> (r: TempoEngine)
        ensures
            r@.state.bpm_milli == 120_000u64,
            r@.state.confidence_milli == CONFIDENCE_FULL_MILLI,
            r@.state.source == TempoSource::Manual,
            r@.state.tap_count == 0usize,
            r@.taps == Seq::<u64>::empty(),
    {
        TempoEngine::new_at(now_ms())
    }
}

} // verus!
