//! Quantized scheduler: snaps requested actions onto the next musical-grid
//! boundary and holds them in arrival order until they are due.
//!
//! All boundary arithmetic is exact: with the tempo in milli-BPM, a grid
//! slot lasts `15_000_000 * slot_sixteenths(grid) / bpm_milli` milliseconds
//! as an exact rational, and ceiling and half-up rounding are carried out on
//! the scaled integers.

use vstd::prelude::*;

use crate::tempo::clamp_bpm;
use crate::tempo::clamp_bpm_spec;
use crate::types::QuantizeGrid;
use crate::types::slot_sixteenths;
use std::collections::VecDeque;

verus! {

/// Latest instant the quantizer accepts, leaving headroom so that the
/// computed boundary itself still fits in 64-bit milliseconds.
pub const QUANTIZE_HORIZON_MS: u64 = u64::MAX - 250_000_000;

/// The next grid-aligned instant at or after `now_ms`. At or before the
/// downbeat origin it is the origin itself; after it, the elapsed time is
/// divided into slots of `15_000_000 * slot_sixteenths(g) / b` milliseconds
/// (an exact rational for tempo `b` milli-BPM), rounded up to a whole number
/// of slots, and that slot boundary is rounded half-up to a millisecond.
pub open spec fn quantize_spec(
    now_ms: u64,
    bpm_milli: u64,
    downbeat_epoch_ms: u64,
    g: QuantizeGrid,
) -> int {
    let b = clamp_bpm_spec(bpm_milli as int) as int;
    let num = 15_000_000 * slot_sixteenths(g);
    if now_ms <= downbeat_epoch_ms {
        downbeat_epoch_ms as int
    } else {
        let e = now_ms - downbeat_epoch_ms;
        let slots = (e * b + num - 1) / num;
        downbeat_epoch_ms + (2 * slots * num + b) / (2 * b)
    }
}

/// Smallest grid-aligned instant at or after `now_ms`, for a grid anchored
/// at `downbeat_epoch_ms` and a tempo of `bpm_milli` (clamped defensively).
pub fn quantize_next_boundary(
    now_ms: u64,
    bpm_milli: u64,
    downbeat_epoch_ms: u64,
    grid: &QuantizeGrid,
) -> (r: u64)
    requires
        now_ms <= QUANTIZE_HORIZON_MS,
    ensures
        r == quantize_spec(now_ms, bpm_milli, downbeat_epoch_ms, *grid),
        now_ms <= downbeat_epoch_ms ==> r == downbeat_epoch_ms,
        r >= now_ms,
        r >= downbeat_epoch_ms,
{
    let safe_bpm = clamp_bpm(bpm_milli);
    let sbq: u64 = match grid {
        QuantizeGrid::Whole => 16,
        QuantizeGrid::Half => 8,
        QuantizeGrid::Quarter => 4,
        QuantizeGrid::Eighth => 2,
        QuantizeGrid::Sixteenth => 1,
    };
    if now_ms <= downbeat_epoch_ms {
        return downbeat_epoch_ms;
    }
    let e = now_ms - downbeat_epoch_ms;
    let b: u128 = safe_bpm as u128;
    let num: u128 = 15_000_000u128 * (sbq as u128);
    proof {
        assert((e as int) * (b as int) <= 0xffff_ffff_ffff_ffffu64 as int * 300_000int)
            by (nonlinear_arith)
            requires
                e <= 0xffff_ffff_ffff_ffffu64,
                b <= 300_000,
        ;
    }
    let eb: u128 = (e as u128) * b;
    let slots: u128 = (eb + num - 1) / num;
    proof {
        let ei = e as int;
        let bi = b as int;
        let ni = num as int;
        let si = slots as int;
        assert(si * ni <= ei * bi + ni - 1 && si * ni >= ei * bi) by (nonlinear_arith)
            requires
                si == (ei * bi + ni - 1) / ni,
                1 <= ni,
                1 <= ei,
                1 <= bi,
        ;
        assert(2 * si * ni + bi <= 2 * (ei * bi + ni - 1) + bi) by (nonlinear_arith)
            requires
                si * ni <= ei * bi + ni - 1,
        ;
    }
    let rd: u128 = (2 * slots * num + b) / (2 * b);
    proof {
        let ei = e as int;
        let bi = b as int;
        let ni = num as int;
        let si = slots as int;
        let rdi = rd as int;
        assert(rdi >= ei) by (nonlinear_arith)
            requires
                rdi == (2 * si * ni + bi) / (2 * bi),
                si * ni >= ei * bi,
                1 <= bi,
                1 <= ei,
        ;
        assert(rdi <= ei + ni + 1) by (nonlinear_arith)
            requires
                rdi == (2 * si * ni + bi) / (2 * bi),
                si * ni <= ei * bi + ni - 1,
                1 <= bi,
                1 <= ni,
                1 <= ei,
        ;
        assert(ni <= 240_000_000);
    }
    downbeat_epoch_ms + (rd as u64)
}

/// An action queued for release at a grid-aligned instant. Immutable once
/// created; ids are assigned at enqueue time and never reused.
#[derive(Debug)]
pub struct ScheduledAction {
    pub id: u64,
    pub action: String,
    pub section: Option<String>,
    pub quantize: QuantizeGrid,
    pub execute_at_ms: u64,
}

impl Clone for ScheduledAction {
    fn clone(&self) -> (r: Self)
        ensures
            r == *self,
    {
        ScheduledAction {
            id: self.id,
            action: self.action.clone(),
            section: match &self.section {
                Option::Some(s) => Option::Some(s.clone()),
                Option::None => Option::None,
            },
            quantize: self.quantize,
            execute_at_ms: self.execute_at_ms,
        }
    }
}

/// Ghost image of the scheduler: settings, id counter, and the queue in
/// insertion order.
pub struct SchedulerView {
    pub grid: QuantizeGrid,
    pub look_ahead_ms: u64,
    pub jitter_budget_ms: u64,
    pub next_id: u64,
    pub queue: Seq<ScheduledAction>,
}

/// Quantized scheduler: default grid, look-ahead and jitter settings, the
/// id counter, and the pending queue in insertion order.
#[derive(Debug)]
pub struct QuantizedScheduler {
    grid: QuantizeGrid,
    look_ahead_ms: u64,
    jitter_budget_ms: u64,
    next_id: u64,
    queue: VecDeque<ScheduledAction>,
}

impl View for QuantizedScheduler {
    type V = SchedulerView;

    closed spec fn view(&self) -> SchedulerView {
        SchedulerView {
            grid: self.grid,
            look_ahead_ms: self.look_ahead_ms,
            jitter_budget_ms: self.jitter_budget_ms,
            next_id: self.next_id,
            queue: self.queue@,
        }
    }
}

/// Instant up to which an action counts as due when polling at `now_ms`
/// with the given jitter budget, saturating at the end of time.
pub open spec fn due_limit(now_ms: u64, jitter_ms: u64) -> int {
    if now_ms + jitter_ms > u64::MAX {
        u64::MAX as int
    } else {
        now_ms + jitter_ms
    }
}

/// Length of the maximal queue prefix whose actions are all due by `limit`.
/// Head-only draining: a due action behind a not-yet-due one is not counted.
pub open spec fn due_prefix_len(q: Seq<ScheduledAction>, limit: int) -> int
    decreases q.len(),
{
    if q.len() == 0 {
        0
    } else if q[0].execute_at_ms <= limit {
        1 + due_prefix_len(q.drop_first(), limit)
    } else {
        0
    }
}

/// The due prefix is pinned by its endpoints: everything before `i` due,
/// and `i` itself (if it exists) not due.
pub proof fn lemma_due_prefix_len_at(q: Seq<ScheduledAction>, limit: int, i: int)
    requires
        0 <= i <= q.len(),
        forall|k: int| 0 <= k < i ==> #[trigger] q[k].execute_at_ms <= limit,
        i < q.len() ==> q[i].execute_at_ms > limit,
    ensures
        due_prefix_len(q, limit) == i,
    decreases i,
{
    if i == 0 {
    } else {
        assert(q[0].execute_at_ms <= limit);
        lemma_due_prefix_len_at(q.drop_first(), limit, i - 1);
    }
}

impl QuantizedScheduler {
    /// The id the next scheduled action will receive.
    pub fn next_id(&self) -> (r: u64)
        ensures
            r == self@.next_id,
    {
        self.next_id
    }

    /// The fixed look-ahead added before quantizing, in milliseconds.
    pub fn look_ahead_ms(&self) -> (r: u64)
        ensures
            r == self@.look_ahead_ms,
    {
        self.look_ahead_ms
    }

    /// The jitter budget tolerated when polling for due actions, in
    /// milliseconds.
    pub fn jitter_budget_ms(&self) -> (r: u64)
        ensures
            r == self@.jitter_budget_ms,
    {
        self.jitter_budget_ms
    }

    /// Sets the default grid used when a caller omits an explicit one, and
    /// returns the new default.
    pub fn set_grid(&mut self, grid: QuantizeGrid) -> (r: QuantizeGrid)
        ensures
            final(self)@ == (SchedulerView { grid, ..old(self)@ }),
            r == grid,
    {
        self.grid = grid;
        grid
    }

    /// Resolves the effective grid, quantizes `now_ms` plus the look-ahead
    /// onto it, assigns the next id, and appends the action to the queue
    /// tail; a copy of the enqueued action is returned.
    pub fn schedule(
        &mut self,
        now_ms: u64,
        bpm_milli: u64,
        downbeat_epoch_ms: u64,
        quantize: Option<QuantizeGrid>,
        action: String,
        section: Option<String>,
    ) -> (r: ScheduledAction)
        requires
            old(self)@.next_id < u64::MAX,
            now_ms + old(self)@.look_ahead_ms <= QUANTIZE_HORIZON_MS,
        ensures
            r == (ScheduledAction {
                id: old(self)@.next_id,
                action,
                section,
                quantize: (match quantize {
                    Option::Some(g) => g,
                    Option::None => old(self)@.grid,
                }),
                execute_at_ms: quantize_spec(
                    (now_ms + old(self)@.look_ahead_ms) as u64,
                    bpm_milli,
                    downbeat_epoch_ms,
                    (match quantize {
                        Option::Some(g) => g,
                        Option::None => old(self)@.grid,
                    }),
                ) as u64,
            }),
            final(self)@ == (SchedulerView {
                next_id: (old(self)@.next_id + 1) as u64,
                queue: old(self)@.queue.push(r),
                ..old(self)@
            }),
            r.execute_at_ms >= now_ms,
    {
        let quantize_value = match quantize {
            Option::Some(g) => g,
            Option::None => self.grid,
        };
        let execute_at_ms = quantize_next_boundary(
            now_ms + self.look_ahead_ms,
            bpm_milli,
            downbeat_epoch_ms,
            &quantize_value,
        );
        let scheduled = ScheduledAction {
            id: self.next_id,
            action,
            section,
            quantize: quantize_value,
            execute_at_ms,
        };
        let copy = scheduled.clone();
        self.next_id = self.next_id + 1;
        self.queue.push_back(scheduled);
        copy
    }

    /// The full queue in insertion order, non-destructively.
    pub fn list(&self) -> (r: Vec<ScheduledAction>)
        ensures
            r@ == self@.queue,
    {
        let mut r: Vec<ScheduledAction> = Vec::new();
        let mut i: usize = 0;
        proof {
            assert(r@ =~= self@.queue.take(0));
        }
        while i < self.queue.len()
            invariant
                i <= self@.queue.len(),
                r@ == self@.queue.take(i as int),
            decreases self@.queue.len() - i,
        {
            r.push(self.queue[i].clone());
            proof {
                assert(self@.queue.take(i as int).push(self@.queue[i as int]) =~= self@.queue.take(
                i + 1));
            }
            i += 1;
        }
        proof {
            assert(self@.queue.take(self@.queue.len() as int) =~= self@.queue);
        }
        r
    }

    /// Removes and returns the maximal head run of actions due by `now_ms`
    /// plus the jitter budget, in arrival order; the rest stay queued. A due
    /// action behind a not-yet-due one is deliberately not released.
    pub fn pop_due(&mut self, now_ms: u64) -> (r: Vec<ScheduledAction>)
        ensures
            ({
                let k = due_prefix_len(old(self)@.queue, due_limit(now_ms, old(self)@.jitter_budget_ms));
                &&& r@ == old(self)@.queue.take(k)
                &&& final(self)@ == (SchedulerView { queue: old(self)@.queue.skip(k), ..old(self)@ })
            }),
    {
        let limit: u64 = if now_ms > u64::MAX - self.jitter_budget_ms {
            u64::MAX
        } else {
            now_ms + self.jitter_budget_ms
        };
        let ghost q0 = self@.queue;

        let mut k: usize = 0;
        while k < self.queue.len() && self.queue[k].execute_at_ms <= limit
            invariant
                k <= self@.queue.len(),
                self@.queue == q0,
                forall|j: int| 0 <= j < k ==> #[trigger] q0[j].execute_at_ms <= limit,
            decreases self@.queue.len() - k,
        {
            k += 1;
        }
        proof {
            lemma_due_prefix_len_at(q0, limit as int, k as int);
        }

        let mut due: Vec<ScheduledAction> = Vec::new();
        let mut i: usize = 0;
        proof {
            assert(due@ =~= q0.take(0));
            assert(self@.queue =~= q0.skip(0));
        }
        while i < k
            invariant
                i <= k <= q0.len(),
                due@ == q0.take(i as int),
                self@.queue == q0.skip(i as int),
                self@.grid == old(self)@.grid,
                self@.look_ahead_ms == old(self)@.look_ahead_ms,
                self@.jitter_budget_ms == old(self)@.jitter_budget_ms,
                self@.next_id == old(self)@.next_id,
            decreases k - i,
        {
            let popped = match self.queue.pop_front() {
                Option::Some(action) => action,
                Option::None => {
                    proof {
                        assert(false);
                    }
                    unreached()
                },
            };
            due.push(popped);
            proof {
                assert(q0.skip(i as int)[0] == q0[i as int]);
                assert(q0.skip(i as int).drop_first() =~= q0.skip(i + 1));
                assert(q0.take(i as int).push(q0[i as int]) =~= q0.take(i + 1));
            }
            i += 1;
        }
        due
    }
}

impl Default for QuantizedScheduler {
    /// Fresh scheduler: quarter-note default grid, 100 ms look-ahead, 5 ms
    /// jitter budget, ids starting at 1, empty queue.
    fn default() -> (r: QuantizedScheduler)
        ensures
            r@ == (SchedulerView {
                grid: QuantizeGrid::Quarter,
                look_ahead_ms: 100u64,
                jitter_budget_ms: 5u64,
                next_id: 1u64,
                queue: Seq::<ScheduledAction>::empty(),
            }),
    {
        let s = QuantizedScheduler {
            grid: QuantizeGrid::Quarter,
            look_ahead_ms: 100,
            jitter_budget_ms: 5,
            next_id: 1,
            queue: VecDeque::new(),
        };
        proof {
            assert(s@.queue =~= Seq::<ScheduledAction>::empty());
        }
        s
    }
}

/// An action alone in the queue is released, and releases nothing else, by
/// a poll at its own release time: the due prefix of the singleton queue at
/// that instant is the whole queue.
pub proof fn lemma_pop_due_after_schedule(a: ScheduledAction, jitter_ms: u64)
    ensures
        due_prefix_len(seq![a], due_limit(a.execute_at_ms, jitter_ms)) == 1,
{
    assert(seq![a][0] == a);
    assert(a.execute_at_ms <= due_limit(a.execute_at_ms, jitter_ms));
    assert(seq![a].drop_first() =~= Seq::<ScheduledAction>::empty());
    assert(due_prefix_len(Seq::<ScheduledAction>::empty(), due_limit(a.execute_at_ms, jitter_ms))
        == 0);
}

} // verus!
