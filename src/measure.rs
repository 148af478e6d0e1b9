//! The measurement loop: warmup sorts that are thrown away, then timed sorts
//! of a fresh copy of the dataset, each checked for order when asked.

use vstd::prelude::*;

verus! {

#[verifier::external_type_specification]
#[verifier::external_body]
pub struct ExInstant(std::time::Instant);

/// Every adjacent pair of `s` is in non-decreasing order.
pub open spec fn non_decreasing(s: Seq<i32>) -> bool {
    forall|i: int| 0 <= i && i + 1 < s.len() ==> #[trigger] s[i] <= s[i + 1]
}

/// What a repetition records as its validation outcome: the order of its
/// sorted copy when validation is on, and `true` when it is off.
pub open spec fn outcome(sorted: Seq<i32>, validate: bool) -> bool {
    validate ==> non_decreasing(sorted)
}

/// Relies on `slice::sort_unstable`: it leaves the same elements, in
/// ascending order.
#[verifier::external_body]
fn sort_in_place(v: &mut Vec<i32>)
    ensures
        final(v)@.to_multiset() == old(v)@.to_multiset(),
        non_decreasing(final(v)@),
{
    v.sort_unstable();
}

/// Relies on `std::time::Instant::now`: a reading of the monotonic clock.
#[verifier::external_body]
fn start_timer() -> (r: std::time::Instant) {
    std::time::Instant::now()
}

/// Relies on `std::time::Instant::elapsed`: the time passed since `t0`.
#[verifier::external_body]
fn elapsed_since(t0: &std::time::Instant) -> (r: core::time::Duration) {
    t0.elapsed()
}

/// Relies on `Duration::as_nanos`: a duration in whole nanoseconds.
#[verifier::external_body]
fn duration_nanos(d: &core::time::Duration) -> (r: u128) {
    d.as_nanos()
}

/// Whether every adjacent pair of `a` is in non-decreasing order.
pub fn is_sorted_non_decreasing(a: &[i32]) -> (r: bool)
    ensures
        r == non_decreasing(a@),
{
    let len = a.len();
    let mut i: usize = 0;
    while i < len && i + 1 < len
        invariant
            len == a@.len(),
            i <= len,
            forall|j: int| 0 <= j < i && j + 1 < len ==> #[trigger] a@[j] <= a@[j + 1],
        decreases len - i,
    {
        if a[i] > a[i + 1] {
            return false;
        }
        i = i + 1;
    }
    true
}

/// The validation outcome of one repetition, given the copy that its sort
/// step produced: whether that copy is in order when validation is on,
/// and `true` unconditionally when it is off.
pub fn validation_outcome(sorted: &[i32], validate: bool) -> (ok: bool)
    ensures
        ok == outcome(sorted@, validate),
{
    if validate {
        is_sorted_non_decreasing(sorted)
    } else {
        true
    }
}

/// Runs `warmup` sorts of fresh copies of `values` and discards them;
/// returns how many it ran.
pub fn run_warmup(values: &Vec<i32>, warmup: usize) -> (count: usize)
    ensures
        count == warmup,
{
    let mut count: usize = 0;
    while count < warmup
        invariant
            count <= warmup,
        decreases warmup - count,
    {
        let mut copy = values.clone();
        sort_in_place(&mut copy);
        count = count + 1;
    }
    count
}

/// One measured repetition: the sorted copy, the time its sort took, and the
/// validation outcome recorded for it.
pub struct Measurement {
    pub sorted: Vec<i32>,
    pub nanos: u128,
    pub ok: bool,
}

/// Sorts a fresh copy of `values`, timing the sort alone, and validates the
/// copy when `validate` is set. `values` itself is left as it was.
pub fn measure_rep(values: &Vec<i32>, validate: bool) -> (m: Measurement)
    ensures
        m.sorted@.to_multiset() == values@.to_multiset(),
        non_decreasing(m.sorted@),
        m.ok == outcome(m.sorted@, validate),
        m.ok,
{
    let mut copy = values.clone();
    assert(copy@ =~= values@);
    let t0 = start_timer();
    sort_in_place(&mut copy);
    let elapsed = elapsed_since(&t0);
    let nanos = duration_nanos(&elapsed);
    let ok = validation_outcome(copy.as_slice(), validate);
    Measurement { sorted: copy, nanos, ok }
}

/// What the harness does next.
#[derive(Debug, Clone, Copy, PartialEq, Eq, Structural)]
pub enum Action {
    /// Sort a copy and discard it.
    WarmupSort,
    /// Sort a copy, time it and record the row of this repetition index.
    MeasuredSort(usize),
    /// Nothing is left to do.
    Finished,
}

/// The action at position `pos` of a run with `warmup` warmup sorts and
/// `reps` measured ones.
pub open spec fn action_at(warmup: int, reps: int, pos: int) -> Action {
    if pos < warmup {
        Action::WarmupSort
    } else if pos < warmup + reps {
        Action::MeasuredSort((pos - warmup) as usize)
    } else {
        Action::Finished
    }
}

/// The number of measured sorts among the first `k` actions of a run.
pub open spec fn measured_before(warmup: int, reps: int, k: nat) -> nat
    decreases k,
{
    if k == 0 {
        0
    } else {
        measured_before(warmup, reps, (k - 1) as nat) + if action_at(warmup, reps, k - 1) is MeasuredSort {
            1nat
        } else {
            0nat
        }
    }
}

/// The number of warmup sorts among the first `k` actions of a run.
pub open spec fn warmups_before(warmup: int, reps: int, k: nat) -> nat
    decreases k,
{
    if k == 0 {
        0
    } else {
        warmups_before(warmup, reps, (k - 1) as nat) + if action_at(warmup, reps, k - 1) is WarmupSort {
            1nat
        } else {
            0nat
        }
    }
}

/// The position of a run: how many warmup and measured sorts are done.
pub struct Schedule {
    pub warmup: usize,
    pub reps: usize,
    pub warmups_done: usize,
    pub reps_done: usize,
}

impl Schedule {
    pub open spec fn wf(&self) -> bool {
        &&& self.warmups_done <= self.warmup
        &&& self.reps_done <= self.reps
        &&& self.reps_done > 0 ==> self.warmups_done == self.warmup
    }

    /// How many actions of the run have been handed out.
    pub open spec fn pos(&self) -> int {
        self.warmups_done + self.reps_done
    }

    /// A run that has not started.
    pub fn new(warmup: usize, reps: usize) -> (s: Schedule)
        ensures
            s.wf(),
            s.warmup == warmup,
            s.reps == reps,
            s.pos() == 0,
    {
        Schedule { warmup, reps, warmups_done: 0, reps_done: 0 }
    }

    /// Hands out the next action of the run and moves past it.
    pub fn next_action(&mut self) -> (a: Action)
        requires
            old(self).wf(),
        ensures
            final(self).wf(),
            final(self).warmup == old(self).warmup,
            final(self).reps == old(self).reps,
            a == action_at(old(self).warmup as int, old(self).reps as int, old(self).pos()),
            final(self).pos() == if a is Finished {
                old(self).pos()
            } else {
                old(self).pos() + 1
            },
    {
        if self.warmups_done < self.warmup {
            self.warmups_done = self.warmups_done + 1;
            Action::WarmupSort
        } else if self.reps_done < self.reps {
            let i = self.reps_done;
            self.reps_done = self.reps_done + 1;
            Action::MeasuredSort(i)
        } else {
            Action::Finished
        }
    }
}

proof fn lemma_counts(warmup: nat, reps: nat, k: nat)
    ensures
        measured_before(warmup as int, reps as int, k) == if k <= warmup {
            0
        } else if k <= warmup + reps {
            k - warmup
        } else {
            reps as int
        },
        warmups_before(warmup as int, reps as int, k) == if k <= warmup {
            k as int
        } else {
            warmup as int
        },
    decreases k,
{
    if k > 0 {
        lemma_counts(warmup, reps, (k - 1) as nat);
    }
}

/// A run hands out its `warmup` warmup sorts first, then the measured sorts
/// with indices `0 .. reps` in order, and then nothing more: exactly `warmup`
/// sorts are discarded and exactly `reps` are measured, whatever the counts
/// (none are discarded when `warmup` is zero).
pub proof fn lemma_run_shape(warmup: nat, reps: nat)
    requires
        reps <= usize::MAX,
    ensures
        forall|i: int| 0 <= i < warmup ==> action_at(warmup as int, reps as int, i) == Action::WarmupSort,
        forall|i: int|
            0 <= i < reps ==> #[trigger] action_at(warmup as int, reps as int, warmup + i) == Action::MeasuredSort(i as usize),
        forall|i: int| i >= warmup + reps ==> action_at(warmup as int, reps as int, i) == Action::Finished,
        warmups_before(warmup as int, reps as int, warmup + reps) == warmup,
        measured_before(warmup as int, reps as int, warmup + reps) == reps,
{
    lemma_counts(warmup, reps, warmup + reps);
}

} // verus!
