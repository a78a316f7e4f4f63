//! The engine as mathematics: its state as plain values, and one call of
//! `step` as a function from state to state.
//!
//! The executable engine in [`crate::sort`] is proved to follow this model
//! move for move; the laws in [`crate::laws`] are proved of the model.

use vstd::prelude::*;
use crate::dataset::{in_range, is_non_decreasing, swapped};

verus! {

/// The algorithm that an engine steps through.
#[derive(Clone, Copy, Debug, PartialEq, Eq, PartialOrd, Structural)]
pub enum SortType {
    Insertion,
    Shell,
    Merge,
    Quick,
}

impl SortType {
    /// Whether stepping is defined for this algorithm.
    pub open spec fn implemented(self) -> bool {
        self == SortType::Insertion || self == SortType::Shell
    }

    /// The algorithm's name, as a label shows it.
    pub fn name(self) -> (s: &'static str)
        ensures
            s@ == match self {
                SortType::Insertion => "Insertion"@,
                SortType::Shell => "Shell"@,
                SortType::Merge => "Merge"@,
                SortType::Quick => "Quick"@,
            },
    {
        match self {
            SortType::Insertion => "Insertion",
            SortType::Shell => "Shell",
            SortType::Merge => "Merge",
            SortType::Quick => "Quick",
        }
    }
}

/// Everything an engine holds, as plain values.
pub struct StepState {
    /// The values being sorted.
    pub elements: Seq<u32>,
    /// Positions under comparison; empty between units of work.
    pub active_elements: Seq<usize>,
    /// Cursor of the outer pass.
    pub index: nat,
    /// Stride of the shell sort; `0` before the first step of a run.
    pub gap: nat,
    /// Comparisons made in this run.
    pub comparison_count: nat,
    /// Exchanges made in this run.
    pub swap_count: nat,
    /// The algorithm has certified completion.
    pub sorted: bool,
    /// The values were in order when completion was certified.
    pub correct: bool,
    /// The algorithm in use.
    pub sort_type: SortType,
    /// The driver is asked to step on every tick.
    pub auto_sort: bool,
}

/// A counter raised by `by`, held at the largest value a `u32` can take.
pub open spec fn raised(count: nat, by: nat) -> nat {
    if count + by <= u32::MAX {
        count + by
    } else {
        u32::MAX as nat
    }
}

/// The positions `index`, `index + gap`, `index + 2 * gap`, ... that a batch
/// of the shell sort opens on `n` values: `(n - index) / gap` of them.
pub open spec fn batch(index: nat, gap: nat, n: nat) -> Seq<usize> {
    Seq::new(((n - index) / (gap as int)) as nat, |i: int| (i * gap + index) as usize)
}

/// What one sweep over a batch has done so far.
pub struct Sweep {
    /// The values after the exchanges made so far.
    pub elements: Seq<u32>,
    /// Comparisons made so far.
    pub comparisons: nat,
    /// Exchanges made so far.
    pub swaps: nat,
    /// Comparisons that found their pair in order.
    pub advance: nat,
}

/// The sweep of the shell sort over the first `k` entries of `active`, in
/// order: an entry `p` with `p + gap` inside the values is compared with its
/// partner at `p + gap`, and the two are exchanged where the first is the
/// larger; an entry without a partner is passed over.
pub open spec fn sweep(elements: Seq<u32>, active: Seq<usize>, gap: nat, k: nat) -> Sweep
    decreases k,
{
    if k == 0 {
        Sweep { elements, comparisons: 0, swaps: 0, advance: 0 }
    } else {
        let prev = sweep(elements, active, gap, (k - 1) as nat);
        let p = active[k - 1] as int;
        if p + gap < elements.len() {
            if prev.elements[p] > prev.elements[p + gap] {
                Sweep {
                    elements: swapped(prev.elements, p, p + gap),
                    comparisons: prev.comparisons + 1,
                    swaps: prev.swaps + 1,
                    advance: prev.advance,
                }
            } else {
                Sweep {
                    elements: prev.elements,
                    comparisons: prev.comparisons + 1,
                    swaps: prev.swaps,
                    advance: prev.advance + 1,
                }
            }
        } else {
            prev
        }
    }
}

impl StepState {
    /// The state in which a run on `elements` starts: nothing in progress,
    /// every cursor and counter at zero, completion not yet certified.
    pub open spec fn fresh(elements: Seq<u32>, sort_type: SortType, auto_sort: bool) -> StepState {
        StepState {
            elements,
            active_elements: Seq::empty(),
            index: 0,
            gap: 0,
            comparison_count: 0,
            swap_count: 0,
            sorted: false,
            correct: false,
            sort_type,
            auto_sort,
        }
    }

    /// The state in which a new run of the same engine starts on `elements`.
    pub open spec fn restarted(self, elements: Seq<u32>) -> StepState {
        StepState::fresh(elements, self.sort_type, self.auto_sort)
    }

    /// Completion: nothing is active, the cursors are back at zero, and
    /// `correct` records whether the values are in order at this moment.
    pub open spec fn finished(self) -> StepState {
        StepState {
            active_elements: Seq::empty(),
            index: 0,
            gap: 0,
            sorted: true,
            correct: is_non_decreasing(self.elements),
            ..self
        }
    }

    /// One step of the insertion sort on a run in progress.
    ///
    /// A cursor at zero first moves to one, with the counters set back to
    /// zero. Then exactly one of these happens:
    ///
    /// - the cursor has passed the last value: the run is complete;
    /// - no pair is open: the pair just below the cursor is opened, and
    ///   nothing is compared;
    /// - a pair is open: its two values are compared, which counts once.
    ///   Where the first is strictly larger the two are exchanged, which
    ///   counts once too, and the pair moves down by one position, or is
    ///   closed where it stood at the front. Where they are in order the
    ///   pair is closed. Closing a pair moves the cursor on by one.
    pub open spec fn insertion_step(self) -> StepState {
        let s = if self.index == 0 {
            StepState { index: 1, comparison_count: 0, swap_count: 0, ..self }
        } else {
            self
        };
        if s.index >= s.elements.len() {
            s.finished()
        } else if s.active_elements.len() == 0 {
            StepState { active_elements: seq![(s.index - 1) as usize, s.index as usize], ..s }
        } else if s.active_elements.len() == 2 {
            let a = s.active_elements[0] as int;
            let b = s.active_elements[1] as int;
            let compared = StepState { comparison_count: raised(s.comparison_count, 1), ..s };
            if s.elements[a] > s.elements[b] {
                let moved = StepState {
                    elements: swapped(s.elements, a, b),
                    swap_count: raised(s.swap_count, 1),
                    ..compared
                };
                if a == 0 {
                    StepState { active_elements: Seq::empty(), index: s.index + 1, ..moved }
                } else {
                    StepState { active_elements: seq![(a - 1) as usize, (b - 1) as usize], ..moved }
                }
            } else {
                StepState { active_elements: Seq::empty(), index: s.index + 1, ..compared }
            }
        } else {
            s
        }
    }

    /// One step of the shell sort on a run in progress.
    ///
    /// A gap of zero is first set to half the number of values, with the
    /// cursor and the counters set back to zero. Then exactly one of these
    /// happens:
    ///
    /// - the gap is still zero, because there are fewer than two values:
    ///   the run is complete;
    /// - no batch is open and two gaps no longer fit between the cursor and
    ///   the end: with a gap of one the run is complete, else the gap is
    ///   halved and the cursor goes back to zero;
    /// - no batch is open and two gaps fit: the batch at the cursor is
    ///   opened, and nothing is compared;
    /// - a batch is open: it is swept as a whole. Every comparison that
    ///   finds its pair in order moves the cursor on by one, the end of the
    ///   sweep by one more, and the batch is closed.
    pub open spec fn shell_step(self) -> StepState {
        let n = self.elements.len();
        let s = if self.gap == 0 {
            StepState { gap: n / 2, comparison_count: 0, swap_count: 0, index: 0, ..self }
        } else {
            self
        };
        if s.gap == 0 {
            s.finished()
        } else if s.active_elements.len() == 0 {
            if s.index + s.gap * 2 > n {
                if s.gap == 1 {
                    s.finished()
                } else {
                    StepState { gap: s.gap / 2, index: 0, ..s }
                }
            } else {
                StepState { active_elements: batch(s.index, s.gap, n), ..s }
            }
        } else {
            let done = sweep(s.elements, s.active_elements, s.gap, s.active_elements.len());
            StepState {
                elements: done.elements,
                active_elements: Seq::empty(),
                index: s.index + done.advance + 1,
                comparison_count: raised(s.comparison_count, done.comparisons),
                swap_count: raised(s.swap_count, done.swaps),
                ..s
            }
        }
    }

    /// The state after one call of `step`, whether the call succeeds or not:
    /// an algorithm without a stepping policy and a completed run leave the
    /// state as it is.
    pub open spec fn step(self) -> StepState {
        if !self.sort_type.implemented() || self.sorted {
            self
        } else if self.sort_type == SortType::Insertion {
            self.insertion_step()
        } else {
            self.shell_step()
        }
    }

    /// The state after `n` calls of `step`.
    pub open spec fn run(self, n: nat) -> StepState
        decreases n,
    {
        if n == 0 {
            self
        } else {
            self.run((n - 1) as nat).step()
        }
    }

    /// What holds of an insertion sort in progress: the run has either not
    /// begun, or the pair under comparison is adjacent and at or below the
    /// cursor.
    pub open spec fn insertion_wf(self) -> bool {
        &&& self.gap == 0
        &&& self.index == 0 ==> {
            &&& self.active_elements.len() == 0
            &&& self.comparison_count == 0
            &&& self.swap_count == 0
        }
        &&& self.active_elements.len() != 0 ==> {
            &&& self.active_elements.len() == 2
            &&& self.active_elements[0] + 1 == self.active_elements[1]
            &&& self.active_elements[1] <= self.index
            &&& self.index < self.elements.len()
        }
    }

    /// What holds of a shell sort in progress: the run has either not begun,
    /// or the gap fits twice into the values and an open batch is the one
    /// that the cursor and the gap describe.
    pub open spec fn shell_wf(self) -> bool {
        &&& self.gap == 0 ==> {
            &&& self.index == 0
            &&& self.active_elements.len() == 0
            &&& self.comparison_count == 0
            &&& self.swap_count == 0
        }
        &&& self.active_elements.len() != 0 ==> {
            &&& self.gap > 0
            &&& self.index + 2 * self.gap <= self.elements.len()
            &&& self.active_elements == batch(self.index, self.gap, self.elements.len())
        }
    }

    /// Well-formedness of an engine's state.
    pub open spec fn wf(self) -> bool {
        &&& 1 <= self.elements.len() <= usize::MAX
        &&& in_range(self.elements)
        &&& self.comparison_count <= u32::MAX
        &&& self.swap_count <= u32::MAX
        &&& self.index <= self.elements.len()
        &&& 2 * self.gap <= self.elements.len()
        &&& forall|i: int|
            0 <= i < self.active_elements.len() ==> self.active_elements[i] < self.elements.len()
        &&& self.sorted ==> {
            &&& self.active_elements.len() == 0
            &&& self.index == 0
            &&& self.gap == 0
            &&& self.correct == is_non_decreasing(self.elements)
        }
        &&& !self.sorted && self.sort_type == SortType::Insertion ==> self.insertion_wf()
        &&& !self.sorted && self.sort_type == SortType::Shell ==> self.shell_wf()
        &&& !self.sorted && !self.sort_type.implemented() ==> {
            &&& self.active_elements.len() == 0
            &&& self.index == 0
            &&& self.gap == 0
        }
    }
}

/// Every position of a batch lies inside the values, and is the one that
/// its place in the batch, the gap and the cursor give.
pub proof fn lemma_batch(index: nat, gap: nat, n: nat)
    requires
        gap > 0,
        index <= n <= usize::MAX,
    ensures
        batch(index, gap, n).len() == (n - index) / (gap as int),
        batch(index, gap, n).len() <= n - index,
        forall|i: int|
            0 <= i < batch(index, gap, n).len() ==> #[trigger] batch(index, gap, n)[i] == i * gap
                + index && batch(index, gap, n)[i] < n,
{
    let len = (n - index) / (gap as int);
    assert(0 <= len <= n - index && len * gap <= n - index) by (nonlinear_arith)
        requires
            len == (n - index) / (gap as int),
            gap > 0,
            index <= n,
    ;
    assert forall|i: int| 0 <= i < batch(index, gap, n).len() implies #[trigger] batch(
        index,
        gap,
        n,
    )[i] == i * gap + index && batch(index, gap, n)[i] < n by {
        assert(0 <= i * gap && i * gap + gap <= len * gap) by (nonlinear_arith)
            requires
                0 <= i < len,
                gap > 0,
        ;
    }
}

/// What a sweep over the first `k` entries of a batch leaves: the same
/// values in another order, every comparison counted once as an exchange or
/// as an advance, and an advance that keeps the cursor inside the values.
pub proof fn lemma_sweep(elements: Seq<u32>, index: nat, gap: nat, k: nat)
    requires
        gap > 0,
        index + 2 * gap <= elements.len() <= usize::MAX,
        k <= batch(index, gap, elements.len()).len(),
    ensures
        ({
            let done = sweep(elements, batch(index, gap, elements.len()), gap, k);
            &&& done.elements.len() == elements.len()
            &&& done.elements.to_multiset() == elements.to_multiset()
            &&& in_range(elements) ==> in_range(done.elements)
            &&& done.comparisons == done.swaps + done.advance
            &&& done.comparisons <= k
            &&& index + done.advance + 1 <= elements.len()
            &&& done.advance == 0 || done.advance * gap < elements.len() - index
        }),
    decreases k,
{
    let n = elements.len();
    let active = batch(index, gap, n);
    if k > 0 {
        lemma_sweep(elements, index, gap, (k - 1) as nat);
        lemma_batch(index, gap, n);
        let prev = sweep(elements, active, gap, (k - 1) as nat);
        let done = sweep(elements, active, gap, k);
        let p = active[k - 1] as int;
        assert(p == (k - 1) * gap + index);
        if p + gap < n {
            if prev.elements[p] > prev.elements[p + gap] {
                crate::dataset::lemma_swapped_multiset(prev.elements, p, p + gap);
            } else {
                assert(k * gap == (k - 1) * gap + gap) by (nonlinear_arith);
                assert(done.advance * gap < n - index) by (nonlinear_arith)
                    requires
                        done.advance <= k,
                        k * gap + index < n,
                        gap > 0,
                ;
            }
        }
        assert(done.advance == 0 || done.advance < n - index) by (nonlinear_arith)
            requires
                done.advance == 0 || done.advance * gap < n - index,
                gap > 0,
        ;
    }
}

/// A step leaves a well-formed state well-formed.
pub proof fn lemma_step_wf(s: StepState)
    requires
        s.wf(),
    ensures
        s.step().wf(),
{
    let n = s.elements.len();
    if !s.sort_type.implemented() || s.sorted {
    } else if s.sort_type == SortType::Insertion {
        if s.index != 0 && s.index < n && s.active_elements.len() == 2 {
            let a = s.active_elements[0] as int;
            let b = s.active_elements[1] as int;
            assert(in_range(swapped(s.elements, a, b)));
        }
    } else if s.gap != 0 && s.active_elements.len() != 0 {
        lemma_batch(s.index, s.gap, n);
        lemma_sweep(s.elements, s.index, s.gap, s.active_elements.len());
    } else {
        let gap = if s.gap == 0 {
            n / 2
        } else {
            s.gap
        };
        let index = if s.gap == 0 {
            0
        } else {
            s.index
        };
        if gap != 0 && index + gap * 2 <= n {
            lemma_batch(index, gap, n);
        }
    }
}

} // verus!
