//! What holds of every run of the engine.
//!
//! Each law is stated of the model in [`crate::model`]. The executable
//! `step` is proved to turn an engine whose state is `s` into one whose
//! state is `s.step()`, so a law about `s.run(n)` is a law about `n` calls
//! of `step`.

use vstd::prelude::*;
use crate::dataset::{is_non_decreasing, lemma_swapped_multiset};
use crate::model::{lemma_batch, lemma_step_wf, lemma_sweep, SortType, StepState};
use crate::sorts::ordered_around;

verus! {

/// A run of any length stays within the well-formed states.
pub proof fn lemma_run_wf(s: StepState, n: nat)
    requires
        s.wf(),
    ensures
        s.run(n).wf(),
    decreases n,
{
    if n > 0 {
        lemma_run_wf(s, (n - 1) as nat);
        lemma_step_wf(s.run((n - 1) as nat));
    }
}

/// Once a run is complete, further steps change nothing: neither the
/// values, nor the counters, nor anything else.
pub proof fn lemma_completed_run_stays(s: StepState, n: nat)
    requires
        s.sorted,
    ensures
        s.run(n) == s,
    decreases n,
{
    if n > 0 {
        lemma_completed_run_stays(s, (n - 1) as nat);
    }
}

/// One step never lowers a counter.
pub proof fn lemma_step_counters(s: StepState)
    requires
        s.wf(),
    ensures
        s.step().comparison_count >= s.comparison_count,
        s.step().swap_count >= s.swap_count,
{
}

/// From one `shuffle` to the next, the counters never fall.
pub proof fn lemma_counters_never_fall(s: StepState, n: nat)
    requires
        s.wf(),
    ensures
        s.run(n).comparison_count >= s.comparison_count,
        s.run(n).swap_count >= s.swap_count,
    decreases n,
{
    if n > 0 {
        lemma_counters_never_fall(s, (n - 1) as nat);
        lemma_run_wf(s, (n - 1) as nat);
        lemma_step_counters(s.run((n - 1) as nat));
    }
}

/// At the step that completes a run, `correct` says whether the values are
/// in order at that moment.
pub proof fn lemma_correct_on_completion(s: StepState)
    requires
        !s.sorted,
        s.step().sorted,
    ensures
        s.step().correct == is_non_decreasing(s.step().elements),
{
}

/// One step keeps every value, each as often as before.
pub proof fn lemma_step_values(s: StepState)
    requires
        s.wf(),
    ensures
        s.step().elements.len() == s.elements.len(),
        s.step().elements.to_multiset() == s.elements.to_multiset(),
{
    if !s.sort_type.implemented() || s.sorted {
    } else if s.sort_type == SortType::Insertion {
        if s.index != 0 && s.index < s.elements.len() && s.active_elements.len() == 2 {
            lemma_swapped_multiset(
                s.elements,
                s.active_elements[0] as int,
                s.active_elements[1] as int,
            );
        }
    } else {
        if s.gap != 0 && s.active_elements.len() != 0 {
            lemma_batch(s.index, s.gap, s.elements.len());
            lemma_sweep(s.elements, s.index, s.gap, s.active_elements.len());
        }
    }
}

/// However many steps are taken, the values are those of the start of the
/// run, each as often as then: none is made up, lost or doubled.
pub proof fn lemma_values_preserved(s: StepState, n: nat)
    requires
        s.wf(),
    ensures
        s.run(n).elements.len() == s.elements.len(),
        s.run(n).elements.to_multiset() == s.elements.to_multiset(),
    decreases n,
{
    if n > 0 {
        lemma_values_preserved(s, (n - 1) as nat);
        lemma_run_wf(s, (n - 1) as nat);
        lemma_step_values(s.run((n - 1) as nat));
    }
}

/// What an insertion sort in progress has achieved. Between two pairs, the
/// values before the cursor are in order. While a pair is open, the values
/// up to the cursor are in order but for the second of the pair, which is
/// on its way down and no larger than any value it has passed.
pub open spec fn insertion_progress(s: StepState) -> bool {
    if s.active_elements.len() == 0 {
        forall|a: int, b: int|
            0 <= a <= b < s.index && b < s.elements.len() ==> s.elements[a] <= s.elements[b]
    } else {
        let moving = s.active_elements[1] as int;
        &&& ordered_around(s.elements, (s.index + 1) as int, moving)
        &&& forall|k: int| moving < k <= s.index ==> s.elements[moving] <= s.elements[k]
    }
}

/// A step of the insertion sort keeps what has been achieved, and the step
/// that completes the run finds the values in order.
pub proof fn lemma_insertion_step_progress(s: StepState)
    requires
        s.wf(),
        s.sort_type == SortType::Insertion,
        !s.sorted,
        insertion_progress(s),
    ensures
        s.step().sorted ==> s.step().correct,
        !s.step().sorted ==> insertion_progress(s.step()),
{
}

/// The insertion sort sorts: whenever a run that began on any arrangement
/// of the values is complete, the values are in order.
pub proof fn lemma_insertion_sorts(s: StepState, n: nat)
    requires
        s.wf(),
        s.sort_type == SortType::Insertion,
        !s.sorted,
        s.index == 0,
    ensures
        s.run(n).sorted ==> s.run(n).correct && is_non_decreasing(s.run(n).elements),
        !s.run(n).sorted ==> insertion_progress(s.run(n)),
        s.run(n).sort_type == SortType::Insertion,
    decreases n,
{
    if n > 0 {
        let before = s.run((n - 1) as nat);
        lemma_insertion_sorts(s, (n - 1) as nat);
        lemma_run_wf(s, (n - 1) as nat);
        lemma_run_wf(s, n);
        if !before.sorted {
            lemma_insertion_step_progress(before);
        }
    }
}

/// Taking `a` steps and then `b` is taking `a + b`.
pub proof fn lemma_run_add(s: StepState, a: nat, b: nat)
    ensures
        s.run(a + b) == s.run(a).run(b),
    decreases b,
{
    if b > 0 {
        lemma_run_add(s, a, (b - 1) as nat);
        assert(s.run(a + b) == s.run((a + b - 1) as nat).step());
    }
}

/// A bound on the steps that a run in progress still takes. It counts, for
/// the insertion sort, a full descent for every value from the cursor on;
/// for the shell sort, a pass over every position for every gap still due.
pub open spec fn steps_left(s: StepState) -> nat {
    let n = s.elements.len();
    if s.sorted || !s.sort_type.implemented() {
        0
    } else if s.sort_type == SortType::Insertion {
        let index = if s.index == 0 {
            1
        } else {
            s.index
        };
        if s.active_elements.len() != 0 {
            ((n - index - 1) * (n + 2) + s.active_elements[0] + 3) as nat
        } else if index >= n {
            1
        } else {
            ((n - index) * (n + 2) + 1) as nat
        }
    } else {
        let gap = if s.gap == 0 {
            n / 2
        } else {
            s.gap
        };
        let index = if s.gap == 0 {
            0
        } else {
            s.index
        };
        if gap == 0 {
            1
        } else if s.active_elements.len() != 0 {
            (gap * (2 * n + 4) + 2 * (n - index) + 1) as nat
        } else {
            (gap * (2 * n + 4) + 2 * (n - index) + 2) as nat
        }
    }
}

/// Every step of a run in progress brings completion nearer.
pub proof fn lemma_step_makes_headway(s: StepState)
    requires
        s.wf(),
        s.sort_type.implemented(),
        !s.sorted,
    ensures
        steps_left(s.step()) < steps_left(s),
{
    let n = s.elements.len() as int;
    let t = s.step();
    lemma_step_wf(s);
    if s.sort_type == SortType::Insertion {
        let index = if s.index == 0 {
            1
        } else {
            s.index as int
        };
        if index >= n {
        } else if s.active_elements.len() == 0 {
            assert((n - index - 1) * (n + 2) == (n - index) * (n + 2) - (n + 2))
                by (nonlinear_arith);
        } else {
            assert((n - index - 1) * (n + 2) >= 0) by (nonlinear_arith)
                requires
                    index < n,
                    n >= 0,
            ;
            assert((n - (index + 1)) * (n + 2) == (n - index - 1) * (n + 2));
        }
    } else {
        let gap = if s.gap == 0 {
            n / 2
        } else {
            s.gap as int
        };
        let index = if s.gap == 0 {
            0
        } else {
            s.index as int
        };
        if gap == 0 {
        } else if s.active_elements.len() == 0 {
            if index + gap * 2 > n {
                if gap != 1 {
                    let halved = gap / 2;
                    assert(halved * (2 * n + 4) + (2 * n + 4) <= gap * (2 * n + 4))
                        by (nonlinear_arith)
                        requires
                            halved + 1 <= gap,
                            n >= 0,
                    ;
                } else {
                    assert(gap * (2 * n + 4) >= 0) by (nonlinear_arith)
                        requires
                            gap >= 0,
                            n >= 0,
                    ;
                }
            } else {
                lemma_batch(index as nat, gap as nat, n as nat);
                assert((n - index) / gap >= 1) by (nonlinear_arith)
                    requires
                        gap >= 1,
                        index + 2 * gap <= n,
                ;
            }
        } else {
            lemma_batch(s.index, s.gap, s.elements.len());
            lemma_sweep(s.elements, s.index, s.gap, s.active_elements.len());
        }
    }
}

/// A run ends: from any state of an engine whose algorithm has a stepping
/// policy, `steps_left` steps complete the run, and so do more.
pub proof fn lemma_run_completes(s: StepState, n: nat)
    requires
        s.wf(),
        s.sort_type.implemented(),
        n >= steps_left(s),
    ensures
        s.run(n).sorted,
    decreases steps_left(s),
{
    if s.sorted {
        lemma_completed_run_stays(s, n);
    } else {
        lemma_step_makes_headway(s);
        lemma_step_wf(s);
        lemma_run_completes(s.step(), (n - 1) as nat);
        lemma_run_add(s, 1, (n - 1) as nat);
        assert(s.run(1) == s.run(0).step());
    }
}

/// An algorithm without a stepping policy never moves: whatever is asked of
/// it, the values and the counters stay as they are.
pub proof fn lemma_unimplemented_never_moves(s: StepState, n: nat)
    requires
        !s.sort_type.implemented(),
    ensures
        s.run(n) == s,
    decreases n,
{
    if n > 0 {
        lemma_unimplemented_never_moves(s, (n - 1) as nat);
    }
}

} // verus!
