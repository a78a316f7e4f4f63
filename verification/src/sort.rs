//! The engine: a sort that advances by one unit of work per call.

use vstd::prelude::*;
use crate::dataset::{baseline, is_non_decreasing, Dataset};
use crate::metrics::{indexed, Metrics};
use crate::laws::{lemma_step_counters, lemma_step_values};
use crate::model::{
    batch, lemma_batch, lemma_step_wf, lemma_sweep, raised, sweep, SortType, StepState, Sweep,
};

verus! {

/// Why the engine refuses a request.
#[derive(Clone, Copy, Debug, PartialEq, Eq, Structural)]
pub enum SortError {
    /// The chosen algorithm has no stepping policy.
    NotImplemented,
    /// An engine needs at least one value.
    InvalidConfiguration,
}

/// A sorting engine that can be paused after every unit of work.
pub struct SortingVisualization {
    dataset: Dataset,
    active_elements: Vec<usize>,
    index: usize,
    gap: usize,
    comparison_count: u32,
    swap_count: u32,
    sorted: bool,
    correct: bool,
    sort_type: SortType,
    auto_sort: bool,
}

impl View for SortingVisualization {
    type V = StepState;

    closed spec fn view(&self) -> StepState {
        StepState {
            elements: self.dataset@,
            active_elements: self.active_elements@,
            index: self.index as nat,
            gap: self.gap as nat,
            comparison_count: self.comparison_count as nat,
            swap_count: self.swap_count as nat,
            sorted: self.sorted,
            correct: self.correct,
            sort_type: self.sort_type,
            auto_sort: self.auto_sort,
        }
    }
}

/// What a sweep has counted, in machine integers.
struct Tally {
    comparisons: usize,
    swaps: usize,
    advance: usize,
}

impl Tally {
    /// The tally beside the values it was counted on.
    spec fn with(self, elements: Seq<u32>) -> Sweep {
        Sweep {
            elements,
            comparisons: self.comparisons as nat,
            swaps: self.swaps as nat,
            advance: self.advance as nat,
        }
    }
}

/// `count` raised by `by`, held at the largest value a `u32` can take.
fn raise(count: u32, by: usize) -> (r: u32)
    ensures
        r == raised(count as nat, by as nat),
{
    if by >= (u32::MAX - count) as usize {
        u32::MAX
    } else {
        count + by as u32
    }
}

/// The positions of the batch that opens at `index` with stride `gap`.
fn batch_positions(index: usize, gap: usize, n: usize) -> (v: Vec<usize>)
    requires
        gap > 0,
        index <= n,
    ensures
        v@ == batch(index as nat, gap as nat, n as nat),
{
    let count = (n - index) / gap;
    let mut v: Vec<usize> = Vec::new();
    let mut i: usize = 0;
    proof {
        lemma_batch(index as nat, gap as nat, n as nat);
    }
    while i < count
        invariant
            gap > 0,
            index <= n,
            i <= count,
            count == batch(index as nat, gap as nat, n as nat).len(),
            v@.len() == i,
            forall|k: int| 0 <= k < i ==> v@[k] == batch(index as nat, gap as nat, n as nat)[k],
            forall|k: int|
                0 <= k < count ==> #[trigger] batch(index as nat, gap as nat, n as nat)[k] == k
                    * gap + index && batch(index as nat, gap as nat, n as nat)[k] < n,
        decreases count - i,
    {
        assert(batch(index as nat, gap as nat, n as nat)[i as int] == i * gap + index);
        assert(0 <= i * gap) by (nonlinear_arith)
            requires
                0 <= i,
                0 < gap,
        ;
        v.push(i * gap + index);
        i = i + 1;
    }
    assert(v@ =~= batch(index as nat, gap as nat, n as nat));
    v
}

/// Sweeps once over `active`: each entry with a partner `gap` further on is
/// compared with it, and the two are exchanged where the first is larger.
fn sweep_batch(dataset: &mut Dataset, active: &Vec<usize>, gap: usize) -> (tally: Tally)
    requires
        old(dataset).wf(),
    ensures
        final(dataset).wf(),
        tally.with(final(dataset)@) == sweep(old(dataset)@, active@, gap as nat, active@.len()),
{
    let n = dataset.len();
    let mut tally = Tally { comparisons: 0, swaps: 0, advance: 0 };
    let mut i: usize = 0;
    while i < active.len()
        invariant
            i <= active@.len(),
            dataset.wf(),
            n == dataset@.len(),
            n == old(dataset)@.len(),
            tally.comparisons <= i,
            tally.swaps <= i,
            tally.advance <= i,
            tally.with(dataset@) == sweep(old(dataset)@, active@, gap as nat, i as nat),
        decreases active@.len() - i,
    {
        let p = active[i];
        if p < n && gap < n - p {
            tally.comparisons = tally.comparisons + 1;
            if dataset.get(p) > dataset.get(p + gap) {
                tally.swaps = tally.swaps + 1;
                dataset.swap(p, p + gap);
            } else {
                tally.advance = tally.advance + 1;
            }
        }
        i = i + 1;
    }
    tally
}

impl SortingVisualization {
    /// Well-formedness: the state is one that construction, `shuffle` and
    /// `step` can reach.
    pub open spec fn wf(&self) -> bool {
        self@.wf()
    }

    /// An engine for `sort_type` at the start of a run on the ascending
    /// baseline of `element_count` values.
    ///
    /// Fails with `InvalidConfiguration` where `element_count` is zero.
    pub fn new(sort_type: SortType, element_count: u32) -> (r: Result<SortingVisualization, SortError>)
        ensures
            element_count == 0 ==> r == Err::<SortingVisualization, SortError>(
                SortError::InvalidConfiguration,
            ),
            element_count != 0 ==> r is Ok && r->Ok_0.wf() && r->Ok_0@ == StepState::fresh(
                baseline(element_count as nat),
                sort_type,
                false,
            ),
    {
        SortingVisualization::with_dataset(sort_type, Dataset::new(element_count))
    }

    /// An engine for `sort_type` at the start of a run on `dataset`.
    ///
    /// Fails with `InvalidConfiguration` where `dataset` is empty.
    pub fn with_dataset(sort_type: SortType, dataset: Dataset) -> (r: Result<
        SortingVisualization,
        SortError,
    >)
        requires
            dataset.wf(),
        ensures
            dataset@.len() == 0 ==> r == Err::<SortingVisualization, SortError>(
                SortError::InvalidConfiguration,
            ),
            dataset@.len() != 0 ==> r is Ok && r->Ok_0.wf() && r->Ok_0@ == StepState::fresh(
                dataset@,
                sort_type,
                false,
            ),
    {
        if dataset.len() == 0 {
            return Err(SortError::InvalidConfiguration);
        }
        let engine = SortingVisualization {
            dataset,
            active_elements: Vec::new(),
            index: 0,
            gap: 0,
            comparison_count: 0,
            swap_count: 0,
            sorted: false,
            correct: false,
            sort_type,
            auto_sort: false,
        };
        assert(engine@ =~~= StepState::fresh(dataset@, sort_type, false));
        Ok(engine)
    }

    /// Abandons whatever is in progress and starts a new run on a random
    /// rearrangement of the values.
    pub fn shuffle(&mut self)
        requires
            old(self).wf(),
        ensures
            final(self).wf(),
            final(self)@ == old(self)@.restarted(final(self)@.elements),
            final(self)@.elements.len() == old(self)@.elements.len(),
            final(self)@.elements.to_multiset() == old(self)@.elements.to_multiset(),
    {
        self.dataset.shuffle();
        self.sorted = false;
        self.correct = false;
        self.index = 0;
        self.comparison_count = 0;
        self.swap_count = 0;
        self.active_elements.clear();
        self.gap = 0;
        assert(self@ =~~= old(self)@.restarted(self@.elements));
    }

    /// Performs one unit of work.
    ///
    /// An algorithm without a stepping policy fails with `NotImplemented`
    /// and leaves the engine as it was. Otherwise the call succeeds: a
    /// completed run stays as it is, a run in progress moves on by one step
    /// of its policy.
    pub fn step(&mut self) -> (r: Result<(), SortError>)
        requires
            old(self).wf(),
        ensures
            final(self).wf(),
            final(self)@ == old(self)@.step(),
            r == if old(self)@.sort_type.implemented() {
                Ok::<(), SortError>(())
            } else {
                Err::<(), SortError>(SortError::NotImplemented)
            },
            r is Err || old(self)@.sorted ==> final(self)@ == old(self)@,
            final(self)@.sort_type == old(self)@.sort_type,
            final(self)@.auto_sort == old(self)@.auto_sort,
            final(self)@.elements.len() == old(self)@.elements.len(),
            final(self)@.elements.to_multiset() == old(self)@.elements.to_multiset(),
            final(self)@.comparison_count >= old(self)@.comparison_count,
            final(self)@.swap_count >= old(self)@.swap_count,
            final(self)@.sorted && !old(self)@.sorted ==> final(self)@.correct == is_non_decreasing(
                final(self)@.elements,
            ),
    {
        proof {
            lemma_step_wf(self@);
            lemma_step_values(self@);
            lemma_step_counters(self@);
        }
        match self.sort_type {
            SortType::Insertion => {
                if !self.sorted {
                    self.stepable_insertion_sort();
                }
                Ok(())
            },
            SortType::Shell => {
                if !self.sorted {
                    self.stepable_shell_sort();
                }
                Ok(())
            },
            SortType::Merge => self.stepable_merge_sort(),
            SortType::Quick => self.stepable_quick_sort(),
        }
    }

    /// Whether the algorithm has certified completion.
    pub fn is_sorted(&self) -> (b: bool)
        ensures
            b == self@.sorted,
    {
        self.sorted
    }

    /// Whether the driver is asked to step on every tick.
    pub fn auto_mode(&self) -> (b: bool)
        ensures
            b == self@.auto_sort,
    {
        self.auto_sort
    }

    /// Asks the driver to step on every tick, or to stop doing so. Nothing
    /// else changes.
    pub fn set_auto_mode(&mut self, enabled: bool)
        ensures
            final(self)@ == (StepState { auto_sort: enabled, ..old(self)@ }),
            old(self).wf() ==> final(self).wf(),
    {
        self.auto_sort = enabled;
    }

    /// The algorithm in use.
    pub fn sort_type(&self) -> (t: SortType)
        ensures
            t == self@.sort_type,
    {
        self.sort_type
    }

    /// Number of values.
    pub fn element_count(&self) -> (n: usize)
        ensures
            n == self@.elements.len(),
    {
        self.dataset.len()
    }

    /// Cursor of the outer pass.
    pub fn index(&self) -> (i: usize)
        ensures
            i == self@.index,
    {
        self.index
    }

    /// Stride of the shell sort; `0` before the first step of a run.
    pub fn gap(&self) -> (g: usize)
        ensures
            g == self@.gap,
    {
        self.gap
    }

    /// A copy of what a renderer may know of the engine at this moment.
    pub fn snapshot(&self) -> (m: Metrics)
        ensures
            m.sort_type == self@.sort_type,
            m.comparison_count == self@.comparison_count,
            m.swap_count == self@.swap_count,
            m.active_elements@ == self@.active_elements,
            m.index == self@.index,
            m.sorted == self@.sorted,
            m.correct == self@.correct,
            m.elements@ == indexed(self@.elements),
            self.wf() ==> m.wf(),
    {
        let n = self.dataset.len();
        let mut elements: Vec<(usize, u32)> = Vec::new();
        let mut i: usize = 0;
        while i < n
            invariant
                i <= n,
                n == self.dataset@.len(),
                elements@.len() == i,
                forall|k: int| 0 <= k < i ==> elements@[k] == (k as usize, self.dataset@[k]),
            decreases n - i,
        {
            elements.push((i, self.dataset.get(i)));
            i = i + 1;
        }
        assert(elements@ =~= indexed(self@.elements));
        Metrics {
            sort_type: self.sort_type,
            comparison_count: self.comparison_count,
            swap_count: self.swap_count,
            active_elements: self.active_elements.clone(),
            index: self.index,
            sorted: self.sorted,
            correct: self.correct,
            elements,
        }
    }

    /// Certifies completion.
    fn set_sorted(&mut self)
        ensures
            final(self)@ == old(self)@.finished(),
    {
        self.active_elements.clear();
        self.index = 0;
        self.gap = 0;
        self.sorted = true;
        self.correct = self.dataset.is_non_decreasing();
        assert(self@ =~~= old(self)@.finished());
    }

    /// One step of the insertion sort.
    fn stepable_insertion_sort(&mut self)
        requires
            old(self).wf(),
            !old(self)@.sorted,
            old(self)@.sort_type == SortType::Insertion,
        ensures
            final(self)@ == old(self)@.insertion_step(),
    {
        if self.index == 0 {
            self.index = 1;
            self.comparison_count = 0;
            self.swap_count = 0;
        }
        if self.index >= self.dataset.len() {
            self.set_sorted();
        } else if self.active_elements.len() == 0 {
            self.active_elements.push(self.index - 1);
            self.active_elements.push(self.index);
            assert(self@.active_elements =~= old(self)@.insertion_step().active_elements);
            assert(self@ =~~= old(self)@.insertion_step());
        } else {
            let first = self.active_elements[0];
            let second = self.active_elements[1];
            self.comparison_count = self.comparison_count.saturating_add(1);
            if self.dataset.get(first) > self.dataset.get(second) {
                self.swap_count = self.swap_count.saturating_add(1);
                self.dataset.swap(first, second);
                if first == 0 {
                    self.active_elements.clear();
                    self.index = self.index + 1;
                } else {
                    self.active_elements.set(0, first - 1);
                    self.active_elements.set(1, second - 1);
                }
            } else {
                self.active_elements.clear();
                self.index = self.index + 1;
            }
            assert(self@.active_elements =~= old(self)@.insertion_step().active_elements);
            assert(self@ =~~= old(self)@.insertion_step());
        }
    }

    /// One step of the shell sort.
    fn stepable_shell_sort(&mut self)
        requires
            old(self).wf(),
            !old(self)@.sorted,
            old(self)@.sort_type == SortType::Shell,
        ensures
            final(self)@ == old(self)@.shell_step(),
    {
        let n = self.dataset.len();
        if self.gap == 0 {
            self.gap = n / 2;
            self.comparison_count = 0;
            self.swap_count = 0;
            self.index = 0;
        }
        if self.gap == 0 {
            self.set_sorted();
        } else if self.active_elements.len() == 0 {
            if self.gap * 2 > n - self.index {
                if self.gap == 1 {
                    self.set_sorted();
                } else {
                    self.gap = self.gap / 2;
                    self.index = 0;
                }
            } else {
                self.active_elements = batch_positions(self.index, self.gap, n);
            }
            assert(self@ =~~= old(self)@.shell_step());
        } else {
            proof {
                lemma_sweep(self@.elements, self@.index, self@.gap, self@.active_elements.len());
            }
            let tally = sweep_batch(&mut self.dataset, &self.active_elements, self.gap);
            self.comparison_count = raise(self.comparison_count, tally.comparisons);
            self.swap_count = raise(self.swap_count, tally.swaps);
            self.index = self.index + tally.advance + 1;
            self.active_elements.clear();
            assert(self@ =~~= old(self)@.shell_step());
        }
    }

    /// The merge sort has no stepping policy.
    fn stepable_merge_sort(&mut self) -> (r: Result<(), SortError>)
        ensures
            final(self)@ == old(self)@,
            r == Err::<(), SortError>(SortError::NotImplemented),
    {
        Err(SortError::NotImplemented)
    }

    /// The quick sort has no stepping policy.
    fn stepable_quick_sort(&mut self) -> (r: Result<(), SortError>)
        ensures
            final(self)@ == old(self)@,
            r == Err::<(), SortError>(SortError::NotImplemented),
    {
        Err(SortError::NotImplemented)
    }
}

} // verus!
