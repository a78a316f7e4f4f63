//! A read-only picture of an engine's progress.

use vstd::prelude::*;
use crate::dataset::ELEMENT_MAX;
use crate::model::SortType;

verus! {

/// The values of `s`, each paired with its position.
pub open spec fn indexed(s: Seq<u32>) -> Seq<(usize, u32)> {
    Seq::new(s.len(), |i: int| (i as usize, s[i]))
}

/// What a renderer or a test harness may know of an engine at a pause.
///
/// A snapshot is a copy: changing it changes nothing in the engine it was
/// taken from.
#[derive(Clone, Debug)]
pub struct Metrics {
    /// The algorithm in use.
    pub sort_type: SortType,
    /// Comparisons made in this run.
    pub comparison_count: u32,
    /// Exchanges made in this run.
    pub swap_count: u32,
    /// Positions under comparison.
    pub active_elements: Vec<usize>,
    /// Cursor of the outer pass.
    pub index: usize,
    /// The algorithm has certified completion.
    pub sorted: bool,
    /// The values were in order when completion was certified. Says nothing
    /// while `sorted` is false.
    pub correct: bool,
    /// Every value with its position, in order of position.
    pub elements: Vec<(usize, u32)>,
}

impl Metrics {
    /// Well-formedness of a snapshot: each value stands beside its own
    /// position and lies below [`ELEMENT_MAX`].
    pub open spec fn wf(&self) -> bool {
        forall|i: int|
            0 <= i < self.elements@.len() ==> (#[trigger] self.elements@[i]).0 == i
                && self.elements@[i].1 < ELEMENT_MAX
    }
}

} // verus!
