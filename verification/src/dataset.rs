//! The values that the engine sorts.

use vstd::prelude::*;
use crate::random::shuffle_values;

verus! {

/// Every value of a dataset lies below this bound.
pub const ELEMENT_MAX: u32 = 512;

/// `s` never steps down from one position to a later one.
pub open spec fn is_non_decreasing(s: Seq<u32>) -> bool {
    forall|i: int, j: int| 0 <= i <= j < s.len() ==> s[i] <= s[j]
}

/// Every value of `s` lies in `[0, ELEMENT_MAX)`.
pub open spec fn in_range(s: Seq<u32>) -> bool {
    forall|i: int| 0 <= i < s.len() ==> s[i] < ELEMENT_MAX
}

/// `count` values spread evenly over `[0, ELEMENT_MAX)`, in ascending order:
/// the value at position `i` is `i * ELEMENT_MAX / count`, rounded down.
pub open spec fn baseline(count: nat) -> Seq<u32> {
    Seq::new(count, |i: int| (i * ELEMENT_MAX / (count as int)) as u32)
}

/// `s` with the values at positions `i` and `j` exchanged.
pub open spec fn swapped(s: Seq<u32>, i: int, j: int) -> Seq<u32> {
    s.update(i, s[j]).update(j, s[i])
}

/// An ordered sequence of values, each below [`ELEMENT_MAX`].
pub struct Dataset {
    elements: Vec<u32>,
}

impl View for Dataset {
    type V = Seq<u32>;

    closed spec fn view(&self) -> Seq<u32> {
        self.elements@
    }
}

/// The baseline of `count` values is in range and in order.
pub proof fn lemma_baseline(count: nat)
    ensures
        baseline(count).len() == count,
        in_range(baseline(count)),
        is_non_decreasing(baseline(count)),
{
    let b = baseline(count);
    let c = count as int;
    assert forall|i: int| 0 <= i < b.len() implies b[i] < ELEMENT_MAX by {
        assert(0 <= i * 512 / c < 512) by (nonlinear_arith)
            requires
                0 <= i < c,
        ;
    }
    assert forall|i: int, j: int| 0 <= i <= j < b.len() implies b[i] <= b[j] by {
        assert(0 <= i * 512 / c <= j * 512 / c < 512) by (nonlinear_arith)
            requires
                0 <= i <= j < c,
        ;
    }
}

/// Exchanging two values keeps every value, each as often as before.
pub proof fn lemma_swapped_multiset(s: Seq<u32>, i: int, j: int)
    requires
        0 <= i < s.len(),
        0 <= j < s.len(),
    ensures
        swapped(s, i, j).len() == s.len(),
        swapped(s, i, j).to_multiset() == s.to_multiset(),
{
    broadcast use vstd::multiset::group_multiset_axioms;

    let mid = s.update(i, s[j]);
    vstd::seq_lib::to_multiset_update(s, i, s[j]);
    vstd::seq_lib::to_multiset_update(mid, j, s[i]);
    s.to_multiset_ensures();
    assert(s.contains(s[i]));
    assert(s.contains(s[j]));
    assert(swapped(s, i, j).to_multiset() =~= s.to_multiset());
}

/// A rearrangement of values that are in range is in range.
pub proof fn lemma_in_range_rearranged(before: Seq<u32>, after: Seq<u32>)
    requires
        in_range(before),
        before.to_multiset() == after.to_multiset(),
    ensures
        in_range(after),
        after.len() == before.len(),
{
    before.to_multiset_ensures();
    after.to_multiset_ensures();
    assert forall|i: int| 0 <= i < after.len() implies after[i] < ELEMENT_MAX by {
        let v = after[i];
        assert(after.contains(v));
        assert(before.to_multiset().count(v) > 0);
        assert(before.contains(v));
        let k = choose|k: int| 0 <= k < before.len() && before[k] == v;
        assert(before[k] < ELEMENT_MAX);
    }
}

impl Dataset {
    /// Well-formedness: every value lies below [`ELEMENT_MAX`].
    pub open spec fn wf(&self) -> bool {
        in_range(self@)
    }

    /// The ascending baseline of `count` values: the value at position `i` is
    /// `i * ELEMENT_MAX / count`.
    pub fn new(count: u32) -> (d: Dataset)
        ensures
            d.wf(),
            d@ == baseline(count as nat),
    {
        let mut elements: Vec<u32> = Vec::new();
        let mut i: u32 = 0;
        while i < count
            invariant
                i <= count,
                elements@.len() == i,
                forall|k: int| 0 <= k < i ==> elements@[k] == baseline(count as nat)[k],
            decreases count - i,
        {
            let wide: u64 = (i as u64) * (ELEMENT_MAX as u64) / (count as u64);
            proof {
                assert(0 <= (i as int) * 512 / (count as int) < 512) by (nonlinear_arith)
                    requires
                        0 <= i < count,
                ;
            }
            elements.push(wide as u32);
            i = i + 1;
        }
        proof {
            lemma_baseline(count as nat);
            assert(elements@ =~= baseline(count as nat));
        }
        Dataset { elements }
    }

    /// The dataset that holds `values` in the order given, or nothing where
    /// one of them reaches [`ELEMENT_MAX`].
    pub fn from_values(values: Vec<u32>) -> (r: Option<Dataset>)
        ensures
            r is Some <==> in_range(values@),
            r matches Some(d) ==> d.wf() && d@ == values@,
    {
        let mut i: usize = 0;
        while i < values.len()
            invariant
                i <= values@.len(),
                forall|k: int| 0 <= k < i ==> values@[k] < ELEMENT_MAX,
            decreases values@.len() - i,
        {
            if values[i] >= ELEMENT_MAX {
                return None;
            }
            i = i + 1;
        }
        Some(Dataset { elements: values })
    }

    /// Number of values.
    pub fn len(&self) -> (n: usize)
        ensures
            n == self@.len(),
    {
        self.elements.len()
    }

    /// The value at position `i`.
    pub fn get(&self, i: usize) -> (v: u32)
        requires
            i < self@.len(),
        ensures
            v == self@[i as int],
    {
        self.elements[i]
    }

    /// A copy of the values, in order.
    pub fn values(&self) -> (v: Vec<u32>)
        ensures
            v@ == self@,
    {
        self.elements.clone()
    }

    /// Exchanges the values at positions `i` and `j`.
    pub fn swap(&mut self, i: usize, j: usize)
        requires
            old(self).wf(),
            i < old(self)@.len(),
            j < old(self)@.len(),
        ensures
            final(self).wf(),
            final(self)@ == swapped(old(self)@, i as int, j as int),
    {
        let a = self.elements[i];
        let b = self.elements[j];
        self.elements.set(i, b);
        self.elements.set(j, a);
    }

    /// Rearranges the values at random. Every value is kept, each as often
    /// as before; the order that comes out is not determined.
    pub fn shuffle(&mut self)
        requires
            old(self).wf(),
        ensures
            final(self).wf(),
            final(self)@.len() == old(self)@.len(),
            final(self)@.to_multiset() == old(self)@.to_multiset(),
    {
        let mut rng = rand::thread_rng();
        shuffle_values(&mut self.elements, &mut rng);
        proof {
            lemma_in_range_rearranged(old(self)@, self@);
        }
    }

    /// Whether no value is followed, anywhere later, by a smaller one.
    pub fn is_non_decreasing(&self) -> (b: bool)
        ensures
            b == is_non_decreasing(self@),
    {
        let n = self.elements.len();
        let mut i: usize = 1;
        while i < n
            invariant
                1 <= i,
                n == self.elements@.len(),
                forall|a: int, b: int| 0 <= a <= b < i && b < n ==> self.elements@[a] <= self.elements@[b],
            decreases n - i,
        {
            if self.elements[i - 1] > self.elements[i] {
                return false;
            }
            i = i + 1;
        }
        true
    }
}

} // verus!
