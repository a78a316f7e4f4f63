//! Sorts that run to completion in one call.
//!
//! Each leaves the values it was given in non-decreasing order, every value
//! as often as before.

use vstd::prelude::*;
use vstd::seq_lib::{lemma_multiset_commutative, to_multiset_build};
use crate::dataset::{is_non_decreasing, lemma_swapped_multiset, swapped};

verus! {

/// `s` is in order on the positions below `end`, the position `hole` left
/// out of account.
pub open spec fn ordered_around(s: Seq<u32>, end: int, hole: int) -> bool {
    forall|a: int, b: int| 0 <= a <= b < end && a != hole && b != hole ==> s[a] <= s[b]
}

/// Filling the hole at `j` from position `k`, and leaving the hole at `k`,
/// keeps what the values amount to once `value` fills the hole.
pub proof fn lemma_shift_multiset(s: Seq<u32>, j: int, k: int, value: u32)
    requires
        0 <= j < s.len(),
        0 <= k < s.len(),
    ensures
        s.update(j, s[k]).update(k, value).to_multiset() == s.update(j, value).to_multiset(),
{
    let filled = s.update(j, value);
    lemma_swapped_multiset(filled, j, k);
    if j != k {
        assert(swapped(filled, j, k) =~= s.update(j, s[k]).update(k, value));
    } else {
        assert(s.update(j, s[k]).update(k, value) =~= filled);
    }
}

/// A sequence cut in two holds what its two parts hold.
pub proof fn lemma_split_multiset(s: Seq<u32>, mid: int)
    requires
        0 <= mid <= s.len(),
    ensures
        s.to_multiset() == s.subrange(0, mid).to_multiset().add(
            s.subrange(mid, s.len() as int).to_multiset(),
        ),
{
    lemma_multiset_commutative(s.subrange(0, mid), s.subrange(mid, s.len() as int));
    assert(s =~= s.subrange(0, mid) + s.subrange(mid, s.len() as int));
}

/// Sorts `elements` by insertion: each value in turn is moved down, past
/// every larger value before it.
pub fn insertion_sort(elements: &mut Vec<u32>)
    ensures
        final(elements)@.len() == old(elements)@.len(),
        final(elements)@.to_multiset() == old(elements)@.to_multiset(),
        is_non_decreasing(final(elements)@),
{
    let n = elements.len();
    let mut i: usize = 1;
    while i < n
        invariant
            1 <= i,
            elements@.len() == n,
            elements@.to_multiset() == old(elements)@.to_multiset(),
            forall|a: int, b: int| 0 <= a <= b < i && b < n ==> elements@[a] <= elements@[b],
        decreases n - i,
    {
        let temp = elements[i];
        let mut j: usize = i;
        assert(elements@.update(j as int, temp) =~= elements@);
        while j > 0 && elements[j - 1] > temp
            invariant
                j <= i < n,
                elements@.len() == n,
                elements@.update(j as int, temp).to_multiset() == old(elements)@.to_multiset(),
                ordered_around(elements@, i + 1, j as int),
                forall|k: int| j < k <= i ==> elements@[k] > temp,
            decreases j,
        {
            proof {
                lemma_shift_multiset(elements@, j as int, j - 1, temp);
            }
            let below = elements[j - 1];
            elements.set(j, below);
            j = j - 1;
        }
        elements.set(j, temp);
        i = i + 1;
    }
}

/// One pass of the shell sort: an insertion sort on every chain of values
/// that stand `gap` apart.
fn gapped_pass(elements: &mut Vec<u32>, gap: usize)
    requires
        gap > 0,
    ensures
        final(elements)@.len() == old(elements)@.len(),
        final(elements)@.to_multiset() == old(elements)@.to_multiset(),
        gap == 1 ==> is_non_decreasing(final(elements)@),
{
    let n = elements.len();
    let mut i: usize = gap;
    while i < n
        invariant
            gap > 0,
            gap <= i,
            elements@.len() == n,
            elements@.to_multiset() == old(elements)@.to_multiset(),
            gap == 1 ==> forall|a: int, b: int|
                0 <= a <= b < i && b < n ==> elements@[a] <= elements@[b],
        decreases n - i,
    {
        let temp = elements[i];
        let mut j: usize = i;
        assert(elements@.update(j as int, temp) =~= elements@);
        while j >= gap && elements[j - gap] > temp
            invariant
                gap > 0,
                j <= i < n,
                elements@.len() == n,
                elements@.update(j as int, temp).to_multiset() == old(elements)@.to_multiset(),
                gap == 1 ==> ordered_around(elements@, i + 1, j as int),
                gap == 1 ==> forall|k: int| j < k <= i ==> elements@[k] > temp,
            decreases j,
        {
            proof {
                lemma_shift_multiset(elements@, j as int, j - gap, temp);
            }
            let below = elements[j - gap];
            elements.set(j, below);
            j = j - gap;
        }
        elements.set(j, temp);
        i = i + 1;
    }
}

/// Sorts `elements` by the shell sort: passes of insertion on chains that
/// stand a gap apart, the gap starting at half the length and halving down
/// to one.
pub fn shell_sort(elements: &mut Vec<u32>)
    ensures
        final(elements)@.len() == old(elements)@.len(),
        final(elements)@.to_multiset() == old(elements)@.to_multiset(),
        is_non_decreasing(final(elements)@),
{
    let mut gap = elements.len() / 2;
    while gap > 0
        invariant
            elements@.len() == old(elements)@.len(),
            elements@.to_multiset() == old(elements)@.to_multiset(),
            gap == 0 ==> is_non_decreasing(elements@),
        decreases gap,
    {
        gapped_pass(elements, gap);
        gap = gap / 2;
    }
}

/// A copy of the values of `source` from position `from` up to `to`.
fn copy_range(source: &Vec<u32>, from: usize, to: usize) -> (copy: Vec<u32>)
    requires
        from <= to <= source@.len(),
    ensures
        copy@ == source@.subrange(from as int, to as int),
{
    let mut copy: Vec<u32> = Vec::new();
    let mut i: usize = from;
    while i < to
        invariant
            from <= i <= to <= source@.len(),
            copy@ == source@.subrange(from as int, i as int),
        decreases to - i,
    {
        copy.push(source[i]);
        assert(copy@ =~= source@.subrange(from as int, i + 1));
        i = i + 1;
    }
    copy
}

/// What merging has put into the first `k` places of `merged`: the first
/// `i` values of `left` and the first `j` of `right`, in order, none above
/// what is still to come.
spec fn merged_so_far(
    merged: Seq<u32>,
    left: Seq<u32>,
    right: Seq<u32>,
    i: int,
    j: int,
    k: int,
) -> bool {
    &&& k == i + j
    &&& 0 <= i <= left.len()
    &&& 0 <= j <= right.len()
    &&& merged.len() == left.len() + right.len()
    &&& merged.take(k).to_multiset() == left.take(i).to_multiset().add(right.take(j).to_multiset())
    &&& is_non_decreasing(merged.take(k))
    &&& k > 0 && i < left.len() ==> merged[k - 1] <= left[i]
    &&& k > 0 && j < right.len() ==> merged[k - 1] <= right[j]
}

/// Before anything is placed, the merge is in step.
proof fn lemma_merge_start(merged: Seq<u32>, left: Seq<u32>, right: Seq<u32>)
    requires
        merged.len() == left.len() + right.len(),
    ensures
        merged_so_far(merged, left, right, 0, 0, 0),
{
    broadcast use vstd::multiset::group_multiset_axioms;

    let none = Seq::<u32>::empty();
    assert(merged.take(0) =~= none);
    assert(left.take(0) =~= none);
    assert(right.take(0) =~= none);
    none.to_multiset_ensures();
    vstd::multiset::lemma_multiset_empty_len(none.to_multiset());
    assert(none.to_multiset().add(none.to_multiset()) =~= none.to_multiset());
}

/// Placing the next value of `left` keeps the merge in step.
proof fn lemma_take_left(
    before: Seq<u32>,
    left: Seq<u32>,
    right: Seq<u32>,
    i: int,
    j: int,
    k: int,
)
    requires
        merged_so_far(before, left, right, i, j, k),
        is_non_decreasing(left),
        i < left.len(),
        j < right.len() ==> left[i] <= right[j],
    ensures
        merged_so_far(before.update(k, left[i]), left, right, i + 1, j, k + 1),
{
    broadcast use vstd::multiset::group_multiset_axioms;

    let after = before.update(k, left[i]);
    assert(after.take(k + 1) =~= before.take(k).push(left[i]));
    assert(left.take(i + 1) =~= left.take(i).push(left[i]));
    to_multiset_build(before.take(k), left[i]);
    to_multiset_build(left.take(i), left[i]);
    assert(after.take(k + 1).to_multiset() =~= left.take(i + 1).to_multiset().add(
        right.take(j).to_multiset(),
    ));
    let placed = after.take(k + 1);
    assert forall|a: int, b: int| 0 <= a <= b < placed.len() implies placed[a] <= placed[b] by {
        if b < k {
            assert(before.take(k)[a] <= before.take(k)[b]);
        } else if a < k {
            assert(before.take(k)[a] <= before.take(k)[k - 1]);
        }
    }
}

/// Placing the next value of `right` keeps the merge in step.
proof fn lemma_take_right(
    before: Seq<u32>,
    left: Seq<u32>,
    right: Seq<u32>,
    i: int,
    j: int,
    k: int,
)
    requires
        merged_so_far(before, left, right, i, j, k),
        is_non_decreasing(right),
        j < right.len(),
        i < left.len() ==> right[j] <= left[i],
    ensures
        merged_so_far(before.update(k, right[j]), left, right, i, j + 1, k + 1),
{
    broadcast use vstd::multiset::group_multiset_axioms;

    let after = before.update(k, right[j]);
    assert(after.take(k + 1) =~= before.take(k).push(right[j]));
    assert(right.take(j + 1) =~= right.take(j).push(right[j]));
    to_multiset_build(before.take(k), right[j]);
    to_multiset_build(right.take(j), right[j]);
    assert(after.take(k + 1).to_multiset() =~= left.take(i).to_multiset().add(
        right.take(j + 1).to_multiset(),
    ));
    let placed = after.take(k + 1);
    assert forall|a: int, b: int| 0 <= a <= b < placed.len() implies placed[a] <= placed[b] by {
        if b < k {
            assert(before.take(k)[a] <= before.take(k)[b]);
        } else if a < k {
            assert(before.take(k)[a] <= before.take(k)[k - 1]);
        }
    }
}

/// Sorts `elements` by merging: each half is sorted by itself, and the two
/// are merged, a value of the second half going first where the two heads
/// are equal.
pub fn merge_sort(elements: &mut Vec<u32>)
    ensures
        final(elements)@.len() == old(elements)@.len(),
        final(elements)@.to_multiset() == old(elements)@.to_multiset(),
        is_non_decreasing(final(elements)@),
    decreases old(elements)@.len(),
{
    let n = elements.len();
    let mid = n / 2;
    if mid > 0 {
        let mut left = copy_range(elements, 0, mid);
        let mut right = copy_range(elements, mid, n);
        proof {
            lemma_split_multiset(elements@, mid as int);
        }
        merge_sort(&mut left);
        merge_sort(&mut right);
        let mut i: usize = 0;
        let mut j: usize = 0;
        let mut k: usize = 0;
        proof {
            lemma_merge_start(elements@, left@, right@);
        }
        while i < left.len() && j < right.len()
            invariant
                merged_so_far(elements@, left@, right@, i as int, j as int, k as int),
                is_non_decreasing(left@),
                is_non_decreasing(right@),
                left@.len() + right@.len() == n,
            decreases n - k,
        {
            if left[i] < right[j] {
                proof {
                    lemma_take_left(elements@, left@, right@, i as int, j as int, k as int);
                }
                elements.set(k, left[i]);
                i = i + 1;
            } else {
                proof {
                    lemma_take_right(elements@, left@, right@, i as int, j as int, k as int);
                }
                elements.set(k, right[j]);
                j = j + 1;
            }
            k = k + 1;
        }
        while i < left.len()
            invariant
                merged_so_far(elements@, left@, right@, i as int, j as int, k as int),
                is_non_decreasing(left@),
                is_non_decreasing(right@),
                left@.len() + right@.len() == n,
                i == left@.len() || j == right@.len(),
            decreases n - k,
        {
            proof {
                lemma_take_left(elements@, left@, right@, i as int, j as int, k as int);
            }
            elements.set(k, left[i]);
            i = i + 1;
            k = k + 1;
        }
        while j < right.len()
            invariant
                merged_so_far(elements@, left@, right@, i as int, j as int, k as int),
                is_non_decreasing(left@),
                is_non_decreasing(right@),
                left@.len() + right@.len() == n,
                i == left@.len(),
            decreases n - k,
        {
            proof {
                lemma_take_right(elements@, left@, right@, i as int, j as int, k as int);
            }
            elements.set(k, right[j]);
            j = j + 1;
            k = k + 1;
        }
        proof {
            assert(elements@.take(k as int) =~= elements@);
            assert(left@.take(i as int) =~= left@);
            assert(right@.take(j as int) =~= right@);
        }
    } else {
        assert(is_non_decreasing(elements@));
    }
}

} // verus!
