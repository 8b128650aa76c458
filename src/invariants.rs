//! Invariants that must hold after a sort attempt whatever the comparator did:
//! the elements' sum as a multiset fingerprint, and the observability of every
//! comparison in per-element counters.
use std::cmp::Ordering;
use vstd::prelude::*;
use vstd::seq_lib::{commutative_foldl, lemma_fold_left_permutation};

verus! {

/// The sum of the elements.
pub open spec fn element_sum(s: Seq<i32>) -> int {
    s.fold_left(0int, |acc: int, x: i32| acc + x)
}

proof fn lemma_element_sum_push(s: Seq<i32>, i: int)
    requires
        0 <= i < s.len(),
    ensures
        element_sum(s.take(i + 1)) == element_sum(s.take(i)) + s[i],
{
    assert(s.take(i + 1).drop_last() =~= s.take(i));
}

/// The elements' sum, the fingerprint of their multiset. Each element is at
/// most 2^31 in size, so up to 2^32 of them sum within an `i64`.
pub fn fingerprint(v: &[i32]) -> (r: i64)
    requires
        v@.len() <= u32::MAX,
    ensures
        r == element_sum(v@),
{
    let mut acc: i64 = 0;
    let mut i: usize = 0;
    while i < v.len()
        invariant
            i <= v@.len() <= u32::MAX,
            acc == element_sum(v@.take(i as int)),
            -(i * 2147483648) <= acc <= i * 2147483647,
        decreases v@.len() - i,
    {
        proof {
            lemma_element_sum_push(v@, i as int);
        }
        acc = acc + v[i] as i64;
        i = i + 1;
    }
    assert(v@.take(v@.len() as int) =~= v@);
    acc
}

/// Whether the fingerprints of the elements before and after a sort attempt
/// agree.
pub fn fingerprint_preserved(before: &[i32], after: &[i32]) -> (r: bool)
    requires
        before@.len() <= u32::MAX,
        after@.len() <= u32::MAX,
    ensures
        r == (element_sum(before@) == element_sum(after@)),
{
    fingerprint(before) == fingerprint(after)
}

/// A sort attempt that keeps the multiset of elements, however it reorders
/// them, keeps the fingerprint: the check never rejects such a result.
pub proof fn lemma_same_multiset_same_fingerprint(before: Seq<i32>, after: Seq<i32>)
    requires
        before.to_multiset() == after.to_multiset(),
    ensures
        element_sum(before) == element_sum(after),
{
    let f = |acc: int, x: i32| acc + x;
    assert(commutative_foldl(f)) by {
        assert forall|x: i32, y: i32, v: int| #[trigger] f(f(v, x), y) == f(f(v, y), x) by {}
    }
    lemma_fold_left_permutation(before, after, f, 0int);
}

/// The sum of a sequence of counters.
pub open spec fn count_sum(s: Seq<u32>) -> int
    decreases s.len(),
{
    if s.len() == 0 {
        0
    } else {
        count_sum(s.drop_last()) + s.last()
    }
}

proof fn lemma_count_sum_update(s: Seq<u32>, i: int, c: u32)
    requires
        0 <= i < s.len(),
    ensures
        count_sum(s.update(i, c)) == count_sum(s) - s[i] + c,
    decreases s.len(),
{
    if i == s.len() - 1 {
        assert(s.update(i, c).drop_last() =~= s.drop_last());
    } else {
        assert(s.update(i, c).drop_last() =~= s.drop_last().update(i, c));
        lemma_count_sum_update(s.drop_last(), i, c);
    }
}

proof fn lemma_count_sum_zeros(s: Seq<u32>)
    requires
        forall|i: int| 0 <= i < s.len() ==> s[i] == 0,
    ensures
        count_sum(s) == 0,
    decreases s.len(),
{
    if s.len() > 0 {
        lemma_count_sum_zeros(s.drop_last());
    }
}

/// Whether the per-element counters sum to exactly twice the number of
/// comparator calls, as they do when every comparison was observed.
pub fn comparisons_observed(counts: &[u32], calls: u32) -> (r: bool)
    requires
        counts@.len() <= u32::MAX,
    ensures
        r == (count_sum(counts@) == 2 * calls),
{
    let mut acc: u64 = 0;
    let mut i: usize = 0;
    while i < counts.len()
        invariant
            i <= counts@.len() <= u32::MAX,
            acc == count_sum(counts@.take(i as int)),
            acc <= i * 4294967295,
        decreases counts@.len() - i,
    {
        assert(counts@.take(i + 1).drop_last() =~= counts@.take(i as int));
        acc = acc + counts[i] as u64;
        i = i + 1;
    }
    assert(counts@.take(counts@.len() as int) =~= counts@);
    acc == 2 * (calls as u64)
}

/// A buffer of values, each with a counter of the comparisons it took part
/// in, and a count of all comparisons. A sort that compares elements where
/// they stand and moves them by swaps keeps the counters in step.
pub struct CountedBuffer {
    pub vals: Vec<i32>,
    pub counts: Vec<u32>,
    pub calls: u32,
}

impl CountedBuffer {
    /// The counters match the values one for one, and every comparison is
    /// visible in them: their sum is twice the number of comparisons.
    pub open spec fn wf(&self) -> bool {
        &&& self.vals@.len() == self.counts@.len()
        &&& count_sum(self.counts@) == 2 * self.calls
    }

    /// The values with all counters at zero.
    pub fn new(vals: Vec<i32>) -> (r: CountedBuffer)
        ensures
            r.wf(),
            r.vals@ == vals@,
            r.calls == 0,
            forall|i: int| 0 <= i < r.counts@.len() ==> r.counts@[i] == 0,
    {
        let mut counts: Vec<u32> = Vec::new();
        let mut i: usize = 0;
        while i < vals.len()
            invariant
                i <= vals@.len(),
                counts@.len() == i,
                forall|p: int| 0 <= p < i ==> counts@[p] == 0,
            decreases vals@.len() - i,
        {
            counts.push(0);
            i = i + 1;
        }
        proof {
            lemma_count_sum_zeros(counts@);
        }
        CountedBuffer { vals, counts, calls: 0 }
    }

    /// Compares the values at positions `i` and `j` in their natural order,
    /// counting the comparison on both of them and in the total.
    pub fn compare_at(&mut self, i: usize, j: usize) -> (r: Ordering)
        requires
            old(self).wf(),
            i < old(self).vals@.len(),
            j < old(self).vals@.len(),
            i != j,
            old(self).counts@[i as int] < u32::MAX,
            old(self).counts@[j as int] < u32::MAX,
            old(self).calls < u32::MAX,
        ensures
            final(self).wf(),
            r == crate::adversary::natural_order(old(self).vals@[i as int], old(self).vals@[j as int]),
            final(self).vals@ == old(self).vals@,
            final(self).calls == old(self).calls + 1,
            final(self).counts@ == old(self).counts@.update(
                i as int,
                (old(self).counts@[i as int] + 1) as u32,
            ).update(j as int, (old(self).counts@[j as int] + 1) as u32),
    {
        let ci = self.counts[i];
        let cj = self.counts[j];
        proof {
            lemma_count_sum_update(self.counts@, i as int, (ci + 1) as u32);
            lemma_count_sum_update(
                self.counts@.update(i as int, (ci + 1) as u32),
                j as int,
                (cj + 1) as u32,
            );
        }
        self.counts.set(i, ci + 1);
        self.counts.set(j, cj + 1);
        self.calls = self.calls + 1;
        crate::adversary::compare_natural(self.vals[i], self.vals[j])
    }

    /// Exchanges the elements at positions `i` and `j`, each with its counter.
    /// The values keep their multiset, so a sort built of `compare_at` and
    /// `swap` holds the same elements after every step, also when it stops
    /// part way because a comparison panicked.
    pub fn swap(&mut self, i: usize, j: usize)
        requires
            old(self).wf(),
            i < old(self).vals@.len(),
            j < old(self).vals@.len(),
        ensures
            final(self).wf(),
            final(self).vals@.to_multiset() == old(self).vals@.to_multiset(),
            final(self).calls == old(self).calls,
            final(self).vals@ == old(self).vals@.update(i as int, old(self).vals@[j as int]).update(
                j as int,
                old(self).vals@[i as int],
            ),
            final(self).counts@ == old(self).counts@.update(
                i as int,
                old(self).counts@[j as int],
            ).update(j as int, old(self).counts@[i as int]),
    {
        let vi = self.vals[i];
        let vj = self.vals[j];
        let ci = self.counts[i];
        let cj = self.counts[j];
        proof {
            lemma_count_sum_update(self.counts@, i as int, cj);
            lemma_count_sum_update(self.counts@.update(i as int, cj), j as int, ci);
            broadcast use vstd::seq_lib::to_multiset_update, vstd::multiset::group_multiset_axioms;

            let s = self.vals@;
            let swapped = s.update(i as int, vj).update(j as int, vi);
            if i == j {
                assert(swapped =~= s);
            } else {
                let m = s.to_multiset();
                let m1 = s.update(i as int, vj).to_multiset();
                assert(s.update(i as int, vj)[j as int] == vj);
                assert(m1 == m.insert(vj).remove(vi));
                assert(swapped.to_multiset() == m1.insert(vi).remove(vj));
                assert(m.count(vi) > 0) by {
                    broadcast use vstd::seq_lib::group_to_multiset_ensures;

                    assert(s.contains(vi)) by {
                        assert(s[i as int] == vi);
                    }
                }
                assert(swapped.to_multiset() =~= m);
            }
        }
        self.vals.set(i, vj);
        self.vals.set(j, vi);
        self.counts.set(i, cj);
        self.counts.set(j, ci);
    }

    /// Whether every comparison is visible in the counters. On a buffer
    /// changed only by `compare_at` and `swap` this always holds.
    pub fn all_comparisons_observed(&self) -> (r: bool)
        requires
            self.vals@.len() == self.counts@.len(),
            self.counts@.len() <= u32::MAX,
        ensures
            r == (count_sum(self.counts@) == 2 * self.calls),
            self.wf() ==> r,
    {
        comparisons_observed(self.counts.as_slice(), self.calls)
    }
}

} // verus!
