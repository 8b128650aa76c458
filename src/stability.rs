//! Stability check: each key is labelled with its occurrence number among equal
//! keys, the labelled sequence is sorted on the key alone, and the result must
//! then be non-decreasing on the whole (key, occurrence) pair.
use vstd::prelude::*;

verus! {

/// How many of the first `end` keys of `s` equal `k`.
pub open spec fn count_prefix(s: Seq<u32>, end: int, k: u32) -> nat
    decreases end,
{
    if end <= 0 {
        0
    } else {
        count_prefix(s, end - 1, k) + if s[end - 1] == k {
            1nat
        } else {
            0nat
        }
    }
}

/// The occurrence number of the key at position `i`: 1 for its first
/// occurrence, 2 for the second, and so on.
pub open spec fn occurrence(s: Seq<u32>, i: int) -> nat {
    count_prefix(s, i + 1, s[i])
}

/// The labelled sequence: each key paired with its occurrence number.
pub open spec fn labels(s: Seq<u32>) -> Seq<(u32, u32)> {
    Seq::new(s.len(), |i: int| (s[i], occurrence(s, i) as u32))
}

/// Lexicographic order on (key, occurrence) pairs.
pub open spec fn pair_le(x: (u32, u32), y: (u32, u32)) -> bool {
    x.0 < y.0 || (x.0 == y.0 && x.1 <= y.1)
}

/// Each pair is at most its successor.
pub open spec fn non_decreasing(v: Seq<(u32, u32)>) -> bool {
    forall|i: int| 0 <= i < v.len() - 1 ==> pair_le(#[trigger] v[i], v[i + 1])
}

proof fn lemma_count_prefix_bounded(s: Seq<u32>, end: int, k: u32)
    requires
        0 <= end <= s.len(),
    ensures
        count_prefix(s, end, k) <= end,
    decreases end,
{
    if end > 0 {
        lemma_count_prefix_bounded(s, end - 1, k);
    }
}

proof fn lemma_count_prefix_monotone(s: Seq<u32>, lo: int, hi: int, k: u32)
    requires
        0 <= lo <= hi <= s.len(),
    ensures
        count_prefix(s, lo, k) <= count_prefix(s, hi, k),
    decreases hi - lo,
{
    if lo < hi {
        lemma_count_prefix_monotone(s, lo, hi - 1, k);
    }
}

/// Among equal keys, the occurrence number grows strictly with the position.
pub proof fn lemma_occurrence_increasing(s: Seq<u32>, i: int, j: int)
    requires
        0 <= i < j < s.len(),
        s[i] == s[j],
    ensures
        occurrence(s, i) < occurrence(s, j),
{
    lemma_count_prefix_monotone(s, i + 1, j, s[i]);
}

/// Pairs each key with its occurrence number among equal keys, counted in
/// the order of `keys`.
pub fn label_occurrences(keys: &Vec<u32>) -> (r: Vec<(u32, u32)>)
    requires
        keys@.len() < u32::MAX,
    ensures
        r@ == labels(keys@),
{
    let mut r: Vec<(u32, u32)> = Vec::new();
    let mut i: usize = 0;
    while i < keys.len()
        invariant
            i <= keys@.len() < u32::MAX,
            r@.len() == i,
            forall|p: int| 0 <= p < i ==> r@[p] == labels(keys@)[p],
        decreases keys@.len() - i,
    {
        let k = keys[i];
        let mut count: u32 = 0;
        let mut j: usize = 0;
        while j <= i
            invariant
                i < keys@.len() < u32::MAX,
                j <= i + 1,
                k == keys@[i as int],
                count == count_prefix(keys@, j as int, k),
            decreases i + 1 - j,
        {
            proof {
                lemma_count_prefix_bounded(keys@, j as int, k);
            }
            if keys[j] == k {
                count = count + 1;
            }
            j = j + 1;
        }
        r.push((k, count));
        i = i + 1;
    }
    assert(r@ =~= labels(keys@));
    r
}

/// Whether each pair of `v` is at most its successor under the
/// lexicographic order on (key, occurrence).
pub fn is_non_decreasing(v: &[(u32, u32)]) -> (r: bool)
    ensures
        r == non_decreasing(v@),
{
    let n = v.len();
    if n < 2 {
        return true;
    }
    let mut i: usize = 0;
    while i < n - 1
        invariant
            n == v@.len() >= 2,
            i <= n - 1,
            forall|p: int| 0 <= p < i ==> pair_le(#[trigger] v@[p], v@[p + 1]),
        decreases n - 1 - i,
    {
        let x = v[i];
        let y = v[i + 1];
        if !(x.0 < y.0 || (x.0 == y.0 && x.1 <= y.1)) {
            return false;
        }
        i = i + 1;
    }
    true
}

proof fn lemma_non_decreasing_all_pairs(v: Seq<(u32, u32)>, p: int, q: int)
    requires
        non_decreasing(v),
        0 <= p <= q < v.len(),
    ensures
        pair_le(v[p], v[q]),
    decreases q - p,
{
    if p < q {
        lemma_non_decreasing_all_pairs(v, p, q - 1);
        assert(pair_le(v[q - 1], v[q]));
    }
}

/// When a result of sorting the labelled keys passes the check, elements with
/// equal keys stand in their original relative order: if the labels of
/// positions `i` and `j` of the input appear at output positions `p < q` and
/// share a key, then `i < j`.
pub proof fn lemma_check_implies_stable(
    keys: Seq<u32>,
    out: Seq<(u32, u32)>,
    p: int,
    q: int,
    i: int,
    j: int,
)
    requires
        keys.len() < u32::MAX,
        non_decreasing(out),
        0 <= p < q < out.len(),
        0 <= i < keys.len(),
        0 <= j < keys.len(),
        i != j,
        out[p] == labels(keys)[i],
        out[q] == labels(keys)[j],
        keys[i] == keys[j],
    ensures
        i < j,
{
    lemma_non_decreasing_all_pairs(out, p, q);
    lemma_count_prefix_bounded(keys, i + 1, keys[i]);
    lemma_count_prefix_bounded(keys, j + 1, keys[j]);
    if j < i {
        lemma_occurrence_increasing(keys, j, i);
    }
}

} // verus!
