//! The differential check: the subject's output must equal the trusted
//! sort's output element by element; on a mismatch it says how the
//! failure artifacts are reported.
use vstd::prelude::*;
use vstd::relations::{sorted_by, total_ordering};
use vstd::seq_lib::lemma_sorted_unique;
use vstd::std_specs::cmp::PartialEqSpec;

verus! {

/// Inputs of at most this many elements are reported inline on a mismatch;
/// longer ones are written to files named after the seed.
pub const SMALL_INPUT_LEN: usize = 100;

/// The outcome of comparing the subject's output with the trusted output.
#[derive(Clone, Copy, Debug, PartialEq, Eq, Structural)]
pub enum DiffOutcome {
    /// Same length and equal at every position.
    Match,
    /// The two outputs differ in length.
    LengthMismatch,
    /// Same length; `index` is the first position where they differ.
    Mismatch { index: usize },
}

/// Where the three sequences of a failed comparison go.
#[derive(Clone, Copy, Debug, PartialEq, Eq, Structural)]
pub enum FailureReport {
    /// Nothing to report.
    Silent,
    /// Original, expected and actual sequences on the diagnostic output.
    Inline,
    /// Original, expected and actual sequences in files named after the seed.
    Files,
}

/// Whether an input of this length is reported inline.
pub open spec fn is_small_spec(len: nat) -> bool {
    len <= SMALL_INPUT_LEN
}

/// Whether an input of this length is reported inline on a mismatch.
pub fn is_small_input(len: usize) -> (r: bool)
    ensures
        r == is_small_spec(len as nat),
{
    len <= SMALL_INPUT_LEN
}

/// Compares the trusted output with the subject's, position by position.
pub fn compare_outputs<T: PartialEq>(expected: &[T], actual: &[T]) -> (r: DiffOutcome)
    ensures
        (r == DiffOutcome::LengthMismatch) <==> expected@.len() != actual@.len(),
        T::obeys_eq_spec() ==> ((r == DiffOutcome::Match) <==> (expected@.len()
            == actual@.len() && forall|i: int|
            0 <= i < expected@.len() ==> expected@[i].eq_spec(&actual@[i]))),
        r matches DiffOutcome::Mismatch { index } ==> {
            &&& index < expected@.len() == actual@.len()
            &&& T::obeys_eq_spec() ==> !expected@[index as int].eq_spec(&actual@[index as int])
            &&& T::obeys_eq_spec() ==> forall|i: int|
                0 <= i < index ==> expected@[i].eq_spec(&actual@[i])
        },
{
    if expected.len() != actual.len() {
        return DiffOutcome::LengthMismatch;
    }
    let mut i: usize = 0;
    while i < expected.len()
        invariant
            expected@.len() == actual@.len(),
            i <= expected@.len(),
            T::obeys_eq_spec() ==> forall|p: int|
                0 <= p < i ==> expected@[p].eq_spec(&actual@[p]),
        decreases expected@.len() - i,
    {
        if !(expected[i] == actual[i]) {
            return DiffOutcome::Mismatch { index: i };
        }
        i = i + 1;
    }
    DiffOutcome::Match
}

/// How a comparison outcome on an input of length `len` is reported.
pub open spec fn report_spec(outcome: DiffOutcome, len: nat) -> FailureReport {
    if outcome == DiffOutcome::Match {
        FailureReport::Silent
    } else if is_small_spec(len) {
        FailureReport::Inline
    } else {
        FailureReport::Files
    }
}

/// How a comparison outcome on an input of length `len` is reported: not at
/// all on a match, inline for small inputs, in files otherwise.
pub fn failure_report(outcome: DiffOutcome, len: usize) -> (r: FailureReport)
    ensures
        r == report_spec(outcome, len as nat),
{
    match outcome {
        DiffOutcome::Match => FailureReport::Silent,
        _ => {
            if is_small_input(len) {
                FailureReport::Inline
            } else {
                FailureReport::Files
            }
        },
    }
}

/// Ascending order on integers.
pub open spec fn ascending(s: Seq<i32>) -> bool {
    sorted_by(s, |x: i32, y: i32| x <= y)
}

/// Relies on std's `slice::sort`, the trusted sort: it sorts in ascending
/// order and only rearranges the elements.
#[verifier::external_body]
fn oracle_sort(v: &mut Vec<i32>)
    ensures
        ascending(final(v)@),
        final(v)@.to_multiset() == old(v)@.to_multiset(),
{
    v.sort();
}

fn copy_of(v: &[i32]) -> (r: Vec<i32>)
    ensures
        r@ == v@,
{
    let mut r: Vec<i32> = Vec::new();
    let mut i: usize = 0;
    while i < v.len()
        invariant
            i <= v@.len(),
            r@ == v@.take(i as int),
        decreases v@.len() - i,
    {
        r.push(v[i]);
        i = i + 1;
        assert(r@ =~= v@.take(i as int));
    }
    assert(v@.take(v@.len() as int) =~= v@);
    r
}

/// Sorts a copy of `original` with the trusted sort and compares the
/// subject's output with it. The outcome is `Match` exactly when the subject
/// produced the ascending rearrangement of `original`.
pub fn differential_check(original: &[i32], subject_output: &[i32]) -> (r: DiffOutcome)
    ensures
        (r == DiffOutcome::LengthMismatch) <==> original@.len() != subject_output@.len(),
        (r == DiffOutcome::Match) <==> (ascending(subject_output@)
            && subject_output@.to_multiset() == original@.to_multiset()),
        r matches DiffOutcome::Mismatch { index } ==> index < subject_output@.len(),
{
    let mut expected = copy_of(original);
    oracle_sort(&mut expected);
    proof {
        broadcast use vstd::seq_lib::group_to_multiset_ensures;
        assert(expected@.to_multiset().len() == original@.to_multiset().len());
        assert(expected@.len() == original@.len());
    }
    let r = compare_outputs(expected.as_slice(), subject_output);
    proof {
        let leq = |x: i32, y: i32| x <= y;
        assert(total_ordering(leq));
        if r == DiffOutcome::Match {
            assert(expected@ =~= subject_output@);
        }
        if ascending(subject_output@) && subject_output@.to_multiset() == original@.to_multiset() {
            lemma_sorted_unique(expected@, subject_output@, leq);
        }
    }
    r
}

} // verus!
