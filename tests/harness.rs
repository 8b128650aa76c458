use std::cell::Cell;
use std::cmp::Ordering;
use std::rc::Rc;

use sort_comp::adversary::{
    choose_panic_call, compare_natural, orderings_from_draws, Adversary, AdversaryVariant, Decision,
};
use sort_comp::differential::{
    compare_outputs, differential_check, failure_report, DiffOutcome, FailureReport,
};
use sort_comp::invariants::{comparisons_observed, fingerprint, fingerprint_preserved};
use sort_comp::seed::SeedRegistry;
use sort_comp::shim::{comp_result_of, CallOutcome};
use sort_comp::stability::{is_non_decreasing, label_occurrences};

const TEST_SIZES: [usize; 29] = [
    0, 1, 2, 3, 4, 5, 6, 7, 8, 9, 10, 15, 16, 17, 20, 24, 30, 32, 33, 35, 50, 100, 200, 500, 1_000,
    2_048, 10_000, 100_000, 1_000_000,
];

const SEED: u64 = 0x9E37_79B9_7F4A_7C15;

// --- Pattern source: deterministic for a fixed seed ---

struct Rng(u64);

impl Rng {
    fn new(salt: u64) -> Self {
        Rng(SEED ^ salt.wrapping_mul(0x2545_F491_4F6C_DD1D) | 1)
    }

    fn next(&mut self) -> u64 {
        let mut x = self.0;
        x ^= x << 13;
        x ^= x >> 7;
        x ^= x << 17;
        self.0 = x;
        x
    }
}

fn pattern_random(len: usize) -> Vec<i32> {
    let mut rng = Rng::new(len as u64);
    (0..len).map(|_| rng.next() as i32).collect()
}

fn pattern_random_uniform(len: usize, lo: i32, hi: i32) -> Vec<i32> {
    let mut rng = Rng::new(len as u64 ^ 0xABCD);
    let span = (hi - lo) as u64;
    (0..len).map(|_| lo + (rng.next() % span) as i32).collect()
}

fn pattern_ascending(len: usize) -> Vec<i32> {
    (0..len as i32).collect()
}

fn pattern_descending(len: usize) -> Vec<i32> {
    (0..len as i32).rev().collect()
}

fn pattern_all_equal(len: usize) -> Vec<i32> {
    vec![66; len]
}

fn pattern_ascending_saw(len: usize, saw_len: usize) -> Vec<i32> {
    let saw_len = saw_len.max(1);
    (0..len).map(|i| (i % saw_len) as i32).collect()
}

fn pattern_descending_saw(len: usize, saw_len: usize) -> Vec<i32> {
    let saw_len = saw_len.max(1);
    (0..len).map(|i| (saw_len - 1 - i % saw_len) as i32).collect()
}

fn pattern_pipe_organ(len: usize) -> Vec<i32> {
    let half = len / 2;
    (0..len).map(|i| if i < half { i as i32 } else { (len - i) as i32 }).collect()
}

// --- Subject under test: a stable bottom-up merge sort ---

fn subject_sort_by<T, F: FnMut(&T, &T) -> Ordering>(v: &mut Vec<T>, mut cmp: F) {
    let n = v.len();
    let mut perm: Vec<usize> = (0..n).collect();
    let mut buf: Vec<usize> = Vec::with_capacity(n);
    let mut width = 1;
    while width < n {
        buf.clear();
        let mut lo = 0;
        while lo < n {
            let mid = (lo + width).min(n);
            let hi = (lo + 2 * width).min(n);
            let (mut i, mut j) = (lo, mid);
            while i < mid && j < hi {
                if cmp(&v[perm[j]], &v[perm[i]]) == Ordering::Less {
                    buf.push(perm[j]);
                    j += 1;
                } else {
                    buf.push(perm[i]);
                    i += 1;
                }
            }
            buf.extend_from_slice(&perm[i..mid]);
            buf.extend_from_slice(&perm[j..hi]);
            lo = hi;
        }
        std::mem::swap(&mut perm, &mut buf);
        width *= 2;
    }
    let mut items: Vec<Option<T>> = v.drain(..).map(Some).collect();
    v.extend(perm.iter().map(|&i| items[i].take().unwrap()));
}

fn subject_sort<T: Ord>(v: &mut Vec<T>) {
    subject_sort_by(v, |a, b| a.cmp(b));
}

// --- Drivers ---

fn sort_comp(v: &mut Vec<i32>) {
    let original = v.to_vec();
    subject_sort(v);
    let outcome = differential_check(&original, v);
    assert_eq!(outcome, DiffOutcome::Match, "input of {} elements", original.len());
    assert_eq!(failure_report(outcome, original.len()), FailureReport::Silent);
}

fn sort_comp_generic<T: Ord + Clone>(v: &mut Vec<T>) {
    let mut expected = v.to_vec();
    expected.sort();
    subject_sort(v);
    assert_eq!(compare_outputs(&expected, v), DiffOutcome::Match);
}

fn test_impl(pattern_fn: impl Fn(usize) -> Vec<i32>) {
    for test_size in TEST_SIZES {
        let mut test_data = pattern_fn(test_size);
        sort_comp(&mut test_data);
    }
}

fn test_impl_generic<T: Ord + Clone>(pattern_fn: impl Fn(usize) -> Vec<T>) {
    for test_size in TEST_SIZES {
        let mut test_data = pattern_fn(test_size);
        sort_comp_generic(&mut test_data);
    }
}

#[derive(Clone, Debug, PartialEq, Eq, PartialOrd, Ord)]
struct LargeStackVal {
    vals: [i128; 4],
}

impl LargeStackVal {
    fn new(val: i32) -> Self {
        let val_abs = val.saturating_abs() as i128;
        Self {
            vals: [
                val_abs.wrapping_add(123),
                val_abs.wrapping_mul(7),
                val_abs.wrapping_sub(6),
                val_abs,
            ],
        }
    }
}

trait DynTrait: std::fmt::Debug {
    fn get_val(&self) -> i32;
}

#[derive(Clone, Debug)]
struct DynValA {
    value: i32,
}

#[derive(Clone, Debug)]
struct DynValB {
    value: i32,
}

impl DynTrait for DynValA {
    fn get_val(&self) -> i32 {
        self.value
    }
}

impl DynTrait for DynValB {
    fn get_val(&self) -> i32 {
        self.value
    }
}

impl PartialEq for dyn DynTrait {
    fn eq(&self, other: &Self) -> bool {
        self.get_val() == other.get_val()
    }
}

impl Eq for dyn DynTrait {}

impl PartialOrd for dyn DynTrait {
    fn partial_cmp(&self, other: &Self) -> Option<Ordering> {
        Some(self.cmp(other))
    }
}

impl Ord for dyn DynTrait {
    fn cmp(&self, other: &Self) -> Ordering {
        self.get_val().cmp(&other.get_val())
    }
}

/// Runs the subject with a comparator whose calls can signal a panic. As at a
/// foreign call boundary, a signalled panic is turned into a flag; once it is
/// set the comparator answers "not less" until the sort returns.
fn sort_with_signalling<F: FnMut(i32, i32) -> Decision>(v: &mut Vec<i32>, mut decide: F) -> bool {
    let mut panicked = false;
    subject_sort_by(v, |a, b| {
        if panicked {
            return Ordering::Equal;
        }
        let outcome = match decide(*a, *b) {
            Decision::Answer(o) => CallOutcome::Returned(o),
            Decision::Panic => CallOutcome::Unwound,
        };
        let res = comp_result_of(outcome);
        if res.is_panic {
            panicked = true;
        }
        if res.is_less {
            Ordering::Less
        } else {
            Ordering::Equal
        }
    });
    panicked
}

// --- Harness runs over the size catalogue ---

#[test]
fn basic() {
    sort_comp(&mut vec![]);
    sort_comp_generic::<()>(&mut vec![]);
    sort_comp_generic::<()>(&mut vec![()]);
    sort_comp_generic::<()>(&mut vec![(), ()]);
    sort_comp_generic::<()>(&mut vec![(), (), ()]);
    sort_comp(&mut vec![2, 3]);
    sort_comp(&mut vec![2, 3, 6]);
    sort_comp(&mut vec![2, 3, 99, 6]);
    sort_comp(&mut vec![2, 7709, 400, 90932]);
    sort_comp(&mut vec![15, -1, 3, -1, -3, -1, 7]);
}

#[test]
fn fixed_seed() {
    let mut registry = SeedRegistry::new();
    let fixed_seed_a = registry.get_or_init(SEED);
    let fixed_seed_b = registry.get_or_init(SEED.wrapping_add(1));

    assert_eq!(fixed_seed_a.0, fixed_seed_b.0);
}

#[test]
fn random() {
    test_impl(pattern_random);
}

#[test]
fn all_equal() {
    test_impl(pattern_all_equal);
}

#[test]
fn ascending() {
    test_impl(pattern_ascending);
}

#[test]
fn descending() {
    test_impl(pattern_descending);
}

#[test]
fn ascending_saw() {
    test_impl(|test_size| pattern_ascending_saw(test_size, test_size / 5));
    test_impl(|test_size| pattern_ascending_saw(test_size, test_size / 20));
}

#[test]
fn descending_saw() {
    test_impl(|test_size| pattern_descending_saw(test_size, test_size / 5));
    test_impl(|test_size| pattern_descending_saw(test_size, test_size / 20));
}

#[test]
fn pipe_organ() {
    test_impl(pattern_pipe_organ);
}

#[test]
fn stability() {
    let large_range = 500..510;
    let rounds = 10;

    let rand_vals = pattern_random_uniform(5_000, 0, 9);
    let mut rand_idx = 0;

    for len in (2..25).chain(large_range) {
        for _ in 0..rounds {
            let keys: Vec<u32> = (0..len)
                .map(|_| {
                    let n = rand_vals[rand_idx] as u32;
                    rand_idx += 1;
                    if rand_idx >= rand_vals.len() {
                        rand_idx = 0;
                    }
                    n
                })
                .collect();
            let orig = label_occurrences(&keys);

            let mut v = orig.clone();
            subject_sort_by(&mut v, |&(a, _), &(b, _)| a.cmp(&b));

            assert!(is_non_decreasing(&v));
        }
    }
}

#[test]
fn random_str() {
    test_impl_generic(|test_size| {
        pattern_random(test_size)
            .into_iter()
            .map(|val| format!("{}", val))
            .collect::<Vec<_>>()
    });
}

#[test]
fn random_large_val() {
    test_impl_generic(|test_size| {
        pattern_random(test_size)
            .into_iter()
            .map(LargeStackVal::new)
            .collect::<Vec<_>>()
    });
}

#[test]
fn dyn_val() {
    test_impl_generic(|test_size| {
        pattern_random(test_size)
            .into_iter()
            .map(|val| -> Rc<dyn DynTrait> {
                if val < (i32::MAX / 2) {
                    Rc::new(DynValA { value: val })
                } else {
                    Rc::new(DynValB { value: val })
                }
            })
            .collect::<Vec<Rc<dyn DynTrait>>>()
    });
}

#[test]
fn comp_panic() {
    for test_size in TEST_SIZES {
        let mut values = pattern_random(test_size);
        let before = values.clone();
        let limit = i32::MAX / (test_size.max(1) as i32);
        sort_with_signalling(&mut values, |a, b| {
            if a.abs() < limit {
                Decision::Panic
            } else {
                Decision::Answer(compare_natural(a, b))
            }
        });
        assert!(fingerprint_preserved(&before, &values));
    }
}

#[derive(PartialEq, Eq, Debug, Clone)]
struct CompCount {
    val: i32,
    comp_count: Cell<u32>,
}

#[test]
fn observable_is_less() {
    let test_fn = |pattern: Vec<i32>| {
        let mut test_input = pattern
            .into_iter()
            .map(|val| CompCount { val, comp_count: Cell::new(0) })
            .collect::<Vec<_>>();

        let mut comp_count_global: u32 = 0;

        subject_sort_by(&mut test_input, |a, b| {
            a.comp_count.replace(a.comp_count.get() + 1);
            b.comp_count.replace(b.comp_count.get() + 1);
            comp_count_global += 1;
            a.val.cmp(&b.val)
        });

        let counts: Vec<u32> = test_input.iter().map(|c| c.comp_count.get()).collect();
        assert!(comparisons_observed(&counts, comp_count_global));
    };

    test_fn(pattern_ascending(10));
    test_fn(pattern_ascending(19));
    test_fn(pattern_random(12));
    test_fn(pattern_random(20));
    test_fn(pattern_random(TEST_SIZES[TEST_SIZES.len() - 1]));
}

fn calc_comps_required(test_data: &[i32]) -> u32 {
    let mut comp_counter = 0u32;
    let mut test_data_clone = test_data.to_vec();
    subject_sort_by(&mut test_data_clone, |a, b| {
        comp_counter += 1;
        a.cmp(b)
    });
    comp_counter
}

#[test]
fn panic_retain_original_set() {
    for test_size in TEST_SIZES.iter().filter(|x| **x >= 2) {
        let mut test_data = pattern_random(*test_size);
        let before = test_data.clone();

        let required_comps = calc_comps_required(&test_data);
        let draw = 1 + (Rng::new(*test_size as u64).next() % (required_comps as u64 - 1).max(1));
        let Some(panic_call) = choose_panic_call(required_comps, draw as i64) else {
            // A single comparison leaves no call before the last to fail on.
            assert!(required_comps < 2);
            continue;
        };

        let mut adversary = Adversary::new(AdversaryVariant::PanicAtCall(panic_call), Vec::new())
            .unwrap();
        let panicked = sort_with_signalling(&mut test_data, |a, b| adversary.compare(a, b));

        assert!(panicked);
        assert!(fingerprint_preserved(&before, &test_data));
    }
}

#[test]
fn violate_ord_retain_original_set() {
    let random_orderings = orderings_from_draws(&pattern_random_uniform(5_000, 0, 2)).unwrap();

    let variants = [
        AdversaryVariant::Random,
        AdversaryVariant::AlwaysLess,
        AdversaryVariant::AlwaysEqual,
        AdversaryVariant::AlwaysGreater,
        AdversaryVariant::EqualBiased,
        AdversaryVariant::NonTransitiveStateful,
    ];

    for variant in variants {
        let mut adversary = Adversary::new(variant, random_orderings.clone()).unwrap();
        for test_size in &TEST_SIZES[0..TEST_SIZES.len() - 2] {
            let mut test_data = pattern_random(*test_size);
            let sum_before = fingerprint(&test_data);

            subject_sort_by(&mut test_data, |a, b| match adversary.compare(*a, *b) {
                Decision::Answer(o) => o,
                Decision::Panic => unreachable!(),
            });

            let sum_after = fingerprint(&test_data);
            assert_eq!(sum_before, sum_after);
        }
    }
}
