//! Comparators that break the total-order axioms or panic on purpose, as a
//! state machine: each call takes the comparator's state and two operands and
//! yields the next state and a decision, an ordering or "panic now". The state
//! lives for one sort invocation.
use std::cmp::Ordering;
use vstd::prelude::*;

verus! {

/// The kinds of adversarial comparator.
#[derive(Clone, Copy, Debug, PartialEq, Eq, Structural)]
pub enum AdversaryVariant {
    /// Answers from a table of orderings drawn beforehand, in turn, cycling.
    Random,
    /// Every pair compares as less.
    AlwaysLess,
    /// Every pair compares as equal.
    AlwaysEqual,
    /// Every pair compares as greater.
    AlwaysGreater,
    /// Equal operands compare as less, all others as greater.
    EqualBiased,
    /// Remembers the last operands; when the first operand repeats with a new
    /// second one, answers the reversed natural order.
    NonTransitiveStateful,
    /// Natural order, except that the call with this 1-based number panics.
    PanicAtCall(u64),
}

/// What one comparator call decides.
#[derive(Clone, Copy, Debug, PartialEq, Eq)]
pub enum Decision {
    Answer(Ordering),
    Panic,
}

/// The natural order of two integers.
pub open spec fn natural_order(a: i32, b: i32) -> Ordering {
    if a < b {
        Ordering::Less
    } else if a == b {
        Ordering::Equal
    } else {
        Ordering::Greater
    }
}

/// The natural order of two integers.
pub fn compare_natural(a: i32, b: i32) -> (r: Ordering)
    ensures
        r == natural_order(a, b),
{
    if a < b {
        Ordering::Less
    } else if a == b {
        Ordering::Equal
    } else {
        Ordering::Greater
    }
}

/// The mathematical state of an adversarial comparator.
pub struct AdversaryModel {
    pub variant: AdversaryVariant,
    pub orderings: Seq<Ordering>,
    pub next_random: nat,
    pub last_a: i32,
    pub last_b: i32,
    pub calls: nat,
}

/// The decision of one call, from the state before it and the operands.
pub open spec fn decision_spec(m: AdversaryModel, a: i32, b: i32) -> Decision {
    match m.variant {
        AdversaryVariant::Random => Decision::Answer(m.orderings[m.next_random as int]),
        AdversaryVariant::AlwaysLess => Decision::Answer(Ordering::Less),
        AdversaryVariant::AlwaysEqual => Decision::Answer(Ordering::Equal),
        AdversaryVariant::AlwaysGreater => Decision::Answer(Ordering::Greater),
        AdversaryVariant::EqualBiased => Decision::Answer(
            if a == b {
                Ordering::Less
            } else {
                Ordering::Greater
            },
        ),
        AdversaryVariant::NonTransitiveStateful => Decision::Answer(
            if a == m.last_a && b != m.last_b {
                natural_order(b, a)
            } else {
                natural_order(a, b)
            },
        ),
        AdversaryVariant::PanicAtCall(n) => if m.calls + 1 == n {
            Decision::Panic
        } else {
            Decision::Answer(natural_order(a, b))
        },
    }
}

/// The state after one call.
pub open spec fn next_state_spec(m: AdversaryModel, a: i32, b: i32) -> AdversaryModel {
    AdversaryModel {
        next_random: match m.variant {
            AdversaryVariant::Random => if m.next_random + 1 == m.orderings.len() {
                0
            } else {
                m.next_random + 1
            },
            _ => m.next_random,
        },
        last_a: match m.variant {
            AdversaryVariant::NonTransitiveStateful => a,
            _ => m.last_a,
        },
        last_b: match m.variant {
            AdversaryVariant::NonTransitiveStateful => b,
            _ => m.last_b,
        },
        calls: m.calls + 1,
        ..m
    }
}

/// The decisions of a run of calls on the given operand pairs, in order.
pub open spec fn decisions(m: AdversaryModel, pairs: Seq<(i32, i32)>) -> Seq<Decision>
    decreases pairs.len(),
{
    if pairs.len() == 0 {
        Seq::empty()
    } else {
        seq![decision_spec(m, pairs[0].0, pairs[0].1)] + decisions(
            next_state_spec(m, pairs[0].0, pairs[0].1),
            pairs.drop_first(),
        )
    }
}

/// The state of a comparator of the given kind before its first call.
pub open spec fn fresh_model(variant: AdversaryVariant, orderings: Seq<Ordering>) -> AdversaryModel {
    AdversaryModel { variant, orderings, next_random: 0, last_a: -1i32, last_b: -1i32, calls: 0 }
}

/// The 1-based number of the call that the panicking comparator fails on, from
/// a number drawn in `[1, required)`, where `required` is how many comparisons
/// a correct run of the sort makes on the input. A draw outside that range
/// gives `None`.
pub fn choose_panic_call(required: u32, draw: i64) -> (r: Option<u64>)
    ensures
        r is Some <==> 1 <= draw < required,
        r matches Some(n) ==> n == draw,
{
    if 1 <= draw && draw < required as i64 {
        Some(draw as u64)
    } else {
        None
    }
}

proof fn lemma_panic_countdown(m: AdversaryModel, n: u64, pairs: Seq<(i32, i32)>)
    requires
        m.variant == AdversaryVariant::PanicAtCall(n),
        m.calls < n,
        n - m.calls <= pairs.len(),
    ensures
        decisions(m, pairs).len() == pairs.len(),
        decisions(m, pairs)[n - m.calls - 1] == Decision::Panic,
        forall|i: int| 0 <= i < n - m.calls - 1 ==> decisions(m, pairs)[i] != Decision::Panic,
    decreases pairs.len(),
{
    let m2 = next_state_spec(m, pairs[0].0, pairs[0].1);
    let rest = pairs.drop_first();
    if m.calls + 1 == n {
        lemma_decisions_len(m2, rest);
    } else {
        lemma_panic_countdown(m2, n, rest);
        assert forall|i: int| 0 <= i < n - m.calls - 1 implies decisions(m, pairs)[i]
            != Decision::Panic by {
            if i > 0 {
                assert(decisions(m, pairs)[i] == decisions(m2, rest)[i - 1]);
            }
        }
    }
}

proof fn lemma_decisions_len(m: AdversaryModel, pairs: Seq<(i32, i32)>)
    ensures
        decisions(m, pairs).len() == pairs.len(),
    decreases pairs.len(),
{
    if pairs.len() > 0 {
        lemma_decisions_len(next_state_spec(m, pairs[0].0, pairs[0].1), pairs.drop_first());
    }
}

/// A comparator built to panic at call `n` does so on any run of at least `n`
/// calls, whatever the operands: the `n`-th decision is a panic and none
/// before it is. So a sort that needs more than `n` comparisons cannot finish
/// with it.
pub proof fn lemma_panic_at_call_is_inevitable(
    n: u64,
    orderings: Seq<Ordering>,
    pairs: Seq<(i32, i32)>,
)
    requires
        1 <= n <= pairs.len(),
    ensures
        decisions(fresh_model(AdversaryVariant::PanicAtCall(n), orderings), pairs)[n - 1]
            == Decision::Panic,
        forall|i: int|
            0 <= i < n - 1 ==> decisions(
                fresh_model(AdversaryVariant::PanicAtCall(n), orderings),
                pairs,
            )[i] != Decision::Panic,
{
    lemma_panic_countdown(fresh_model(AdversaryVariant::PanicAtCall(n), orderings), n, pairs);
}

/// The ordering that a drawn index stands for: 0 less, 1 equal, 2 greater.
pub open spec fn ordering_of_index(i: i32) -> Ordering {
    if i == 0 {
        Ordering::Less
    } else if i == 1 {
        Ordering::Equal
    } else {
        Ordering::Greater
    }
}

/// The random variant's table from drawn indices, each 0 (less), 1 (equal) or
/// 2 (greater). Any other index gives `None`.
pub fn orderings_from_draws(draws: &[i32]) -> (r: Option<Vec<Ordering>>)
    ensures
        r is Some <==> forall|i: int| 0 <= i < draws@.len() ==> 0 <= #[trigger] draws@[i] <= 2,
        r matches Some(t) ==> t@ == draws@.map_values(|d: i32| ordering_of_index(d)),
{
    let mut t: Vec<Ordering> = Vec::new();
    let mut i: usize = 0;
    while i < draws.len()
        invariant
            i <= draws@.len(),
            t@.len() == i,
            forall|p: int| 0 <= p < i ==> 0 <= #[trigger] draws@[p] <= 2,
            forall|p: int| 0 <= p < i ==> #[trigger] t@[p] == ordering_of_index(draws@[p]),
        decreases draws@.len() - i,
    {
        let d = draws[i];
        if d == 0 {
            t.push(Ordering::Less);
        } else if d == 1 {
            t.push(Ordering::Equal);
        } else if d == 2 {
            t.push(Ordering::Greater);
        } else {
            return None;
        }
        i = i + 1;
    }
    assert(t@ =~= draws@.map_values(|d: i32| ordering_of_index(d)));
    Some(t)
}

/// An adversarial comparator with the state it carries between calls.
pub struct Adversary {
    pub variant: AdversaryVariant,
    pub orderings: Vec<Ordering>,
    pub next_random: usize,
    pub last_a: i32,
    pub last_b: i32,
    pub calls: u64,
}

impl View for Adversary {
    type V = AdversaryModel;

    open spec fn view(&self) -> AdversaryModel {
        AdversaryModel {
            variant: self.variant,
            orderings: self.orderings@,
            next_random: self.next_random as nat,
            last_a: self.last_a,
            last_b: self.last_b,
            calls: self.calls as nat,
        }
    }
}

impl Adversary {
    /// The table cursor stays inside a non-empty table when the table is used.
    pub open spec fn wf(&self) -> bool {
        self.variant == AdversaryVariant::Random ==> self.next_random < self.orderings.len()
    }

    /// A comparator of the given kind before its first call. `orderings` is the
    /// table that the random kind answers from; it must not be empty for it.
    pub fn new(variant: AdversaryVariant, orderings: Vec<Ordering>) -> (r: Option<Adversary>)
        ensures
            r is None <==> (variant == AdversaryVariant::Random && orderings@.len() == 0),
            r matches Some(adv) ==> adv.wf() && adv@ == fresh_model(variant, orderings@),
    {
        match variant {
            AdversaryVariant::Random => {
                if orderings.len() == 0 {
                    return None;
                }
            },
            _ => {},
        }
        Some(Adversary { variant, orderings, next_random: 0, last_a: -1, last_b: -1, calls: 0 })
    }

    /// One comparator call on the operands `a` and `b`.
    pub fn compare(&mut self, a: i32, b: i32) -> (d: Decision)
        requires
            old(self).wf(),
            old(self).calls < u64::MAX,
        ensures
            final(self).wf(),
            d == decision_spec(old(self)@, a, b),
            final(self)@ == next_state_spec(old(self)@, a, b),
    {
        let d = match self.variant {
            AdversaryVariant::Random => {
                let o = self.orderings[self.next_random];
                if self.next_random + 1 == self.orderings.len() {
                    self.next_random = 0;
                } else {
                    self.next_random = self.next_random + 1;
                }
                Decision::Answer(o)
            },
            AdversaryVariant::AlwaysLess => Decision::Answer(Ordering::Less),
            AdversaryVariant::AlwaysEqual => Decision::Answer(Ordering::Equal),
            AdversaryVariant::AlwaysGreater => Decision::Answer(Ordering::Greater),
            AdversaryVariant::EqualBiased => {
                if a == b {
                    Decision::Answer(Ordering::Less)
                } else {
                    Decision::Answer(Ordering::Greater)
                }
            },
            AdversaryVariant::NonTransitiveStateful => {
                let lea = self.last_a;
                let leb = self.last_b;
                self.last_a = a;
                self.last_b = b;
                if a == lea && b != leb {
                    Decision::Answer(compare_natural(b, a))
                } else {
                    Decision::Answer(compare_natural(a, b))
                }
            },
            AdversaryVariant::PanicAtCall(n) => {
                if self.calls + 1 == n {
                    Decision::Panic
                } else {
                    Decision::Answer(compare_natural(a, b))
                }
            },
        };
        self.calls = self.calls + 1;
        d
    }
}

} // verus!
