//! The value side of the comparator callback that a sorter behind a foreign
//! calling convention invokes: an unwind in the host comparator becomes a flag,
//! and the host raises it again once the foreign call has returned.
use std::cmp::Ordering;
use vstd::prelude::*;

verus! {

/// What the callback hands back across the boundary: whether the first operand
/// is less than the second, and whether the host comparator unwound.
#[derive(Clone, Copy, Debug, PartialEq, Eq, Structural)]
pub struct CompResult {
    pub is_less: bool,
    pub is_panic: bool,
}

/// How one call of the host comparator ended: with an ordering, or by unwinding.
#[derive(Clone, Copy, Debug, PartialEq, Eq)]
pub enum CallOutcome {
    Returned(Ordering),
    Unwound,
}

/// The result that crosses the boundary for one comparator call.
pub open spec fn comp_result_spec(outcome: CallOutcome) -> CompResult {
    match outcome {
        CallOutcome::Returned(o) => CompResult { is_less: o == Ordering::Less, is_panic: false },
        CallOutcome::Unwound => CompResult { is_less: false, is_panic: true },
    }
}

/// Converts how the comparator call ended into the callback's result. An
/// unwind answers "not less", a safe default, and raises the panic flag.
pub fn comp_result_of(outcome: CallOutcome) -> (r: CompResult)
    ensures
        r == comp_result_spec(outcome),
{
    match outcome {
        CallOutcome::Returned(o) => CompResult {
            is_less: match o {
                Ordering::Less => true,
                _ => false,
            },
            is_panic: false,
        },
        CallOutcome::Unwound => CompResult { is_less: false, is_panic: true },
    }
}

/// Whether the host must raise a panic after the foreign sort returned with
/// the given code: any code other than zero reports an unwound comparator.
pub fn must_reraise(ret_code: i32) -> (r: bool)
    ensures
        r == (ret_code != 0),
{
    ret_code != 0
}

} // verus!
