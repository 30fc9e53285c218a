//! What a problem definition supplies of its cases: fixed samples, and
//! official cases drawn from a seeded generator.

use crate::problem::MultitaskProblemSpec;
use crate::random::{Draw, Random};
use vstd::prelude::*;

verus! {

/// The cases of a problem without subtasks.
///
/// Each method's result is described by a spec function. An implementation
/// checked by Verus defines those to match its methods; the defaults only
/// spare implementations that Verus does not check.
pub trait SingletaskTestSpec<T> {
    /// The fixed sample cases.
    open spec fn samples() -> Seq<T> {
        Seq::empty()
    }

    /// The official cases drawn from a generator in the given state.
    open spec fn cases(random: (u64, Seq<Draw>, bool)) -> Seq<T> {
        Seq::empty()
    }

    fn sample_test_cases() -> (r: Vec<T>)
        ensures
            r@ == Self::samples(),
    ;

    fn test_cases(random: &mut Random) -> (r: Vec<T>)
        ensures
            r@ == Self::cases(old(random)@),
    ;
}

/// The view of optional cases.
pub open spec fn opt_cases<T>(r: Option<Vec<T>>) -> Option<Seq<T>> {
    match r {
        Some(v) => Some(v@),
        None => None,
    }
}

/// The cases of a problem with subtasks; a subtask without cases is skipped.
///
/// Each method's result is described by a spec function. An implementation
/// checked by Verus defines those to match its methods; the defaults only
/// spare implementations that Verus does not check.
pub trait MultitaskTestSpec<T> where T: MultitaskProblemSpec<T> {
    /// The fixed sample cases.
    open spec fn samples() -> Seq<T> {
        Seq::empty()
    }

    /// The cases of the given subtask drawn from a generator in the given state.
    open spec fn subtask_cases(subtask: usize, random: (u64, Seq<Draw>, bool)) -> Option<Seq<T>> {
        None
    }

    /// The state of the generator after drawing the given subtask's cases.
    open spec fn after_subtask(subtask: usize, random: (u64, Seq<Draw>, bool)) -> (u64, Seq<Draw>, bool) {
        random
    }

    fn sample_test_cases() -> (r: Vec<T>)
        ensures
            r@ == Self::samples(),
    ;

    fn test_cases_subtask_1(random: &mut Random) -> (r: Option<Vec<T>>)
        ensures
            opt_cases(r) == Self::subtask_cases(1, old(random)@),
            final(random)@ == Self::after_subtask(1, old(random)@),
    ;

    fn test_cases_subtask_2(random: &mut Random) -> (r: Option<Vec<T>>)
        ensures
            opt_cases(r) == Self::subtask_cases(2, old(random)@),
            final(random)@ == Self::after_subtask(2, old(random)@),
    ;

    fn test_cases_subtask_3(random: &mut Random) -> (r: Option<Vec<T>>)
        ensures
            opt_cases(r) == Self::subtask_cases(3, old(random)@),
            final(random)@ == Self::after_subtask(3, old(random)@),
    ;
}

} // verus!
