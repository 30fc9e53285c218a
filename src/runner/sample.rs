//! The sample stage: fixed cases, each with its expected output.

use crate::problem::{ConstraintsError, MultitaskProblemSpec, ProblemSpec};
use crate::runner::{plan_stage, stage_plan, Stage, StagePlan};
use crate::testspec::{MultitaskTestSpec, SingletaskTestSpec};
use vstd::prelude::*;

verus! {

/// The extra predicate of a stage that has none.
pub open spec fn no_extra<T>() -> spec_fn(T) -> bool {
    |c: T| true
}

/// The messages of the extra predicate of a stage that has none.
pub open spec fn no_reasons<T>() -> spec_fn(T) -> Seq<Seq<char>> {
    |c: T| Seq::empty()
}

/// The files of the sample stage for the given cases: validated in order,
/// stopping at the first that fails, each with its input and expected output.
pub fn plan_samples<T: ProblemSpec<T>>(specs: &Vec<T>) -> (r: StagePlan)
    ensures
        stage_plan(r, specs@, Stage::Sample, true, no_extra(), no_reasons()),
{
    let always = |_s: &T| -> (r: Result<(), ConstraintsError>)
        ensures
            r is Ok,
        { Ok(()) };
    plan_stage(specs, Stage::Sample, true, &always, Ghost(no_extra()), Ghost(no_reasons()))
}

/// The sample stage of a problem without subtasks.
pub fn generate<T: ProblemSpec<T> + SingletaskTestSpec<T>>() -> (r: StagePlan)
    ensures
        stage_plan(r, <T as SingletaskTestSpec<T>>::samples(), Stage::Sample, true, no_extra(), no_reasons()),
{
    let specs = T::sample_test_cases();
    plan_samples(&specs)
}

/// The sample stage of a problem with subtasks.
pub fn generate_multitask<T: ProblemSpec<T> + MultitaskProblemSpec<T> + MultitaskTestSpec<T>>() -> (r: StagePlan)
    ensures
        stage_plan(r, <T as MultitaskTestSpec<T>>::samples(), Stage::Sample, true, no_extra(), no_reasons()),
{
    let specs = T::sample_test_cases();
    plan_samples(&specs)
}

} // verus!
