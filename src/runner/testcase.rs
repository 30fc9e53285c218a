//! The official stage: seeded cases, whose outputs come from running a
//! solution, for a whole problem or subtask by subtask.

use crate::problem::{ConstraintsError, MultitaskProblemSpec, ProblemSpec, SubtaskConfig};
use crate::random::{fresh, Random};
use crate::runner::sample::{no_extra, no_reasons};
use crate::text::views;
use crate::generator::opt_text;
use crate::runner::{accepted, case_name, holds_case, plan_stage, stage_plan, Stage, StagePlan};
use crate::testspec::{opt_cases, MultitaskTestSpec, SingletaskTestSpec};
use vstd::prelude::*;

verus! {

/// The extra predicate of a subtask's stage: the subtask's own.
pub open spec fn subtask_extra<T: MultitaskProblemSpec<T>>(subtask: usize) -> spec_fn(T) -> bool {
    |c: T| c.subtask_valid(subtask)
}

/// The messages of a subtask's predicate.
pub open spec fn subtask_reasons<T: MultitaskProblemSpec<T>>(subtask: usize) -> spec_fn(T) -> Seq<Seq<char>> {
    |c: T| c.subtask_violations(subtask)
}

/// The input files of the official stage for the given cases, validated in
/// order and stopping at the first that fails.
pub fn plan_official<T: ProblemSpec<T>>(specs: &Vec<T>) -> (r: StagePlan)
    ensures
        stage_plan(r, specs@, Stage::Official, false, no_extra(), no_reasons()),
{
    let always = |_s: &T| -> (r: Result<(), ConstraintsError>)
        ensures
            r is Ok,
        { Ok(()) };
    plan_stage(specs, Stage::Official, false, &always, Ghost(no_extra()), Ghost(no_reasons()))
}

/// The input files of one subtask: each case is held to the subtask's own
/// predicate first, then to the case predicate, and to no other subtask's.
pub fn plan_subtask<T: ProblemSpec<T> + MultitaskProblemSpec<T>>(specs: &Vec<T>, subtask: usize) -> (r: StagePlan)
    ensures
        stage_plan(r, specs@, Stage::Subtask(subtask), false, subtask_extra(subtask), subtask_reasons(subtask)),
{
    let own = |s: &T| -> (r: Result<(), ConstraintsError>)
        ensures
            r is Ok <==> s.subtask_valid(subtask),
            r matches Err(e) ==> views(e.messages@) == s.subtask_violations(subtask),
        { s.subtask_constraints(subtask) };
    plan_stage(specs, Stage::Subtask(subtask), false, &own, Ghost(subtask_extra(subtask)), Ghost(subtask_reasons(subtask)))
}

/// The official stage of a problem without subtasks, its cases drawn from
/// a generator seeded with `seed`.
pub fn generate<T: ProblemSpec<T> + SingletaskTestSpec<T>>(seed: u64) -> (r: StagePlan)
    ensures
        stage_plan(r, T::cases(fresh(seed)), Stage::Official, false, no_extra(), no_reasons()),
{
    let mut random = Random::new(seed);
    let specs = T::test_cases(&mut random);
    plan_official(&specs)
}

/// Two plans of the same stage for the same cases write the same files with
/// the same contents, and either both fail or neither does. So an official
/// stage drawn from the same seed twice is the same.
pub proof fn plans_agree<T: ProblemSpec<T>>(
    a: StagePlan,
    b: StagePlan,
    cs: Seq<T>,
    stage: Stage,
    with_outputs: bool,
    extra: spec_fn(T) -> bool,
    why: spec_fn(T) -> Seq<Seq<char>>,
)
    requires
        stage_plan(a, cs, stage, with_outputs, extra, why),
        stage_plan(b, cs, stage, with_outputs, extra, why),
    ensures
        a.packed == b.packed,
        a.files@.len() == b.files@.len(),
        a.failure is Some <==> b.failure is Some,
        forall|i: int| 0 <= i < a.files@.len() ==> (#[trigger] a.files@[i]).name@ == b.files@[i].name@
            && a.files@[i].input@ == b.files@[i].input@ && opt_text(a.files@[i].output) == opt_text(b.files@[i].output),
{
    if T::packing() is None {
        let ma = a.files@.len() as int;
        let mb = b.files@.len() as int;
        if ma < mb {
            assert(accepted(cs[ma], extra, with_outputs));
        } else if mb < ma {
            assert(accepted(cs[mb], extra, with_outputs));
        }
        assert forall|i: int| 0 <= i < a.files@.len() implies (#[trigger] a.files@[i]).name@ == b.files@[i].name@
            && a.files@[i].input@ == b.files@[i].input@ && opt_text(a.files@[i].output) == opt_text(b.files@[i].output) by {
            assert(holds_case(a.files@[i], case_name(stage, (i + 1) as nat), cs[i], with_outputs));
            assert(holds_case(b.files@[i], case_name(stage, (i + 1) as nat), cs[i], with_outputs));
        }
    }
}

/// The plans of the subtasks, in order: one for each subtask (numbered from
/// 1) that has a configuration and cases, up to and including the first
/// that fails.
pub open spec fn subtask_plans<T: ProblemSpec<T> + MultitaskProblemSpec<T>>(
    plans: Seq<StagePlan>,
    configs: Seq<Option<SubtaskConfig>>,
    cases: Seq<Option<Seq<T>>>,
) -> bool {
    &&& forall|j: int| 0 <= j < plans.len() ==> {
        let k = (#[trigger] plans[j]).stage->Subtask_0;
        &&& plans[j].stage is Subtask
        &&& 1 <= k <= cases.len()
        &&& configs[k - 1] is Some
        &&& cases[k - 1] is Some
        &&& stage_plan(plans[j], cases[k - 1]->Some_0, Stage::Subtask(k), false, subtask_extra(k), subtask_reasons(k))
    }
    &&& forall|i: int, j: int| 0 <= i < j < plans.len() ==> #[trigger] plans[i].stage->Subtask_0
        < #[trigger] plans[j].stage->Subtask_0
    &&& forall|j: int| 0 <= j < plans.len() - 1 ==> (#[trigger] plans[j]).failure is None
    &&& forall|k: int| 0 <= k < cases.len() && #[trigger] configs[k] is Some && cases[k] is Some ==> (exists|j: int|
        0 <= j < plans.len() && (#[trigger] plans[j]).stage == Stage::Subtask((k + 1) as usize)) || (plans.len()
        > 0 && plans.last().failure is Some && plans.last().stage->Subtask_0 < k + 1)
}

/// The plans of the subtasks for the given configurations and cases,
/// the subtask at position `k` being numbered `k + 1`.
pub fn plan_subtasks<T: ProblemSpec<T> + MultitaskProblemSpec<T>>(
    configs: &Vec<Option<SubtaskConfig>>,
    cases: &Vec<Option<Vec<T>>>,
) -> (r: Vec<StagePlan>)
    requires
        configs@.len() == cases@.len(),
        cases@.len() < usize::MAX,
    ensures
        subtask_plans(r@, configs@, cases@.map_values(|c: Option<Vec<T>>| opt_cases(c))),
{
    let ghost cs = cases@.map_values(|c: Option<Vec<T>>| opt_cases(c));
    let mut plans: Vec<StagePlan> = Vec::new();
    let mut k: usize = 0;
    while k < cases.len()
        invariant
            configs@.len() == cases@.len() < usize::MAX,
            cs == cases@.map_values(|c: Option<Vec<T>>| opt_cases(c)),
            k <= cases@.len(),
            forall|j: int| 0 <= j < plans@.len() ==> {
                let n = (#[trigger] plans@[j]).stage->Subtask_0;
                &&& plans@[j].stage is Subtask
                &&& 1 <= n <= k
                &&& configs@[n - 1] is Some
                &&& cs[n - 1] is Some
                &&& stage_plan(plans@[j], cs[n - 1]->Some_0, Stage::Subtask(n), false, subtask_extra(n), subtask_reasons(n))
            },
            forall|i: int, j: int| 0 <= i < j < plans@.len() ==> #[trigger] plans@[i].stage->Subtask_0
                < #[trigger] plans@[j].stage->Subtask_0,
            forall|j: int| 0 <= j < plans@.len() ==> (#[trigger] plans@[j]).failure is None,
            forall|m: int| 0 <= m < k && #[trigger] configs@[m] is Some && cs[m] is Some ==> exists|j: int|
                0 <= j < plans@.len() && (#[trigger] plans@[j]).stage == Stage::Subtask((m + 1) as usize),
        decreases cases@.len() - k,
    {
        if configs[k].is_some() {
            match &cases[k] {
                Some(specs) => {
                    let plan = plan_subtask(specs, k + 1);
                    let failed = plan.failure.is_some();
                    let ghost before = plans@;
                    plans.push(plan);
                    assert forall|m: int| 0 <= m <= k && #[trigger] configs@[m] is Some && cs[m] is Some implies exists|j: int|
                        0 <= j < plans@.len() && (#[trigger] plans@[j]).stage == Stage::Subtask((m + 1) as usize) by {
                        if m < k {
                            let j = choose|j: int| 0 <= j < before.len() && (#[trigger] before[j]).stage == Stage::Subtask((m + 1) as usize);
                            assert(plans@[j] == before[j]);
                        } else {
                            assert(plans@[before.len() as int].stage == Stage::Subtask((m + 1) as usize));
                        }
                    }
                    if failed {
                        return plans;
                    }
                },
                None => {},
            }
        }
        k = k + 1;
    }
    plans
}

/// The official stages of a problem with subtasks. The cases of all three
/// subtasks are drawn first, in order, from one generator seeded with
/// `seed`; a subtask without a configuration or without cases is skipped,
/// and the first subtask that fails ends the stage.
pub fn generate_multitask<T: ProblemSpec<T> + MultitaskProblemSpec<T> + MultitaskTestSpec<T>>(seed: u64) -> (r: Vec<
    StagePlan,
>)
    ensures
        ({
            let s1 = fresh(seed);
            let s2 = T::after_subtask(1, s1);
            let s3 = T::after_subtask(2, s2);
            subtask_plans(
                r@,
                seq![T::subtask_config(1), T::subtask_config(2), T::subtask_config(3)],
                seq![T::subtask_cases(1, s1), T::subtask_cases(2, s2), T::subtask_cases(3, s3)],
            )
        }),
{
    let mut random = Random::new(seed);
    let cases_1 = T::test_cases_subtask_1(&mut random);
    let cases_2 = T::test_cases_subtask_2(&mut random);
    let cases_3 = T::test_cases_subtask_3(&mut random);
    let mut configs: Vec<Option<SubtaskConfig>> = Vec::new();
    configs.push(T::subtask_1());
    configs.push(T::subtask_2());
    configs.push(T::subtask_3());
    let mut cases: Vec<Option<Vec<T>>> = Vec::new();
    cases.push(cases_1);
    cases.push(cases_2);
    cases.push(cases_3);
    let r = plan_subtasks(&configs, &cases);
    proof {
        let s1 = fresh(seed);
        let s2 = T::after_subtask(1, s1);
        let s3 = T::after_subtask(2, s2);
        assert(configs@ =~= seq![T::subtask_config(1), T::subtask_config(2), T::subtask_config(3)]);
        assert(cases@.map_values(|c: Option<Vec<T>>| opt_cases(c)) =~= seq![
            T::subtask_cases(1, s1),
            T::subtask_cases(2, s2),
            T::subtask_cases(3, s3),
        ]);
    }
    r
}

} // verus!
