//! What a problem definition supplies: its cases' formats, their
//! constraints, and the optional packing and subtask settings.

use crate::format::{IOElement, IOFormat};
use crate::text::views;
use vstd::prelude::*;

verus! {

/// The descriptions of the predicates that a value violates, in order.
#[derive(Debug)]
pub struct ConstraintsError {
    pub messages: Vec<String>,
}

/// One predicate over a value, with the text that describes it.
pub struct Constraint {
    pub holds: bool,
    pub description: String,
}

/// The descriptions of the predicates that fail, in order.
pub open spec fn violated(cs: Seq<Constraint>) -> Seq<Seq<char>>
    decreases cs.len(),
{
    if cs.len() == 0 {
        Seq::empty()
    } else if cs.last().holds {
        violated(cs.drop_last())
    } else {
        violated(cs.drop_last()).push(cs.last().description@)
    }
}

/// The view of a validation outcome: `None` when it passed, else the messages.
pub open spec fn failure_messages(r: Result<(), ConstraintsError>) -> Option<Seq<Seq<char>>> {
    match r {
        Ok(_) => None,
        Err(e) => Some(e.messages@.map_values(|s: String| s@)),
    }
}

/// Checks every predicate, with no short cut, and reports all that fail.
pub fn validate(constraints: Vec<Constraint>) -> (r: Result<(), ConstraintsError>)
    ensures
        violated(constraints@).len() == 0 ==> r is Ok,
        violated(constraints@).len() > 0 ==> failure_messages(r) == Some(violated(constraints@)),
{
    let mut messages: Vec<String> = Vec::new();
    let mut i: usize = 0;
    while i < constraints.len()
        invariant
            i <= constraints@.len(),
            messages@.map_values(|s: String| s@) =~= violated(constraints@.take(i as int)),
        decreases constraints@.len() - i,
    {
        assert(constraints@.take(i as int + 1).drop_last() =~= constraints@.take(i as int));
        if !constraints[i].holds {
            let ghost prev = messages@;
            messages.push(constraints[i].description.clone());
            assert(messages@.map_values(|s: String| s@) =~= prev.map_values(|s: String| s@).push(
                constraints@[i as int].description@,
            ));
        }
        i = i + 1;
    }
    assert(constraints@.take(constraints@.len() as int) =~= constraints@);
    if messages.len() == 0 {
        Ok(())
    } else {
        Err(ConstraintsError { messages })
    }
}

/// Packing of all cases of a stage into one file pair. The predicate over
/// the number of cases is `ProblemSpec::test_case_count_constraints`.
pub struct MultipleTestcaseConfig {
    /// A template for the start of each output line; `{}` stands for the case number.
    pub output_prefix: Option<String>,
}

/// One subtask's score weight. Its predicate over each of its cases is
/// `MultitaskProblemSpec::subtask_constraints`.
pub struct SubtaskConfig {
    pub score: u8,
}

/// A problem's cases: how one renders, and what it must satisfy.
///
/// Each method's result is described by a spec function. An implementation
/// checked by Verus defines those to match its methods; the defaults only
/// spare implementations that Verus does not check.
pub trait ProblemSpec<T> {
    /// Whether the case meets its own predicate.
    open spec fn valid(&self) -> bool {
        true
    }

    /// The messages that the case's own predicate reports when it fails.
    open spec fn violations(&self) -> Seq<Seq<char>> {
        Seq::empty()
    }

    /// The messages that the predicate over `count` packed cases reports when it fails.
    open spec fn count_violations(count: nat) -> Seq<Seq<char>> {
        Seq::empty()
    }

    /// The format of the case's input.
    open spec fn input_spec(&self) -> Seq<IOElement> {
        Seq::empty()
    }

    /// The format of the case's expected output.
    open spec fn output_spec(&self) -> Seq<IOElement> {
        Seq::empty()
    }

    /// Whether `count` cases may be packed into one file.
    open spec fn count_valid(count: nat) -> bool {
        true
    }

    /// The packing that the problem asks for.
    open spec fn packing() -> Option<MultipleTestcaseConfig> {
        None
    }

    fn input_format(&self) -> (r: IOFormat)
        ensures
            r@ == self.input_spec(),
    ;

    fn output_format(&self) -> (r: IOFormat)
        ensures
            r@ == self.output_spec(),
    ;

    fn constraints(&self) -> (r: Result<(), ConstraintsError>)
        ensures
            r is Ok <==> self.valid(),
            r matches Err(e) ==> views(e.messages@) == self.violations(),
    ;

    fn multiple_test_case_config() -> (r: Option<MultipleTestcaseConfig>)
        ensures
            r == Self::packing(),
    ;

    /// The predicate over the number of cases packed into one file;
    /// checked only where packing is configured.
    fn test_case_count_constraints(count: usize) -> (r: Result<(), ConstraintsError>)
        ensures
            r is Ok <==> Self::count_valid(count as nat),
            r matches Err(e) ==> views(e.messages@) == Self::count_violations(count as nat),
    ;
}

/// A problem split into up to three subtasks, numbered from 1.
///
/// Each method's result is described by a spec function. An implementation
/// checked by Verus defines those to match its methods; the defaults only
/// spare implementations that Verus does not check.
pub trait MultitaskProblemSpec<T> {
    /// Whether the case meets the predicate of the given subtask.
    open spec fn subtask_valid(&self, subtask: usize) -> bool {
        true
    }

    /// The messages that the given subtask's predicate reports when it fails.
    open spec fn subtask_violations(&self, subtask: usize) -> Seq<Seq<char>> {
        Seq::empty()
    }

    /// The configuration of the given subtask, if it has one.
    open spec fn subtask_config(subtask: usize) -> Option<SubtaskConfig> {
        None
    }

    fn subtask_1() -> (r: Option<SubtaskConfig>)
        ensures
            r == Self::subtask_config(1),
    ;

    fn subtask_2() -> (r: Option<SubtaskConfig>)
        ensures
            r == Self::subtask_config(2),
    ;

    fn subtask_3() -> (r: Option<SubtaskConfig>)
        ensures
            r == Self::subtask_config(3),
    ;

    /// The predicate of the given subtask over one of its cases.
    fn subtask_constraints(&self, subtask: usize) -> (r: Result<(), ConstraintsError>)
        ensures
            r is Ok <==> self.subtask_valid(subtask),
            r matches Err(e) ==> views(e.messages@) == self.subtask_violations(subtask),
    ;
}

} // verus!
