//! The decisions of the generation runner: packing cases into one file,
//! naming files, and checking a solution's output against the prefix rule.

pub mod sample;
pub mod testcase;

use crate::generator::{format_text, opt_text, Generator};
use crate::problem::{ConstraintsError, MultipleTestcaseConfig, ProblemSpec};
use crate::text::{chars_of, decimal, decimal_string, join, join_strings, push_char, push_text, views};
use vstd::prelude::*;
use vstd::string::StringExecFns;

verus! {

/// A template with each `{}` replaced by `d`, from left to right.
pub open spec fn filled(t: Seq<char>, d: Seq<char>) -> Seq<char>
    decreases t.len(),
{
    if t.len() == 0 {
        t
    } else if t.len() >= 2 && t[0] == '{' && t[1] == '}' {
        d + filled(t.subrange(2, t.len() as int), d)
    } else {
        seq![t[0]] + filled(t.drop_first(), d)
    }
}

/// The lines of a text, split at each newline; a text without one is one line.
pub open spec fn lines(s: Seq<char>) -> Seq<Seq<char>>
    decreases s.len(),
{
    if s.len() == 0 {
        seq![Seq::empty()]
    } else {
        let prev = lines(s.drop_last());
        if s.last() == '\n' {
            prev.push(Seq::empty())
        } else {
            prev.update(prev.len() - 1, prev.last().push(s.last()))
        }
    }
}

/// Every text has at least one line.
pub proof fn lemma_lines_len(s: Seq<char>)
    ensures
        lines(s).len() >= 1,
    decreases s.len(),
{
    if s.len() > 0 {
        lemma_lines_len(s.drop_last());
    }
}

/// A template with each `{}` replaced by the decimal text of `index`.
pub fn fill_placeholder(template: &str, index: usize) -> (r: String)
    ensures
        r@ == filled(template@, decimal(index as nat)),
{
    let digits = decimal_string(index as u64);
    let ghost d = digits@;
    let cs = chars_of(template);
    let n: usize = cs.len();
    let mut out = String::new();
    let mut i: usize = 0;
    assert(cs@.subrange(0, n as int) =~= cs@);
    while i < n
        invariant
            n == cs@.len(),
            i <= n,
            d == digits@,
            out@ + filled(cs@.subrange(i as int, n as int), d) == filled(cs@, d),
        decreases n - i,
    {
        let ghost rest = cs@.subrange(i as int, n as int);
        if i + 1 < n && cs[i] == '{' && cs[i + 1] == '}' {
            assert(rest.subrange(2, rest.len() as int) =~= cs@.subrange(i + 2, n as int));
            let ghost before = out@;
            out.append(digits.as_str());
            assert(out@ + filled(cs@.subrange(i + 2, n as int), d) =~= before + filled(rest, d));
            i = i + 2;
        } else {
            assert(rest.drop_first() =~= cs@.subrange(i + 1, n as int));
            let ghost before = out@;
            push_char(&mut out, cs[i]);
            assert(out@ + filled(cs@.subrange(i + 1, n as int), d) =~= before + filled(rest, d));
            i = i + 1;
        }
    }
    assert(filled(cs@.subrange(n as int, n as int), d) =~= Seq::<char>::empty());
    assert(out@ + Seq::<char>::empty() =~= out@);
    out
}

/// The lines of a text, split at each newline.
pub fn split_lines(s: &str) -> (r: Vec<String>)
    ensures
        views(r@) == lines(s@),
{
    let cs = chars_of(s);
    let mut done: Vec<String> = Vec::new();
    let mut cur = String::new();
    let mut i: usize = 0;
    assert(cs@.take(0) =~= Seq::<char>::empty());
    assert(views(done@).push(cur@) =~= seq![Seq::<char>::empty()]);
    while i < cs.len()
        invariant
            i <= cs@.len(),
            views(done@).push(cur@) == lines(cs@.take(i as int)),
        decreases cs@.len() - i,
    {
        assert(cs@.take(i as int + 1).drop_last() =~= cs@.take(i as int));
        if cs[i] == '\n' {
            let finished = cur;
            cur = String::new();
            push_text(&mut done, finished);
            assert(views(done@).push(cur@) =~= lines(cs@.take(i as int)).push(Seq::empty()));
        } else {
            let ghost before = cur@;
            push_char(&mut cur, cs[i]);
            assert(views(done@).push(cur@) =~= lines(cs@.take(i as int)).update(
                views(done@).len() as int,
                before.push(cs@[i as int]),
            ));
        }
        i = i + 1;
    }
    assert(cs@.take(cs@.len() as int) =~= cs@);
    push_text(&mut done, cur);
    done
}

/// Why a sample stage stopped.
#[derive(Debug)]
pub enum GenerateSampleTestCaseError {
    ConstraintsError(ConstraintsError),
    /// The case at this position (from 1) describes a format that misses values it reads.
    InvalidFormat(usize),
    IOError(String),
}

/// Why an official stage stopped.
#[derive(Debug)]
pub enum GenerateInputOutputError {
    ConstraintsError(ConstraintsError),
    /// The solution's output breaks the prefix rule.
    OutputFormatError(String),
    /// The case at this position (from 1) describes a format that misses values it reads.
    InvalidFormat(usize),
    IOError(String),
}

/// Why a run stopped.
#[derive(Debug)]
pub enum RunnerError {
    GenerateInputOutputError(GenerateInputOutputError),
    GenerateSampleTestCaseError(GenerateSampleTestCaseError),
    IOError(String),
}

/// Whether an output line starts with its prefix.
pub open spec fn line_fits(line: Seq<char>, prefix: Seq<char>) -> bool {
    prefix.len() <= line.len() && line.take(prefix.len() as int) == prefix
}

/// The lines of an output: split at each newline, where a final newline
/// ends the last line rather than starting an empty one.
pub open spec fn output_lines(s: Seq<char>) -> Seq<Seq<char>> {
    if lines(s).last().len() == 0 { lines(s).drop_last() } else { lines(s) }
}

/// The prefix that line `i` (from 0) must start with.
pub open spec fn expected_prefix(template: Seq<char>, i: int) -> Seq<char> {
    filled(template, decimal((i + 1) as nat))
}

/// The report on a line that misses its prefix.
pub open spec fn prefix_message(expected: Seq<char>, found: Seq<char>) -> Seq<char> {
    "Output prefix is not correct: expected "@ + expected + ", found: "@ + found
}

/// Whether every line of an output meets its prefix.
pub open spec fn output_fits(template: Seq<char>, output: Seq<char>) -> bool {
    forall|i: int| 0 <= i < output_lines(output).len() ==> #[trigger] line_fits(output_lines(output)[i], expected_prefix(template, i))
}

/// Line `i` is the first that misses its prefix.
pub open spec fn first_misfit(template: Seq<char>, output: Seq<char>, i: int) -> bool {
    &&& 0 <= i < output_lines(output).len()
    &&& !line_fits(output_lines(output)[i], expected_prefix(template, i))
    &&& forall|j: int| 0 <= j < i ==> #[trigger] line_fits(output_lines(output)[j], expected_prefix(template, j))
}

fn starts_with(line: &str, prefix: &str) -> (r: bool)
    ensures
        r == (prefix@.len() <= line@.len() && line@.take(prefix@.len() as int) == prefix@),
{
    let l = chars_of(line);
    let p = chars_of(prefix);
    if p.len() > l.len() {
        return false;
    }
    let mut k: usize = 0;
    while k < p.len()
        invariant
            p@ == prefix@,
            l@ == line@,
            p@.len() <= l@.len(),
            k <= p@.len(),
            forall|j: int| 0 <= j < k ==> l@[j] == p@[j],
        decreases p@.len() - k,
    {
        if l[k] != p[k] {
            assert(line@.take(prefix@.len() as int)[k as int] != prefix@[k as int]);
            return false;
        }
        k = k + 1;
    }
    assert(line@.take(prefix@.len() as int) =~= prefix@);
    true
}

/// Checks that each line of a packed output starts with its case's prefix.
pub fn check_output(multi_test_config: &MultipleTestcaseConfig, output: &str) -> (r: Result<(), GenerateInputOutputError>)
    ensures
        multi_test_config.output_prefix is None ==> r is Ok,
        multi_test_config.output_prefix is Some ==> (r is Ok <==> output_fits(
            multi_test_config.output_prefix->Some_0@,
            output@,
        )),
        r is Err ==> exists|i: int| #[trigger]
            first_misfit(multi_test_config.output_prefix->Some_0@, output@, i)
                && r->Err_0 == GenerateInputOutputError::OutputFormatError(r->Err_0->OutputFormatError_0)
                && r->Err_0->OutputFormatError_0@ == prefix_message(
                expected_prefix(multi_test_config.output_prefix->Some_0@, i),
                output_lines(output@)[i],
            ),
{
    match &multi_test_config.output_prefix {
        None => Ok(()),
        Some(template) => {
            let ls = split_lines(output);
            proof { lemma_lines_len(output@); }
            let count: usize = if ls[ls.len() - 1].as_str().is_empty() { ls.len() - 1 } else { ls.len() };
            assert(views(ls@)[ls@.len() - 1] == ls@[ls@.len() - 1]@);
            assert(views(ls@).drop_last() =~= views(ls@.drop_last()));
            assert(count == output_lines(output@).len());
            let mut i: usize = 0;
            while i < count
                invariant
                    multi_test_config.output_prefix == Some(*template),
                    views(ls@) == lines(output@),
                    count == output_lines(output@).len(),
                    count <= ls@.len(),
                    i <= count,
                    forall|j: int| 0 <= j < i ==> #[trigger] line_fits(output_lines(output@)[j], expected_prefix(template@, j)),
                decreases count - i,
            {
                let expected = fill_placeholder(template.as_str(), i + 1);
                assert(views(ls@)[i as int] == ls@[i as int]@);
                assert(output_lines(output@)[i as int] == lines(output@)[i as int]);
                if !starts_with(ls[i].as_str(), expected.as_str()) {
                    let mut message = String::from_str("Output prefix is not correct: expected ");
                    message.append(expected.as_str());
                    message.append(", found: ");
                    message.append(ls[i].as_str());
                    let ghost p = multi_test_config.output_prefix->Some_0@;
                    assert(p == template@);
                    assert(first_misfit(p, output@, i as int));
                    return Err(GenerateInputOutputError::OutputFormatError(message));
                }
                i = i + 1;
            }
            Ok(())
        },
    }
}

/// A packed input: the number of cases on a line, then the cases' inputs.
pub open spec fn packed_input(inputs: Seq<Seq<char>>) -> Seq<char> {
    decimal(inputs.len()) + seq!['\n'] + join(inputs, seq!['\n'])
}

/// The prefix of output line `i` (from 0) under an optional template.
pub open spec fn line_prefix(template: Option<String>, i: int) -> Seq<char> {
    match template {
        Some(t) => expected_prefix(t@, i),
        None => Seq::empty(),
    }
}

/// A packed output: each case's output after its prefix, one per line.
pub open spec fn packed_output(template: Option<String>, outputs: Seq<Seq<char>>) -> Seq<char> {
    join(Seq::new(outputs.len(), |i: int| line_prefix(template, i) + outputs[i]), seq!['\n'])
}

/// Packs the inputs of all cases of a stage into one input.
pub fn pack_inputs(inputs: &Vec<String>) -> (r: String)
    ensures
        r@ == packed_input(views(inputs@)),
{
    let mut out = decimal_string(inputs.len() as u64);
    push_char(&mut out, '\n');
    let rest = join_strings(inputs, "\n");
    proof { reveal_strlit("\n"); }
    assert("\n"@ =~= seq!['\n']);
    out.append(rest.as_str());
    out
}

/// Packs the expected outputs of all cases of a stage into one output, each
/// line after its case's prefix.
pub fn pack_outputs(multi_test_config: &MultipleTestcaseConfig, outputs: &Vec<String>) -> (r: String)
    ensures
        r@ == packed_output(multi_test_config.output_prefix, views(outputs@)),
{
    let ghost template = multi_test_config.output_prefix;
    let mut parts: Vec<String> = Vec::new();
    let mut i: usize = 0;
    while i < outputs.len()
        invariant
            i <= outputs@.len(),
            template == multi_test_config.output_prefix,
            views(parts@) =~= Seq::new(i as nat, |k: int| line_prefix(template, k) + outputs@[k]@),
        decreases outputs@.len() - i,
    {
        let mut line = match &multi_test_config.output_prefix {
            Some(t) => fill_placeholder(t.as_str(), i + 1),
            None => String::new(),
        };
        assert(line@ == line_prefix(template, i as int));
        line.append(outputs[i].as_str());
        push_text(&mut parts, line);
        i = i + 1;
    }
    assert(views(outputs@).len() == outputs@.len());
    assert(Seq::new(outputs@.len(), |k: int| line_prefix(template, k) + outputs@[k]@) =~= Seq::new(
        views(outputs@).len(),
        |k: int| line_prefix(template, k) + views(outputs@)[k],
    ));
    proof { reveal_strlit("\n"); }
    assert("\n"@ =~= seq!['\n']);
    join_strings(&parts, "\n")
}

/// A stage of a run, which decides the names of its files.
#[derive(Debug, Clone, Copy, PartialEq, Eq)]
pub enum Stage {
    Sample,
    Official,
    /// The official cases of the subtask with this number (from 1).
    Subtask(usize),
}

/// The base name of the file pair of case `i` (from 1) of a stage.
pub open spec fn case_name(stage: Stage, i: nat) -> Seq<char> {
    match stage {
        Stage::Sample => "sample_"@ + decimal(i),
        Stage::Official => decimal(i),
        Stage::Subtask(s) => decimal(s as nat) + "_"@ + decimal(i),
    }
}

/// The base name of the one file pair of a packed stage.
pub open spec fn packed_name(stage: Stage) -> Seq<char> {
    match stage {
        Stage::Sample => "sample_"@ + decimal(1),
        Stage::Official => decimal(1),
        Stage::Subtask(s) => decimal(s as nat),
    }
}

/// The base name of the file pair of case `index` (from 1) of a stage.
pub fn case_file_name(stage: Stage, index: usize) -> (r: String)
    ensures
        r@ == case_name(stage, index as nat),
{
    let number = decimal_string(index as u64);
    match stage {
        Stage::Sample => {
            let mut out = String::from_str("sample_");
            out.append(number.as_str());
            out
        },
        Stage::Official => number,
        Stage::Subtask(s) => {
            let mut out = decimal_string(s as u64);
            out.append("_");
            out.append(number.as_str());
            out
        },
    }
}

/// The base name of the one file pair of a packed stage.
pub fn packed_file_name(stage: Stage) -> (r: String)
    ensures
        r@ == packed_name(stage),
{
    match stage {
        Stage::Sample => {
            let mut out = String::from_str("sample_");
            let one = decimal_string(1);
            out.append(one.as_str());
            out
        },
        Stage::Official => decimal_string(1),
        Stage::Subtask(s) => decimal_string(s as u64),
    }
}

/// One file pair of a stage: its base name, its input, and its expected
/// output where the stage knows it.
pub struct CaseFiles {
    pub name: String,
    pub input: String,
    pub output: Option<String>,
}

/// Why a stage stopped early.
pub enum CaseFailure {
    /// A case, or the number of packed cases, broke a predicate.
    Constraints(ConstraintsError),
    /// The case at this position (from 1) describes a format that misses values it reads.
    InvalidFormat(usize),
}

/// What a stage writes, in order, and why it stopped early, if it did.
/// Files before a failure are still written.
pub struct StagePlan {
    pub stage: Stage,
    pub files: Vec<CaseFiles>,
    /// Whether all cases went into one file pair.
    pub packed: bool,
    pub failure: Option<CaseFailure>,
}

/// The rendered input of a case.
pub open spec fn input_text<T: ProblemSpec<T>>(c: T) -> Seq<char> {
    format_text(c.input_spec())->Some_0
}

/// The rendered expected output of a case.
pub open spec fn output_text<T: ProblemSpec<T>>(c: T) -> Seq<char> {
    format_text(c.output_spec())->Some_0
}

/// Whether a stage takes a case: it meets the stage's extra predicate and
/// its own, and what the stage writes of it renders.
pub open spec fn accepted<T: ProblemSpec<T>>(c: T, extra: spec_fn(T) -> bool, with_outputs: bool) -> bool {
    &&& extra(c)
    &&& c.valid()
    &&& format_text(c.input_spec()) is Some
    &&& with_outputs ==> format_text(c.output_spec()) is Some
}

/// Whether the first `m` cases are all taken.
pub open spec fn accepted_upto<T: ProblemSpec<T>>(cs: Seq<T>, extra: spec_fn(T) -> bool, with_outputs: bool, m: int) -> bool {
    forall|i: int| 0 <= i < m ==> #[trigger] accepted(cs[i], extra, with_outputs)
}

/// The failure reported for case `m` (from 0) when it is not taken: the
/// extra predicate's messages, else the case predicate's, else the format
/// that does not render.
pub open spec fn rejection<T: ProblemSpec<T>>(
    c: T,
    extra: spec_fn(T) -> bool,
    why: spec_fn(T) -> Seq<Seq<char>>,
    f: CaseFailure,
    m: int,
) -> bool {
    if !extra(c) {
        f matches CaseFailure::Constraints(e) && views(e.messages@) == why(c)
    } else if !c.valid() {
        f matches CaseFailure::Constraints(e) && views(e.messages@) == c.violations()
    } else {
        f == CaseFailure::InvalidFormat((m + 1) as usize)
    }
}

/// The expected output that a stage writes beside an input.
pub open spec fn written_output<T: ProblemSpec<T>>(c: T, with_outputs: bool) -> Option<Seq<char>> {
    if with_outputs { Some(output_text(c)) } else { None }
}

/// A file pair holding one case under the given name.
pub open spec fn holds_case<T: ProblemSpec<T>>(f: CaseFiles, name: Seq<char>, c: T, with_outputs: bool) -> bool {
    &&& f.name@ == name
    &&& f.input@ == input_text(c)
    &&& opt_text(f.output) == written_output(c, with_outputs)
}

/// The plan of a stage with one file pair per case: the files of the cases
/// before the first that is not taken, and that case's failure.
pub open spec fn unpacked_plan<T: ProblemSpec<T>>(
    plan: StagePlan,
    cs: Seq<T>,
    stage: Stage,
    with_outputs: bool,
    extra: spec_fn(T) -> bool,
    why: spec_fn(T) -> Seq<Seq<char>>,
) -> bool {
    let m = plan.files@.len();
    &&& plan.stage == stage
    &&& !plan.packed
    &&& m <= cs.len()
    &&& accepted_upto(cs, extra, with_outputs, m as int)
    &&& (plan.failure is None <==> m == cs.len())
    &&& plan.failure matches Some(f) ==> !accepted(cs[m as int], extra, with_outputs) && rejection(cs[m as int], extra, why, f, m as int)
    &&& forall|i: int| 0 <= i < m ==> #[trigger] holds_case(plan.files@[i], case_name(stage, (i + 1) as nat), cs[i], with_outputs)
}

/// The plan of a packed stage: one file pair holding all cases where every
/// case is taken and their number meets its predicate; else no file, and
/// the failure of the first case not taken or of the number.
pub open spec fn packed_plan<T: ProblemSpec<T>>(
    plan: StagePlan,
    cs: Seq<T>,
    stage: Stage,
    with_outputs: bool,
    extra: spec_fn(T) -> bool,
    why: spec_fn(T) -> Seq<Seq<char>>,
    config: MultipleTestcaseConfig,
) -> bool {
    let all = accepted_upto(cs, extra, with_outputs, cs.len() as int);
    &&& plan.stage == stage
    &&& plan.packed
    &&& (plan.failure is None <==> all && T::count_valid(cs.len()))
    &&& plan.failure is None ==> {
        &&& plan.files@.len() == 1
        &&& plan.files@[0].name@ == packed_name(stage)
        &&& plan.files@[0].input@ == packed_input(cs.map_values(|c: T| input_text(c)))
        &&& opt_text(plan.files@[0].output) == if with_outputs {
            Some(packed_output(config.output_prefix, cs.map_values(|c: T| output_text(c))))
        } else {
            None
        }
    }
    &&& plan.failure matches Some(f) ==> {
        &&& plan.files@.len() == 0
        &&& all ==> (f matches CaseFailure::Constraints(e) && views(e.messages@) == T::count_violations(cs.len()))
        &&& !all ==> exists|m: int| 0 <= m < cs.len() && accepted_upto(cs, extra, with_outputs, m) && !accepted(
            #[trigger] cs[m],
            extra,
            with_outputs,
        ) && rejection(cs[m], extra, why, f, m)
    }
}

/// The plan of a stage, packed where the problem asks for it.
pub open spec fn stage_plan<T: ProblemSpec<T>>(
    plan: StagePlan,
    cs: Seq<T>,
    stage: Stage,
    with_outputs: bool,
    extra: spec_fn(T) -> bool,
    why: spec_fn(T) -> Seq<Seq<char>>,
) -> bool {
    match T::packing() {
        Some(config) => packed_plan(plan, cs, stage, with_outputs, extra, why, config),
        None => unpacked_plan(plan, cs, stage, with_outputs, extra, why),
    }
}

/// Validates one case, the extra predicate first, then renders it.
fn render_case<T: ProblemSpec<T>, F: Fn(&T) -> Result<(), ConstraintsError>>(
    spec: &T,
    position: usize,
    with_output: bool,
    extra: &F,
    accept: Ghost<spec_fn(T) -> bool>,
    why: Ghost<spec_fn(T) -> Seq<Seq<char>>>,
) -> (r: Result<(String, Option<String>), CaseFailure>)
    requires
        1 <= position,
        forall|s: &T| extra.requires((s,)),
        forall|s: &T, q: Result<(), ConstraintsError>| extra.ensures((s,), q) ==> (q is Ok <==> accept@(*s)) && (q matches Err(e) ==> views(e.messages@) == why@(*s)),
    ensures
        r is Ok <==> accepted(*spec, accept@, with_output),
        r matches Ok((i, o)) ==> i@ == input_text(*spec) && opt_text(o) == written_output(*spec, with_output),
        r matches Err(f) ==> rejection(*spec, accept@, why@, f, position - 1),
{
    match extra(spec) {
        Ok(()) => {},
        Err(e) => return Err(CaseFailure::Constraints(e)),
    }
    match spec.constraints() {
        Ok(()) => {},
        Err(e) => return Err(CaseFailure::Constraints(e)),
    }
    let input = match spec.input_format().generate() {
        Some(t) => t,
        None => return Err(CaseFailure::InvalidFormat(position)),
    };
    if with_output {
        match spec.output_format().generate() {
            Some(t) => Ok((input, Some(t))),
            None => Err(CaseFailure::InvalidFormat(position)),
        }
    } else {
        Ok((input, None))
    }
}

/// Each case in its own file pair; stops at the first case that fails.
fn plan_unpacked<T: ProblemSpec<T>, F: Fn(&T) -> Result<(), ConstraintsError>>(
    specs: &Vec<T>,
    stage: Stage,
    with_outputs: bool,
    extra: &F,
    accept: Ghost<spec_fn(T) -> bool>,
    why: Ghost<spec_fn(T) -> Seq<Seq<char>>>,
) -> (r: StagePlan)
    requires
        forall|s: &T| extra.requires((s,)),
        forall|s: &T, q: Result<(), ConstraintsError>| extra.ensures((s,), q) ==> (q is Ok <==> accept@(*s)) && (q matches Err(e) ==> views(e.messages@) == why@(*s)),
    ensures
        unpacked_plan(r, specs@, stage, with_outputs, accept@, why@),
{
    let mut files: Vec<CaseFiles> = Vec::new();
    let mut i: usize = 0;
    while i < specs.len()
        invariant
            i <= specs@.len(),
            files@.len() == i,
            forall|s: &T| extra.requires((s,)),
            forall|s: &T, q: Result<(), ConstraintsError>| extra.ensures((s,), q) ==> (q is Ok <==> accept@(*s)) && (q matches Err(e) ==> views(e.messages@) == why@(*s)),
            accepted_upto(specs@, accept@, with_outputs, i as int),
            forall|k: int| 0 <= k < i ==> #[trigger] holds_case(files@[k], case_name(stage, (k + 1) as nat), specs@[k], with_outputs),
        decreases specs@.len() - i,
    {
        match render_case(&specs[i], i + 1, with_outputs, extra, accept, why) {
            Ok((input, output)) => {
                let name = case_file_name(stage, i + 1);
                files.push(CaseFiles { name, input, output });
            },
            Err(e) => {
                return StagePlan { stage, files, packed: false, failure: Some(e) };
            },
        }
        i = i + 1;
    }
    StagePlan { stage, files, packed: false, failure: None }
}

/// All cases in one file pair, the number of cases first; nothing is
/// written if a case or the number of cases fails.
fn plan_packed<T: ProblemSpec<T>, F: Fn(&T) -> Result<(), ConstraintsError>>(
    specs: &Vec<T>,
    stage: Stage,
    with_outputs: bool,
    config: &MultipleTestcaseConfig,
    extra: &F,
    accept: Ghost<spec_fn(T) -> bool>,
    why: Ghost<spec_fn(T) -> Seq<Seq<char>>>,
) -> (r: StagePlan)
    requires
        forall|s: &T| extra.requires((s,)),
        forall|s: &T, q: Result<(), ConstraintsError>| extra.ensures((s,), q) ==> (q is Ok <==> accept@(*s)) && (q matches Err(e) ==> views(e.messages@) == why@(*s)),
    ensures
        packed_plan(r, specs@, stage, with_outputs, accept@, why@, *config),
{
    let mut inputs: Vec<String> = Vec::new();
    let mut outputs: Vec<String> = Vec::new();
    let mut i: usize = 0;
    while i < specs.len()
        invariant
            i <= specs@.len(),
            forall|s: &T| extra.requires((s,)),
            forall|s: &T, q: Result<(), ConstraintsError>| extra.ensures((s,), q) ==> (q is Ok <==> accept@(*s)) && (q matches Err(e) ==> views(e.messages@) == why@(*s)),
            accepted_upto(specs@, accept@, with_outputs, i as int),
            views(inputs@) =~= specs@.take(i as int).map_values(|c: T| input_text(c)),
            with_outputs ==> views(outputs@) =~= specs@.take(i as int).map_values(|c: T| output_text(c)),
        decreases specs@.len() - i,
    {
        match render_case(&specs[i], i + 1, with_outputs, extra, accept, why) {
            Ok((input, output)) => {
                push_text(&mut inputs, input);
                match output {
                    Some(t) => push_text(&mut outputs, t),
                    None => {},
                }
                assert(specs@.take(i as int + 1) =~= specs@.take(i as int).push(specs@[i as int]));
            },
            Err(e) => {
                let r = StagePlan { stage, files: Vec::new(), packed: true, failure: Some(e) };
                assert(!accepted_upto(specs@, accept@, with_outputs, specs@.len() as int));
                assert(accepted(specs@[i as int], accept@, with_outputs) == false);
                return r;
            },
        }
        i = i + 1;
    }
    assert(specs@.take(specs@.len() as int) =~= specs@);
    match T::test_case_count_constraints(specs.len()) {
        Ok(()) => {},
        Err(e) => {
            return StagePlan { stage, files: Vec::new(), packed: true, failure: Some(CaseFailure::Constraints(e)) };
        },
    }
    let input = pack_inputs(&inputs);
    let output = if with_outputs {
        Some(pack_outputs(config, &outputs))
    } else {
        None
    };
    let name = packed_file_name(stage);
    let mut files: Vec<CaseFiles> = Vec::new();
    files.push(CaseFiles { name, input, output });
    StagePlan { stage, files, packed: true, failure: None }
}

/// The files of a stage, packed where the problem asks for it.
pub(crate) fn plan_stage<T: ProblemSpec<T>, F: Fn(&T) -> Result<(), ConstraintsError>>(
    specs: &Vec<T>,
    stage: Stage,
    with_outputs: bool,
    extra: &F,
    accept: Ghost<spec_fn(T) -> bool>,
    why: Ghost<spec_fn(T) -> Seq<Seq<char>>>,
) -> (r: StagePlan)
    requires
        forall|s: &T| extra.requires((s,)),
        forall|s: &T, q: Result<(), ConstraintsError>| extra.ensures((s,), q) ==> (q is Ok <==> accept@(*s)) && (q matches Err(e) ==> views(e.messages@) == why@(*s)),
    ensures
        stage_plan(r, specs@, stage, with_outputs, accept@, why@),
{
    match T::multiple_test_case_config() {
        Some(config) => plan_packed(specs, stage, with_outputs, &config, extra, accept, why),
        None => plan_unpacked(specs, stage, with_outputs, extra, accept, why),
    }
}

/// The error of the sample stage for a failure.
pub fn sample_error(f: CaseFailure) -> (r: GenerateSampleTestCaseError)
    ensures
        f matches CaseFailure::InvalidFormat(k) ==> r == GenerateSampleTestCaseError::InvalidFormat(k),
        f matches CaseFailure::Constraints(e) ==> r == GenerateSampleTestCaseError::ConstraintsError(e),
{
    match f {
        CaseFailure::Constraints(e) => GenerateSampleTestCaseError::ConstraintsError(e),
        CaseFailure::InvalidFormat(k) => GenerateSampleTestCaseError::InvalidFormat(k),
    }
}

/// The error of an official stage for a failure.
pub fn official_error(f: CaseFailure) -> (r: GenerateInputOutputError)
    ensures
        f matches CaseFailure::InvalidFormat(k) ==> r == GenerateInputOutputError::InvalidFormat(k),
        f matches CaseFailure::Constraints(e) ==> r == GenerateInputOutputError::ConstraintsError(e),
{
    match f {
        CaseFailure::Constraints(e) => GenerateInputOutputError::ConstraintsError(e),
        CaseFailure::InvalidFormat(k) => GenerateInputOutputError::InvalidFormat(k),
    }
}

/// What to make of a solution's output for a stage's file pair: a packed
/// stage's output must meet the prefix rule, any other output is taken.
pub fn check_stage_output(plan: &StagePlan, multi_test_config: &Option<MultipleTestcaseConfig>, output: &str) -> (r: Result<(), GenerateInputOutputError>)
    ensures
        !(plan.packed && multi_test_config is Some) ==> r is Ok,
        plan.packed && multi_test_config is Some ==> match multi_test_config->Some_0.output_prefix {
            None => r is Ok,
            Some(p) => (r is Ok <==> output_fits(p@, output@)),
        },
{
    match multi_test_config {
        Some(config) => {
            if plan.packed {
                check_output(config, output)
            } else {
                Ok(())
            }
        },
        None => Ok(()),
    }
}

/// Whether a text holds no newline.
pub open spec fn single_line(t: Seq<char>) -> bool {
    forall|j: int| 0 <= j < t.len() ==> t[j] != '\n'
}

proof fn lemma_decimal_single_line(n: nat)
    ensures
        single_line(decimal(n)),
    decreases n,
{
    if n >= 10 {
        lemma_decimal_single_line(n / 10);
        let d = decimal(n / 10);
        assert(decimal(n) == d.push(crate::text::digit_char((n % 10) as int)));
        assert forall|j: int| 0 <= j < decimal(n).len() implies decimal(n)[j] != '\n' by {
            if j < d.len() {
                assert(decimal(n)[j] == d[j]);
            }
        }
    }
}

proof fn lemma_filled_single_line(t: Seq<char>, d: Seq<char>)
    requires
        single_line(t),
        single_line(d),
    ensures
        single_line(filled(t, d)),
    decreases t.len(),
{
    if t.len() == 0 {
    } else if t.len() >= 2 && t[0] == '{' && t[1] == '}' {
        let rest = t.subrange(2, t.len() as int);
        assert forall|j: int| 0 <= j < rest.len() implies rest[j] != '\n' by {
            assert(rest[j] == t[j + 2]);
        }
        lemma_filled_single_line(rest, d);
        let f = filled(rest, d);
        assert forall|j: int| 0 <= j < (d + f).len() implies (d + f)[j] != '\n' by {
            if j >= d.len() {
                assert((d + f)[j] == f[j - d.len()]);
            }
        }
    } else {
        let rest = t.drop_first();
        assert forall|j: int| 0 <= j < rest.len() implies rest[j] != '\n' by {
            assert(rest[j] == t[j + 1]);
        }
        lemma_filled_single_line(rest, d);
        let f = filled(rest, d);
        assert forall|j: int| 0 <= j < (seq![t[0]] + f).len() implies (seq![t[0]] + f)[j] != '\n' by {
            if j >= 1 {
                assert((seq![t[0]] + f)[j] == f[j - 1]);
            }
        }
    }
}

proof fn lemma_lines_append(s: Seq<char>, t: Seq<char>)
    requires
        single_line(t),
    ensures
        lines(s).len() >= 1,
        lines(s + t) == lines(s).update(lines(s).len() - 1, lines(s).last() + t),
    decreases t.len(),
{
    lemma_lines_len(s);
    if t.len() == 0 {
        assert(s + t =~= s);
        assert(lines(s).last() + t =~= lines(s).last());
        assert(lines(s).update(lines(s).len() - 1, lines(s).last()) =~= lines(s));
    } else {
        let u = t.drop_last();
        assert forall|j: int| 0 <= j < u.len() implies u[j] != '\n' by {
            assert(u[j] == t[j]);
        }
        lemma_lines_append(s, u);
        assert((s + t).drop_last() =~= s + u);
        assert((s + t).last() == t.last());
        let prev = lines(s + u);
        assert(prev.last() == lines(s).last() + u);
        assert(prev.last().push(t.last()) =~= lines(s).last() + t);
        assert(lines(s + t) =~= lines(s).update(lines(s).len() - 1, lines(s).last() + t));
    }
}

proof fn lemma_lines_of_join(xs: Seq<Seq<char>>)
    requires
        xs.len() >= 1,
        forall|i: int| 0 <= i < xs.len() ==> single_line(#[trigger] xs[i]),
    ensures
        lines(join(xs, seq!['\n'])) == xs,
    decreases xs.len(),
{
    if xs.len() == 1 {
        lemma_lines_append(Seq::empty(), xs[0]);
        assert(Seq::<char>::empty() + xs[0] =~= xs[0]);
        assert(lines(Seq::<char>::empty()).last() + xs[0] =~= xs[0]);
        assert(lines(xs[0]) =~= xs);
    } else {
        let init = xs.drop_last();
        assert forall|i: int| 0 <= i < init.len() implies single_line(#[trigger] init[i]) by {
            assert(init[i] == xs[i]);
        }
        lemma_lines_of_join(init);
        let a = join(init, seq!['\n']);
        let a_nl = a + seq!['\n'];
        assert(join(xs, seq!['\n']) == a_nl + xs.last());
        assert(a_nl.drop_last() =~= a);
        assert(lines(a_nl) == init.push(Seq::empty()));
        assert(single_line(xs[xs.len() - 1]));
        lemma_lines_append(a_nl, xs.last());
        assert(Seq::<char>::empty() + xs.last() =~= xs.last());
        assert(init.push(Seq::empty()).update(init.len() as int, xs.last()) =~= xs);
    }
}

/// Packing outputs puts each case's prefix at the start of its own line, so
/// the packed output passes the prefix check. This holds where the template
/// and each case's output are single lines and there is at least one case.
pub proof fn packed_output_meets_prefixes(template: String, outputs: Seq<Seq<char>>)
    requires
        outputs.len() >= 1,
        single_line(template@),
        forall|i: int| 0 <= i < outputs.len() ==> single_line(#[trigger] outputs[i]),
    ensures
        lines(packed_output(Some(template), outputs)) == Seq::new(
            outputs.len(),
            |i: int| expected_prefix(template@, i) + outputs[i],
        ),
        output_fits(template@, packed_output(Some(template), outputs)),
{
    let xs = Seq::new(outputs.len(), |i: int| line_prefix(Some(template), i) + outputs[i]);
    assert forall|i: int| 0 <= i < xs.len() implies single_line(#[trigger] xs[i]) by {
        let p = expected_prefix(template@, i);
        lemma_decimal_single_line((i + 1) as nat);
        lemma_filled_single_line(template@, decimal((i + 1) as nat));
        assert forall|j: int| 0 <= j < xs[i].len() implies xs[i][j] != '\n' by {
            if j < p.len() {
                assert(xs[i][j] == p[j]);
            } else {
                assert(xs[i][j] == outputs[i][j - p.len()]);
            }
        }
    }
    lemma_lines_of_join(xs);
    assert(xs =~= Seq::new(outputs.len(), |i: int| expected_prefix(template@, i) + outputs[i]));
    let ls = output_lines(packed_output(Some(template), outputs));
    assert forall|i: int| 0 <= i < ls.len() implies #[trigger] line_fits(ls[i], expected_prefix(template@, i)) by {
        let p = expected_prefix(template@, i);
        assert(ls[i] == xs[i]);
        assert(ls[i].take(p.len() as int) =~= p);
    }
}

} // verus!
