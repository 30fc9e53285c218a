use testgen::command::parse_command;
use testgen::format::{IOElement, IOFormat, LineElement, Scalar};
use testgen::problem::{
    validate, Constraint, ConstraintsError, MultipleTestcaseConfig, MultitaskProblemSpec, ProblemSpec,
    SubtaskConfig,
};
use testgen::random::Random;
use testgen::runner::sample::plan_samples;
use testgen::runner::testcase::{generate, generate_multitask, plan_official, plan_subtask};
use testgen::runner::{
    case_file_name, check_output, check_stage_output, fill_placeholder, official_error, pack_inputs, pack_outputs,
    packed_file_name, sample_error, split_lines, CaseFailure, GenerateInputOutputError, GenerateSampleTestCaseError,
    Stage,
};
use testgen::testspec::{MultitaskTestSpec, SingletaskTestSpec};

fn rule(holds: bool, description: &str) -> Constraint {
    Constraint { holds, description: description.to_string() }
}

fn line(values: Vec<i64>) -> IOFormat {
    vec![IOElement::Line(values.into_iter().map(|v| LineElement::Scalar(Scalar::Int(v))).collect())]
}

/// A packed problem: two numbers in, their sum out.
struct Sum {
    a: i64,
    b: i64,
    sum: Option<i64>,
}

impl ProblemSpec<Sum> for Sum {
    fn input_format(&self) -> IOFormat {
        line(vec![self.a, self.b])
    }

    fn output_format(&self) -> IOFormat {
        line(vec![self.sum.unwrap()])
    }

    fn constraints(&self) -> Result<(), ConstraintsError> {
        validate(vec![rule(self.a > 0, "self.a > 0"), rule(self.b > 0, "self.b > 0")])
    }

    fn multiple_test_case_config() -> Option<MultipleTestcaseConfig> {
        Some(MultipleTestcaseConfig { output_prefix: Some("Case #{}: ".to_string()) })
    }

    fn test_case_count_constraints(count: usize) -> Result<(), ConstraintsError> {
        validate(vec![rule(count < 10, "t < 10")])
    }
}

impl MultitaskProblemSpec<Sum> for Sum {
    fn subtask_3() -> Option<SubtaskConfig> {
        None
    }

    fn subtask_1() -> Option<SubtaskConfig> {
        Some(SubtaskConfig { score: 20 })
    }

    fn subtask_2() -> Option<SubtaskConfig> {
        Some(SubtaskConfig { score: 80 })
    }

    fn subtask_constraints(&self, subtask: usize) -> Result<(), ConstraintsError> {
        match subtask {
            1 => validate(vec![rule(self.a <= 10, "s.a <= 10")]),
            2 => validate(vec![rule(self.b <= 100, "s.b <= 100")]),
            _ => Ok(()),
        }
    }
}

impl MultitaskTestSpec<Sum> for Sum {
    fn sample_test_cases() -> Vec<Sum> {
        vec![Sum { a: 1, b: 1, sum: Some(2) }]
    }

    fn test_cases_subtask_1(random: &mut Random) -> Option<Vec<Sum>> {
        Some((0..9).map(|_| Sum { a: random.next_range(1, 10), b: random.next_range(1, 10), sum: None }).collect())
    }

    fn test_cases_subtask_2(random: &mut Random) -> Option<Vec<Sum>> {
        Some((0..9).map(|_| Sum { a: random.next_range(1, 100), b: random.next_range(1, 100), sum: None }).collect())
    }

    fn test_cases_subtask_3(_random: &mut Random) -> Option<Vec<Sum>> {
        None
    }
}

/// A problem with one file pair per case.
struct Single {
    n: i64,
}

impl ProblemSpec<Single> for Single {
    fn input_format(&self) -> IOFormat {
        line(vec![self.n])
    }

    fn output_format(&self) -> IOFormat {
        line(vec![self.n * 2])
    }

    fn constraints(&self) -> Result<(), ConstraintsError> {
        validate(vec![rule(self.n >= 0, "n >= 0"), rule(self.n < 100, "n < 100")])
    }

    fn multiple_test_case_config() -> Option<MultipleTestcaseConfig> {
        None
    }

    fn test_case_count_constraints(_count: usize) -> Result<(), ConstraintsError> {
        Ok(())
    }
}

impl SingletaskTestSpec<Single> for Single {
    fn sample_test_cases() -> Vec<Single> {
        vec![Single { n: 3 }]
    }

    fn test_cases(random: &mut Random) -> Vec<Single> {
        (0..4).map(|_| Single { n: random.next_range(0, 99) }).collect()
    }
}

fn sums(pairs: &[(i64, i64)]) -> Vec<Sum> {
    pairs.iter().map(|&(a, b)| Sum { a, b, sum: Some(a + b) }).collect()
}

#[test]
fn validator_reports_every_violated_predicate() {
    let r = validate(vec![rule(false, "a > 0"), rule(true, "b > 0"), rule(false, "a < b")]);
    match r {
        Err(e) => assert_eq!(e.messages, vec!["a > 0".to_string(), "a < b".to_string()]),
        Ok(()) => panic!("expected a violation"),
    }
    assert!(validate(vec![rule(true, "x")]).is_ok());
    assert!(validate(Vec::new()).is_ok());
}

#[test]
fn placeholder_is_filled_everywhere() {
    assert_eq!(fill_placeholder("Case #{}: ", 12), "Case #12: ");
    assert_eq!(fill_placeholder("{}-{}", 3), "3-3");
    assert_eq!(fill_placeholder("{{}}", 4), "{4}");
    assert_eq!(fill_placeholder("no mark", 4), "no mark");
}

#[test]
fn lines_split_at_each_newline() {
    assert_eq!(split_lines("a\n\nb\n"), vec!["a", "", "b", ""]);
    assert_eq!(split_lines(""), vec![""]);
}

#[test]
fn packed_samples_carry_count_and_prefixes() {
    let plan = plan_samples(&sums(&[(1, 1), (1, 2), (2, 3)]));
    assert!(plan.packed);
    assert!(plan.failure.is_none());
    assert_eq!(plan.files.len(), 1);
    assert_eq!(plan.files[0].name, "sample_1");
    assert_eq!(plan.files[0].input, "3\n1 1\n1 2\n2 3");
    let output = plan.files[0].output.clone().unwrap();
    assert_eq!(output, "Case #1: 2\nCase #2: 3\nCase #3: 5");
    let config = MultipleTestcaseConfig { output_prefix: Some("Case #{}: ".to_string()) };
    assert!(check_output(&config, &output).is_ok());
}

#[test]
fn wrong_prefix_on_second_line_is_reported() {
    let config = MultipleTestcaseConfig { output_prefix: Some("Case #{}: ".to_string()) };
    let r = check_output(&config, "Case #1: 2\nCase #5: 3\nCase #3: 5");
    match r {
        Err(GenerateInputOutputError::OutputFormatError(m)) => {
            assert_eq!(m, "Output prefix is not correct: expected Case #2: , found: Case #5: 3")
        }
        _ => panic!("expected a format error"),
    }
    assert!(check_output(&config, "Case #1: 2\nCase #2: 3\n").is_ok());
    match check_output(&config, "Case #1: 2\n\nCase #3: 5") {
        Err(GenerateInputOutputError::OutputFormatError(m)) => {
            assert_eq!(m, "Output prefix is not correct: expected Case #2: , found: ")
        }
        _ => panic!("an empty line inside the output lacks its prefix"),
    }
    assert!(check_output(&config, "").is_ok());
    let none = MultipleTestcaseConfig { output_prefix: None };
    assert!(check_output(&none, "anything\nat all").is_ok());
}

#[test]
fn packing_helpers_match_the_layout() {
    let ins = vec!["1 2".to_string(), "3 4".to_string()];
    assert_eq!(pack_inputs(&ins), "2\n1 2\n3 4");
    assert_eq!(pack_inputs(&Vec::new()), "0\n");
    let config = MultipleTestcaseConfig { output_prefix: Some("#{}: ".to_string()) };
    assert_eq!(pack_outputs(&config, &vec!["3".to_string(), "7".to_string()]), "#1: 3\n#2: 7");
    let bare = MultipleTestcaseConfig { output_prefix: None };
    assert_eq!(pack_outputs(&bare, &vec!["3".to_string(), "7".to_string()]), "3\n7");
}

#[test]
fn file_names_follow_the_stage() {
    assert_eq!(case_file_name(Stage::Sample, 2), "sample_2");
    assert_eq!(case_file_name(Stage::Official, 10), "10");
    assert_eq!(case_file_name(Stage::Subtask(2), 3), "2_3");
    assert_eq!(packed_file_name(Stage::Sample), "sample_1");
    assert_eq!(packed_file_name(Stage::Official), "1");
    assert_eq!(packed_file_name(Stage::Subtask(3)), "3");
}

#[test]
fn packed_stage_fails_on_bad_case_and_writes_nothing() {
    let plan = plan_samples(&sums(&[(1, 1), (0, 2), (-1, 3)]));
    assert!(plan.files.is_empty());
    match plan.failure {
        Some(CaseFailure::Constraints(e)) => {
            assert_eq!(e.messages, vec!["self.a > 0".to_string()])
        }
        _ => panic!("expected a constraints error"),
    }
}

#[test]
fn packed_stage_checks_the_number_of_cases() {
    let many: Vec<(i64, i64)> = (1..=10).map(|i| (i, i)).collect();
    let plan = plan_samples(&sums(&many));
    assert!(plan.files.is_empty());
    match plan.failure {
        Some(CaseFailure::Constraints(e)) => assert_eq!(e.messages, vec!["t < 10".to_string()]),
        _ => panic!("expected a count violation"),
    }
}

#[test]
fn unpacked_stage_keeps_files_before_the_failure() {
    let specs = vec![Single { n: 1 }, Single { n: 2 }, Single { n: 200 }, Single { n: 4 }];
    let plan = plan_official(&specs);
    assert!(!plan.packed);
    assert_eq!(plan.files.len(), 2);
    assert_eq!(plan.files[0].name, "1");
    assert_eq!(plan.files[1].name, "2");
    assert_eq!(plan.files[1].input, "2");
    assert!(plan.files[1].output.is_none());
    match plan.failure {
        Some(CaseFailure::Constraints(e)) => assert_eq!(e.messages, vec!["n < 100".to_string()]),
        _ => panic!("expected a constraints error"),
    }
}

#[test]
fn unpacked_samples_have_expected_outputs() {
    let plan = plan_samples(&vec![Single { n: 3 }, Single { n: 5 }]);
    assert!(plan.failure.is_none());
    assert_eq!(plan.files.len(), 2);
    assert_eq!(plan.files[1].name, "sample_2");
    assert_eq!(plan.files[1].input, "5");
    assert_eq!(plan.files[1].output, Some("10".to_string()));
}

#[test]
fn seeded_official_stage_is_reproducible() {
    let a = generate::<Single>(9);
    let b = generate::<Single>(9);
    assert_eq!(a.files.len(), 4);
    let inputs_a: Vec<String> = a.files.iter().map(|f| f.input.clone()).collect();
    let inputs_b: Vec<String> = b.files.iter().map(|f| f.input.clone()).collect();
    assert_eq!(inputs_a, inputs_b);
}

#[test]
fn subtask_cases_meet_only_their_own_subtask() {
    // Meets subtask 1 (a <= 10) and the case predicate, breaks subtask 2 (b <= 100).
    let specs = sums(&[(5, 500)]);
    let first = plan_subtask(&specs, 1);
    assert!(first.failure.is_none());
    assert_eq!(first.files[0].name, "1");
    let second = plan_subtask(&specs, 2);
    match second.failure {
        Some(CaseFailure::Constraints(e)) => assert_eq!(e.messages, vec!["s.b <= 100".to_string()]),
        _ => panic!("expected the subtask predicate to fail"),
    }
    // Breaks the case predicate while meeting subtask 1.
    let bad = sums(&[(0, 1)]);
    assert!(plan_subtask(&bad, 1).failure.is_some());
}

#[test]
fn subtasks_run_in_order_and_skip_missing_ones() {
    let plans = generate_multitask::<Sum>(0);
    assert_eq!(plans.len(), 2);
    assert_eq!(plans[0].stage, Stage::Subtask(1));
    assert_eq!(plans[1].stage, Stage::Subtask(2));
    assert!(plans.iter().all(|p| p.failure.is_none()));
    assert!(plans[0].files[0].input.starts_with("9\n"));
}

#[test]
fn command_line_splits_into_program_and_arguments() {
    let c = parse_command("python3 sol.py 'a b' c\\ d").unwrap();
    assert_eq!(c.program, "python3");
    assert_eq!(c.args, vec!["sol.py".to_string(), "a b".to_string(), "c d".to_string()]);
    assert!(parse_command("./sol 'open").is_none());
    assert!(parse_command("   ").is_none());
    let c = parse_command("./sol").unwrap();
    assert!(c.args.is_empty());
}

#[test]
fn failures_map_to_stage_errors() {
    let e = ConstraintsError { messages: vec!["x".to_string()] };
    match sample_error(CaseFailure::Constraints(e)) {
        GenerateSampleTestCaseError::ConstraintsError(e) => assert_eq!(e.messages, vec!["x".to_string()]),
        _ => panic!("expected a constraints error"),
    }
    assert!(matches!(official_error(CaseFailure::InvalidFormat(3)), GenerateInputOutputError::InvalidFormat(3)));
}

#[test]
fn only_packed_outputs_are_checked() {
    let packed = plan_samples(&sums(&[(1, 1)]));
    let config = Some(MultipleTestcaseConfig { output_prefix: Some("Case #{}: ".to_string()) });
    assert!(check_stage_output(&packed, &config, "Case #1: 2").is_ok());
    assert!(check_stage_output(&packed, &config, "2").is_err());
    let unpacked = plan_official(&vec![Single { n: 1 }]);
    assert!(check_stage_output(&unpacked, &None, "2").is_ok());
}

struct Broken;
impl ProblemSpec<Broken> for Broken {
    fn input_format(&self) -> IOFormat {
        vec![IOElement::Grid(Vec::new(), 1, 1)]
    }
    fn output_format(&self) -> IOFormat {
        Vec::new()
    }
    fn constraints(&self) -> Result<(), ConstraintsError> {
        Ok(())
    }
    fn multiple_test_case_config() -> Option<MultipleTestcaseConfig> {
        None
    }
    fn test_case_count_constraints(_count: usize) -> Result<(), ConstraintsError> {
        Ok(())
    }
}

#[test]
fn stage_reports_an_unrenderable_case() {
    let plan = plan_official(&vec![Broken, Broken]);
    assert!(plan.files.is_empty());
    assert!(matches!(plan.failure, Some(CaseFailure::InvalidFormat(1))));
}
