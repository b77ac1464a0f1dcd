use stateql::error::Error;
use stateql::testkit::flow::{
    flow_step, online_flow_start, FlowAction, FlowEvent, FlowStage, GenerateFrom, SchemaSide,
};
use stateql::testkit::TestCase;

/// A database that holds one schema text; generating against it yields one statement
/// unless it already holds the target.
struct FakeDatabase {
    schema: String,
    applies: bool,
    log: Vec<String>,
}

fn schema_of(test: &TestCase, side: SchemaSide) -> String {
    match side {
        SchemaSide::Current => test.current.clone(),
        SchemaSide::Desired => test.desired.clone(),
    }
}

fn run(test: &TestCase, start: FlowStage, db: &mut FakeDatabase) -> Result<(), Error> {
    let mut stage = start;
    let mut event = FlowEvent::Started;
    let mut pending = String::new();
    for _ in 0..20 {
        let step = flow_step(test, stage, event);
        stage = step.stage;
        match step.action {
            FlowAction::Finish(result) => return result,
            FlowAction::Apply => {
                db.log.push(format!("apply {pending}"));
                if db.applies {
                    db.schema = pending.clone();
                }
                event = FlowEvent::Applied;
            }
            FlowAction::Generate { target, from } => {
                let target = schema_of(test, target);
                let source = match from {
                    GenerateFrom::Empty => String::new(),
                    GenerateFrom::Schema(side) => schema_of(test, side),
                    GenerateFrom::Export => db.schema.clone(),
                };
                db.log.push(format!("generate {source} -> {target}"));
                pending = target.clone();
                let empty = source == target;
                let rendered = if empty { String::new() } else { format!("MIGRATE TO {target};\n") };
                event = FlowEvent::Generated { empty, rendered };
            }
        }
    }
    panic!("flow did not finish");
}

fn case(current: &str, desired: &str) -> TestCase {
    let mut test = TestCase::default();
    test.current = current.to_string();
    test.desired = desired.to_string();
    test
}

#[test]
fn online_flow_seeds_checks_and_round_trips() {
    let test = case("A", "B");
    let mut db = FakeDatabase { schema: String::new(), applies: true, log: Vec::new() };
    assert_eq!(run(&test, FlowStage::OnlineStart, &mut db), Ok(()));
    assert_eq!(
        db.log,
        vec![
            "generate  -> A",
            "apply A",
            "generate A -> A",
            "generate A -> B",
            "apply B",
            "generate B -> B",
            "generate B -> A",
            "apply A",
            "generate A -> A",
        ]
    );
}

#[test]
fn online_flow_detects_a_schema_that_is_not_idempotent() {
    let test = case("A", "B");
    let mut db = FakeDatabase { schema: String::new(), applies: false, log: Vec::new() };
    let err = run(&test, FlowStage::OnlineStart, &mut db).unwrap_err();
    assert_eq!(
        err.to_text(),
        "current schema is not idempotent; expected no changes but got:\nMIGRATE TO A;"
    );
}

#[test]
fn online_flow_skips_applying_nothing() {
    let test = case("A", "A");
    let mut db = FakeDatabase { schema: "A".to_string(), applies: true, log: Vec::new() };
    assert_eq!(run(&test, FlowStage::OnlineStart, &mut db), Ok(()));
    assert_eq!(db.log.iter().filter(|l| l.starts_with("apply")).count(), 1);
}

#[test]
fn offline_flow_checks_expected_sql_in_both_directions() {
    let mut test = case("A", "B");
    test.up = Some("MIGRATE   TO B;".to_string());
    test.down = Some("MIGRATE TO A;".to_string());
    let mut db = FakeDatabase { schema: String::new(), applies: true, log: Vec::new() };
    assert_eq!(run(&test, FlowStage::OfflineStart, &mut db), Ok(()));
    assert_eq!(db.log, vec!["generate A -> B", "generate B -> A"]);

    test.down = Some("MIGRATE TO C;".to_string());
    let err = run(&test, FlowStage::OfflineStart, &mut db).unwrap_err();
    assert_eq!(
        err.to_text(),
        "down SQL mismatch; expected:\nMIGRATE TO C;\nactual:\nMIGRATE TO A;"
    );
}

#[test]
fn flow_refuses_one_sided_expectations_and_passes_failures_through() {
    let mut test = case("A", "B");
    test.up = Some("X".to_string());
    let mut db = FakeDatabase { schema: String::new(), applies: true, log: Vec::new() };
    let err = run(&test, FlowStage::OnlineStart, &mut db).unwrap_err();
    assert_eq!(err.to_text(), "`up` and `down` must either both be set or both be omitted");
    assert!(db.log.is_empty());

    let failure = Error::RunnerAssertion { message: "export failed".to_string() };
    let step = flow_step(&case("A", "B"), FlowStage::OnlineCurrentCheck, FlowEvent::Failed(failure.clone()));
    assert_eq!(step.stage, FlowStage::Done);
    assert!(matches!(step.action, FlowAction::Finish(Err(e)) if e == failure));
}

#[test]
fn online_flow_runs_only_when_the_version_check_passes() {
    assert_eq!(online_flow_start(&Ok(None)), Some(FlowStage::OnlineStart));
    assert_eq!(online_flow_start(&Ok(Some("too old".to_string()))), None);
    let failure = Error::RunnerAssertion { message: "bad requirement".to_string() };
    assert_eq!(online_flow_start(&Err(failure)), None);
}
