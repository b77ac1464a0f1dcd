use vstd::prelude::*;

use crate::error::Error;
use crate::testkit::manifest;
use crate::testkit::yaml_runner::{self, TestCase};
use crate::text;

verus! {

/// One of the two schemas of a test case.
#[derive(Debug, Clone, Copy, PartialEq, Eq, Structural)]
pub enum SchemaSide {
    Current,
    Desired,
}

/// What statements are generated against: an empty schema, one of the case's schemas, or
/// what the database exports.
#[derive(Debug, Clone, Copy, PartialEq, Eq, Structural)]
pub enum GenerateFrom {
    Empty,
    Schema(SchemaSide),
    Export,
}

/// Where a runner's flow stands. The offline flow checks the forward and reverse
/// migrations; the online flow seeds the database, then checks that each schema it
/// reaches is idempotent around applying the forward and reverse migrations.
#[derive(Debug, Clone, Copy, PartialEq, Eq, Structural)]
pub enum FlowStage {
    OfflineStart,
    OfflineForward,
    OfflineReverse,
    OnlineStart,
    OnlineSeed,
    OnlineSeedApplied,
    OnlineCurrentCheck,
    OnlineForward,
    OnlineForwardApplied,
    OnlineDesiredCheck,
    OnlineReverse,
    OnlineReverseApplied,
    OnlineFinalCheck,
    Done,
}

/// What the caller reports of the action it was given: the flow started, statements
/// were generated (whether there are none, and their rendered text), they were applied,
/// or the action failed.
#[derive(Debug)]
pub enum FlowEvent {
    Started,
    Generated { empty: bool, rendered: String },
    Applied,
    Failed(Error),
}

/// What the caller does next: generate the statements that take `from` to `target`,
/// apply the statements it generated last, or end the flow with a result.
#[derive(Debug)]
pub enum FlowAction {
    Generate { target: SchemaSide, from: GenerateFrom },
    Apply,
    Finish(Result<(), Error>),
}

#[derive(Debug)]
pub struct FlowStep {
    pub stage: FlowStage,
    pub action: FlowAction,
}

/// The events a stage waits for: a start at a start, the outcome of applying after an
/// apply, that of generating otherwise; a finished flow waits for none.
pub open spec fn event_fits(stage: FlowStage, event: FlowEvent) -> bool {
    match stage {
        FlowStage::OfflineStart | FlowStage::OnlineStart => event is Started,
        FlowStage::Done => false,
        FlowStage::OnlineSeedApplied | FlowStage::OnlineForwardApplied
        | FlowStage::OnlineReverseApplied => event is Applied || event is Failed,
        _ => event is Generated || event is Failed,
    }
}

/// The mismatch, if any, between the expected SQL of a direction and what was generated.
pub open spec fn sql_mismatch(direction: Seq<char>, expected: Option<String>, actual: Seq<char>) -> Option<
    Seq<char>,
> {
    match expected {
        None => None,
        Some(x) => if yaml_runner::normalized_sql(x@) == yaml_runner::normalized_sql(actual) {
            None
        } else {
            Some(yaml_runner::mismatch_message(direction, x@, actual))
        },
    }
}

pub open spec fn idempotency_message(phase: Seq<char>, rendered: Seq<char>) -> Seq<char> {
    phase + " is not idempotent; expected no changes but got:\n"@ + text::trim(rendered)
}

pub open spec fn goes_to(r: FlowStep, stage: FlowStage, target: SchemaSide, from: GenerateFrom) -> bool {
    r.stage == stage && r.action == FlowAction::Generate { target, from }
}

pub open spec fn fails_with(r: FlowStep, message: Seq<char>) -> bool {
    r.stage == FlowStage::Done && (r.action matches FlowAction::Finish(Err(e))
        && manifest::is_runner_error(e, message))
}

pub open spec fn finishes_ok(r: FlowStep) -> bool {
    r.stage == FlowStage::Done && r.action matches FlowAction::Finish(Ok(()))
}

/// After generating the statements of a direction: stop on a mismatch with the expected
/// SQL; else apply them, or move on when there are none.
pub open spec fn after_migration(
    r: FlowStep,
    mismatch: Option<Seq<char>>,
    empty: bool,
    applied: FlowStage,
    check: FlowStage,
    target: SchemaSide,
) -> bool {
    match mismatch {
        Some(m) => fails_with(r, m),
        None => if empty {
            goes_to(r, check, target, GenerateFrom::Export)
        } else {
            r.stage == applied && r.action is Apply
        },
    }
}

/// After generating from the export to check a schema: stop unless nothing is left to do.
pub open spec fn after_check(
    r: FlowStep,
    phase: Seq<char>,
    empty: bool,
    rendered: Seq<char>,
    next: FlowStage,
    target: SchemaSide,
) -> bool {
    if empty {
        goes_to(r, next, target, GenerateFrom::Export)
    } else {
        fails_with(r, idempotency_message(phase, rendered))
    }
}

/// `r` is the step a flow takes at `stage` on `event`: a failure ends the flow with its
/// error; otherwise each stage does what the flow prescribes.
pub open spec fn step_holds(test: TestCase, stage: FlowStage, event: FlowEvent, r: FlowStep) -> bool {
    match event {
        FlowEvent::Failed(e) => r.stage == FlowStage::Done && r.action == FlowAction::Finish(Err(e)),
        FlowEvent::Started => if (test.up is Some) != (test.down is Some) {
            fails_with(r, yaml_runner::direction_message())
        } else if stage == FlowStage::OfflineStart {
            goes_to(r, FlowStage::OfflineForward, SchemaSide::Desired, GenerateFrom::Schema(SchemaSide::Current))
        } else {
            goes_to(r, FlowStage::OnlineSeed, SchemaSide::Current, GenerateFrom::Empty)
        },
        FlowEvent::Applied => match stage {
            FlowStage::OnlineSeedApplied => goes_to(
                r,
                FlowStage::OnlineCurrentCheck,
                SchemaSide::Current,
                GenerateFrom::Export,
            ),
            FlowStage::OnlineForwardApplied => goes_to(
                r,
                FlowStage::OnlineDesiredCheck,
                SchemaSide::Desired,
                GenerateFrom::Export,
            ),
            _ => goes_to(r, FlowStage::OnlineFinalCheck, SchemaSide::Current, GenerateFrom::Export),
        },
        FlowEvent::Generated { empty, rendered } => match stage {
            FlowStage::OfflineForward => match sql_mismatch("up"@, test.up, rendered@) {
                Some(m) => fails_with(r, m),
                None => goes_to(
                    r,
                    FlowStage::OfflineReverse,
                    SchemaSide::Current,
                    GenerateFrom::Schema(SchemaSide::Desired),
                ),
            },
            FlowStage::OfflineReverse => match sql_mismatch("down"@, test.down, rendered@) {
                Some(m) => fails_with(r, m),
                None => finishes_ok(r),
            },
            FlowStage::OnlineSeed => after_migration(
                r,
                None,
                empty,
                FlowStage::OnlineSeedApplied,
                FlowStage::OnlineCurrentCheck,
                SchemaSide::Current,
            ),
            FlowStage::OnlineCurrentCheck => after_check(
                r,
                "current schema"@,
                empty,
                rendered@,
                FlowStage::OnlineForward,
                SchemaSide::Desired,
            ),
            FlowStage::OnlineForward => after_migration(
                r,
                sql_mismatch("up"@, test.up, rendered@),
                empty,
                FlowStage::OnlineForwardApplied,
                FlowStage::OnlineDesiredCheck,
                SchemaSide::Desired,
            ),
            FlowStage::OnlineDesiredCheck => after_check(
                r,
                "desired schema"@,
                empty,
                rendered@,
                FlowStage::OnlineReverse,
                SchemaSide::Current,
            ),
            FlowStage::OnlineReverse => after_migration(
                r,
                sql_mismatch("down"@, test.down, rendered@),
                empty,
                FlowStage::OnlineReverseApplied,
                FlowStage::OnlineFinalCheck,
                SchemaSide::Current,
            ),
            _ => if empty {
                finishes_ok(r)
            } else {
                fails_with(r, idempotency_message("current schema after reverse"@, rendered@))
            },
        },
    }
}

/// How far a stage is along its flow.
pub open spec fn stage_rank(stage: FlowStage) -> int {
    match stage {
        FlowStage::OfflineStart => 0,
        FlowStage::OfflineForward => 1,
        FlowStage::OfflineReverse => 2,
        FlowStage::OnlineStart => 0,
        FlowStage::OnlineSeed => 1,
        FlowStage::OnlineSeedApplied => 2,
        FlowStage::OnlineCurrentCheck => 3,
        FlowStage::OnlineForward => 4,
        FlowStage::OnlineForwardApplied => 5,
        FlowStage::OnlineDesiredCheck => 6,
        FlowStage::OnlineReverse => 7,
        FlowStage::OnlineReverseApplied => 8,
        FlowStage::OnlineFinalCheck => 9,
        FlowStage::Done => 10,
    }
}

/// Every step moves a flow forward, so a flow ends after at most ten steps; a flow
/// that started offline stays offline, and one that started online stays online.
pub proof fn law_flow_moves_forward(test: TestCase, stage: FlowStage, event: FlowEvent, r: FlowStep)
    requires
        event_fits(stage, event),
        step_holds(test, stage, event, r),
    ensures
        stage_rank(r.stage) > stage_rank(stage),
        is_offline(stage) && r.stage != FlowStage::Done ==> is_offline(r.stage),
        !is_offline(stage) && r.stage != FlowStage::Done ==> !is_offline(r.stage),
{
}

pub open spec fn is_offline(stage: FlowStage) -> bool {
    stage == FlowStage::OfflineStart || stage == FlowStage::OfflineForward || stage
        == FlowStage::OfflineReverse
}

fn generate(stage: FlowStage, target: SchemaSide, from: GenerateFrom) -> (r: FlowStep)
    ensures
        goes_to(r, stage, target, from),
{
    FlowStep { stage, action: FlowAction::Generate { target, from } }
}

fn fail(e: Error) -> (r: FlowStep)
    ensures
        r.stage == FlowStage::Done && r.action == FlowAction::Finish(Err(e)),
{
    FlowStep { stage: FlowStage::Done, action: FlowAction::Finish(Err(e)) }
}

fn idempotency_failure(phase: &str, rendered: &str) -> (r: FlowStep)
    ensures
        fails_with(r, idempotency_message(phase@, rendered@)),
{
    let mut m = text::chars_of(phase);
    text::append_str(&mut m, " is not idempotent; expected no changes but got:\n");
    let t = text::trim_str(rendered);
    text::append_chars(&mut m, t.as_slice());
    fail(manifest::runner_assertion_error(&m))
}

fn check_sql(direction: &str, expected: &Option<String>, rendered: &str) -> (r: Result<(), Error>)
    ensures
        match sql_mismatch(direction@, *expected, rendered@) {
            Some(m) => r matches Err(e) && manifest::is_runner_error(e, m),
            None => r is Ok,
        },
{
    yaml_runner::assert_expected_sql(direction, expected, rendered)
}

fn migration_step(
    checked: Result<(), Error>,
    empty: bool,
    applied: FlowStage,
    check: FlowStage,
    target: SchemaSide,
) -> (r: FlowStep)
    ensures
        match checked {
            Err(e) => r.stage == FlowStage::Done && r.action == FlowAction::Finish(Err(e)),
            Ok(()) => if empty {
                goes_to(r, check, target, GenerateFrom::Export)
            } else {
                r.stage == applied && r.action is Apply
            },
        },
{
    match checked {
        Err(e) => fail(e),
        Ok(()) => if empty {
            generate(check, target, GenerateFrom::Export)
        } else {
            FlowStep { stage: applied, action: FlowAction::Apply }
        },
    }
}

fn check_step(phase: &str, empty: bool, rendered: &str, next: FlowStage, target: SchemaSide) -> (r:
    FlowStep)
    ensures
        after_check(r, phase@, empty, rendered@, next, target),
{
    if empty {
        generate(next, target, GenerateFrom::Export)
    } else {
        idempotency_failure(phase, rendered)
    }
}

/// The next step of a runner's flow at `stage`, given what came of the last action.
pub fn flow_step(test: &TestCase, stage: FlowStage, event: FlowEvent) -> (r: FlowStep)
    requires
        event_fits(stage, event),
    ensures
        step_holds(*test, stage, event, r),
{
    match event {
        FlowEvent::Failed(e) => fail(e),
        FlowEvent::Started => match yaml_runner::validate_direction_expectations(test) {
            Err(e) => fail(e),
            Ok(()) => if stage == FlowStage::OfflineStart {
                generate(
                    FlowStage::OfflineForward,
                    SchemaSide::Desired,
                    GenerateFrom::Schema(SchemaSide::Current),
                )
            } else {
                generate(FlowStage::OnlineSeed, SchemaSide::Current, GenerateFrom::Empty)
            },
        },
        FlowEvent::Applied => match stage {
            FlowStage::OnlineSeedApplied => generate(
                FlowStage::OnlineCurrentCheck,
                SchemaSide::Current,
                GenerateFrom::Export,
            ),
            FlowStage::OnlineForwardApplied => generate(
                FlowStage::OnlineDesiredCheck,
                SchemaSide::Desired,
                GenerateFrom::Export,
            ),
            _ => generate(FlowStage::OnlineFinalCheck, SchemaSide::Current, GenerateFrom::Export),
        },
        FlowEvent::Generated { empty, rendered } => match stage {
            FlowStage::OfflineForward => match check_sql("up", &test.up, rendered.as_str()) {
                Err(e) => fail(e),
                Ok(()) => generate(
                    FlowStage::OfflineReverse,
                    SchemaSide::Current,
                    GenerateFrom::Schema(SchemaSide::Desired),
                ),
            },
            FlowStage::OfflineReverse => match check_sql("down", &test.down, rendered.as_str()) {
                Err(e) => fail(e),
                Ok(()) => FlowStep { stage: FlowStage::Done, action: FlowAction::Finish(Ok(())) },
            },
            FlowStage::OnlineSeed => migration_step(
                Ok(()),
                empty,
                FlowStage::OnlineSeedApplied,
                FlowStage::OnlineCurrentCheck,
                SchemaSide::Current,
            ),
            FlowStage::OnlineCurrentCheck => check_step(
                "current schema",
                empty,
                rendered.as_str(),
                FlowStage::OnlineForward,
                SchemaSide::Desired,
            ),
            FlowStage::OnlineForward => migration_step(
                check_sql("up", &test.up, rendered.as_str()),
                empty,
                FlowStage::OnlineForwardApplied,
                FlowStage::OnlineDesiredCheck,
                SchemaSide::Desired,
            ),
            FlowStage::OnlineDesiredCheck => check_step(
                "desired schema",
                empty,
                rendered.as_str(),
                FlowStage::OnlineReverse,
                SchemaSide::Current,
            ),
            FlowStage::OnlineReverse => migration_step(
                check_sql("down", &test.down, rendered.as_str()),
                empty,
                FlowStage::OnlineReverseApplied,
                FlowStage::OnlineFinalCheck,
                SchemaSide::Current,
            ),
            _ => if empty {
                FlowStep { stage: FlowStage::Done, action: FlowAction::Finish(Ok(())) }
            } else {
                idempotency_failure("current schema after reverse", rendered.as_str())
            },
        },
    }
}

/// Where an online case's flow starts: it runs only when the version check neither asks
/// to skip the case nor fails; otherwise there is no flow to run.
pub fn online_flow_start(gate: &Result<Option<String>, Error>) -> (r: Option<FlowStage>)
    ensures
        r == (if gate matches Ok(None) {
            Some(FlowStage::OnlineStart)
        } else {
            None::<FlowStage>
        }),
{
    match gate {
        Ok(None) => Some(FlowStage::OnlineStart),
        _ => None,
    }
}

} // verus!
