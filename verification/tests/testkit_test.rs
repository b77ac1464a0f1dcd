use stateql::error::Error;
use stateql::testkit::manifest::{normalized_manifest_text, validate_manifest_entries};
use stateql::testkit::yaml_runner::{
    collapse_sql_whitespace, evaluate_expected_error, is_yaml_path, normalize_sql,
    normalized_version_requirement, run_with_flavor_expectation, sql_matches_quote_aware,
    offline_verdict, online_outcome, source_sql_excerpt, version_skip_reason, yaml_case_references,
    RunnerOutcome, TestCaseFile,
};
use stateql::testkit::{
    matches_flavor, IdempotencyManifestEntry, ManifestStatus, TestCase, TestResult,
};
use stateql::version::Version;

fn text(v: Vec<char>) -> String {
    v.into_iter().collect()
}

#[test]
fn flavor_matcher_supports_positive_and_negative_requirements() {
    assert!(matches_flavor(Some("mysql"), "mysql"));
    assert!(!matches_flavor(Some("mysql"), "mariadb"));
    assert!(matches_flavor(Some("!tidb"), "mysql"));
    assert!(!matches_flavor(Some("!tidb"), "tidb"));
}

#[test]
fn quote_aware_sql_comparison_does_not_ignore_identifier_quotes() {
    let expected = r#"CREATE TABLE "QuotedName" ("QuotedColumn" BIGINT);"#;
    let same_with_spacing = r#"CREATE     TABLE "QuotedName"   ("QuotedColumn"    BIGINT);"#;
    let without_quotes = "CREATE TABLE QuotedName (QuotedColumn BIGINT);";

    assert!(
        sql_matches_quote_aware(expected, same_with_spacing),
        "quote-aware comparison should ignore whitespace-only differences"
    );
    assert!(
        !sql_matches_quote_aware(expected, without_quotes),
        "quote-aware comparison must treat quoted and unquoted identifiers as different"
    );
}

#[test]
fn missing_flavor_matches_every_dialect() {
    assert!(matches_flavor(None, "postgres"));
    assert!(matches_flavor(Some("  "), "postgres"));
}

#[test]
fn normalize_sql_collapses_whitespace_and_drops_empty_statements() {
    let out = text(normalize_sql("CREATE  TABLE a (id INT);\r\n\n  ;  DROP TABLE b ;"));
    assert_eq!(out, "CREATE TABLE a (id INT);DROP TABLE b");
    let c: Vec<char> = "  a \t b\n c  ".chars().collect();
    assert_eq!(text(collapse_sql_whitespace(&c)), "a b c");
}

#[test]
fn yaml_paths_are_files_with_yaml_extensions() {
    assert!(is_yaml_path(true, Some("yml")));
    assert!(is_yaml_path(true, Some("yaml")));
    assert!(!is_yaml_path(true, Some("json")));
    assert!(!is_yaml_path(true, None));
    assert!(!is_yaml_path(false, Some("yml")));
}

#[test]
fn blank_requirements_and_manifest_fields_are_absent() {
    assert_eq!(normalized_version_requirement(&Some("  13.2 ".to_string())).map(text), Some("13.2".to_string()));
    assert_eq!(normalized_version_requirement(&Some("   ".to_string())), None);
    assert_eq!(normalized_version_requirement(&None), None);
    assert_eq!(normalized_manifest_text(&Some(" id-1".to_string())).map(text), Some("id-1".to_string()));
    assert_eq!(normalized_manifest_text(&Some("".to_string())), None);
}

#[test]
fn version_requirements_gate_cases() {
    let mut case = TestCase::default();
    case.min_version = Some("13.2".to_string());
    case.max_version = Some("15".to_string());
    let v = |major, minor, patch| Version { major, minor, patch };
    assert_eq!(
        version_skip_reason(&case, &v(12, 9, 0)).unwrap(),
        Some("Version '12.9.0' is smaller than min_version '13.2'".to_string())
    );
    assert_eq!(version_skip_reason(&case, &v(13, 2, 7)).unwrap(), None);
    assert_eq!(version_skip_reason(&case, &v(15, 4, 0)).unwrap(), None);
    assert_eq!(
        version_skip_reason(&case, &v(16, 0, 0)).unwrap(),
        Some("Version '16.0.0' is larger than max_version '15'".to_string())
    );
    case.min_version = Some("x.1".to_string());
    let err = version_skip_reason(&case, &v(16, 0, 0)).unwrap_err();
    assert_eq!(
        err.to_text(),
        "invalid version requirement 'x.1': no numeric prefix in segment 'x'"
    );
}

#[test]
fn expected_errors_are_compared_by_text() {
    let mut case = TestCase::default();
    case.error = Some("parse current failed".to_string());
    let failure = Error::RunnerAssertion { message: "parse current failed".to_string() };
    assert_eq!(evaluate_expected_error(&case, Err(failure)), Ok(()));
    let missing = evaluate_expected_error(&case, Ok(())).unwrap_err();
    assert_eq!(missing.to_text(), "expected error: parse current failed, but got no error");
    let other = Error::RunnerAssertion { message: "boom".to_string() };
    let wrong = evaluate_expected_error(&case, Err(other)).unwrap_err();
    assert_eq!(wrong.to_text(), "expected error: parse current failed, but got: boom");
}

#[test]
fn flavor_mismatch_turns_failure_into_skip_and_success_into_failure() {
    let flavor = Some("mysql".to_string());
    let failed = Error::RunnerAssertion { message: "x".to_string() };
    assert_eq!(
        run_with_flavor_expectation(&flavor, "postgres", RunnerOutcome::Executed(Err(failed))),
        TestResult::Skipped(
            "Correctly fails on non-matching flavor (requires 'mysql', running on 'postgres')"
                .to_string()
        )
    );
    assert_eq!(
        run_with_flavor_expectation(&flavor, "postgres", RunnerOutcome::Executed(Ok(()))),
        TestResult::Failed(
            "Test passed but flavor 'mysql' does not match current flavor 'postgres'".to_string()
        )
    );
    assert_eq!(
        run_with_flavor_expectation(&flavor, "mysql", RunnerOutcome::Executed(Ok(()))),
        TestResult::Passed
    );
}

#[test]
fn source_excerpt_is_trimmed_and_labels_blank_yaml() {
    assert_eq!(source_sql_excerpt("  a: b  "), "a: b");
    assert_eq!(source_sql_excerpt("   "), "yaml testcase");
    let long: String = std::iter::repeat('x').take(300).collect();
    let expected: String = std::iter::repeat('x').take(256).collect::<String>() + "...";
    assert_eq!(source_sql_excerpt(&long), expected);
}

fn entry(id: &str, status: ManifestStatus, case: Option<&str>) -> IdempotencyManifestEntry {
    IdempotencyManifestEntry {
        id: id.to_string(),
        status,
        case: case.map(str::to_string),
        reason: None,
        tracking: None,
    }
}

#[test]
fn manifest_entries_must_be_unique_and_complete() {
    let good = vec![
        entry("a", ManifestStatus::Ported, Some("file::a")),
        entry("b", ManifestStatus::Ported, Some("file::b")),
    ];
    assert_eq!(validate_manifest_entries(&good), Ok(()));
    let duplicate = vec![
        entry("a", ManifestStatus::Ported, Some("file::a")),
        entry(" a ", ManifestStatus::Ported, Some("file::b")),
    ];
    assert!(validate_manifest_entries(&duplicate).is_err());
    let skipped = vec![entry("s", ManifestStatus::Skipped, None)];
    assert!(validate_manifest_entries(&skipped).is_err());
}

fn executed_text(outcome: RunnerOutcome) -> Result<(), String> {
    match outcome {
        RunnerOutcome::Executed(result) => result.map_err(|e| e.to_text()),
        RunnerOutcome::Skipped(reason) => panic!("unexpected skip: {reason}"),
    }
}

#[test]
fn offline_verdict_holds_the_run_to_the_expected_error_and_flavor() {
    let mut case = TestCase::default();
    assert_eq!(offline_verdict(&case, "postgres", Ok(())), TestResult::Passed);
    let boom = Error::RunnerAssertion { message: "boom".to_string() };
    assert_eq!(
        offline_verdict(&case, "postgres", Err(boom.clone())),
        TestResult::Failed("boom".to_string())
    );
    case.error = Some("boom".to_string());
    assert_eq!(offline_verdict(&case, "postgres", Err(boom.clone())), TestResult::Passed);
    assert_eq!(
        offline_verdict(&case, "postgres", Ok(())),
        TestResult::Failed("expected error: boom, but got no error".to_string())
    );
    case.error = None;
    case.flavor = Some("mysql".to_string());
    assert_eq!(
        offline_verdict(&case, "postgres", Ok(())),
        TestResult::Failed(
            "Test passed but flavor 'mysql' does not match current flavor 'postgres'".to_string()
        )
    );
    assert_eq!(
        offline_verdict(&case, "postgres", Err(boom)),
        TestResult::Skipped(
            "Correctly fails on non-matching flavor (requires 'mysql', running on 'postgres')"
                .to_string()
        )
    );
}

#[test]
fn online_outcome_lets_the_version_gate_decide_first() {
    let mut case = TestCase::default();
    case.error = Some("boom".to_string());
    let boom = Error::RunnerAssertion { message: "boom".to_string() };
    match online_outcome(&case, Ok(Some("too old".to_string())), Err(boom.clone())) {
        RunnerOutcome::Skipped(reason) => assert_eq!(reason, "too old"),
        other => panic!("expected a skip, got {other:?}"),
    }
    let gate_error = Error::RunnerAssertion { message: "bad requirement".to_string() };
    assert_eq!(
        executed_text(online_outcome(&case, Err(gate_error), Ok(()))),
        Err("bad requirement".to_string())
    );
    assert_eq!(executed_text(online_outcome(&case, Ok(None), Err(boom))), Ok(()));
    let other = Error::RunnerAssertion { message: "other".to_string() };
    assert_eq!(
        executed_text(online_outcome(&case, Ok(None), Err(other))),
        Err("expected error: boom, but got: other".to_string())
    );
}

#[test]
fn collapsing_whitespace_twice_changes_nothing_more() {
    let once = collapse_sql_whitespace(&"  CREATE \t TABLE\n  t ( id  int )  ".chars().collect::<Vec<char>>());
    let twice = collapse_sql_whitespace(&once);
    assert_eq!(text(once.clone()), "CREATE TABLE t ( id int )");
    assert_eq!(once, twice);
}

#[test]
fn case_references_do_not_depend_on_file_order() {
    let file = |name: &str, cases: &[&str]| TestCaseFile {
        file_name: name.to_string(),
        path: format!("/cases/{name}"),
        cases: cases.iter().map(|c| (c.to_string(), TestCase::default())).collect(),
    };
    let a = vec![file("b.yml", &["two", "one"]), file("a.yml", &["x"])];
    let b = vec![file("a.yml", &["x"]), file("b.yml", &["two", "one"])];
    let refs = yaml_case_references(&a);
    assert_eq!(refs, yaml_case_references(&b));
    assert_eq!(refs, vec!["a.yml::x".to_string(), "b.yml::one".to_string(), "b.yml::two".to_string()]);
}

#[test]
fn flavor_requirements_are_trimmed_and_negated() {
    assert_eq!(matches_flavor(Some("  mysql "), "mysql"), matches_flavor(Some("mysql"), "mysql"));
    assert_eq!(matches_flavor(Some("!mysql"), "mariadb"), !matches_flavor(Some("mysql"), "mariadb"));
    assert_eq!(matches_flavor(Some("   "), "anything"), true);
}
