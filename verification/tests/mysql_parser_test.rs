use stateql::annotations::extract_annotations;
use stateql::error::Error;
use stateql::ir::{SchemaObject, Value, ViewSecurity};
use stateql::mysql::statements::{
    convert_parse_result, convert_statements, statement_metadata, MysqlStatement,
    HAS_AUTO_INCREMENT_KEY, HAS_PARTITIONING_KEY,
};
use stateql::mysql::parser::split_statement_spans;
use stateql::mysql::MysqlDialect;
use stateql::schema::Ident;

#[test]
fn unsupported_statement_reports_statement_context() {
    let dialect = MysqlDialect;
    let sql = "CREATE TABLE users (id bigint);\nDROP TABLE users;";

    let error = dialect
        .parse(sql)
        .expect_err("unsupported statement should fail fast");

    match error {
        Error::StatementConversion { statement_index, source_sql, line, .. } => {
            assert_eq!(statement_index, 1);
            assert!(source_sql.contains("DROP TABLE users"));
            assert_eq!(line, Some(2));
        }
        other => panic!("expected parse statement conversion error, got {other:?}"),
    }
}

#[test]
fn create_sql_security_view_is_supported() {
    let dialect = MysqlDialect;
    let sql = "CREATE SQL SECURITY DEFINER VIEW `masked_entities_view` AS select `sample_schema`.`sample_entities`.`member_id` AS `member_id` from `sample_schema`.`sample_entities`;";

    let objects = dialect.parse(sql).expect("mysql parse pipeline");

    assert_eq!(objects.len(), 1);
    let SchemaObject::View(view) = &objects[0] else {
        panic!("expected view object");
    };
    assert_eq!(view.name.name.value, "masked_entities_view");
    assert!(view.name.name.quoted);
    assert!(matches!(view.security, Some(ViewSecurity::Definer)));
    assert!(view.query.contains("sample_schema"));
}

#[test]
fn parse_failure_is_reported_on_the_first_line() {
    let error = MysqlDialect.parse("CREATE TABLE (").expect_err("parser must refuse");
    match error {
        Error::StatementConversion { statement_index, source_sql, line, .. } => {
            assert_eq!(statement_index, 0);
            assert_eq!(source_sql, "CREATE TABLE (");
            assert_eq!(line, Some(1));
        }
        other => panic!("expected a statement conversion error, got {other:?}"),
    }
    let refused = convert_parse_result("x", Err("boom".to_string())).unwrap_err();
    assert_eq!(refused.to_text(), "failed to convert statement `x`: boom");
}

#[test]
fn metadata_skips_blank_statements_and_counts_lines() {
    let sql = "CREATE TABLE a (id int);\n\n\n  CREATE TABLE b (id int);\n  ";
    let metadata = statement_metadata(sql);
    assert_eq!(metadata.len(), 2);
    assert_eq!(metadata[0].source_sql, "CREATE TABLE a (id int);");
    assert_eq!(metadata[0].line, 1);
    assert_eq!(metadata[1].source_sql, "CREATE TABLE b (id int);");
    assert_eq!(metadata[1].line, 4);
}

#[test]
fn table_statements_keep_their_text_and_flags() {
    let text = "CREATE TABLE `app`.`orders` (id int AUTO_INCREMENT) PARTITION BY HASH(id) PARTITIONS 4;";
    let stmts = vec![MysqlStatement::CreateTable { sql: text.to_string() }];
    let objects = convert_statements(text, &stmts).expect("table converts");
    let SchemaObject::Table(table) = &objects[0] else {
        panic!("expected table object");
    };
    assert_eq!(table.name.schema.as_ref().map(|s| s.value.as_str()), Some("app"));
    assert_eq!(table.name.name.value, "orders");
    assert!(matches!(&table.options.source_sql, Some(Value::String(s)) if s == text));
    assert!(matches!(&table.options.partition_sql, Some(Value::String(s)) if s == "PARTITION BY HASH(id) PARTITIONS 4"));
    let keys: Vec<&str> = table.options.extra.iter().map(|(k, _)| k.as_str()).collect();
    assert_eq!(keys, vec![HAS_AUTO_INCREMENT_KEY, HAS_PARTITIONING_KEY]);

    let bad = vec![MysqlStatement::Other { sql: "DROP TABLE users".to_string() }];
    let err = convert_statements("", &bad).unwrap_err();
    assert_eq!(
        err.to_text(),
        "failed to convert statement `DROP TABLE users`: unsupported mysql statement kind: DROP TABLE"
    );
}

#[test]
fn table_statement_renders_back_as_written() {
    let text = "  CREATE TABLE `Users` (`id` bigint NOT NULL AUTO_INCREMENT) ENGINE=InnoDB  ";
    let stmts = vec![MysqlStatement::CreateTable { sql: text.to_string() }];
    let objects = convert_statements(text, &stmts).expect("table converts");
    let rendered = MysqlDialect.to_sql(&objects[0]).expect("table renders");
    assert_eq!(rendered, "CREATE TABLE `Users` (`id` bigint NOT NULL AUTO_INCREMENT) ENGINE=InnoDB;");
}

#[test]
fn trailing_renamed_annotation_is_attached_to_table() {
    let dialect = MysqlDialect;
    let sql = "CREATE TABLE users (id bigint); -- @renamed from=legacy_users\n";

    let objects = dialect.parse(sql).expect("mysql parse pipeline");

    assert_eq!(objects.len(), 1);
    let SchemaObject::Table(table) = &objects[0] else {
        panic!("expected table object");
    };
    assert_eq!(table.name.name, Ident { value: "users".to_string(), quoted: false });
    assert_eq!(
        table.renamed_from,
        Some(Ident { value: "legacy_users".to_string(), quoted: false })
    );
}

#[test]
fn orphan_renamed_annotation_fails_fast() {
    let dialect = MysqlDialect;
    let sql = "CREATE TABLE users (id bigint);\n-- @renamed from=legacy_users\n";

    let error = dialect
        .parse(sql)
        .expect_err("orphan annotation must not be silently ignored");

    match error {
        Error::ObjectComparison { target, operation } => {
            assert!(target.contains("annotation @renamed from=legacy_users on line 2"));
            assert_eq!(operation, "rename annotation mismatch");
        }
        other => panic!("expected orphan annotation mismatch, got {other:?}"),
    }
}

#[test]
fn trailing_renamed_annotation_is_attached_to_view() {
    let dialect = MysqlDialect;
    let sql =
        "CREATE VIEW users_view AS SELECT id FROM users; -- @renamed from=legacy_users_view\n";

    let objects = dialect.parse(sql).expect("mysql parse pipeline");

    assert_eq!(objects.len(), 1);
    let SchemaObject::View(view) = &objects[0] else {
        panic!("expected view object");
    };
    assert_eq!(
        view.renamed_from,
        Some(Ident { value: "legacy_users_view".to_string(), quoted: false })
    );
}

#[test]
fn annotation_comments_are_taken_out_with_their_lines_kept() {
    let sql = "CREATE TABLE a (x int); -- @renamed from=old_a\n-- plain comment\nCREATE TABLE b (y int);  --   @renamed from=old_b  \n";
    let (clean, annotations) = extract_annotations(sql);
    assert_eq!(clean, "CREATE TABLE a (x int); \n-- plain comment\nCREATE TABLE b (y int);  \n");
    let found: Vec<(usize, String)> =
        annotations.iter().map(|a| (a.line, a.from.clone())).collect();
    assert_eq!(found, vec![(1, "old_a".to_string()), (3, "old_b".to_string())]);
}

#[test]
fn malformed_annotations_stay_comments() {
    let sql = "CREATE TABLE a (x int); -- @renamed from=\nCREATE TABLE b (y int); -- @renamed from=two words\n";
    let (clean, annotations) = extract_annotations(sql);
    assert_eq!(clean, sql);
    assert!(annotations.is_empty());
}

#[test]
fn annotation_on_a_later_line_of_a_multi_line_statement_is_an_orphan() {
    let sql = "CREATE TABLE users (\n  id bigint\n); -- @renamed from=legacy_users\nCREATE VIEW v AS SELECT 1; -- @renamed from=old_v\n";
    match MysqlDialect.parse(sql) {
        Err(Error::ObjectComparison { target, operation }) => {
            assert_eq!(target, "annotation @renamed from=legacy_users on line 3");
            assert_eq!(operation, "rename annotation mismatch");
        }
        other => panic!("expected orphan annotation mismatch, got {other:?}"),
    }
}

#[test]
fn annotations_rename_each_object_on_their_line() {
    let sql = "CREATE TABLE a (x int); -- @renamed from=old_a\nCREATE VIEW v AS SELECT 1; -- @renamed from=old_v\nCREATE TABLE c (z int);\n";
    let objects = MysqlDialect.parse(sql).expect("mysql parse pipeline");
    assert_eq!(objects.len(), 3);
    let names: Vec<Option<String>> = objects
        .iter()
        .map(|o| match o {
            SchemaObject::Table(t) => t.renamed_from.as_ref().map(|i| i.value.clone()),
            SchemaObject::View(v) => v.renamed_from.as_ref().map(|i| i.value.clone()),
            _ => panic!("unexpected object"),
        })
        .collect();
    assert_eq!(names, vec![Some("old_a".to_string()), Some("old_v".to_string()), None]);
}

#[test]
fn every_statement_but_the_last_ends_after_a_semicolon() {
    let sql = "CREATE TABLE a (x varchar(3) DEFAULT ';');\n-- c; d\nCREATE TABLE b (y int); trailing";
    let spans = split_statement_spans(sql);
    let bytes = sql.as_bytes();
    assert!(spans.len() >= 2);
    for (_, end) in &spans[..spans.len() - 1] {
        assert_eq!(bytes[end - 1], b';');
    }
    assert_eq!(spans.last().unwrap().1, sql.len());
}
