use stateql::ir::{
    Column, DataType, Expr, Identity, Partition, PartitionBound, PartitionElement,
    PartitionStrategy, SchemaObject, Sequence, Table, TableOptions, Value,
};
use stateql::postgres::normalize::{
    canonical_custom, normalize_custom_data_type, normalize_object, normalize_schema,
};
use stateql::postgres::partitions::{PARTITION_PARENT_NAME_KEY, PARTITION_PARENT_SCHEMA_KEY};
use stateql::postgres::equivalence::is_equivalent_expr;
use stateql::postgres::render::render_data_type;
use stateql::schema::{Ident, QualifiedName};

fn ident(value: &str) -> Ident {
    Ident { value: value.to_string(), quoted: false }
}

fn name(schema: Option<&str>, value: &str) -> QualifiedName {
    QualifiedName { schema: schema.map(ident), name: ident(value) }
}

fn options() -> TableOptions {
    TableOptions { without_rowid: None, strict: None, source_sql: None, partition_sql: None, extra: Vec::new() }
}

fn column(n: &str, data_type: DataType) -> Column {
    Column {
        name: ident(n),
        data_type,
        not_null: false,
        default: None,
        identity: None,
        generated: None,
        collation: None,
        auto_increment_hint: None,
        identity_hint: None,
        generated_hint: None,
    }
}

fn table(n: QualifiedName, columns: Vec<Column>) -> Table {
    Table {
        name: n,
        columns,
        primary_key: None,
        foreign_keys: Vec::new(),
        checks: Vec::new(),
        exclusions: Vec::new(),
        partition: None,
        options: options(),
        renamed_from: None,
    }
}

fn only_table(object: SchemaObject) -> Table {
    match object {
        SchemaObject::Table(t) => t,
        other => panic!("expected a table, got {other:?}"),
    }
}

#[test]
fn custom_type_names_resolve_to_builtin_types_or_canonical_text() {
    assert_eq!(render_data_type(&normalize_custom_data_type("pg_catalog.INT4")), "integer");
    assert_eq!(render_data_type(&normalize_custom_data_type("  character   varying ")), "varchar");
    assert_eq!(render_data_type(&normalize_custom_data_type("timestamptz")), "timestamp with time zone");
    assert_eq!(
        render_data_type(&normalize_custom_data_type("MySchema.\"Weird Type\"")),
        "myschema.weird type"
    );
    assert_eq!(canonical_custom(&"a.\"b.c\"".chars().collect::<Vec<_>>()).iter().collect::<String>(), "a.b.c");
}

#[test]
fn normalize_object_resolves_types_trims_expressions_and_represents_sequences() {
    let mut t = table(
        name(Some("app"), "users"),
        vec![
            Column {
                default: Some(Expr::Raw("  now() ".to_string())),
                ..column("id", DataType::Custom("serial".to_string()))
            },
            column("tags", DataType::Array(Box::new(DataType::Custom("int8".to_string())))),
            Column {
                identity_hint: Some(Value::String(" A ".to_string())),
                default: Some(Expr::Raw("1".to_string())),
                ..column("n", DataType::Integer)
            },
            column("big", DataType::Custom("public.bigserial".to_string())),
        ],
    );
    t.columns[0].default = None;
    let mut object = SchemaObject::Table(t);
    normalize_object(&mut object);
    let t = only_table(object);

    assert_eq!(render_data_type(&t.columns[0].data_type), "integer");
    match &t.columns[0].default {
        Some(Expr::Raw(raw)) => assert_eq!(raw, "nextval('app.users_id_seq'::regclass)"),
        other => panic!("expected a nextval default, got {other:?}"),
    }
    assert_eq!(render_data_type(&t.columns[1].data_type), "bigint[]");
    let identity = t.columns[2].identity.as_ref().expect("identity from the catalog mode");
    assert!(identity.always);
    assert!(t.columns[2].identity_hint.is_none());
    assert!(t.columns[2].default.is_none());
    assert_eq!(render_data_type(&t.columns[3].data_type), "bigint");
}

#[test]
fn normalize_object_trims_raw_expressions() {
    let mut t = table(name(None, "t"), vec![Column {
        default: Some(Expr::Raw("  x + 1 ".to_string())),
        ..column("x", DataType::Integer)
    }]);
    t.checks.push(stateql::ir::CheckConstraint { name: None, expr: Expr::Raw(" x > 0\n".to_string()), no_inherit: false });
    let mut object = SchemaObject::Table(t);
    normalize_object(&mut object);
    let t = only_table(object);
    match &t.columns[0].default {
        Some(Expr::Raw(raw)) => assert_eq!(raw, "x + 1"),
        other => panic!("unexpected default {other:?}"),
    }
    match &t.checks[0].expr {
        Expr::Raw(raw) => assert_eq!(raw, "x > 0"),
        other => panic!("unexpected check {other:?}"),
    }
}

#[test]
fn implicit_identity_sequence_is_folded_into_its_column() {
    let users = table(
        name(Some("public"), "users"),
        vec![Column {
            identity: Some(Identity {
                always: false,
                start: None,
                increment: Some(2),
                min_value: None,
                max_value: None,
                cache: None,
                cycle: false,
            }),
            ..column("id", DataType::BigInt)
        }],
    );
    let sequence = Sequence {
        name: name(Some("public"), "users_id_seq"),
        data_type: Some(DataType::BigInt),
        increment: Some(1),
        min_value: None,
        max_value: Some(1000),
        start: Some(100),
        cache: None,
        cycle: true,
        owned_by: Some((name(Some("public"), "users"), ident("id"))),
    };
    let unrelated = Sequence { name: name(Some("public"), "other_seq"), owned_by: None, ..sequence.clone_for_test() };
    let mut objects = vec![SchemaObject::Table(users), SchemaObject::Sequence(sequence), SchemaObject::Sequence(unrelated)];
    normalize_schema(&mut objects);

    assert_eq!(objects.len(), 2);
    let t = only_table(objects.remove(0));
    let identity = t.columns[0].identity.as_ref().expect("identity stays");
    assert_eq!(identity.start, Some(100));
    assert_eq!(identity.increment, Some(2));
    assert_eq!(identity.max_value, Some(1000));
    assert!(identity.cycle);
    match &objects[0] {
        SchemaObject::Sequence(s) => assert_eq!(s.name.name.value, "other_seq"),
        other => panic!("expected the unrelated sequence, got {other:?}"),
    }
}

#[test]
fn partition_children_are_folded_into_their_parent() {
    let mut parent = table(name(None, "events"), vec![column("id", DataType::Integer)]);
    parent.partition = Some(Partition { strategy: PartitionStrategy::Range, columns: vec![ident("id")], partitions: Vec::new() });
    let mut child = table(name(None, "events_p1"), vec![column("id", DataType::Integer)]);
    child.options.extra = vec![
        (PARTITION_PARENT_NAME_KEY.to_string(), Value::String("events".to_string())),
        (PARTITION_PARENT_SCHEMA_KEY.to_string(), Value::String(String::new())),
    ];
    child.partition = Some(Partition {
        strategy: PartitionStrategy::Range,
        columns: Vec::new(),
        partitions: vec![PartitionElement {
            name: ident("events_p1"),
            bound: Some(PartitionBound::FromTo {
                from: vec![Expr::Raw("1".to_string())],
                to: vec![Expr::Raw("100".to_string())],
            }),
            subpartitions: None,
        }],
    });
    let orphan = Table {
        options: TableOptions {
            extra: vec![(PARTITION_PARENT_NAME_KEY.to_string(), Value::String("missing".to_string()))],
            ..options()
        },
        ..table(name(None, "orphan"), Vec::new())
    };
    let mut objects = vec![SchemaObject::Table(child), SchemaObject::Table(parent), SchemaObject::Table(orphan)];
    normalize_schema(&mut objects);

    assert_eq!(objects.len(), 2);
    let parent = only_table(objects.remove(0));
    assert_eq!(parent.name.name.value, "events");
    let partition = parent.partition.expect("parent keeps its partitioning");
    assert_eq!(partition.partitions.len(), 1);
    assert_eq!(partition.partitions[0].name.value, "events_p1");
    assert_eq!(only_table(objects.remove(0)).name.name.value, "orphan");
}

trait CloneForTest {
    fn clone_for_test(&self) -> Self;
}

impl CloneForTest for Sequence {
    fn clone_for_test(&self) -> Self {
        Sequence {
            name: self.name.clone(),
            data_type: None,
            increment: self.increment,
            min_value: self.min_value,
            max_value: self.max_value,
            start: self.start,
            cache: self.cache,
            cycle: self.cycle,
            owned_by: None,
        }
    }
}

#[test]
fn equivalence_policy_compares_raw_text_up_to_spacing_and_parentheses() {
    let spaced = Expr::Raw("a   +  b".to_string());
    let wrapped = Expr::Paren(Box::new(Expr::Raw("a + b".to_string())));
    assert!(is_equivalent_expr(&spaced, &wrapped));
    assert!(!is_equivalent_expr(&spaced, &Expr::Raw("a - b".to_string())));
    let ident = Expr::Ident(Ident { value: "a".to_string(), quoted: false });
    assert!(!is_equivalent_expr(&ident, &ident));
}
