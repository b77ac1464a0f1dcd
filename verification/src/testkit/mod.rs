use vstd::prelude::*;

use crate::ir::{SchemaObject, Table, TableOptions};
use crate::schema::{Ident, QualifiedName};
use crate::text;

pub mod flow;
pub mod manifest;
pub mod yaml_runner;

pub use manifest::{
    AssertionManifest, AssertionManifestGroup, DialectAssertionManifest,
    DialectIdempotencyManifest, IdempotencyManifest, IdempotencyManifestEntry, ManifestCounts,
    ManifestStatus,
};
pub use yaml_runner::{matches_flavor, yaml_case_references, TestCase, TestCaseFile, TestResult};

verus! {

/// A schema of one empty table with the given unquoted name.
pub fn single_table_fixture(name: &str) -> (r: Vec<SchemaObject>)
    ensures
        r@.len() == 1,
        r@[0] matches SchemaObject::Table(t) && t.name.schema is None && t.name.name.value@ == name@
            && !t.name.name.quoted && t.columns@.len() == 0 && t.primary_key is None
            && t.foreign_keys@.len() == 0 && t.checks@.len() == 0 && t.exclusions@.len() == 0
            && t.partition is None && t.options.without_rowid is None && t.options.strict is None
            && t.options.source_sql is None && t.options.partition_sql is None
            && t.options.extra@.len() == 0,
{
    let table = Table {
        name: QualifiedName { schema: None, name: Ident { value: text::owned(name), quoted: false } },
        columns: Vec::new(),
        primary_key: None,
        foreign_keys: Vec::new(),
        checks: Vec::new(),
        exclusions: Vec::new(),
        partition: None,
        options: TableOptions {
            without_rowid: None,
            strict: None,
            source_sql: None,
            partition_sql: None,
            extra: Vec::new(),
        },
        renamed_from: None,
    };
    let mut r: Vec<SchemaObject> = Vec::new();
    r.push(SchemaObject::Table(table));
    r
}

} // verus!
