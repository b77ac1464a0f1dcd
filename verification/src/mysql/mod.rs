use vstd::prelude::*;

pub mod adapter;
pub mod export_queries;
pub mod generator;
pub mod parser;
pub mod statements;
pub mod syntax;
pub mod to_sql;

use crate::error::Error;
use crate::ir::DiffOp;
use crate::ir::SchemaObject;
use crate::ir::Statement;
use crate::schema::Ident;
use crate::text;
use vstd::string::StringSliceAdditionalSpecFns;
use vstd::utf8::encode_utf8;

verus! {

/// The MySQL dialect.
#[derive(Debug, Default, Clone, Copy)]
pub struct MysqlDialect;

pub const DIALECT_NAME: &'static str = "mysql";

/// The query that lists the base tables of the current database.
pub fn table_names_query() -> (r: &'static str)
    ensures
        r@ == export_queries::TABLE_NAMES_QUERY@,
{
    export_queries::TABLE_NAMES_QUERY
}

/// The query that reads the `lower_case_table_names` server variable.
pub fn lower_case_table_names_query() -> (r: &'static str)
    ensures
        r@ == export_queries::LOWER_CASE_TABLE_NAMES_QUERY@,
{
    export_queries::LOWER_CASE_TABLE_NAMES_QUERY
}

impl MysqlDialect {
    pub fn name(&self) -> (r: &'static str)
        ensures
            r@ == DIALECT_NAME@,
    {
        DIALECT_NAME
    }

    /// Wraps an identifier in backticks, as written (no escaping of inner backticks).
    pub fn quote_ident(&self, ident: &Ident) -> (r: String)
        ensures
            r@ == seq!['`'] + ident.value@ + seq!['`'],
    {
        let mut out: Vec<char> = Vec::new();
        out.push('`');
        text::append_str(&mut out, ident.value.as_str());
        out.push('`');
        text::string_of(out.as_slice())
    }

    /// Reads the schema objects of SQL text, with the former names its rename
    /// annotations give.
    pub fn parse(&self, sql: &str) -> (r: Result<Vec<SchemaObject>, Error>)
        requires
            encode_utf8(crate::annotations::cleaned_text(sql@)).len() < usize::MAX,
        ensures
            statements::schema_parsed(r, sql@),
    {
        statements::parse_schema(sql)
    }

    /// The statements that carry out a list of changes.
    pub fn generate_ddl(&self, ops: &[DiffOp]) -> (r: Result<Vec<Statement>, Error>)
        ensures
            generator::generated_as(r, generator::ddl_plan(ops@), DIALECT_NAME@),
    {
        generator::generate_ddl(DIALECT_NAME, ops)
    }

    /// The statement that creates a schema object.
    pub fn to_sql(&self, object: &SchemaObject) -> (r: Result<String, Error>)
        ensures
            to_sql::renders_as(r, to_sql::object_result(*object), DIALECT_NAME@),
    {
        to_sql::render_object(DIALECT_NAME, object)
    }
}

} // verus!
