pub mod adapter;
pub mod export_queries;
pub mod to_sql;
pub mod generator;
pub mod normalize;

use vstd::prelude::*;

use crate::error::Error;
use crate::ir::DiffOp;
use crate::ir::SchemaObject;
use crate::ir::Statement;

verus! {

/// The SQLite dialect.
#[derive(Debug, Default, Clone, Copy)]
pub struct SqliteDialect;

pub const DIALECT_NAME: &'static str = "sqlite";

impl SqliteDialect {
    pub fn name(&self) -> (r: &'static str)
        ensures
            r@ == DIALECT_NAME@,
    {
        DIALECT_NAME
    }

    /// The statements that carry out a list of changes.
    pub fn generate_ddl(&self, ops: &[DiffOp]) -> (r: Result<Vec<Statement>, Error>)
        ensures
            generator::generated_as(r, generator::ddl_plan(ops@), DIALECT_NAME@),
    {
        generator::generate_ddl(DIALECT_NAME, ops)
    }

    /// The statement that creates a schema object.
    pub fn to_sql(&self, object: &SchemaObject) -> (r: Result<String, Error>)
        ensures
            to_sql::renders_as(r, to_sql::object_result(*object), DIALECT_NAME@),
    {
        to_sql::render_object(DIALECT_NAME, object)
    }

    /// Normalizes a schema object so that equal schemas compare equal.
    pub fn normalize(&self, object: &mut SchemaObject)
        ensures
            normalize::object_normalized(*final(object), *old(object)),
    {
        normalize::normalize_object(object)
    }
}

} // verus!
