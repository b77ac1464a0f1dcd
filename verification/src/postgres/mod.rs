use vstd::prelude::*;

pub mod adapter;
pub mod definitions;
pub mod equivalence;
pub mod export_queries;
pub mod generator;
pub mod normalize;
pub mod objects;
pub mod parser;
pub mod partitions;
pub mod render;
pub mod search_path;
pub mod sequences;
pub mod to_sql;

pub use search_path::parse_search_path;

use crate::config::ConnectionConfig;
use crate::error::Error;
use crate::ir::DiffOp;
use crate::ir::SchemaObject;
use crate::ir::Statement;
use crate::schema::Ident;
use crate::text;

verus! {

/// The PostgreSQL dialect.
#[derive(Debug, Default, Clone, Copy)]
pub struct PostgresDialect;

pub const DIALECT_NAME: &'static str = "postgres";
pub const CONNECT_STUB_SQL: &'static str = "CONNECT postgres";
pub const CONNECT_NOT_IMPLEMENTED: &'static str = "postgres connect is not implemented";
/// The setting that gives the server version in place of asking the server.
pub const SERVER_VERSION_OVERRIDE_KEY: &'static str = "postgres.server_version";

/// The query that lists the user tables (partition children excluded).
pub fn table_names_query() -> (r: &'static str)
    ensures
        r@ == export_queries::TABLE_NAMES_QUERY@,
{
    export_queries::TABLE_NAMES_QUERY
}

impl PostgresDialect {
    pub fn name(&self) -> (r: &'static str)
        ensures
            r@ == DIALECT_NAME@,
    {
        DIALECT_NAME
    }

    /// Wraps an identifier in double quotes, as written (no escaping of inner quotes).
    pub fn quote_ident(&self, ident: &Ident) -> (r: String)
        ensures
            r@ == seq!['"'] + ident.value@ + seq!['"'],
    {
        let mut out: Vec<char> = Vec::new();
        out.push('"');
        text::append_str(&mut out, ident.value.as_str());
        out.push('"');
        text::string_of(out.as_slice())
    }

    /// The statements that carry out the changes.
    pub fn generate_ddl(&self, ops: &[DiffOp]) -> (r: Result<Vec<Statement>, Error>)
        ensures
            generator::generated_as(r, generator::ddl_plan(DIALECT_NAME@, ops@)),
    {
        generator::generate_ddl(DIALECT_NAME, ops)
    }

    /// Leaves an object as it is: this dialect compares objects as they are.
    pub fn normalize(&self, object: &mut SchemaObject)
        ensures
            *final(object) == *old(object),
    {
    }

    /// The SQL that creates an object.
    pub fn to_sql(&self, object: &SchemaObject) -> (r: Result<String, Error>)
        ensures
            generator::rendered_as(r, to_sql::object_sql(DIALECT_NAME@, *object)),
    {
        to_sql::render_object(DIALECT_NAME, object)
    }

    /// Connecting. A server version given in the settings under
    /// `postgres.server_version` is checked first, as the version a server reports would be:
    /// one that does not parse, or is older than 13, is refused. Opening a session is not
    /// offered by this dialect, so every other call reports an execution failure too.
    pub fn connect(&self, config: &ConnectionConfig) -> (r: Result<(), Error>)
        ensures
            r matches Err(e) && match config.setting_of(SERVER_VERSION_OVERRIDE_KEY@) {
                Some(raw) => match adapter::version_refusal(raw) {
                    Some(m) => crate::common::is_execution_error(
                        e,
                        export_queries::SHOW_SERVER_VERSION_QUERY@,
                        m,
                    ),
                    None => crate::common::is_execution_error(
                        e,
                        CONNECT_STUB_SQL@,
                        CONNECT_NOT_IMPLEMENTED@,
                    ),
                },
                None => crate::common::is_execution_error(
                    e,
                    CONNECT_STUB_SQL@,
                    CONNECT_NOT_IMPLEMENTED@,
                ),
            },
    {
        if let Some(raw) = config.extra_value(SERVER_VERSION_OVERRIDE_KEY) {
            if let Err(e) = adapter::check_server_version(raw.as_str()) {
                return Err(e);
            }
        }
        let m = boxed_error(CONNECT_NOT_IMPLEMENTED);
        Err(crate::common::execution_error(CONNECT_STUB_SQL, &m))
    }
}

/// The cause an error carries: its message.
fn boxed_error(message: &'static str) -> (m: Vec<char>)
    ensures
        m@ == message@,
{
    text::chars_of(message)
}

} // verus!
