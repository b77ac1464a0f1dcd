use vstd::prelude::*;

use crate::text;

verus! {

/// The errors the library reports, each with the context its caller needs.
#[derive(Debug, Clone, PartialEq, Eq)]
pub enum Error {
    /// A statement against the database failed, or a value read back from it was unusable.
    Execution { sql: String, message: String },
    /// A statement of the input could not be converted into a schema object.
    StatementConversion { statement_index: usize, source_sql: String, line: Option<usize>, message: String },
    /// A change or object that the dialect cannot render.
    UnsupportedDiffOp { diff_op: String, target: String, dialect: String },
    /// A test-runner expectation that did not hold.
    RunnerAssertion { message: String },
    /// Two descriptions of an object that do not agree, such as an annotation that names
    /// no object.
    ObjectComparison { target: String, operation: String },
}

/// `e` reports that `diff_op` cannot be rendered by `target` in `dialect`.
pub open spec fn is_unsupported(
    e: Error,
    diff_op: Seq<char>,
    target: Seq<char>,
    dialect: Seq<char>,
) -> bool {
    e matches Error::UnsupportedDiffOp { diff_op: d, target: t, dialect: l } && d@ == diff_op
        && t@ == target && l@ == dialect
}

/// The error for a change or object that `target` cannot render in `dialect`.
pub fn unsupported(diff_op: &[char], target: &str, dialect: &str) -> (e: Error)
    ensures
        is_unsupported(e, diff_op@, target@, dialect@),
{
    Error::UnsupportedDiffOp {
        diff_op: text::string_of(diff_op),
        target: text::owned(target),
        dialect: text::owned(dialect),
    }
}

/// The text of an error as it is reported and compared with expected errors.
pub open spec fn error_text(e: Error) -> Seq<char> {
    match e {
        Error::Execution { sql, message } => "failed to execute `"@ + sql@ + "`: "@ + message@,
        Error::StatementConversion { source_sql, message, .. } => "failed to convert statement `"@
            + source_sql@ + "`: "@ + message@,
        Error::UnsupportedDiffOp { diff_op, target, dialect } => "unsupported diff op `"@
            + diff_op@ + "` for "@ + target@ + " in dialect "@ + dialect@,
        Error::RunnerAssertion { message } => message@,
        Error::ObjectComparison { target, operation } => "object comparison failed for "@
            + target@ + ": "@ + operation@,
    }
}

impl Error {
    /// The text of the error.
    pub fn to_text(&self) -> (r: String)
        ensures
            r@ == error_text(*self),
    {
        let mut out: Vec<char> = Vec::new();
        match self {
            Error::Execution { sql, message } => {
                text::append_str(&mut out, "failed to execute `");
                text::append_str(&mut out, sql.as_str());
                text::append_str(&mut out, "`: ");
                text::append_str(&mut out, message.as_str());
            },
            Error::StatementConversion { source_sql, message, .. } => {
                text::append_str(&mut out, "failed to convert statement `");
                text::append_str(&mut out, source_sql.as_str());
                text::append_str(&mut out, "`: ");
                text::append_str(&mut out, message.as_str());
            },
            Error::UnsupportedDiffOp { diff_op, target, dialect } => {
                text::append_str(&mut out, "unsupported diff op `");
                text::append_str(&mut out, diff_op.as_str());
                text::append_str(&mut out, "` for ");
                text::append_str(&mut out, target.as_str());
                text::append_str(&mut out, " in dialect ");
                text::append_str(&mut out, dialect.as_str());
            },
            Error::RunnerAssertion { message } => {
                text::append_str(&mut out, message.as_str());
            },
            Error::ObjectComparison { target, operation } => {
                text::append_str(&mut out, "object comparison failed for ");
                text::append_str(&mut out, target.as_str());
                text::append_str(&mut out, ": ");
                text::append_str(&mut out, operation.as_str());
            },
        }
        text::string_of(out.as_slice())
    }
}

} // verus!
