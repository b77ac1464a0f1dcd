use vstd::prelude::*;

use crate::common;
use crate::error;
use crate::error::Error;
use crate::ir;
use crate::ir::BinaryOperator;
use crate::ir::CheckConstraint;
use crate::ir::CheckOption;
use crate::ir::Column;
use crate::ir::ComparisonOp;
use crate::ir::DataType;
use crate::ir::Expr;
use crate::ir::ForeignKey;
use crate::ir::ForeignKeyAction;
use crate::ir::Function;
use crate::ir::FunctionParam;
use crate::ir::FunctionParamMode;
use crate::ir::FunctionSecurity;
use crate::ir::GeneratedColumn;
use crate::ir::Identity;
use crate::ir::IndexColumn;
use crate::ir::IndexDef;
use crate::ir::IndexOwner;
use crate::ir::IsTest;
use crate::ir::Literal;
use crate::ir::PrimaryKey;
use crate::ir::SchemaObject;
use crate::ir::SetQuantifier;
use crate::ir::Table;
use crate::ir::Trigger;
use crate::ir::TriggerEvent;
use crate::ir::TriggerForEach;
use crate::ir::TriggerTiming;
use crate::ir::UnaryOperator;
use crate::ir::Value;
use crate::ir::ViewSecurity;
use crate::ir::WindowSpec;
use crate::schema::Ident;
use crate::schema::QualifiedName;
use crate::text;

verus! {

/// An identifier as MySQL writes it: in backticks, inner backticks doubled.
pub open spec fn ident_sql(id: Ident) -> Seq<char> {
    text::quoted_with(id.value@, '`')
}

pub open spec fn qualified_name_sql(n: QualifiedName) -> Seq<char> {
    match n.schema {
        Some(s) => ident_sql(s) + "."@ + ident_sql(n.name),
        None => ident_sql(n.name),
    }
}

/// A string constant: in single quotes, inner quotes doubled.
pub open spec fn string_sql(s: Seq<char>) -> Seq<char> {
    text::quoted_with(s, '\'')
}

pub open spec fn bool_sql(b: bool) -> Seq<char> {
    if b {
        "TRUE"@
    } else {
        "FALSE"@
    }
}

pub open spec fn value_sql(v: Value) -> Seq<char> {
    match v {
        Value::String(s) => string_sql(s@),
        Value::Integer(i) => text::signed_decimal_string(i as int),
        Value::Float(f) => f@,
        Value::Bool(b) => bool_sql(b),
        Value::Null => "NULL"@,
    }
}

pub open spec fn literal_sql(l: Literal) -> Seq<char> {
    match l {
        Literal::String(s) => string_sql(s@),
        Literal::Integer(i) => text::signed_decimal_string(i as int),
        Literal::Float(f) => f@,
        Literal::Boolean(b) => bool_sql(b),
        Literal::Value(v) => value_sql(v),
    }
}

/// The MySQL spelling of a data type; an array is kept as JSON.
pub open spec fn data_type_sql(d: DataType) -> Seq<char>
    decreases d,
{
    match d {
        DataType::Boolean => "boolean"@,
        DataType::SmallInt => "smallint"@,
        DataType::Integer => "int"@,
        DataType::BigInt => "bigint"@,
        DataType::Real => "float"@,
        DataType::DoublePrecision => "double"@,
        DataType::Numeric { precision, scale } => match (precision, scale) {
            (Some(p), Some(s)) => "decimal("@ + text::decimal_string(p as nat) + ", "@
                + text::decimal_string(s as nat) + ")"@,
            (Some(p), None) => "decimal("@ + text::decimal_string(p as nat) + ")"@,
            _ => "decimal"@,
        },
        DataType::Text => "text"@,
        DataType::Varchar { length } => match length {
            Some(l) => "varchar("@ + text::decimal_string(l as nat) + ")"@,
            None => "varchar(255)"@,
        },
        DataType::Char { length } => match length {
            Some(l) => "char("@ + text::decimal_string(l as nat) + ")"@,
            None => "char(1)"@,
        },
        DataType::Blob => "blob"@,
        DataType::Date => "date"@,
        DataType::Time { .. } => "time"@,
        DataType::Timestamp { .. } => "timestamp"@,
        DataType::Json | DataType::Jsonb => "json"@,
        DataType::Uuid => "char(36)"@,
        DataType::Array(inner) => "json /* array<"@ + data_type_sql(*inner) + "> */"@,
        DataType::Custom(c) => text::trim(c@),
    }
}

pub open spec fn binary_op_sql(op: BinaryOperator) -> Seq<char> {
    match op {
        BinaryOperator::Add => "+"@,
        BinaryOperator::Subtract => "-"@,
        BinaryOperator::Multiply => "*"@,
        BinaryOperator::Divide => "/"@,
        BinaryOperator::Modulo => "%"@,
        BinaryOperator::StringConcat => "||"@,
        BinaryOperator::BitwiseAnd => "&"@,
        BinaryOperator::BitwiseOr => "|"@,
        BinaryOperator::BitwiseXor => "^"@,
    }
}

pub open spec fn unary_op_sql(op: UnaryOperator) -> Seq<char> {
    match op {
        UnaryOperator::Plus => "+"@,
        UnaryOperator::Minus => "-"@,
        UnaryOperator::Not => "NOT "@,
    }
}

/// MySQL has no `ILIKE`; it is written `LIKE`.
pub open spec fn comparison_op_sql(op: ComparisonOp) -> Seq<char> {
    match op {
        ComparisonOp::Equal => "="@,
        ComparisonOp::NotEqual => "!="@,
        ComparisonOp::GreaterThan => ">"@,
        ComparisonOp::GreaterThanOrEqual => ">="@,
        ComparisonOp::LessThan => "<"@,
        ComparisonOp::LessThanOrEqual => "<="@,
        ComparisonOp::Like => "LIKE"@,
        ComparisonOp::ILike => "LIKE"@,
    }
}

pub open spec fn quantifier_sql(q: SetQuantifier) -> Seq<char> {
    match q {
        SetQuantifier::Any => "ANY"@,
        SetQuantifier::SomeOf => "SOME"@,
        SetQuantifier::All => "ALL"@,
    }
}

pub open spec fn is_test_sql(t: IsTest) -> Seq<char> {
    match t {
        IsTest::Null => "NULL"@,
        IsTest::NotNull => "NOT NULL"@,
        IsTest::True => "TRUE"@,
        IsTest::NotTrue => "NOT TRUE"@,
        IsTest::False => "FALSE"@,
        IsTest::NotFalse => "NOT FALSE"@,
        IsTest::Unknown => "UNKNOWN"@,
        IsTest::NotUnknown => "NOT UNKNOWN"@,
    }
}

pub open spec fn not_sql(negated: bool) -> Seq<char> {
    if negated {
        " NOT"@
    } else {
        Seq::empty()
    }
}

/// The expressions rendered and separated by `", "`.
pub open spec fn list_sql(s: Seq<Expr>) -> Seq<char>
    decreases s, 1int,
{
    if s.len() == 0 {
        Seq::empty()
    } else if s.len() == 1 {
        expr_sql(s[0])
    } else {
        list_sql(s.drop_last()) + ", "@ + expr_sql(s.last())
    }
}

/// The `WHEN ... THEN ...` arms of a `CASE`.
pub open spec fn whens_sql(s: Seq<(Expr, Expr)>) -> Seq<char>
    decreases s, 1int,
{
    if s.len() == 0 {
        Seq::empty()
    } else {
        whens_sql(s.drop_last()) + " WHEN "@ + expr_sql(s.last().0) + " THEN "@ + expr_sql(
            s.last().1,
        )
    }
}

/// The `OVER (...)` clause of a window, empty when there is no window.
pub open spec fn over_sql(over: Option<WindowSpec>) -> Seq<char>
    decreases over, 1int,
{
    match over {
        None => Seq::empty(),
        Some(w) => {
            let p = "PARTITION BY "@ + list_sql(w.partition_by@);
            let o = "ORDER BY "@ + list_sql(w.order_by@);
            let clauses = if w.partition_by@.len() > 0 && w.order_by@.len() > 0 {
                p + " "@ + o
            } else if w.partition_by@.len() > 0 {
                p
            } else if w.order_by@.len() > 0 {
                o
            } else {
                Seq::empty()
            };
            " OVER ("@ + clauses + ")"@
        },
    }
}

/// An expression as MySQL text.
pub open spec fn expr_sql(e: Expr) -> Seq<char>
    decreases e, 0int,
{
    match e {
        Expr::Literal(l) => literal_sql(l),
        Expr::Ident(id) => ident_sql(id),
        Expr::QualifiedIdent { qualifier, name } => ident_sql(qualifier) + "."@ + ident_sql(name),
        Expr::Null => "NULL"@,
        Expr::Raw(r) => text::trim(r@),
        Expr::BinaryOp { left, op, right } => expr_sql(*left) + " "@ + binary_op_sql(op) + " "@
            + expr_sql(*right),
        Expr::UnaryOp { op, expr } => unary_op_sql(op) + expr_sql(*expr),
        Expr::Comparison { left, op, right, quantifier } => expr_sql(*left) + " "@
            + comparison_op_sql(op) + " "@ + expr_sql(*right) + match quantifier {
            Some(q) => " "@ + quantifier_sql(q),
            None => Seq::empty(),
        },
        Expr::And(l, r) => expr_sql(*l) + " AND "@ + expr_sql(*r),
        Expr::Or(l, r) => expr_sql(*l) + " OR "@ + expr_sql(*r),
        Expr::Not(inner) => "NOT "@ + expr_sql(*inner),
        Expr::Is { expr, test } => expr_sql(*expr) + " IS "@ + is_test_sql(test),
        Expr::Between { expr, low, high, negated } => expr_sql(*expr) + not_sql(negated)
            + " BETWEEN "@ + expr_sql(*low) + " AND "@ + expr_sql(*high),
        Expr::In { expr, list, negated } => expr_sql(*expr) + not_sql(negated) + " IN ("@
            + list_sql(list@) + ")"@,
        Expr::Paren(inner) => "("@ + expr_sql(*inner) + ")"@,
        Expr::Tuple(items) => "("@ + list_sql(items@) + ")"@,
        Expr::Function { name, args, distinct, over } => text::trim(name@) + "("@ + (if distinct {
            "DISTINCT "@
        } else {
            Seq::empty()
        }) + list_sql(args@) + ")"@ + over_sql(over),
        Expr::Cast { expr, data_type } => "CAST("@ + expr_sql(*expr) + " AS "@ + data_type_sql(
            data_type,
        ) + ")"@,
        Expr::Collate { expr, collation } => expr_sql(*expr) + " COLLATE "@ + text::trim(
            collation@,
        ),
        Expr::Case { operand, when_clauses, else_clause } => "CASE"@ + match operand {
            Some(o) => " "@ + expr_sql(*o),
            None => Seq::empty(),
        } + whens_sql(when_clauses@) + match else_clause {
            Some(x) => " ELSE "@ + expr_sql(*x),
            None => Seq::empty(),
        } + " END"@,
        Expr::ArrayConstructor(items) => "JSON_ARRAY("@ + list_sql(items@) + ")"@,
        Expr::Exists(q) => "EXISTS ("@ + text::trim(q.sql@) + ")"@,
    }
}

pub fn write_ident(out: &mut Vec<char>, id: &Ident)
    ensures
        final(out)@ == old(out)@ + ident_sql(*id),
{
    let v = text::chars_of(id.value.as_str());
    let q = text::quote_chars(v.as_slice(), '`');
    text::append_chars(out, q.as_slice());
}

pub fn write_qualified_name(out: &mut Vec<char>, n: &QualifiedName)
    ensures
        final(out)@ == old(out)@ + qualified_name_sql(*n),
{
    match &n.schema {
        Some(s) => {
            write_ident(out, s);
            text::append_str(out, ".");
            write_ident(out, &n.name);
        },
        None => write_ident(out, &n.name),
    }
}

fn write_string_constant(out: &mut Vec<char>, s: &String)
    ensures
        final(out)@ == old(out)@ + string_sql(s@),
{
    let v = text::chars_of(s.as_str());
    let q = text::quote_chars(v.as_slice(), '\'');
    text::append_chars(out, q.as_slice());
}

fn write_bool(out: &mut Vec<char>, b: bool)
    ensures
        final(out)@ == old(out)@ + bool_sql(b),
{
    if b {
        text::append_str(out, "TRUE");
    } else {
        text::append_str(out, "FALSE");
    }
}

fn write_signed(out: &mut Vec<char>, i: i64)
    ensures
        final(out)@ == old(out)@ + text::signed_decimal_string(i as int),
{
    let d = text::signed_decimal_chars(i);
    text::append_chars(out, d.as_slice());
}

fn write_value(out: &mut Vec<char>, v: &Value)
    ensures
        final(out)@ == old(out)@ + value_sql(*v),
{
    match v {
        Value::String(s) => write_string_constant(out, s),
        Value::Integer(i) => write_signed(out, *i),
        Value::Float(f) => text::append_str(out, f.as_str()),
        Value::Bool(b) => write_bool(out, *b),
        Value::Null => text::append_str(out, "NULL"),
    }
}

pub fn write_literal(out: &mut Vec<char>, l: &Literal)
    ensures
        final(out)@ == old(out)@ + literal_sql(*l),
{
    match l {
        Literal::String(s) => write_string_constant(out, s),
        Literal::Integer(i) => write_signed(out, *i),
        Literal::Float(f) => text::append_str(out, f.as_str()),
        Literal::Boolean(b) => write_bool(out, *b),
        Literal::Value(v) => write_value(out, v),
    }
}

fn write_decimal(out: &mut Vec<char>, n: u32)
    ensures
        final(out)@ == old(out)@ + text::decimal_string(n as nat),
{
    let d = text::decimal_chars(n as u64);
    text::append_chars(out, d.as_slice());
}

pub fn write_data_type(out: &mut Vec<char>, d: &DataType)
    ensures
        final(out)@ == old(out)@ + data_type_sql(*d),
    decreases *d,
{
    let ghost start = out@;
    match d {
        DataType::Boolean => text::append_str(out, "boolean"),
        DataType::SmallInt => text::append_str(out, "smallint"),
        DataType::Integer => text::append_str(out, "int"),
        DataType::BigInt => text::append_str(out, "bigint"),
        DataType::Real => text::append_str(out, "float"),
        DataType::DoublePrecision => text::append_str(out, "double"),
        DataType::Numeric { precision, scale } => match (precision, scale) {
            (Some(p), Some(s)) => {
                text::append_str(out, "decimal(");
                write_decimal(out, *p);
                text::append_str(out, ", ");
                write_decimal(out, *s);
                text::append_str(out, ")");
                assert(out@ =~= start + data_type_sql(*d));
            },
            (Some(p), None) => {
                text::append_str(out, "decimal(");
                write_decimal(out, *p);
                text::append_str(out, ")");
                assert(out@ =~= start + data_type_sql(*d));
            },
            _ => text::append_str(out, "decimal"),
        },
        DataType::Text => text::append_str(out, "text"),
        DataType::Varchar { length } => match length {
            Some(l) => {
                text::append_str(out, "varchar(");
                write_decimal(out, *l);
                text::append_str(out, ")");
                assert(out@ =~= start + data_type_sql(*d));
            },
            None => text::append_str(out, "varchar(255)"),
        },
        DataType::Char { length } => match length {
            Some(l) => {
                text::append_str(out, "char(");
                write_decimal(out, *l);
                text::append_str(out, ")");
                assert(out@ =~= start + data_type_sql(*d));
            },
            None => text::append_str(out, "char(1)"),
        },
        DataType::Blob => text::append_str(out, "blob"),
        DataType::Date => text::append_str(out, "date"),
        DataType::Time { .. } => text::append_str(out, "time"),
        DataType::Timestamp { .. } => text::append_str(out, "timestamp"),
        DataType::Json | DataType::Jsonb => text::append_str(out, "json"),
        DataType::Uuid => text::append_str(out, "char(36)"),
        DataType::Array(inner) => {
            text::append_str(out, "json /* array<");
            write_data_type(out, inner);
            text::append_str(out, "> */");
            assert(out@ =~= start + data_type_sql(*d));
        },
        DataType::Custom(c) => {
            let t = text::trim_str(c.as_str());
            text::append_chars(out, t.as_slice());
        },
    }
}

fn binary_op_text(op: &BinaryOperator) -> (r: &'static str)
    ensures
        r@ == binary_op_sql(*op),
{
    match op {
        BinaryOperator::Add => "+",
        BinaryOperator::Subtract => "-",
        BinaryOperator::Multiply => "*",
        BinaryOperator::Divide => "/",
        BinaryOperator::Modulo => "%",
        BinaryOperator::StringConcat => "||",
        BinaryOperator::BitwiseAnd => "&",
        BinaryOperator::BitwiseOr => "|",
        BinaryOperator::BitwiseXor => "^",
    }
}

fn unary_op_text(op: &UnaryOperator) -> (r: &'static str)
    ensures
        r@ == unary_op_sql(*op),
{
    match op {
        UnaryOperator::Plus => "+",
        UnaryOperator::Minus => "-",
        UnaryOperator::Not => "NOT ",
    }
}

fn comparison_op_text(op: &ComparisonOp) -> (r: &'static str)
    ensures
        r@ == comparison_op_sql(*op),
{
    match op {
        ComparisonOp::Equal => "=",
        ComparisonOp::NotEqual => "!=",
        ComparisonOp::GreaterThan => ">",
        ComparisonOp::GreaterThanOrEqual => ">=",
        ComparisonOp::LessThan => "<",
        ComparisonOp::LessThanOrEqual => "<=",
        ComparisonOp::Like => "LIKE",
        ComparisonOp::ILike => "LIKE",
    }
}

fn quantifier_text(q: &SetQuantifier) -> (r: &'static str)
    ensures
        r@ == quantifier_sql(*q),
{
    match q {
        SetQuantifier::Any => "ANY",
        SetQuantifier::SomeOf => "SOME",
        SetQuantifier::All => "ALL",
    }
}

fn is_test_text(t: &IsTest) -> (r: &'static str)
    ensures
        r@ == is_test_sql(*t),
{
    match t {
        IsTest::Null => "NULL",
        IsTest::NotNull => "NOT NULL",
        IsTest::True => "TRUE",
        IsTest::NotTrue => "NOT TRUE",
        IsTest::False => "FALSE",
        IsTest::NotFalse => "NOT FALSE",
        IsTest::Unknown => "UNKNOWN",
        IsTest::NotUnknown => "NOT UNKNOWN",
    }
}

fn write_not(out: &mut Vec<char>, negated: bool)
    ensures
        final(out)@ == old(out)@ + not_sql(negated),
{
    if negated {
        text::append_str(out, " NOT");
    } else {
        assert(old(out)@ + not_sql(negated) =~= old(out)@);
    }
}

pub fn write_list(out: &mut Vec<char>, items: &Vec<Expr>)
    ensures
        final(out)@ == old(out)@ + list_sql(items@),
    decreases items@, 2int,
{
    let mut i: usize = 0;
    while i < items.len()
        invariant
            i <= items@.len(),
            out@ == old(out)@ + list_sql(items@.take(i as int)),
        decreases items.len() - i,
    {
        let ghost before = out@;
        if i > 0 {
            text::append_str(out, ", ");
        }
        write_expr(out, &items[i]);
        i += 1;
        proof {
            let cur = items@.take(i as int);
            assert(cur.drop_last() =~= items@.take(i - 1));
            assert(cur.last() == items@[i - 1]);
            if i == 1 {
                assert(list_sql(items@.take(0)) =~= Seq::<char>::empty());
                assert(out@ =~= old(out)@ + list_sql(cur));
            } else {
                assert(out@ =~= old(out)@ + list_sql(cur));
            }
        }
    }
    assert(items@.take(items@.len() as int) =~= items@);
}

fn write_whens(out: &mut Vec<char>, arms: &Vec<(Expr, Expr)>)
    ensures
        final(out)@ == old(out)@ + whens_sql(arms@),
    decreases arms@, 2int,
{
    let mut i: usize = 0;
    assert(whens_sql(arms@.take(0)) =~= Seq::<char>::empty());
    while i < arms.len()
        invariant
            i <= arms@.len(),
            out@ == old(out)@ + whens_sql(arms@.take(i as int)),
        decreases arms.len() - i,
    {
        let ghost before = out@;
        text::append_str(out, " WHEN ");
        write_expr(out, &arms[i].0);
        text::append_str(out, " THEN ");
        write_expr(out, &arms[i].1);
        i += 1;
        proof {
            let cur = arms@.take(i as int);
            assert(cur.drop_last() =~= arms@.take(i - 1));
            assert(cur.last() == arms@[i - 1]);
            assert(out@ =~= old(out)@ + whens_sql(cur));
        }
    }
    assert(arms@.take(arms@.len() as int) =~= arms@);
}

fn write_over(out: &mut Vec<char>, over: &Option<WindowSpec>)
    ensures
        final(out)@ == old(out)@ + over_sql(*over),
    decreases *over, 2int,
{
    match over {
        None => {
            assert(old(out)@ + over_sql(*over) =~= old(out)@);
        },
        Some(w) => {
            text::append_str(out, " OVER (");
            let has_p = w.partition_by.len() > 0;
            let has_o = w.order_by.len() > 0;
            if has_p {
                text::append_str(out, "PARTITION BY ");
                write_list(out, &w.partition_by);
            }
            if has_p && has_o {
                text::append_str(out, " ");
            }
            if has_o {
                text::append_str(out, "ORDER BY ");
                write_list(out, &w.order_by);
            }
            text::append_str(out, ")");
            proof {
                let p = "PARTITION BY "@ + list_sql(w.partition_by@);
                let o = "ORDER BY "@ + list_sql(w.order_by@);
                if has_p && has_o {
                    assert(out@ =~= old(out)@ + (" OVER ("@ + (p + " "@ + o) + ")"@));
                } else if has_p {
                    assert(out@ =~= old(out)@ + (" OVER ("@ + p + ")"@));
                } else if has_o {
                    assert(out@ =~= old(out)@ + (" OVER ("@ + o + ")"@));
                } else {
                    assert(out@ =~= old(out)@ + (" OVER ("@ + Seq::<char>::empty() + ")"@));
                }
            }
        },
    }
}

fn write_operator_expr(out: &mut Vec<char>, e: &Expr)
    requires
        e is BinaryOp || e is And || e is Or || e is Comparison,
    ensures
        final(out)@ == old(out)@ + expr_sql(*e),
    decreases *e, 0int,
{
    let ghost start = out@;
    match e {
        Expr::BinaryOp { left, op, right } => {
            write_expr(out, left);
            text::append_str(out, " ");
            text::append_str(out, binary_op_text(op));
            text::append_str(out, " ");
            write_expr(out, right);
        },
        Expr::Comparison { left, op, right, quantifier } => {
            write_expr(out, left);
            text::append_str(out, " ");
            text::append_str(out, comparison_op_text(op));
            text::append_str(out, " ");
            write_expr(out, right);
            match quantifier {
                Some(q) => {
                    text::append_str(out, " ");
                    text::append_str(out, quantifier_text(q));
                },
                None => {},
            }
        },
        Expr::And(l, r) => {
            write_expr(out, l);
            text::append_str(out, " AND ");
            write_expr(out, r);
        },
        Expr::Or(l, r) => {
            write_expr(out, l);
            text::append_str(out, " OR ");
            write_expr(out, r);
        },
        _ => {},
    }
    assert(out@ =~= start + expr_sql(*e));
}

fn write_wrapped_expr(out: &mut Vec<char>, e: &Expr)
    requires
        e is UnaryOp || e is Not || e is Paren || e is Is || e is Cast || e is Collate,
    ensures
        final(out)@ == old(out)@ + expr_sql(*e),
    decreases *e, 0int,
{
    let ghost start = out@;
    match e {
        Expr::UnaryOp { op, expr } => {
            text::append_str(out, unary_op_text(op));
            write_expr(out, expr);
        },
        Expr::Not(inner) => {
            text::append_str(out, "NOT ");
            write_expr(out, inner);
        },
        Expr::Is { expr, test } => {
            write_expr(out, expr);
            text::append_str(out, " IS ");
            text::append_str(out, is_test_text(test));
        },
        Expr::Paren(inner) => {
            text::append_str(out, "(");
            write_expr(out, inner);
            text::append_str(out, ")");
        },
        Expr::Cast { expr, data_type } => {
            text::append_str(out, "CAST(");
            write_expr(out, expr);
            text::append_str(out, " AS ");
            write_data_type(out, data_type);
            text::append_str(out, ")");
        },
        Expr::Collate { expr, collation } => {
            write_expr(out, expr);
            text::append_str(out, " COLLATE ");
            let k = text::trim_str(collation.as_str());
            text::append_chars(out, k.as_slice());
        },
        _ => {},
    }
    assert(out@ =~= start + expr_sql(*e));
}

fn write_between_expr(out: &mut Vec<char>, e: &Expr)
    requires
        e is Between,
    ensures
        final(out)@ == old(out)@ + expr_sql(*e),
    decreases *e, 0int,
{
    let ghost start = out@;
    match e {
        Expr::Between { expr, low, high, negated } => {
            write_expr(out, expr);
            write_not(out, *negated);
            text::append_str(out, " BETWEEN ");
            write_expr(out, low);
            text::append_str(out, " AND ");
            write_expr(out, high);
        },
        _ => {},
    }
    assert(out@ =~= start + expr_sql(*e));
}

fn write_list_expr(out: &mut Vec<char>, e: &Expr)
    requires
        e is In || e is Tuple || e is ArrayConstructor,
    ensures
        final(out)@ == old(out)@ + expr_sql(*e),
    decreases *e, 0int,
{
    let ghost start = out@;
    match e {
        Expr::In { expr, list, negated } => {
            write_expr(out, expr);
            write_not(out, *negated);
            text::append_str(out, " IN (");
            write_list(out, list);
            text::append_str(out, ")");
        },
        Expr::Tuple(items) => {
            text::append_str(out, "(");
            write_list(out, items);
            text::append_str(out, ")");
        },
        Expr::ArrayConstructor(items) => {
            text::append_str(out, "JSON_ARRAY(");
            write_list(out, items);
            text::append_str(out, ")");
        },
        _ => {},
    }
    assert(out@ =~= start + expr_sql(*e));
}

fn write_function_expr(out: &mut Vec<char>, e: &Expr)
    requires
        e is Function,
    ensures
        final(out)@ == old(out)@ + expr_sql(*e),
    decreases *e, 0int,
{
    let ghost start = out@;
    match e {
        Expr::Function { name, args, distinct, over } => {
            let n = text::trim_str(name.as_str());
            text::append_chars(out, n.as_slice());
            text::append_str(out, "(");
            if *distinct {
                text::append_str(out, "DISTINCT ");
            }
            write_list(out, args);
            text::append_str(out, ")");
            write_over(out, over);
        },
        _ => {},
    }
    assert(out@ =~= start + expr_sql(*e));
}

fn write_case_expr(out: &mut Vec<char>, e: &Expr)
    requires
        e is Case,
    ensures
        final(out)@ == old(out)@ + expr_sql(*e),
    decreases *e, 0int,
{
    let ghost start = out@;
    match e {
        Expr::Case { operand, when_clauses, else_clause } => {
            text::append_str(out, "CASE");
            match operand {
                Some(o) => {
                    text::append_str(out, " ");
                    write_expr(out, o);
                },
                None => {},
            }
            write_whens(out, when_clauses);
            match else_clause {
                Some(x) => {
                    text::append_str(out, " ELSE ");
                    write_expr(out, x);
                },
                None => {},
            }
            text::append_str(out, " END");
        },
        _ => {},
    }
    assert(out@ =~= start + expr_sql(*e));
}

/// Appends the MySQL text of an expression.
pub fn write_expr(out: &mut Vec<char>, e: &Expr)
    ensures
        final(out)@ == old(out)@ + expr_sql(*e),
    decreases *e, 1int,
{
    let ghost start = out@;
    match e {
        Expr::Literal(l) => write_literal(out, l),
        Expr::Ident(id) => write_ident(out, id),
        Expr::QualifiedIdent { qualifier, name } => {
            write_ident(out, qualifier);
            text::append_str(out, ".");
            write_ident(out, name);
            assert(out@ =~= start + expr_sql(*e));
        },
        Expr::Null => text::append_str(out, "NULL"),
        Expr::Raw(r) => {
            let t = text::trim_str(r.as_str());
            text::append_chars(out, t.as_slice());
        },
        Expr::Exists(q) => {
            text::append_str(out, "EXISTS (");
            let t = text::trim_str(q.sql.as_str());
            text::append_chars(out, t.as_slice());
            text::append_str(out, ")");
            assert(out@ =~= start + expr_sql(*e));
        },
        Expr::BinaryOp { .. } | Expr::And(..) | Expr::Or(..) | Expr::Comparison { .. } => {
            write_operator_expr(out, e)
        },
        Expr::UnaryOp { .. } | Expr::Not(..) | Expr::Paren(..) | Expr::Is { .. } | Expr::Cast {
            ..
        } | Expr::Collate { .. } => write_wrapped_expr(out, e),
        Expr::Between { .. } => write_between_expr(out, e),
        Expr::In { .. } | Expr::Tuple(..) | Expr::ArrayConstructor(..) => write_list_expr(out, e),
        Expr::Function { .. } => write_function_expr(out, e),
        Expr::Case { .. } => write_case_expr(out, e),
    }
}

/// An expression as MySQL text.
pub fn render_expr(e: &Expr) -> (r: String)
    ensures
        r@ == expr_sql(*e),
{
    let mut out: Vec<char> = Vec::new();
    write_expr(&mut out, e);
    text::string_of(out.as_slice())
}

pub const TO_SQL_TARGET: &'static str = "dialect export renderer";

pub const UNSUPPORTED_TABLE_VARIANT: &'static str = "CreateTableUnsupportedShape";

pub const UNSUPPORTED_INDEX_VARIANT: &'static str = "CreateIndexUnsupportedShape";

pub const UNSUPPORTED_TRIGGER_VARIANT: &'static str = "CreateTriggerUnsupportedShape";

pub const UNSUPPORTED_FUNCTION_VARIANT: &'static str = "CreateFunctionUnsupportedShape";

/// Identifiers separated by `", "`.
pub open spec fn idents_sql(s: Seq<Ident>) -> Seq<char> {
    text::join(s.map_values(|i: Ident| ident_sql(i)), ", "@)
}

pub open spec fn fk_action_sql(a: ForeignKeyAction) -> Seq<char> {
    match a {
        ForeignKeyAction::NoAction => "NO ACTION"@,
        ForeignKeyAction::Restrict => "RESTRICT"@,
        ForeignKeyAction::Cascade => "CASCADE"@,
        ForeignKeyAction::SetNull => "SET NULL"@,
        ForeignKeyAction::SetDefault => "SET DEFAULT"@,
    }
}

/// A foreign key action is rendered as the keyword that names it, and two different
/// actions never render the same keyword.
pub proof fn law_foreign_key_action_keywords(a: ForeignKeyAction, b: ForeignKeyAction)
    ensures
        a is NoAction ==> fk_action_sql(a) == "NO ACTION"@,
        a is Restrict ==> fk_action_sql(a) == "RESTRICT"@,
        a is Cascade ==> fk_action_sql(a) == "CASCADE"@,
        a is SetNull ==> fk_action_sql(a) == "SET NULL"@,
        a is SetDefault ==> fk_action_sql(a) == "SET DEFAULT"@,
        a != b ==> fk_action_sql(a) != fk_action_sql(b),
{
    reveal_strlit("NO ACTION");
    reveal_strlit("RESTRICT");
    reveal_strlit("CASCADE");
    reveal_strlit("SET NULL");
    reveal_strlit("SET DEFAULT");
    if a != b {
        let (x, y) = (fk_action_sql(a), fk_action_sql(b));
        if x.len() == y.len() {
            assert(x[0] != y[0]);
        }
    }
}

pub open spec fn constraint_name_sql(name: Option<Ident>) -> Seq<char> {
    match name {
        Some(n) => "CONSTRAINT "@ + ident_sql(n) + " "@,
        None => Seq::empty(),
    }
}

pub open spec fn fk_actions_sql(fk: ForeignKey) -> Seq<char> {
    (match fk.on_delete {
        Some(a) => " ON DELETE "@ + fk_action_sql(a),
        None => Seq::empty(),
    }) + match fk.on_update {
        Some(a) => " ON UPDATE "@ + fk_action_sql(a),
        None => Seq::empty(),
    }
}

/// The `FOREIGN KEY ... REFERENCES ...` clause, with its actions.
pub open spec fn foreign_key_clause_sql(fk: ForeignKey) -> Seq<char> {
    "FOREIGN KEY ("@ + idents_sql(fk.columns@) + ") REFERENCES "@ + qualified_name_sql(
        fk.referenced_table,
    ) + " ("@ + idents_sql(fk.referenced_columns@) + ")"@ + fk_actions_sql(fk)
}

pub open spec fn foreign_key_sql(fk: ForeignKey) -> Seq<char> {
    constraint_name_sql(fk.name) + foreign_key_clause_sql(fk)
}

pub open spec fn check_sql(c: CheckConstraint) -> Seq<char> {
    constraint_name_sql(c.name) + "CHECK ("@ + expr_sql(c.expr) + ")"@
}

pub open spec fn not_null_sql(not_null: bool) -> Seq<char> {
    if not_null {
        " NOT NULL"@
    } else {
        Seq::empty()
    }
}

pub open spec fn default_sql(default: Option<Expr>) -> Seq<char> {
    match default {
        Some(d) => " DEFAULT "@ + expr_sql(d),
        None => Seq::empty(),
    }
}

/// An identity that says something is written `AUTO_INCREMENT` in a table definition.
pub open spec fn column_identity_sql(identity: Option<Identity>) -> Seq<char> {
    match identity {
        Some(i) => if i.always || i.start is Some || i.increment is Some || i.min_value is Some
            || i.max_value is Some {
            " AUTO_INCREMENT"@
        } else {
            Seq::empty()
        },
        None => Seq::empty(),
    }
}

pub open spec fn is_true_flag(v: Option<Value>) -> bool {
    v matches Some(Value::Bool(b)) && b
}

pub open spec fn auto_increment_hint_sql(hint: Option<Value>) -> Seq<char> {
    if is_true_flag(hint) {
        " AUTO_INCREMENT"@
    } else {
        Seq::empty()
    }
}

pub open spec fn generated_sql(generated: Option<GeneratedColumn>) -> Seq<char> {
    match generated {
        Some(g) => " GENERATED ALWAYS AS ("@ + expr_sql(g.expr) + ") "@ + (if g.stored {
            "STORED"@
        } else {
            "VIRTUAL"@
        }),
        None => Seq::empty(),
    }
}

pub open spec fn collation_sql(collation: Option<String>) -> Seq<char> {
    match collation {
        Some(k) => " COLLATE "@ + text::trim(k@),
        None => Seq::empty(),
    }
}

pub open spec fn column_sql(c: Column) -> Seq<char> {
    ident_sql(c.name) + " "@ + data_type_sql(c.data_type) + not_null_sql(c.not_null) + default_sql(
        c.default,
    ) + column_identity_sql(c.identity) + auto_increment_hint_sql(c.auto_increment_hint)
        + generated_sql(c.generated) + collation_sql(c.collation)
}

pub open spec fn primary_key_part(pk: Option<PrimaryKey>) -> Seq<Seq<char>> {
    match pk {
        Some(pk) => seq![constraint_name_sql(pk.name) + "PRIMARY KEY ("@ + idents_sql(pk.columns@) + ")"@],
        None => Seq::empty(),
    }
}

/// The definitions inside `CREATE TABLE (...)`: columns, primary key, foreign keys, checks.
pub open spec fn table_definitions(t: Table) -> Seq<Seq<char>> {
    t.columns@.map_values(|c: Column| column_sql(c)) + primary_key_part(t.primary_key)
        + t.foreign_keys@.map_values(|f: ForeignKey| foreign_key_sql(f)) + t.checks@.map_values(
        |c: CheckConstraint| check_sql(c),
    )
}

/// A kept text option that is not blank.
pub open spec fn nonblank_text(v: Option<Value>) -> Option<Seq<char>> {
    match v {
        Some(Value::String(s)) => if text::trim(s@).len() > 0 {
            Some(s@)
        } else {
            None
        },
        _ => None,
    }
}

pub open spec fn is_bare_table(t: Table) -> bool {
    t.columns@.len() == 0 && t.primary_key is None && t.foreign_keys@.len() == 0
        && t.checks@.len() == 0
}

pub open spec fn create_table_sql(t: Table) -> Seq<char> {
    "CREATE TABLE "@ + qualified_name_sql(t.name) + " ("@ + text::join(table_definitions(t), ", "@)
        + ")"@ + match nonblank_text(t.options.partition_sql) {
        Some(p) => " "@ + p,
        None => Seq::empty(),
    } + ";"@
}

/// What rendering a table gives: its statement, or the name of the shape MySQL cannot take.
pub open spec fn table_result(t: Table) -> Result<Seq<char>, Seq<char>> {
    if is_bare_table(t) {
        match nonblank_text(t.options.source_sql) {
            Some(h) => Ok(text::terminate(text::trim(h))),
            None => Err(UNSUPPORTED_TABLE_VARIANT@),
        }
    } else if t.exclusions@.len() > 0 {
        Err(UNSUPPORTED_TABLE_VARIANT@)
    } else {
        Ok(create_table_sql(t))
    }
}

pub open spec fn view_security_sql(s: ViewSecurity) -> Seq<char> {
    match s {
        ViewSecurity::Definer => "DEFINER"@,
        ViewSecurity::Invoker => "INVOKER"@,
    }
}

pub open spec fn check_option_sql(c: CheckOption) -> Seq<char> {
    match c {
        CheckOption::Local => "LOCAL"@,
        CheckOption::Cascaded => "CASCADED"@,
    }
}

pub open spec fn security_clause_sql(security: Option<ViewSecurity>) -> Seq<char> {
    match security {
        Some(s) => " SQL SECURITY "@ + view_security_sql(s),
        None => Seq::empty(),
    }
}

pub open spec fn column_list_sql(columns: Seq<Ident>) -> Seq<char> {
    if columns.len() > 0 {
        " ("@ + idents_sql(columns) + ")"@
    } else {
        Seq::empty()
    }
}

pub open spec fn check_option_clause_sql(check_option: Option<CheckOption>) -> Seq<char> {
    match check_option {
        Some(c) => " WITH "@ + check_option_sql(c) + " CHECK OPTION"@,
        None => Seq::empty(),
    }
}

pub open spec fn view_sql(v: ir::View) -> Seq<char> {
    "CREATE"@ + security_clause_sql(v.security) + " VIEW "@ + qualified_name_sql(v.name)
        + column_list_sql(v.columns@) + " AS "@ + text::trim(v.query@) + check_option_clause_sql(
        v.check_option,
    ) + ";"@
}

pub open spec fn index_columns_sql(s: Seq<IndexColumn>) -> Seq<char> {
    text::join(s.map_values(|c: IndexColumn| expr_sql(c.expr)), ", "@)
}

pub open spec fn index_tail_sql(i: IndexDef) -> Seq<char> {
    (match i.method {
        Some(m) => " USING "@ + text::upper(text::trim(m@)),
        None => Seq::empty(),
    }) + match i.where_clause {
        Some(w) => " WHERE "@ + expr_sql(w),
        None => Seq::empty(),
    }
}

pub open spec fn index_result(i: IndexDef) -> Result<Seq<char>, Seq<char>> {
    match i.name {
        None => Err(UNSUPPORTED_INDEX_VARIANT@),
        Some(n) => match i.owner {
            IndexOwner::Table(t) => Ok(
                "CREATE "@ + (if i.unique {
                    "UNIQUE "@
                } else {
                    Seq::empty()
                }) + "INDEX "@ + ident_sql(n) + " ON "@ + qualified_name_sql(t) + " ("@
                    + index_columns_sql(i.columns@) + ")"@ + index_tail_sql(i) + ";"@,
            ),
            _ => Err(UNSUPPORTED_INDEX_VARIANT@),
        },
    }
}

/// MySQL has no `INSTEAD OF` triggers; such a trigger is written `AFTER`.
pub open spec fn timing_sql(t: TriggerTiming) -> Seq<char> {
    match t {
        TriggerTiming::Before => "BEFORE"@,
        TriggerTiming::After => "AFTER"@,
        TriggerTiming::InsteadOf => "AFTER"@,
    }
}

/// MySQL has no `TRUNCATE` triggers; such an event is written `DELETE`.
pub open spec fn event_sql(e: TriggerEvent) -> Seq<char> {
    match e {
        TriggerEvent::Insert => "INSERT"@,
        TriggerEvent::Update => "UPDATE"@,
        TriggerEvent::Delete => "DELETE"@,
        TriggerEvent::Truncate => "DELETE"@,
    }
}

/// A body without surrounding blanks and trailing terminators.
pub open spec fn body_text(body: Seq<char>) -> Seq<char> {
    text::trim(text::strip_trailing(text::trim(body), ';'))
}

pub open spec fn trigger_result(t: Trigger) -> Result<Seq<char>, Seq<char>> {
    let body = body_text(t.body@);
    if t.events@.len() == 0 || !(t.for_each is Row) || t.when_clause is Some || body.len() == 0 {
        Err(UNSUPPORTED_TRIGGER_VARIANT@)
    } else {
        Ok(
            "CREATE TRIGGER "@ + qualified_name_sql(t.name) + " "@ + timing_sql(t.timing) + " "@
                + text::join(t.events@.map_values(|e: TriggerEvent| event_sql(e)), " OR "@)
                + " ON "@ + qualified_name_sql(t.table) + " FOR EACH ROW"@ + " "@ + body + ";"@,
        )
    }
}

pub open spec fn param_mode_sql(m: FunctionParamMode) -> Seq<char> {
    match m {
        FunctionParamMode::In => "IN"@,
        FunctionParamMode::Out => "OUT"@,
        FunctionParamMode::InOut => "INOUT"@,
        FunctionParamMode::Variadic => "VARIADIC"@,
    }
}

pub open spec fn param_sql(p: FunctionParam) -> Seq<char> {
    (match p.mode {
        Some(m) => param_mode_sql(m) + " "@,
        None => Seq::empty(),
    }) + match p.name {
        Some(n) => ident_sql(n) + " "@,
        None => Seq::empty(),
    } + data_type_sql(p.data_type) + default_sql(p.default)
}

pub open spec fn function_security_sql(s: FunctionSecurity) -> Seq<char> {
    match s {
        FunctionSecurity::Definer => "DEFINER"@,
        FunctionSecurity::Invoker => "INVOKER"@,
    }
}

/// A body that is a `BEGIN ... END` block as it is, any other as a `RETURN`.
pub open spec fn function_body_sql(body: Seq<char>) -> Seq<char> {
    if text::starts_with(text::upper(body), "BEGIN"@) {
        " "@ + body
    } else {
        " RETURN "@ + body
    }
}

pub open spec fn function_result(f: Function) -> Result<Seq<char>, Seq<char>> {
    let body = body_text(f.body@);
    match f.return_type {
        None => Err(UNSUPPORTED_FUNCTION_VARIANT@),
        Some(rt) => if body.len() == 0 {
            Err(UNSUPPORTED_FUNCTION_VARIANT@)
        } else {
            Ok(
                "CREATE FUNCTION "@ + qualified_name_sql(f.name) + "("@ + text::join(
                    f.params@.map_values(|p: FunctionParam| param_sql(p)),
                    ", "@,
                ) + ") RETURNS "@ + data_type_sql(rt) + match f.security {
                    Some(s) => " SQL SECURITY "@ + function_security_sql(s),
                    None => Seq::empty(),
                } + function_body_sql(body) + ";"@,
            )
        },
    }
}

/// What rendering an object gives: its statement, or the name of what MySQL cannot render.
pub open spec fn object_result(o: SchemaObject) -> Result<Seq<char>, Seq<char>> {
    match o {
        SchemaObject::Table(t) => table_result(t),
        SchemaObject::View(v) => Ok(view_sql(v)),
        SchemaObject::Index(i) => index_result(i),
        SchemaObject::Trigger(t) => trigger_result(t),
        SchemaObject::Function(f) => function_result(f),
        SchemaObject::MaterializedView(_) => Err("MaterializedView"@),
        SchemaObject::Sequence(_) => Err("Sequence"@),
        SchemaObject::Type(_) => Err("Type"@),
        SchemaObject::Domain(_) => Err("Domain"@),
        SchemaObject::Extension(_) => Err("Extension"@),
        SchemaObject::Schema(_) => Err("Schema"@),
        SchemaObject::Comment(_) => Err("Comment"@),
        SchemaObject::Privilege(_) => Err("Privilege"@),
        SchemaObject::Policy(_) => Err("Policy"@),
    }
}

/// `r` is what rendering gives for `expected` in `dialect_name`.
pub open spec fn renders_as(
    r: Result<String, Error>,
    expected: Result<Seq<char>, Seq<char>>,
    dialect_name: Seq<char>,
) -> bool {
    match expected {
        Ok(sql) => r matches Ok(s) && s@ == sql,
        Err(variant) => r matches Err(e) && error::is_unsupported(
            e,
            variant,
            TO_SQL_TARGET@,
            dialect_name,
        ),
    }
}

/// The error for a shape or object kind MySQL cannot render.
pub fn unsupported_shape_error(dialect_name: &str, diff_op: &str) -> (e: Error)
    ensures
        error::is_unsupported(e, diff_op@, TO_SQL_TARGET@, dialect_name@),
{
    let op = text::chars_of(diff_op);
    error::unsupported(op.as_slice(), TO_SQL_TARGET, dialect_name)
}

pub fn write_idents(out: &mut Vec<char>, ids: &Vec<Ident>)
    ensures
        final(out)@ == old(out)@ + idents_sql(ids@),
{
    let mut i: usize = 0;
    while i < ids.len()
        invariant
            i <= ids@.len(),
            out@ == old(out)@ + text::join(
                ids@.take(i as int).map_values(|x: Ident| ident_sql(x)),
                ", "@,
            ),
        decreases ids.len() - i,
    {
        if i > 0 {
            text::append_str(out, ", ");
        }
        write_ident(out, &ids[i]);
        proof {
            let prev = ids@.take(i as int).map_values(|x: Ident| ident_sql(x));
            text::lemma_join_push(prev, ", "@, ident_sql(ids@[i as int]));
            assert(ids@.take(i + 1).map_values(|x: Ident| ident_sql(x)) =~= prev.push(
                ident_sql(ids@[i as int]),
            ));
            if i > 0 {
                assert(out@ =~= old(out)@ + (text::join(prev, ", "@) + ", "@ + ident_sql(
                    ids@[i as int],
                )));
            }
        }
        i += 1;
    }
    assert(ids@.take(ids@.len() as int) =~= ids@);
}

fn fk_action_text(a: &ForeignKeyAction) -> (r: &'static str)
    ensures
        r@ == fk_action_sql(*a),
{
    match a {
        ForeignKeyAction::NoAction => "NO ACTION",
        ForeignKeyAction::Restrict => "RESTRICT",
        ForeignKeyAction::Cascade => "CASCADE",
        ForeignKeyAction::SetNull => "SET NULL",
        ForeignKeyAction::SetDefault => "SET DEFAULT",
    }
}

pub fn write_constraint_name(out: &mut Vec<char>, name: &Option<Ident>)
    ensures
        final(out)@ == old(out)@ + constraint_name_sql(*name),
{
    match name {
        Some(n) => {
            text::append_str(out, "CONSTRAINT ");
            write_ident(out, n);
            text::append_str(out, " ");
            assert(out@ =~= old(out)@ + constraint_name_sql(*name));
        },
        None => {
            assert(old(out)@ + constraint_name_sql(*name) =~= old(out)@);
        },
    }
}

/// Appends the `FOREIGN KEY ... REFERENCES ...` clause.
pub fn write_foreign_key_clause(out: &mut Vec<char>, fk: &ForeignKey)
    ensures
        final(out)@ == old(out)@ + foreign_key_clause_sql(*fk),
{
    let ghost start = out@;
    text::append_str(out, "FOREIGN KEY (");
    write_idents(out, &fk.columns);
    text::append_str(out, ") REFERENCES ");
    write_qualified_name(out, &fk.referenced_table);
    text::append_str(out, " (");
    write_idents(out, &fk.referenced_columns);
    text::append_str(out, ")");
    let ghost mid = out@;
    match &fk.on_delete {
        Some(a) => {
            text::append_str(out, " ON DELETE ");
            text::append_str(out, fk_action_text(a));
        },
        None => {},
    }
    match &fk.on_update {
        Some(a) => {
            text::append_str(out, " ON UPDATE ");
            text::append_str(out, fk_action_text(a));
        },
        None => {},
    }
    assert(out@ =~= mid + fk_actions_sql(*fk));
    assert(out@ =~= start + foreign_key_clause_sql(*fk));
}

fn render_foreign_key(fk: &ForeignKey) -> (r: Vec<char>)
    ensures
        r@ == foreign_key_sql(*fk),
{
    let mut out: Vec<char> = Vec::new();
    write_constraint_name(&mut out, &fk.name);
    write_foreign_key_clause(&mut out, fk);
    assert(out@ =~= foreign_key_sql(*fk));
    out
}

fn render_check(c: &CheckConstraint) -> (r: Vec<char>)
    ensures
        r@ == check_sql(*c),
{
    let mut out: Vec<char> = Vec::new();
    write_constraint_name(&mut out, &c.name);
    text::append_str(&mut out, "CHECK (");
    write_expr(&mut out, &c.expr);
    text::append_str(&mut out, ")");
    assert(out@ =~= check_sql(*c));
    out
}

pub fn write_not_null(out: &mut Vec<char>, not_null: bool)
    ensures
        final(out)@ == old(out)@ + not_null_sql(not_null),
{
    if not_null {
        text::append_str(out, " NOT NULL");
    } else {
        assert(old(out)@ + not_null_sql(not_null) =~= old(out)@);
    }
}

pub fn write_default(out: &mut Vec<char>, default: &Option<Expr>)
    ensures
        final(out)@ == old(out)@ + default_sql(*default),
{
    match default {
        Some(d) => {
            text::append_str(out, " DEFAULT ");
            write_expr(out, d);
            assert(out@ =~= old(out)@ + default_sql(*default));
        },
        None => {
            assert(old(out)@ + default_sql(*default) =~= old(out)@);
        },
    }
}

fn write_column_identity(out: &mut Vec<char>, identity: &Option<Identity>)
    ensures
        final(out)@ == old(out)@ + column_identity_sql(*identity),
{
    match identity {
        Some(i) => {
            if i.always || i.start.is_some() || i.increment.is_some() || i.min_value.is_some()
                || i.max_value.is_some() {
                text::append_str(out, " AUTO_INCREMENT");
            } else {
                assert(old(out)@ + column_identity_sql(*identity) =~= old(out)@);
            }
        },
        None => {
            assert(old(out)@ + column_identity_sql(*identity) =~= old(out)@);
        },
    }
}

pub fn is_true_value(v: &Option<Value>) -> (b: bool)
    ensures
        b == is_true_flag(*v),
{
    match v {
        Some(Value::Bool(b)) => *b,
        _ => false,
    }
}

fn write_auto_increment_hint(out: &mut Vec<char>, hint: &Option<Value>)
    ensures
        final(out)@ == old(out)@ + auto_increment_hint_sql(*hint),
{
    if is_true_value(hint) {
        text::append_str(out, " AUTO_INCREMENT");
    } else {
        assert(old(out)@ + auto_increment_hint_sql(*hint) =~= old(out)@);
    }
}

pub fn write_generated(out: &mut Vec<char>, generated: &Option<GeneratedColumn>)
    ensures
        final(out)@ == old(out)@ + generated_sql(*generated),
{
    match generated {
        Some(g) => {
            text::append_str(out, " GENERATED ALWAYS AS (");
            write_expr(out, &g.expr);
            text::append_str(out, ") ");
            if g.stored {
                text::append_str(out, "STORED");
            } else {
                text::append_str(out, "VIRTUAL");
            }
            assert(out@ =~= old(out)@ + generated_sql(*generated));
        },
        None => {
            assert(old(out)@ + generated_sql(*generated) =~= old(out)@);
        },
    }
}

pub fn write_collation(out: &mut Vec<char>, collation: &Option<String>)
    ensures
        final(out)@ == old(out)@ + collation_sql(*collation),
{
    match collation {
        Some(k) => {
            text::append_str(out, " COLLATE ");
            let t = text::trim_str(k.as_str());
            text::append_chars(out, t.as_slice());
            assert(out@ =~= old(out)@ + collation_sql(*collation));
        },
        None => {
            assert(old(out)@ + collation_sql(*collation) =~= old(out)@);
        },
    }
}

fn render_column(c: &Column) -> (r: Vec<char>)
    ensures
        r@ == column_sql(*c),
{
    let mut out: Vec<char> = Vec::new();
    write_ident(&mut out, &c.name);
    text::append_str(&mut out, " ");
    write_data_type(&mut out, &c.data_type);
    write_not_null(&mut out, c.not_null);
    write_default(&mut out, &c.default);
    write_column_identity(&mut out, &c.identity);
    write_auto_increment_hint(&mut out, &c.auto_increment_hint);
    write_generated(&mut out, &c.generated);
    write_collation(&mut out, &c.collation);
    assert(out@ =~= column_sql(*c));
    out
}

fn table_definition_parts(t: &Table) -> (r: Vec<Vec<char>>)
    ensures
        text::char_views(r@) == table_definitions(*t),
{
    let mut parts: Vec<Vec<char>> = Vec::new();
    let ghost cols = t.columns@.map_values(|c: Column| column_sql(c));
    let mut i: usize = 0;
    assert(text::char_views(parts@) =~= cols.take(0));
    while i < t.columns.len()
        invariant
            i <= t.columns@.len(),
            cols == t.columns@.map_values(|c: Column| column_sql(c)),
            text::char_views(parts@) == cols.take(i as int),
        decreases t.columns.len() - i,
    {
        let p = render_column(&t.columns[i]);
        proof {
            text::lemma_char_views_push(parts@, p);
            assert(cols.take(i + 1) =~= cols.take(i as int).push(p@));
        }
        parts.push(p);
        i += 1;
    }
    assert(cols.take(cols.len() as int) =~= cols);
    let ghost pk_part = primary_key_part(t.primary_key);
    match &t.primary_key {
        Some(pk) => {
            let mut p: Vec<char> = Vec::new();
            write_constraint_name(&mut p, &pk.name);
            text::append_str(&mut p, "PRIMARY KEY (");
            write_idents(&mut p, &pk.columns);
            text::append_str(&mut p, ")");
            proof {
                text::lemma_char_views_push(parts@, p);
                assert(p@ =~= constraint_name_sql(pk.name) + "PRIMARY KEY ("@ + idents_sql(pk.columns@) + ")"@);
            }
            parts.push(p);
        },
        None => {},
    }
    assert(text::char_views(parts@) =~= cols + pk_part);
    let ghost base = cols + pk_part;
    let ghost fks = t.foreign_keys@.map_values(|f: ForeignKey| foreign_key_sql(f));
    let mut j: usize = 0;
    assert(base + fks.take(0) =~= base);
    while j < t.foreign_keys.len()
        invariant
            j <= t.foreign_keys@.len(),
            fks == t.foreign_keys@.map_values(|f: ForeignKey| foreign_key_sql(f)),
            text::char_views(parts@) == base + fks.take(j as int),
        decreases t.foreign_keys.len() - j,
    {
        let p = render_foreign_key(&t.foreign_keys[j]);
        proof {
            text::lemma_char_views_push(parts@, p);
            assert(base + fks.take(j + 1) =~= (base + fks.take(j as int)).push(p@));
        }
        parts.push(p);
        j += 1;
    }
    assert(fks.take(fks.len() as int) =~= fks);
    let ghost base2 = base + fks;
    let ghost checks = t.checks@.map_values(|c: CheckConstraint| check_sql(c));
    let mut k: usize = 0;
    assert(base2 + checks.take(0) =~= base2);
    while k < t.checks.len()
        invariant
            k <= t.checks@.len(),
            checks == t.checks@.map_values(|c: CheckConstraint| check_sql(c)),
            text::char_views(parts@) == base2 + checks.take(k as int),
        decreases t.checks.len() - k,
    {
        let p = render_check(&t.checks[k]);
        proof {
            text::lemma_char_views_push(parts@, p);
            assert(base2 + checks.take(k + 1) =~= (base2 + checks.take(k as int)).push(p@));
        }
        parts.push(p);
        k += 1;
    }
    assert(checks.take(checks.len() as int) =~= checks);
    parts
}

fn nonblank_value(v: &Option<Value>) -> (r: Option<&String>)
    ensures
        match nonblank_text(*v) {
            Some(t) => r matches Some(s) && s@ == t,
            None => r is None,
        },
{
    match v {
        Some(Value::String(s)) => {
            let t = text::trim_str(s.as_str());
            if t.len() > 0 {
                Some(s)
            } else {
                None
            }
        },
        _ => None,
    }
}

/// `CREATE TABLE` for a table; a table with only a name is written from the statement it
/// was read from, when that is kept.
pub fn render_table(dialect_name: &str, t: &Table) -> (r: Result<String, Error>)
    ensures
        renders_as(r, table_result(*t), dialect_name@),
{
    if t.columns.len() == 0 && t.primary_key.is_none() && t.foreign_keys.len() == 0
        && t.checks.len() == 0 {
        match nonblank_value(&t.options.source_sql) {
            Some(s) => {
                return Ok(common::ensure_sql_terminated(s.as_str()));
            },
            None => {},
        }
        return Err(unsupported_shape_error(dialect_name, UNSUPPORTED_TABLE_VARIANT));
    }
    if t.exclusions.len() > 0 {
        return Err(unsupported_shape_error(dialect_name, UNSUPPORTED_TABLE_VARIANT));
    }
    let mut out: Vec<char> = Vec::new();
    text::append_str(&mut out, "CREATE TABLE ");
    write_qualified_name(&mut out, &t.name);
    text::append_str(&mut out, " (");
    let parts = table_definition_parts(t);
    let defs = text::join_char_vecs(&parts, ", ");
    text::append_chars(&mut out, defs.as_slice());
    text::append_str(&mut out, ")");
    let ghost a = out@;
    match nonblank_value(&t.options.partition_sql) {
        Some(p) => {
            text::append_str(&mut out, " ");
            text::append_str(&mut out, p.as_str());
        },
        None => {},
    }
    text::append_str(&mut out, ";");
    assert(out@ =~= create_table_sql(*t));
    Ok(text::string_of(out.as_slice()))
}

fn write_security_clause(out: &mut Vec<char>, security: &Option<ViewSecurity>)
    ensures
        final(out)@ == old(out)@ + security_clause_sql(*security),
{
    match security {
        Some(sec) => {
            text::append_str(out, " SQL SECURITY ");
            match sec {
                ViewSecurity::Definer => text::append_str(out, "DEFINER"),
                ViewSecurity::Invoker => text::append_str(out, "INVOKER"),
            }
            assert(out@ =~= old(out)@ + security_clause_sql(*security));
        },
        None => {
            assert(old(out)@ + security_clause_sql(*security) =~= old(out)@);
        },
    }
}

fn write_column_list(out: &mut Vec<char>, columns: &Vec<Ident>)
    ensures
        final(out)@ == old(out)@ + column_list_sql(columns@),
{
    if columns.len() > 0 {
        text::append_str(out, " (");
        write_idents(out, columns);
        text::append_str(out, ")");
        assert(out@ =~= old(out)@ + column_list_sql(columns@));
    } else {
        assert(old(out)@ + column_list_sql(columns@) =~= old(out)@);
    }
}

fn write_check_option_clause(out: &mut Vec<char>, check_option: &Option<CheckOption>)
    ensures
        final(out)@ == old(out)@ + check_option_clause_sql(*check_option),
{
    match check_option {
        Some(k) => {
            text::append_str(out, " WITH ");
            match k {
                CheckOption::Local => text::append_str(out, "LOCAL"),
                CheckOption::Cascaded => text::append_str(out, "CASCADED"),
            }
            text::append_str(out, " CHECK OPTION");
            assert(out@ =~= old(out)@ + check_option_clause_sql(*check_option));
        },
        None => {
            assert(old(out)@ + check_option_clause_sql(*check_option) =~= old(out)@);
        },
    }
}

/// `CREATE VIEW` for a view.
pub fn render_view(v: &ir::View) -> (r: String)
    ensures
        r@ == view_sql(*v),
{
    let mut out: Vec<char> = Vec::new();
    text::append_str(&mut out, "CREATE");
    write_security_clause(&mut out, &v.security);
    text::append_str(&mut out, " VIEW ");
    write_qualified_name(&mut out, &v.name);
    write_column_list(&mut out, &v.columns);
    text::append_str(&mut out, " AS ");
    let q = text::trim_str(v.query.as_str());
    text::append_chars(&mut out, q.as_slice());
    write_check_option_clause(&mut out, &v.check_option);
    text::append_str(&mut out, ";");
    assert(out@ =~= view_sql(*v));
    text::string_of(out.as_slice())
}

fn write_index_columns(out: &mut Vec<char>, cols: &Vec<IndexColumn>)
    ensures
        final(out)@ == old(out)@ + index_columns_sql(cols@),
{
    let mut i: usize = 0;
    while i < cols.len()
        invariant
            i <= cols@.len(),
            out@ == old(out)@ + text::join(
                cols@.take(i as int).map_values(|c: IndexColumn| expr_sql(c.expr)),
                ", "@,
            ),
        decreases cols.len() - i,
    {
        if i > 0 {
            text::append_str(out, ", ");
        }
        write_expr(out, &cols[i].expr);
        proof {
            let prev = cols@.take(i as int).map_values(|c: IndexColumn| expr_sql(c.expr));
            text::lemma_join_push(prev, ", "@, expr_sql(cols@[i as int].expr));
            assert(cols@.take(i + 1).map_values(|c: IndexColumn| expr_sql(c.expr)) =~= prev.push(
                expr_sql(cols@[i as int].expr),
            ));
            if i > 0 {
                assert(out@ =~= old(out)@ + (text::join(prev, ", "@) + ", "@ + expr_sql(
                    cols@[i as int].expr,
                )));
            }
        }
        i += 1;
    }
    assert(cols@.take(cols@.len() as int) =~= cols@);
}

fn write_index_tail(out: &mut Vec<char>, index: &IndexDef)
    ensures
        final(out)@ == old(out)@ + index_tail_sql(*index),
{
    let ghost start = out@;
    match &index.method {
        Some(m) => {
            text::append_str(out, " USING ");
            let t = text::trim_str(m.as_str());
            let u = text::upper_chars(t.as_slice());
            text::append_chars(out, u.as_slice());
        },
        None => {},
    }
    let ghost mid = out@;
    match &index.where_clause {
        Some(w) => {
            text::append_str(out, " WHERE ");
            write_expr(out, w);
        },
        None => {},
    }
    assert(out@ =~= start + index_tail_sql(*index));
}

/// `CREATE INDEX` for a named index on a table.
pub fn render_index(dialect_name: &str, index: &IndexDef) -> (r: Result<String, Error>)
    ensures
        renders_as(r, index_result(*index), dialect_name@),
{
    let name = match &index.name {
        Some(n) => n,
        None => return Err(unsupported_shape_error(dialect_name, UNSUPPORTED_INDEX_VARIANT)),
    };
    let table = match &index.owner {
        IndexOwner::Table(t) => t,
        _ => return Err(unsupported_shape_error(dialect_name, UNSUPPORTED_INDEX_VARIANT)),
    };
    let mut out: Vec<char> = Vec::new();
    text::append_str(&mut out, "CREATE ");
    let ghost a = out@;
    if index.unique {
        text::append_str(&mut out, "UNIQUE ");
    }
    text::append_str(&mut out, "INDEX ");
    write_ident(&mut out, name);
    text::append_str(&mut out, " ON ");
    write_qualified_name(&mut out, table);
    text::append_str(&mut out, " (");
    write_index_columns(&mut out, &index.columns);
    text::append_str(&mut out, ")");
    write_index_tail(&mut out, index);
    text::append_str(&mut out, ";");
    proof {
        let sql = index_result(*index)->Ok_0;
        assert(out@ =~= sql);
    }
    Ok(text::string_of(out.as_slice()))
}

fn timing_text(t: &TriggerTiming) -> (r: &'static str)
    ensures
        r@ == timing_sql(*t),
{
    match t {
        TriggerTiming::Before => "BEFORE",
        TriggerTiming::After => "AFTER",
        TriggerTiming::InsteadOf => "AFTER",
    }
}

fn event_text(e: &TriggerEvent) -> (r: &'static str)
    ensures
        r@ == event_sql(*e),
{
    match e {
        TriggerEvent::Insert => "INSERT",
        TriggerEvent::Update => "UPDATE",
        TriggerEvent::Delete => "DELETE",
        TriggerEvent::Truncate => "DELETE",
    }
}

fn write_events(out: &mut Vec<char>, events: &Vec<TriggerEvent>)
    ensures
        final(out)@ == old(out)@ + text::join(
            events@.map_values(|e: TriggerEvent| event_sql(e)),
            " OR "@,
        ),
{
    let mut i: usize = 0;
    while i < events.len()
        invariant
            i <= events@.len(),
            out@ == old(out)@ + text::join(
                events@.take(i as int).map_values(|e: TriggerEvent| event_sql(e)),
                " OR "@,
            ),
        decreases events.len() - i,
    {
        if i > 0 {
            text::append_str(out, " OR ");
        }
        text::append_str(out, event_text(&events[i]));
        proof {
            let prev = events@.take(i as int).map_values(|e: TriggerEvent| event_sql(e));
            text::lemma_join_push(prev, " OR "@, event_sql(events@[i as int]));
            assert(events@.take(i + 1).map_values(|e: TriggerEvent| event_sql(e)) =~= prev.push(
                event_sql(events@[i as int]),
            ));
            if i > 0 {
                assert(out@ =~= old(out)@ + (text::join(prev, " OR "@) + " OR "@ + event_sql(
                    events@[i as int],
                )));
            }
        }
        i += 1;
    }
    assert(events@.take(events@.len() as int) =~= events@);
}

fn body_chars(body: &String) -> (r: Vec<char>)
    ensures
        r@ == body_text(body@),
{
    let b = text::trim_str(body.as_str());
    let b = text::strip_trailing_chars(b.as_slice(), ';');
    text::trim_chars(b.as_slice())
}

/// `CREATE TRIGGER` for a row-level trigger without a `WHEN` condition.
pub fn render_trigger(dialect_name: &str, t: &Trigger) -> (r: Result<String, Error>)
    ensures
        renders_as(r, trigger_result(*t), dialect_name@),
{
    let row_level = match t.for_each {
        TriggerForEach::Row => true,
        TriggerForEach::Statement => false,
    };
    if t.events.len() == 0 || !row_level || t.when_clause.is_some() {
        return Err(unsupported_shape_error(dialect_name, UNSUPPORTED_TRIGGER_VARIANT));
    }
    let mut out: Vec<char> = Vec::new();
    text::append_str(&mut out, "CREATE TRIGGER ");
    write_qualified_name(&mut out, &t.name);
    text::append_str(&mut out, " ");
    text::append_str(&mut out, timing_text(&t.timing));
    text::append_str(&mut out, " ");
    write_events(&mut out, &t.events);
    text::append_str(&mut out, " ON ");
    write_qualified_name(&mut out, &t.table);
    text::append_str(&mut out, " FOR EACH ROW");
    let body = body_chars(&t.body);
    if body.len() == 0 {
        return Err(unsupported_shape_error(dialect_name, UNSUPPORTED_TRIGGER_VARIANT));
    }
    text::append_str(&mut out, " ");
    text::append_chars(&mut out, body.as_slice());
    text::append_str(&mut out, ";");
    proof {
        let sql = trigger_result(*t)->Ok_0;
        assert(out@ =~= sql);
    }
    Ok(text::string_of(out.as_slice()))
}

fn render_function_param(p: &FunctionParam) -> (r: Vec<char>)
    ensures
        r@ == param_sql(*p),
{
    let mut out: Vec<char> = Vec::new();
    match &p.mode {
        Some(m) => {
            match m {
                FunctionParamMode::In => text::append_str(&mut out, "IN"),
                FunctionParamMode::Out => text::append_str(&mut out, "OUT"),
                FunctionParamMode::InOut => text::append_str(&mut out, "INOUT"),
                FunctionParamMode::Variadic => text::append_str(&mut out, "VARIADIC"),
            }
            text::append_str(&mut out, " ");
        },
        None => {},
    }
    let ghost a = out@;
    match &p.name {
        Some(n) => {
            write_ident(&mut out, n);
            text::append_str(&mut out, " ");
        },
        None => {},
    }
    let ghost b = out@;
    write_data_type(&mut out, &p.data_type);
    write_default(&mut out, &p.default);
    assert(out@ =~= param_sql(*p));
    out
}

fn function_param_parts(params: &Vec<FunctionParam>) -> (r: Vec<Vec<char>>)
    ensures
        text::char_views(r@) == params@.map_values(|p: FunctionParam| param_sql(p)),
{
    let mut parts: Vec<Vec<char>> = Vec::new();
    let ghost all = params@.map_values(|p: FunctionParam| param_sql(p));
    let mut i: usize = 0;
    assert(text::char_views(parts@) =~= all.take(0));
    while i < params.len()
        invariant
            i <= params@.len(),
            all == params@.map_values(|p: FunctionParam| param_sql(p)),
            text::char_views(parts@) == all.take(i as int),
        decreases params.len() - i,
    {
        let p = render_function_param(&params[i]);
        proof {
            text::lemma_char_views_push(parts@, p);
            assert(all.take(i + 1) =~= all.take(i as int).push(p@));
        }
        parts.push(p);
        i += 1;
    }
    assert(all.take(all.len() as int) =~= all);
    parts
}

/// `CREATE FUNCTION` for a function with a return type and a body.
pub fn render_function(dialect_name: &str, f: &Function) -> (r: Result<String, Error>)
    ensures
        renders_as(r, function_result(*f), dialect_name@),
{
    let return_type = match &f.return_type {
        Some(t) => t,
        None => return Err(unsupported_shape_error(dialect_name, UNSUPPORTED_FUNCTION_VARIANT)),
    };
    let mut out: Vec<char> = Vec::new();
    text::append_str(&mut out, "CREATE FUNCTION ");
    write_qualified_name(&mut out, &f.name);
    text::append_str(&mut out, "(");
    let parts = function_param_parts(&f.params);
    let params = text::join_char_vecs(&parts, ", ");
    text::append_chars(&mut out, params.as_slice());
    text::append_str(&mut out, ") RETURNS ");
    write_data_type(&mut out, return_type);
    let ghost a = out@;
    match &f.security {
        Some(s) => {
            text::append_str(&mut out, " SQL SECURITY ");
            match s {
                FunctionSecurity::Definer => text::append_str(&mut out, "DEFINER"),
                FunctionSecurity::Invoker => text::append_str(&mut out, "INVOKER"),
            }
        },
        None => {},
    }
    let body = body_chars(&f.body);
    if body.len() == 0 {
        return Err(unsupported_shape_error(dialect_name, UNSUPPORTED_FUNCTION_VARIANT));
    }
    let ghost b = out@;
    let upper = text::upper_chars(body.as_slice());
    if text::starts_with_str(upper.as_slice(), "BEGIN") {
        text::append_str(&mut out, " ");
    } else {
        text::append_str(&mut out, " RETURN ");
    }
    text::append_chars(&mut out, body.as_slice());
    text::append_str(&mut out, ";");
    proof {
        let sql = function_result(*f)->Ok_0;
        assert(out@ =~= sql);
    }
    Ok(text::string_of(out.as_slice()))
}

/// The statement that creates a schema object in MySQL.
pub fn render_object(dialect_name: &str, object: &SchemaObject) -> (r: Result<String, Error>)
    ensures
        renders_as(r, object_result(*object), dialect_name@),
{
    match object {
        SchemaObject::Table(t) => render_table(dialect_name, t),
        SchemaObject::View(v) => Ok(render_view(v)),
        SchemaObject::Index(i) => render_index(dialect_name, i),
        SchemaObject::Trigger(t) => render_trigger(dialect_name, t),
        SchemaObject::Function(f) => render_function(dialect_name, f),
        SchemaObject::MaterializedView(_) => Err(unsupported_shape_error(dialect_name, "MaterializedView")),
        SchemaObject::Sequence(_) => Err(unsupported_shape_error(dialect_name, "Sequence")),
        SchemaObject::Type(_) => Err(unsupported_shape_error(dialect_name, "Type")),
        SchemaObject::Domain(_) => Err(unsupported_shape_error(dialect_name, "Domain")),
        SchemaObject::Extension(_) => Err(unsupported_shape_error(dialect_name, "Extension")),
        SchemaObject::Schema(_) => Err(unsupported_shape_error(dialect_name, "Schema")),
        SchemaObject::Comment(_) => Err(unsupported_shape_error(dialect_name, "Comment")),
        SchemaObject::Privilege(_) => Err(unsupported_shape_error(dialect_name, "Privilege")),
        SchemaObject::Policy(_) => Err(unsupported_shape_error(dialect_name, "Policy")),
    }
}

} // verus!
