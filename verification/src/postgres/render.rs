use vstd::prelude::*;

use crate::ir::BinaryOperator;
use crate::ir::ComparisonOp;
use crate::ir::DataType;
use crate::ir::Expr;
use crate::ir::IsTest;
use crate::ir::Literal;
use crate::ir::SetQuantifier;
use crate::ir::UnaryOperator;
use crate::ir::Value;
use crate::ir::WindowSpec;
use crate::schema::Ident;
use crate::schema::QualifiedName;
use crate::text;

verus! {

/// An identifier as PostgreSQL writes it: in double quotes, inner quotes doubled.
pub open spec fn ident_sql(id: Ident) -> Seq<char> {
    text::quoted_with(id.value@, '"')
}

/// A name in double quotes, with its schema when it has one.
pub open spec fn qualified_name_sql(n: QualifiedName) -> Seq<char> {
    match n.schema {
        Some(s) => ident_sql(s) + "."@ + ident_sql(n.name),
        None => ident_sql(n.name),
    }
}

/// A string constant: in single quotes, inner quotes doubled.
pub open spec fn string_sql(s: Seq<char>) -> Seq<char> {
    text::quoted_with(s, '\'')
}

pub fn write_ident(out: &mut Vec<char>, id: &Ident)
    ensures
        final(out)@ == old(out)@ + ident_sql(*id),
{
    let v = text::chars_of(id.value.as_str());
    let q = text::quote_chars(v.as_slice(), '"');
    text::append_chars(out, q.as_slice());
}

/// Writes `text` as a double-quoted identifier.
pub fn write_ident_text(out: &mut Vec<char>, value: &str)
    ensures
        final(out)@ == old(out)@ + text::quoted_with(value@, '"'),
{
    let v = text::chars_of(value);
    let q = text::quote_chars(v.as_slice(), '"');
    text::append_chars(out, q.as_slice());
}

pub fn write_qualified_name(out: &mut Vec<char>, n: &QualifiedName)
    ensures
        final(out)@ == old(out)@ + qualified_name_sql(*n),
{
    match &n.schema {
        Some(s) => {
            write_ident(out, s);
            text::append_str(out, ".");
            write_ident(out, &n.name);
        },
        None => write_ident(out, &n.name),
    }
}

/// Writes the name `schema`.`name`, with `schema` when there is one.
pub fn write_name_in(out: &mut Vec<char>, schema: &Option<Ident>, name: &Ident)
    ensures
        final(out)@ == old(out)@ + qualified_name_sql(QualifiedName { schema: *schema, name: *name }),
{
    match schema {
        Some(s) => {
            write_ident(out, s);
            text::append_str(out, ".");
            write_ident(out, name);
        },
        None => write_ident(out, name),
    }
}

pub fn write_string_constant(out: &mut Vec<char>, s: &str)
    ensures
        final(out)@ == old(out)@ + string_sql(s@),
{
    let v = text::chars_of(s);
    let q = text::quote_chars(v.as_slice(), '\'');
    text::append_chars(out, q.as_slice());
}

/// A string in single quotes with its single quotes doubled.
pub fn quote_string(value: &str) -> (r: String)
    ensures
        r@ == string_sql(value@),
{
    let mut out: Vec<char> = Vec::new();
    write_string_constant(&mut out, value);
    assert(out@ =~= string_sql(value@));
    text::string_of(out.as_slice())
}

pub fn write_signed(out: &mut Vec<char>, i: i64)
    ensures
        final(out)@ == old(out)@ + text::signed_decimal_string(i as int),
{
    let d = text::signed_decimal_chars(i);
    text::append_chars(out, d.as_slice());
}

pub fn write_unsigned(out: &mut Vec<char>, n: u32)
    ensures
        final(out)@ == old(out)@ + text::decimal_string(n as nat),
{
    let d = text::decimal_chars(n as u64);
    text::append_chars(out, d.as_slice());
}

pub open spec fn value_sql(v: Value) -> Seq<char> {
    match v {
        Value::String(s) => string_sql(s@),
        Value::Integer(i) => text::signed_decimal_string(i as int),
        Value::Float(f) => f@,
        Value::Bool(b) => if b {
            "true"@
        } else {
            "false"@
        },
        Value::Null => "NULL"@,
    }
}

/// Renders an option value.
pub fn write_value(out: &mut Vec<char>, v: &Value)
    ensures
        final(out)@ == old(out)@ + value_sql(*v),
{
    match v {
        Value::String(s) => write_string_constant(out, s.as_str()),
        Value::Integer(i) => write_signed(out, *i),
        Value::Float(f) => text::append_str(out, f.as_str()),
        Value::Bool(b) => if *b {
            text::append_str(out, "true")
        } else {
            text::append_str(out, "false")
        },
        Value::Null => text::append_str(out, "NULL"),
    }
}

pub open spec fn literal_sql(l: Literal) -> Seq<char> {
    match l {
        Literal::String(s) => string_sql(s@),
        Literal::Integer(i) => text::signed_decimal_string(i as int),
        Literal::Float(f) => f@,
        Literal::Boolean(b) => if b {
            "TRUE"@
        } else {
            "FALSE"@
        },
        Literal::Value(v) => value_sql(v),
    }
}

pub fn write_literal(out: &mut Vec<char>, l: &Literal)
    ensures
        final(out)@ == old(out)@ + literal_sql(*l),
{
    match l {
        Literal::String(s) => write_string_constant(out, s.as_str()),
        Literal::Integer(i) => write_signed(out, *i),
        Literal::Float(f) => text::append_str(out, f.as_str()),
        Literal::Boolean(b) => if *b {
            text::append_str(out, "TRUE")
        } else {
            text::append_str(out, "FALSE")
        },
        Literal::Value(v) => write_value(out, v),
    }
}

/// A data type as PostgreSQL writes it.
pub open spec fn data_type_sql(d: DataType) -> Seq<char>
    decreases d,
{
    match d {
        DataType::Boolean => "boolean"@,
        DataType::SmallInt => "smallint"@,
        DataType::Integer => "integer"@,
        DataType::BigInt => "bigint"@,
        DataType::Real => "real"@,
        DataType::DoublePrecision => "double precision"@,
        DataType::Numeric { precision, scale } => match (precision, scale) {
            (Some(p), Some(s)) => "numeric("@ + text::decimal_string(p as nat) + ","@
                + text::decimal_string(s as nat) + ")"@,
            (Some(p), None) => "numeric("@ + text::decimal_string(p as nat) + ")"@,
            _ => "numeric"@,
        },
        DataType::Text => "text"@,
        DataType::Varchar { length } => match length {
            Some(l) => "varchar("@ + text::decimal_string(l as nat) + ")"@,
            None => "varchar"@,
        },
        DataType::Char { length } => match length {
            Some(l) => "char("@ + text::decimal_string(l as nat) + ")"@,
            None => "char"@,
        },
        DataType::Blob => "bytea"@,
        DataType::Date => "date"@,
        DataType::Time { with_timezone } => if with_timezone {
            "time with time zone"@
        } else {
            "time without time zone"@
        },
        DataType::Timestamp { with_timezone } => if with_timezone {
            "timestamp with time zone"@
        } else {
            "timestamp without time zone"@
        },
        DataType::Json => "json"@,
        DataType::Jsonb => "jsonb"@,
        DataType::Uuid => "uuid"@,
        DataType::Array(inner) => data_type_sql(*inner) + "[]"@,
        DataType::Custom(c) => c@,
    }
}

fn write_sized(out: &mut Vec<char>, opening: &str, size: u32)
    ensures
        final(out)@ == old(out)@ + opening@ + text::decimal_string(size as nat) + ")"@,
{
    text::append_str(out, opening);
    write_unsigned(out, size);
    text::append_str(out, ")");
}

pub fn write_data_type(out: &mut Vec<char>, d: &DataType)
    ensures
        final(out)@ == old(out)@ + data_type_sql(*d),
    decreases *d,
{
    let ghost start = out@;
    match d {
        DataType::Boolean => { text::append_str(out, "boolean"); assert(out@ =~= start + data_type_sql(*d)); },
        DataType::SmallInt => { text::append_str(out, "smallint"); assert(out@ =~= start + data_type_sql(*d)); },
        DataType::Integer => { text::append_str(out, "integer"); assert(out@ =~= start + data_type_sql(*d)); },
        DataType::BigInt => { text::append_str(out, "bigint"); assert(out@ =~= start + data_type_sql(*d)); },
        DataType::Real => { text::append_str(out, "real"); assert(out@ =~= start + data_type_sql(*d)); },
        DataType::DoublePrecision => { text::append_str(out, "double precision"); assert(out@ =~= start + data_type_sql(*d)); },
        DataType::Numeric { precision, scale } => match (precision, scale) {
            (Some(p), Some(s)) => {
                text::append_str(out, "numeric(");
                write_unsigned(out, *p);
                text::append_str(out, ",");
                write_unsigned(out, *s);
                text::append_str(out, ")");
                assert(out@ =~= start + data_type_sql(*d));
            },
            (Some(p), None) => { write_sized(out, "numeric(", *p); assert(out@ =~= start + data_type_sql(*d)); },
            _ => {
                text::append_str(out, "numeric");
                assert(precision is None);
                assert(out@ =~= start + data_type_sql(*d));
            },
        },
        DataType::Text => { text::append_str(out, "text"); assert(out@ =~= start + data_type_sql(*d)); },
        DataType::Varchar { length } => match length {
            Some(l) => { write_sized(out, "varchar(", *l); assert(out@ =~= start + data_type_sql(*d)); },
            None => { text::append_str(out, "varchar"); assert(out@ =~= start + data_type_sql(*d)); },
        },
        DataType::Char { length } => match length {
            Some(l) => { write_sized(out, "char(", *l); assert(out@ =~= start + data_type_sql(*d)); },
            None => { text::append_str(out, "char"); assert(out@ =~= start + data_type_sql(*d)); },
        },
        DataType::Blob => { text::append_str(out, "bytea"); assert(out@ =~= start + data_type_sql(*d)); },
        DataType::Date => { text::append_str(out, "date"); assert(out@ =~= start + data_type_sql(*d)); },
        DataType::Time { with_timezone } => if *with_timezone {
            text::append_str(out, "time with time zone"); assert(out@ =~= start + data_type_sql(*d));
        } else {
            text::append_str(out, "time without time zone"); assert(out@ =~= start + data_type_sql(*d));
        },
        DataType::Timestamp { with_timezone } => if *with_timezone {
            text::append_str(out, "timestamp with time zone"); assert(out@ =~= start + data_type_sql(*d));
        } else {
            text::append_str(out, "timestamp without time zone"); assert(out@ =~= start + data_type_sql(*d));
        },
        DataType::Json => { text::append_str(out, "json"); assert(out@ =~= start + data_type_sql(*d)); },
        DataType::Jsonb => { text::append_str(out, "jsonb"); assert(out@ =~= start + data_type_sql(*d)); },
        DataType::Uuid => { text::append_str(out, "uuid"); assert(out@ =~= start + data_type_sql(*d)); },
        DataType::Array(inner) => {
            write_data_type(out, inner);
            text::append_str(out, "[]");
            assert(out@ =~= start + data_type_sql(*d));
        },
        DataType::Custom(c) => {
            text::append_str(out, c.as_str());
            assert(out@ =~= start + data_type_sql(*d));
        },
    }
    assert(out@ =~= start + data_type_sql(*d));
}

/// A data type as PostgreSQL writes it.
pub fn render_data_type(d: &DataType) -> (r: String)
    ensures
        r@ == data_type_sql(*d),
{
    let mut out: Vec<char> = Vec::new();
    write_data_type(&mut out, d);
    assert(out@ =~= data_type_sql(*d));
    text::string_of(out.as_slice())
}


pub open spec fn binary_op_sql(op: BinaryOperator) -> Seq<char> {
    match op {
        BinaryOperator::Add => "+"@,
        BinaryOperator::Subtract => "-"@,
        BinaryOperator::Multiply => "*"@,
        BinaryOperator::Divide => "/"@,
        BinaryOperator::Modulo => "%"@,
        BinaryOperator::StringConcat => "||"@,
        BinaryOperator::BitwiseAnd => "&"@,
        BinaryOperator::BitwiseOr => "|"@,
        BinaryOperator::BitwiseXor => "#"@,
    }
}

pub fn render_binary_op(op: &BinaryOperator) -> (r: &'static str)
    ensures
        r@ == binary_op_sql(*op),
{
    match op {
        BinaryOperator::Add => "+",
        BinaryOperator::Subtract => "-",
        BinaryOperator::Multiply => "*",
        BinaryOperator::Divide => "/",
        BinaryOperator::Modulo => "%",
        BinaryOperator::StringConcat => "||",
        BinaryOperator::BitwiseAnd => "&",
        BinaryOperator::BitwiseOr => "|",
        BinaryOperator::BitwiseXor => "#",
    }
}

pub open spec fn unary_op_sql(op: UnaryOperator) -> Seq<char> {
    match op {
        UnaryOperator::Plus => "+"@,
        UnaryOperator::Minus => "-"@,
        UnaryOperator::Not => "NOT"@,
    }
}

pub fn render_unary_op(op: &UnaryOperator) -> (r: &'static str)
    ensures
        r@ == unary_op_sql(*op),
{
    match op {
        UnaryOperator::Plus => "+",
        UnaryOperator::Minus => "-",
        UnaryOperator::Not => "NOT",
    }
}

pub open spec fn comparison_op_sql(op: ComparisonOp) -> Seq<char> {
    match op {
        ComparisonOp::Equal => "="@,
        ComparisonOp::NotEqual => "<>"@,
        ComparisonOp::GreaterThan => ">"@,
        ComparisonOp::GreaterThanOrEqual => ">="@,
        ComparisonOp::LessThan => "<"@,
        ComparisonOp::LessThanOrEqual => "<="@,
        ComparisonOp::Like => "LIKE"@,
        ComparisonOp::ILike => "ILIKE"@,
    }
}

pub fn render_comparison_op(op: &ComparisonOp) -> (r: &'static str)
    ensures
        r@ == comparison_op_sql(*op),
{
    match op {
        ComparisonOp::Equal => "=",
        ComparisonOp::NotEqual => "<>",
        ComparisonOp::GreaterThan => ">",
        ComparisonOp::GreaterThanOrEqual => ">=",
        ComparisonOp::LessThan => "<",
        ComparisonOp::LessThanOrEqual => "<=",
        ComparisonOp::Like => "LIKE",
        ComparisonOp::ILike => "ILIKE",
    }
}

pub open spec fn set_quantifier_sql(q: SetQuantifier) -> Seq<char> {
    match q {
        SetQuantifier::Any => "ANY"@,
        SetQuantifier::SomeOf => "SOME"@,
        SetQuantifier::All => "ALL"@,
    }
}

pub fn render_set_quantifier(q: &SetQuantifier) -> (r: &'static str)
    ensures
        r@ == set_quantifier_sql(*q),
{
    match q {
        SetQuantifier::Any => "ANY",
        SetQuantifier::SomeOf => "SOME",
        SetQuantifier::All => "ALL",
    }
}

pub open spec fn is_test_sql(t: IsTest) -> Seq<char> {
    match t {
        IsTest::Null => "NULL"@,
        IsTest::NotNull => "NOT NULL"@,
        IsTest::True => "TRUE"@,
        IsTest::NotTrue => "NOT TRUE"@,
        IsTest::False => "FALSE"@,
        IsTest::NotFalse => "NOT FALSE"@,
        IsTest::Unknown => "UNKNOWN"@,
        IsTest::NotUnknown => "NOT UNKNOWN"@,
    }
}

pub fn render_is_test(t: &IsTest) -> (r: &'static str)
    ensures
        r@ == is_test_sql(*t),
{
    match t {
        IsTest::Null => "NULL",
        IsTest::NotNull => "NOT NULL",
        IsTest::True => "TRUE",
        IsTest::NotTrue => "NOT TRUE",
        IsTest::False => "FALSE",
        IsTest::NotFalse => "NOT FALSE",
        IsTest::Unknown => "UNKNOWN",
        IsTest::NotUnknown => "NOT UNKNOWN",
    }
}

/// `"NOT "` for a negated test, nothing otherwise.
pub open spec fn negation_sql(negated: bool) -> Seq<char> {
    if negated {
        "NOT "@
    } else {
        Seq::empty()
    }
}

/// `s` without each space that stands right before a `)`: what replacing every `" )"`
/// by `")"` gives, as no two of them overlap. The first `n` characters are looked at.
pub open spec fn kept_before_close(s: Seq<char>, n: int) -> Seq<char>
    decreases n,
{
    if n <= 0 {
        Seq::empty()
    } else {
        let p = kept_before_close(s, n - 1);
        if s[n - 1] == ' ' && n < s.len() && s[n] == ')' {
            p
        } else {
            p.push(s[n - 1])
        }
    }
}

pub open spec fn drop_space_before_close(s: Seq<char>) -> Seq<char> {
    kept_before_close(s, s.len() as int)
}

/// Replaces every `" )"` in `v` by `")"`.
pub fn remove_space_before_close(v: &[char]) -> (r: Vec<char>)
    ensures
        r@ == drop_space_before_close(v@),
{
    let mut out: Vec<char> = Vec::new();
    let mut i: usize = 0;
    while i < v.len()
        invariant
            i <= v@.len(),
            out@ == kept_before_close(v@, i as int),
        decreases v.len() - i,
    {
        if !(v[i] == ' ' && i + 1 < v.len() && v[i + 1] == ')') {
            out.push(v[i]);
        }
        i += 1;
    }
    out
}

/// The expressions rendered and separated by `", "`.
pub open spec fn list_sql(s: Seq<Expr>) -> Seq<char>
    decreases s, 1int,
{
    if s.len() == 0 {
        Seq::empty()
    } else if s.len() == 1 {
        expr_sql(s[0])
    } else {
        list_sql(s.drop_last()) + ", "@ + expr_sql(s.last())
    }
}

/// The `WHEN ... THEN ...` arms of a `CASE`.
pub open spec fn whens_sql(s: Seq<(Expr, Expr)>) -> Seq<char>
    decreases s, 1int,
{
    if s.len() == 0 {
        Seq::empty()
    } else {
        whens_sql(s.drop_last()) + " WHEN "@ + expr_sql(s.last().0) + " THEN "@ + expr_sql(
            s.last().1,
        )
    }
}

/// The `OVER (...)` clause of a window, empty when there is no window.
pub open spec fn over_sql(over: Option<WindowSpec>) -> Seq<char>
    decreases over, 1int,
{
    match over {
        None => Seq::empty(),
        Some(w) => {
            let p = if w.partition_by@.len() > 0 {
                "PARTITION BY "@ + list_sql(w.partition_by@)
            } else {
                Seq::empty()
            };
            let o = if w.order_by@.len() > 0 {
                (if w.partition_by@.len() > 0 {
                    " "@
                } else {
                    Seq::empty()
                }) + "ORDER BY "@ + list_sql(w.order_by@)
            } else {
                Seq::empty()
            };
            " OVER ("@ + p + o + ")"@
        },
    }
}

/// An expression as PostgreSQL text: operators are fully parenthesized.
pub open spec fn expr_sql(e: Expr) -> Seq<char>
    decreases e, 0int,
{
    match e {
        Expr::Literal(l) => literal_sql(l),
        Expr::Ident(id) => ident_sql(id),
        Expr::QualifiedIdent { qualifier, name } => ident_sql(qualifier) + "."@ + ident_sql(name),
        Expr::Null => "NULL"@,
        Expr::Raw(r) => r@,
        Expr::BinaryOp { left, op, right } => "("@ + expr_sql(*left) + " "@ + binary_op_sql(op)
            + " "@ + expr_sql(*right) + ")"@,
        Expr::UnaryOp { op, expr } => "("@ + unary_op_sql(op) + " "@ + expr_sql(*expr) + ")"@,
        Expr::Comparison { left, op, right, quantifier } => match quantifier {
            Some(q) => "("@ + expr_sql(*left) + " "@ + comparison_op_sql(op) + " "@
                + set_quantifier_sql(q) + " ("@ + expr_sql(*right) + "))"@,
            None => "("@ + expr_sql(*left) + " "@ + comparison_op_sql(op) + " "@ + expr_sql(*right)
                + ")"@,
        },
        Expr::And(l, r) => "("@ + expr_sql(*l) + " AND "@ + expr_sql(*r) + ")"@,
        Expr::Or(l, r) => "("@ + expr_sql(*l) + " OR "@ + expr_sql(*r) + ")"@,
        Expr::Not(inner) => "("@ + "NOT "@ + expr_sql(*inner) + ")"@,
        Expr::Is { expr, test } => "("@ + expr_sql(*expr) + " IS "@ + is_test_sql(test) + ")"@,
        Expr::Between { expr, low, high, negated } => "("@ + expr_sql(*expr) + " "@ + negation_sql(
            negated,
        ) + "BETWEEN "@ + expr_sql(*low) + " AND "@ + expr_sql(*high) + ")"@,
        Expr::In { expr, list, negated } => "("@ + expr_sql(*expr) + " "@ + negation_sql(negated)
            + "IN ("@ + list_sql(list@) + "))"@,
        Expr::Paren(inner) => "("@ + expr_sql(*inner) + ")"@,
        Expr::Tuple(items) => "("@ + list_sql(items@) + ")"@,
        Expr::Function { name, args, distinct, over } => name@ + "("@ + (if distinct {
            "DISTINCT "@
        } else {
            Seq::empty()
        }) + list_sql(args@) + ")"@ + over_sql(over),
        Expr::Cast { expr, data_type } => drop_space_before_close(
            "("@ + expr_sql(*expr) + "::"@ + data_type_sql(data_type) + " )"@,
        ),
        Expr::Collate { expr, collation } => "("@ + expr_sql(*expr) + " COLLATE "@
            + text::quoted_with(collation@, '"') + ")"@,
        Expr::Case { operand, when_clauses, else_clause } => "CASE"@ + match operand {
            Some(o) => " "@ + expr_sql(*o),
            None => Seq::empty(),
        } + whens_sql(when_clauses@) + match else_clause {
            Some(x) => " ELSE "@ + expr_sql(*x),
            None => Seq::empty(),
        } + " END"@,
        Expr::ArrayConstructor(items) => "ARRAY["@ + list_sql(items@) + "]"@,
        Expr::Exists(q) => "EXISTS ("@ + q.sql@ + ")"@,
    }
}

fn write_negation(out: &mut Vec<char>, negated: bool)
    ensures
        final(out)@ == old(out)@ + negation_sql(negated),
{
    if negated {
        text::append_str(out, "NOT ");
    } else {
        assert(old(out)@ + negation_sql(negated) =~= old(out)@);
    }
}

pub fn write_expr_list(out: &mut Vec<char>, items: &Vec<Expr>)
    ensures
        final(out)@ == old(out)@ + list_sql(items@),
    decreases items@, 2int,
{
    let mut i: usize = 0;
    while i < items.len()
        invariant
            i <= items@.len(),
            out@ == old(out)@ + list_sql(items@.take(i as int)),
        decreases items.len() - i,
    {
        if i > 0 {
            text::append_str(out, ", ");
        }
        write_expr(out, &items[i]);
        i += 1;
        proof {
            let cur = items@.take(i as int);
            assert(cur.drop_last() =~= items@.take(i - 1));
            assert(cur.last() == items@[i - 1]);
            if i == 1 {
                assert(list_sql(items@.take(0)) =~= Seq::<char>::empty());
            }
            assert(out@ =~= old(out)@ + list_sql(cur));
        }
    }
    assert(items@.take(items@.len() as int) =~= items@);
}

fn write_whens(out: &mut Vec<char>, arms: &Vec<(Expr, Expr)>)
    ensures
        final(out)@ == old(out)@ + whens_sql(arms@),
    decreases arms@, 2int,
{
    let mut i: usize = 0;
    assert(whens_sql(arms@.take(0)) =~= Seq::<char>::empty());
    while i < arms.len()
        invariant
            i <= arms@.len(),
            out@ == old(out)@ + whens_sql(arms@.take(i as int)),
        decreases arms.len() - i,
    {
        text::append_str(out, " WHEN ");
        write_expr(out, &arms[i].0);
        text::append_str(out, " THEN ");
        write_expr(out, &arms[i].1);
        i += 1;
        proof {
            let cur = arms@.take(i as int);
            assert(cur.drop_last() =~= arms@.take(i - 1));
            assert(cur.last() == arms@[i - 1]);
            assert(out@ =~= old(out)@ + whens_sql(cur));
        }
    }
    assert(arms@.take(arms@.len() as int) =~= arms@);
}

fn write_over(out: &mut Vec<char>, over: &Option<WindowSpec>)
    ensures
        final(out)@ == old(out)@ + over_sql(*over),
    decreases *over, 2int,
{
    match over {
        None => {
            assert(old(out)@ + over_sql(*over) =~= old(out)@);
        },
        Some(w) => {
            text::append_str(out, " OVER (");
            let has_p = w.partition_by.len() > 0;
            let has_o = w.order_by.len() > 0;
            if has_p {
                text::append_str(out, "PARTITION BY ");
                write_expr_list(out, &w.partition_by);
            }
            if has_o {
                if has_p {
                    text::append_str(out, " ");
                }
                text::append_str(out, "ORDER BY ");
                write_expr_list(out, &w.order_by);
            }
            text::append_str(out, ")");
            assert(out@ =~= old(out)@ + over_sql(*over));
        },
    }
}

fn write_operator_expr(out: &mut Vec<char>, e: &Expr)
    requires
        e is BinaryOp || e is And || e is Or || e is Comparison || e is UnaryOp || e is Not
            || e is Is,
    ensures
        final(out)@ == old(out)@ + expr_sql(*e),
    decreases *e, 0int,
{
    let ghost start = out@;
    text::append_str(out, "(");
    match e {
        Expr::BinaryOp { left, op, right } => {
            write_expr(out, left);
            text::append_str(out, " ");
            text::append_str(out, render_binary_op(op));
            text::append_str(out, " ");
            write_expr(out, right);
            text::append_str(out, ")");
        },
        Expr::Comparison { left, op, right, quantifier } => {
            write_expr(out, left);
            text::append_str(out, " ");
            text::append_str(out, render_comparison_op(op));
            text::append_str(out, " ");
            match quantifier {
                Some(q) => {
                    text::append_str(out, render_set_quantifier(q));
                    text::append_str(out, " (");
                    write_expr(out, right);
                    text::append_str(out, "))");
                },
                None => {
                    write_expr(out, right);
                    text::append_str(out, ")");
                },
            }
        },
        Expr::And(l, r) => {
            write_expr(out, l);
            text::append_str(out, " AND ");
            write_expr(out, r);
            text::append_str(out, ")");
        },
        Expr::Or(l, r) => {
            write_expr(out, l);
            text::append_str(out, " OR ");
            write_expr(out, r);
            text::append_str(out, ")");
        },
        Expr::UnaryOp { op, expr } => {
            text::append_str(out, render_unary_op(op));
            text::append_str(out, " ");
            write_expr(out, expr);
            text::append_str(out, ")");
        },
        Expr::Not(inner) => {
            text::append_str(out, "NOT ");
            write_expr(out, inner);
            text::append_str(out, ")");
        },
        Expr::Is { expr, test } => {
            write_expr(out, expr);
            text::append_str(out, " IS ");
            text::append_str(out, render_is_test(test));
            text::append_str(out, ")");
        },
        _ => {},
    }
    assert(out@ =~= start + expr_sql(*e));
}

fn write_range_expr(out: &mut Vec<char>, e: &Expr)
    requires
        e is Between || e is In || e is Paren || e is Tuple || e is ArrayConstructor,
    ensures
        final(out)@ == old(out)@ + expr_sql(*e),
    decreases *e, 0int,
{
    let ghost start = out@;
    match e {
        Expr::Between { expr, low, high, negated } => {
            text::append_str(out, "(");
            write_expr(out, expr);
            text::append_str(out, " ");
            write_negation(out, *negated);
            text::append_str(out, "BETWEEN ");
            write_expr(out, low);
            text::append_str(out, " AND ");
            write_expr(out, high);
            text::append_str(out, ")");
        },
        Expr::In { expr, list, negated } => {
            text::append_str(out, "(");
            write_expr(out, expr);
            text::append_str(out, " ");
            write_negation(out, *negated);
            text::append_str(out, "IN (");
            write_expr_list(out, list);
            text::append_str(out, "))");
        },
        Expr::Paren(inner) => {
            text::append_str(out, "(");
            write_expr(out, inner);
            text::append_str(out, ")");
        },
        Expr::Tuple(items) => {
            text::append_str(out, "(");
            write_expr_list(out, items);
            text::append_str(out, ")");
        },
        Expr::ArrayConstructor(items) => {
            text::append_str(out, "ARRAY[");
            write_expr_list(out, items);
            text::append_str(out, "]");
        },
        _ => {},
    }
    assert(out@ =~= start + expr_sql(*e));
}

fn write_call_expr(out: &mut Vec<char>, e: &Expr)
    requires
        e is Function || e is Cast || e is Collate || e is Case,
    ensures
        final(out)@ == old(out)@ + expr_sql(*e),
    decreases *e, 0int,
{
    let ghost start = out@;
    match e {
        Expr::Function { name, args, distinct, over } => {
            text::append_str(out, name.as_str());
            text::append_str(out, "(");
            if *distinct {
                text::append_str(out, "DISTINCT ");
            }
            write_expr_list(out, args);
            text::append_str(out, ")");
            write_over(out, over);
        },
        Expr::Cast { expr, data_type } => {
            let mut inner: Vec<char> = Vec::new();
            text::append_str(&mut inner, "(");
            write_expr(&mut inner, expr);
            text::append_str(&mut inner, "::");
            write_data_type(&mut inner, data_type);
            text::append_str(&mut inner, " )");
            let cleaned = remove_space_before_close(inner.as_slice());
            text::append_chars(out, cleaned.as_slice());
        },
        Expr::Collate { expr, collation } => {
            text::append_str(out, "(");
            write_expr(out, expr);
            text::append_str(out, " COLLATE ");
            write_ident_text(out, collation.as_str());
            text::append_str(out, ")");
        },
        Expr::Case { operand, when_clauses, else_clause } => {
            text::append_str(out, "CASE");
            match operand {
                Some(o) => {
                    text::append_str(out, " ");
                    write_expr(out, o);
                },
                None => {},
            }
            write_whens(out, when_clauses);
            match else_clause {
                Some(x) => {
                    text::append_str(out, " ELSE ");
                    write_expr(out, x);
                },
                None => {},
            }
            text::append_str(out, " END");
        },
        _ => {},
    }
    assert(out@ =~= start + expr_sql(*e));
}

pub fn write_expr(out: &mut Vec<char>, e: &Expr)
    ensures
        final(out)@ == old(out)@ + expr_sql(*e),
    decreases *e, 1int,
{
    let ghost start = out@;
    match e {
        Expr::Literal(l) => write_literal(out, l),
        Expr::Ident(id) => write_ident(out, id),
        Expr::QualifiedIdent { qualifier, name } => {
            write_ident(out, qualifier);
            text::append_str(out, ".");
            write_ident(out, name);
        },
        Expr::Null => text::append_str(out, "NULL"),
        Expr::Raw(r) => text::append_str(out, r.as_str()),
        Expr::BinaryOp { .. } | Expr::And(..) | Expr::Or(..) | Expr::Comparison { .. }
        | Expr::UnaryOp { .. } | Expr::Not(..) | Expr::Is { .. } => write_operator_expr(out, e),
        Expr::Between { .. } | Expr::In { .. } | Expr::Paren(..) | Expr::Tuple(..)
        | Expr::ArrayConstructor(..) => write_range_expr(out, e),
        Expr::Function { .. } | Expr::Cast { .. } | Expr::Collate { .. } | Expr::Case {
            ..
        } => write_call_expr(out, e),
        Expr::Exists(q) => {
            text::append_str(out, "EXISTS (");
            text::append_str(out, q.sql.as_str());
            text::append_str(out, ")");
        },
    }
    assert(out@ =~= start + expr_sql(*e));
}

/// An expression as PostgreSQL text.
pub fn render_expr(e: &Expr) -> (r: String)
    ensures
        r@ == expr_sql(*e),
{
    let mut out: Vec<char> = Vec::new();
    write_expr(&mut out, e);
    assert(out@ =~= expr_sql(*e));
    text::string_of(out.as_slice())
}

} // verus!
