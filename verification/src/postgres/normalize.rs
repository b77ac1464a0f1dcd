use vstd::prelude::*;

use crate::ir::CheckConstraint;
use crate::schema;
use crate::schema::Ident;
use crate::ir::Column;
use crate::ir::DataType;
use crate::ir::Exclusion;
use crate::ir::ExclusionElement;
use crate::ir::GeneratedColumn;
use crate::ir::Partition;
use crate::ir::PartitionBound;
use crate::ir::PartitionElement;
use crate::ir::Table;
use crate::ir::Domain;
use crate::ir::Function;
use crate::ir::FunctionParam;
use crate::ir::IndexColumn;
use crate::ir::IndexDef;
use crate::ir::MaterializedView;
use crate::ir::Policy;
use crate::ir::SchemaObject;
use crate::ir::Trigger;
use crate::ir::Sequence;
use crate::ir::Expr;
use crate::ir::Identity;
use crate::ir::Value;
use crate::schema::QualifiedName;
use crate::ir::TypeDef;
use crate::ir::TypeKind;
use crate::normalize::normalize_expr;
use crate::normalize::normalize_list;
use crate::normalize::normalize_opt_expr;
use crate::normalize::normalized_from;
use crate::normalize::normalized_list;
use crate::normalize::opt_expr_normalized;
use crate::text;

verus! {

/// Where splitting a qualified type name stands: the finished segments, the current one,
/// and whether the scan is inside double quotes.
pub struct SegmentScan {
    pub segments: Seq<Seq<char>>,
    pub current: Seq<char>,
    pub quoted: bool,
}

pub open spec fn segment_scan(s: Seq<char>) -> SegmentScan
    decreases s.len(),
{
    if s.len() == 0 {
        SegmentScan { segments: Seq::empty(), current: Seq::empty(), quoted: false }
    } else {
        let st = segment_scan(s.drop_last());
        let c = s.last();
        if c == '"' {
            SegmentScan { current: st.current.push(c), quoted: !st.quoted, ..st }
        } else if c == '.' && !st.quoted {
            SegmentScan { segments: st.segments.push(st.current), current: Seq::empty(), ..st }
        } else {
            SegmentScan { current: st.current.push(c), ..st }
        }
    }
}

/// The `.`-separated segments of a name; a `.` inside double quotes does not separate.
pub open spec fn qualified_segments(s: Seq<char>) -> Seq<Seq<char>> {
    let st = segment_scan(s);
    st.segments.push(st.current)
}

pub fn split_qualified_segments(input: &[char]) -> (r: Vec<Vec<char>>)
    ensures
        text::char_views(r@) == qualified_segments(input@),
{
    let mut segments: Vec<Vec<char>> = Vec::new();
    let mut current: Vec<char> = Vec::new();
    let mut in_double_quote = false;
    let mut i: usize = 0;
    assert(input@.take(0) =~= Seq::<char>::empty());
    assert(text::char_views(segments@) =~= Seq::<Seq<char>>::empty());
    assert(current@ =~= Seq::<char>::empty());
    assert(segment_scan(input@.take(0)) == (SegmentScan {
        segments: text::char_views(segments@),
        current: current@,
        quoted: in_double_quote,
    }));
    while i < input.len()
        invariant
            i <= input@.len(),
            segment_scan(input@.take(i as int)) == (SegmentScan {
                segments: text::char_views(segments@),
                current: current@,
                quoted: in_double_quote,
            }),
        decreases input.len() - i,
    {
        let c = input[i];
        proof {
            assert(input@.take(i + 1).drop_last() =~= input@.take(i as int));
            assert(input@.take(i + 1).last() == c);
        }
        if c == '"' {
            in_double_quote = !in_double_quote;
            current.push(c);
        } else if c == '.' && !in_double_quote {
            proof {
                text::lemma_char_views_push(segments@, current);
            }
            segments.push(current);
            current = Vec::new();
        } else {
            current.push(c);
        }
        i += 1;
    }
    assert(input@.take(input@.len() as int) =~= input@);
    proof {
        text::lemma_char_views_push(segments@, current);
    }
    segments.push(current);
    segments
}

/// A name segment as compared: a double-quoted segment without its quotes, any other
/// with its words single-spaced; both in lower case.
pub open spec fn segment_normalized(segment: Seq<char>) -> Seq<char> {
    let t = text::trim(segment);
    if t.len() >= 2 && t[0] == '"' && t.last() == '"' {
        text::lower(t.subrange(1, t.len() - 1))
    } else {
        text::lower(text::collapse(t))
    }
}

pub fn normalize_segment(segment: &[char]) -> (r: Vec<char>)
    ensures
        r@ == segment_normalized(segment@),
{
    let t = text::trim_chars(segment);
    if t.len() >= 2 && t[0] == '"' && t[t.len() - 1] == '"' {
        let inner = text::slice_copy(t.as_slice(), 1, t.len() - 1);
        text::lower_chars(inner.as_slice())
    } else {
        let c = text::collapse_chars(t.as_slice());
        text::lower_chars(c.as_slice())
    }
}

/// Single spaces between the words of `input`.
pub fn collapse_spaces(input: &[char]) -> (r: Vec<char>)
    ensures
        r@ == text::collapse(input@),
{
    text::collapse_chars(input)
}

/// A custom type name as compared: each segment normalized, joined with `.`.
pub open spec fn canonical_custom_text(raw: Seq<char>) -> Seq<char> {
    let t = text::trim(raw);
    if t.len() == 0 {
        Seq::empty()
    } else {
        text::join(qualified_segments(t).map_values(|s: Seq<char>| segment_normalized(s)), "."@)
    }
}

pub fn canonical_custom(raw: &[char]) -> (r: Vec<char>)
    ensures
        r@ == canonical_custom_text(raw@),
{
    let t = text::trim_chars(raw);
    if t.len() == 0 {
        return Vec::new();
    }
    let segments = split_qualified_segments(t.as_slice());
    let ghost all = text::char_views(segments@).map_values(|s: Seq<char>| segment_normalized(s));
    let mut parts: Vec<Vec<char>> = Vec::new();
    let mut i: usize = 0;
    assert(text::char_views(parts@) =~= all.take(0));
    while i < segments.len()
        invariant
            i <= segments@.len(),
            all == text::char_views(segments@).map_values(|s: Seq<char>| segment_normalized(s)),
            text::char_views(parts@) == all.take(i as int),
        decreases segments.len() - i,
    {
        let p = normalize_segment(segments[i].as_slice());
        proof {
            text::lemma_char_views_push(parts@, p);
            assert(all.take(i + 1) =~= all.take(i as int).push(p@));
        }
        parts.push(p);
        i += 1;
    }
    assert(all.take(all.len() as int) =~= all);
    text::join_char_vecs(&parts, ".")
}

/// What follows the last `c` in `s` (all of `s` when there is none).
pub open spec fn after_last(s: Seq<char>, c: char) -> Seq<char>
    decreases s.len(),
{
    if s.len() == 0 {
        s
    } else if s.last() == c {
        Seq::empty()
    } else {
        after_last(s.drop_last(), c).push(s.last())
    }
}

pub fn after_last_chars(s: &[char], c: char) -> (r: Vec<char>)
    ensures
        r@ == after_last(s@, c),
{
    let mut i: usize = s.len();
    assert(s@.take(s@.len() as int) =~= s@);
    assert(s@.skip(s@.len() as int) =~= Seq::<char>::empty());
    assert(after_last(s@, c) =~= after_last(s@, c) + Seq::<char>::empty());
    while i > 0 && s[i - 1] != c
        invariant
            i <= s@.len(),
            after_last(s@, c) == after_last(s@.take(i as int), c) + s@.skip(i as int),
        decreases i,
    {
        proof {
            let t = s@.take(i as int);
            assert(t.drop_last() =~= s@.take(i - 1));
            assert(s@.skip(i - 1) =~= seq![t.last()] + s@.skip(i as int));
            assert(after_last(t, c) == after_last(t.drop_last(), c).push(t.last()));
            assert(after_last(s@.take(i - 1), c).push(t.last()) + s@.skip(i as int) =~= after_last(
                s@.take(i - 1),
                c,
            ) + s@.skip(i - 1));
        }
        i -= 1;
    }
    proof {
        let t = s@.take(i as int);
        if i > 0 {
            assert(after_last(t, c) =~= Seq::<char>::empty());
        } else {
            assert(t =~= Seq::<char>::empty());
        }
        assert(after_last(t, c) + s@.skip(i as int) =~= s@.skip(i as int));
    }
    text::slice_copy(s, i, s.len())
}

/// The built-in type a PostgreSQL type name or alias stands for.
pub open spec fn alias_type(base: Seq<char>) -> Option<DataType> {
    if base == "bool"@ || base == "boolean"@ {
        Some(DataType::Boolean)
    } else if base == "int2"@ || base == "smallint"@ {
        Some(DataType::SmallInt)
    } else if base == "int"@ || base == "int4"@ || base == "integer"@ {
        Some(DataType::Integer)
    } else if base == "int8"@ || base == "bigint"@ {
        Some(DataType::BigInt)
    } else if base == "float4"@ || base == "real"@ {
        Some(DataType::Real)
    } else if base == "float8"@ || base == "double"@ || base == "double precision"@ {
        Some(DataType::DoublePrecision)
    } else if base == "numeric"@ || base == "decimal"@ {
        Some(DataType::Numeric { precision: None, scale: None })
    } else if base == "text"@ {
        Some(DataType::Text)
    } else if base == "varchar"@ || base == "character varying"@ {
        Some(DataType::Varchar { length: None })
    } else if base == "bpchar"@ || base == "char"@ || base == "character"@ {
        Some(DataType::Char { length: None })
    } else if base == "bytea"@ {
        Some(DataType::Blob)
    } else if base == "date"@ {
        Some(DataType::Date)
    } else if base == "time"@ || base == "time without time zone"@ {
        Some(DataType::Time { with_timezone: false })
    } else if base == "timetz"@ || base == "time with time zone"@ {
        Some(DataType::Time { with_timezone: true })
    } else if base == "timestamp"@ || base == "timestamp without time zone"@ {
        Some(DataType::Timestamp { with_timezone: false })
    } else if base == "timestamptz"@ || base == "timestamp with time zone"@ {
        Some(DataType::Timestamp { with_timezone: true })
    } else if base == "json"@ {
        Some(DataType::Json)
    } else if base == "jsonb"@ {
        Some(DataType::Jsonb)
    } else if base == "uuid"@ {
        Some(DataType::Uuid)
    } else {
        None
    }
}

/// Each integer and floating-point alias names the built-in type of its width: `int2`
/// and `smallint` the 2-byte integer, `int`, `int4` and `integer` the 4-byte one, `int8`
/// and `bigint` the 8-byte one, `float4` and `real` the 4-byte float, `float8`, `double`
/// and `double precision` the 8-byte float; no other name stands for these types, so
/// types of different widths are never identified.
pub proof fn law_numeric_aliases(base: Seq<char>)
    ensures
        alias_type(base) == Some(DataType::SmallInt) <==> (base == "int2"@ || base == "smallint"@),
        alias_type(base) == Some(DataType::Integer) <==> (base == "int"@ || base == "int4"@ || base
            == "integer"@),
        alias_type(base) == Some(DataType::BigInt) <==> (base == "int8"@ || base == "bigint"@),
        alias_type(base) == Some(DataType::Real) <==> (base == "float4"@ || base == "real"@),
        alias_type(base) == Some(DataType::DoublePrecision) <==> (base == "float8"@ || base
            == "double"@ || base == "double precision"@),
{
    if base == "int2"@ {
        reveal_strlit("int2");
        reveal_strlit("bool");
        assert("int2"@[0] != "bool"@[0]);
        assert(base != "bool"@);
        reveal_strlit("boolean");
        assert("int2"@.len() == 4 && "boolean"@.len() == 7);
        assert(base != "boolean"@);
        assert(alias_type(base) == Some(DataType::SmallInt));
    }
    if base == "smallint"@ {
        reveal_strlit("smallint");
        reveal_strlit("bool");
        assert("smallint"@.len() == 8 && "bool"@.len() == 4);
        assert(base != "bool"@);
        reveal_strlit("boolean");
        assert("smallint"@.len() == 8 && "boolean"@.len() == 7);
        assert(base != "boolean"@);
        reveal_strlit("int2");
        assert("smallint"@.len() == 8 && "int2"@.len() == 4);
        assert(base != "int2"@);
        assert(alias_type(base) == Some(DataType::SmallInt));
    }
    if base == "int"@ {
        reveal_strlit("int");
        reveal_strlit("bool");
        assert("int"@.len() == 3 && "bool"@.len() == 4);
        assert(base != "bool"@);
        reveal_strlit("boolean");
        assert("int"@.len() == 3 && "boolean"@.len() == 7);
        assert(base != "boolean"@);
        reveal_strlit("int2");
        assert("int"@.len() == 3 && "int2"@.len() == 4);
        assert(base != "int2"@);
        reveal_strlit("smallint");
        assert("int"@.len() == 3 && "smallint"@.len() == 8);
        assert(base != "smallint"@);
        assert(alias_type(base) == Some(DataType::Integer));
    }
    if base == "int4"@ {
        reveal_strlit("int4");
        reveal_strlit("bool");
        assert("int4"@[0] != "bool"@[0]);
        assert(base != "bool"@);
        reveal_strlit("boolean");
        assert("int4"@.len() == 4 && "boolean"@.len() == 7);
        assert(base != "boolean"@);
        reveal_strlit("int2");
        assert("int4"@[3] != "int2"@[3]);
        assert(base != "int2"@);
        reveal_strlit("smallint");
        assert("int4"@.len() == 4 && "smallint"@.len() == 8);
        assert(base != "smallint"@);
        reveal_strlit("int");
        assert("int4"@.len() == 4 && "int"@.len() == 3);
        assert(base != "int"@);
        assert(alias_type(base) == Some(DataType::Integer));
    }
    if base == "integer"@ {
        reveal_strlit("integer");
        reveal_strlit("bool");
        assert("integer"@.len() == 7 && "bool"@.len() == 4);
        assert(base != "bool"@);
        reveal_strlit("boolean");
        assert("integer"@[0] != "boolean"@[0]);
        assert(base != "boolean"@);
        reveal_strlit("int2");
        assert("integer"@.len() == 7 && "int2"@.len() == 4);
        assert(base != "int2"@);
        reveal_strlit("smallint");
        assert("integer"@.len() == 7 && "smallint"@.len() == 8);
        assert(base != "smallint"@);
        reveal_strlit("int");
        assert("integer"@.len() == 7 && "int"@.len() == 3);
        assert(base != "int"@);
        reveal_strlit("int4");
        assert("integer"@.len() == 7 && "int4"@.len() == 4);
        assert(base != "int4"@);
        assert(alias_type(base) == Some(DataType::Integer));
    }
    if base == "int8"@ {
        reveal_strlit("int8");
        reveal_strlit("bool");
        assert("int8"@[0] != "bool"@[0]);
        assert(base != "bool"@);
        reveal_strlit("boolean");
        assert("int8"@.len() == 4 && "boolean"@.len() == 7);
        assert(base != "boolean"@);
        reveal_strlit("int2");
        assert("int8"@[3] != "int2"@[3]);
        assert(base != "int2"@);
        reveal_strlit("smallint");
        assert("int8"@.len() == 4 && "smallint"@.len() == 8);
        assert(base != "smallint"@);
        reveal_strlit("int");
        assert("int8"@.len() == 4 && "int"@.len() == 3);
        assert(base != "int"@);
        reveal_strlit("int4");
        assert("int8"@[3] != "int4"@[3]);
        assert(base != "int4"@);
        reveal_strlit("integer");
        assert("int8"@.len() == 4 && "integer"@.len() == 7);
        assert(base != "integer"@);
        assert(alias_type(base) == Some(DataType::BigInt));
    }
    if base == "bigint"@ {
        reveal_strlit("bigint");
        reveal_strlit("bool");
        assert("bigint"@.len() == 6 && "bool"@.len() == 4);
        assert(base != "bool"@);
        reveal_strlit("boolean");
        assert("bigint"@.len() == 6 && "boolean"@.len() == 7);
        assert(base != "boolean"@);
        reveal_strlit("int2");
        assert("bigint"@.len() == 6 && "int2"@.len() == 4);
        assert(base != "int2"@);
        reveal_strlit("smallint");
        assert("bigint"@.len() == 6 && "smallint"@.len() == 8);
        assert(base != "smallint"@);
        reveal_strlit("int");
        assert("bigint"@.len() == 6 && "int"@.len() == 3);
        assert(base != "int"@);
        reveal_strlit("int4");
        assert("bigint"@.len() == 6 && "int4"@.len() == 4);
        assert(base != "int4"@);
        reveal_strlit("integer");
        assert("bigint"@.len() == 6 && "integer"@.len() == 7);
        assert(base != "integer"@);
        reveal_strlit("int8");
        assert("bigint"@.len() == 6 && "int8"@.len() == 4);
        assert(base != "int8"@);
        assert(alias_type(base) == Some(DataType::BigInt));
    }
    if base == "float4"@ {
        reveal_strlit("float4");
        reveal_strlit("bool");
        assert("float4"@.len() == 6 && "bool"@.len() == 4);
        assert(base != "bool"@);
        reveal_strlit("boolean");
        assert("float4"@.len() == 6 && "boolean"@.len() == 7);
        assert(base != "boolean"@);
        reveal_strlit("int2");
        assert("float4"@.len() == 6 && "int2"@.len() == 4);
        assert(base != "int2"@);
        reveal_strlit("smallint");
        assert("float4"@.len() == 6 && "smallint"@.len() == 8);
        assert(base != "smallint"@);
        reveal_strlit("int");
        assert("float4"@.len() == 6 && "int"@.len() == 3);
        assert(base != "int"@);
        reveal_strlit("int4");
        assert("float4"@.len() == 6 && "int4"@.len() == 4);
        assert(base != "int4"@);
        reveal_strlit("integer");
        assert("float4"@.len() == 6 && "integer"@.len() == 7);
        assert(base != "integer"@);
        reveal_strlit("int8");
        assert("float4"@.len() == 6 && "int8"@.len() == 4);
        assert(base != "int8"@);
        reveal_strlit("bigint");
        assert("float4"@[0] != "bigint"@[0]);
        assert(base != "bigint"@);
        assert(alias_type(base) == Some(DataType::Real));
    }
    if base == "real"@ {
        reveal_strlit("real");
        reveal_strlit("bool");
        assert("real"@[0] != "bool"@[0]);
        assert(base != "bool"@);
        reveal_strlit("boolean");
        assert("real"@.len() == 4 && "boolean"@.len() == 7);
        assert(base != "boolean"@);
        reveal_strlit("int2");
        assert("real"@[0] != "int2"@[0]);
        assert(base != "int2"@);
        reveal_strlit("smallint");
        assert("real"@.len() == 4 && "smallint"@.len() == 8);
        assert(base != "smallint"@);
        reveal_strlit("int");
        assert("real"@.len() == 4 && "int"@.len() == 3);
        assert(base != "int"@);
        reveal_strlit("int4");
        assert("real"@[0] != "int4"@[0]);
        assert(base != "int4"@);
        reveal_strlit("integer");
        assert("real"@.len() == 4 && "integer"@.len() == 7);
        assert(base != "integer"@);
        reveal_strlit("int8");
        assert("real"@[0] != "int8"@[0]);
        assert(base != "int8"@);
        reveal_strlit("bigint");
        assert("real"@.len() == 4 && "bigint"@.len() == 6);
        assert(base != "bigint"@);
        reveal_strlit("float4");
        assert("real"@.len() == 4 && "float4"@.len() == 6);
        assert(base != "float4"@);
        assert(alias_type(base) == Some(DataType::Real));
    }
    if base == "float8"@ {
        reveal_strlit("float8");
        reveal_strlit("bool");
        assert("float8"@.len() == 6 && "bool"@.len() == 4);
        assert(base != "bool"@);
        reveal_strlit("boolean");
        assert("float8"@.len() == 6 && "boolean"@.len() == 7);
        assert(base != "boolean"@);
        reveal_strlit("int2");
        assert("float8"@.len() == 6 && "int2"@.len() == 4);
        assert(base != "int2"@);
        reveal_strlit("smallint");
        assert("float8"@.len() == 6 && "smallint"@.len() == 8);
        assert(base != "smallint"@);
        reveal_strlit("int");
        assert("float8"@.len() == 6 && "int"@.len() == 3);
        assert(base != "int"@);
        reveal_strlit("int4");
        assert("float8"@.len() == 6 && "int4"@.len() == 4);
        assert(base != "int4"@);
        reveal_strlit("integer");
        assert("float8"@.len() == 6 && "integer"@.len() == 7);
        assert(base != "integer"@);
        reveal_strlit("int8");
        assert("float8"@.len() == 6 && "int8"@.len() == 4);
        assert(base != "int8"@);
        reveal_strlit("bigint");
        assert("float8"@[0] != "bigint"@[0]);
        assert(base != "bigint"@);
        reveal_strlit("float4");
        assert("float8"@[5] != "float4"@[5]);
        assert(base != "float4"@);
        reveal_strlit("real");
        assert("float8"@.len() == 6 && "real"@.len() == 4);
        assert(base != "real"@);
        assert(alias_type(base) == Some(DataType::DoublePrecision));
    }
    if base == "double"@ {
        reveal_strlit("double");
        reveal_strlit("bool");
        assert("double"@.len() == 6 && "bool"@.len() == 4);
        assert(base != "bool"@);
        reveal_strlit("boolean");
        assert("double"@.len() == 6 && "boolean"@.len() == 7);
        assert(base != "boolean"@);
        reveal_strlit("int2");
        assert("double"@.len() == 6 && "int2"@.len() == 4);
        assert(base != "int2"@);
        reveal_strlit("smallint");
        assert("double"@.len() == 6 && "smallint"@.len() == 8);
        assert(base != "smallint"@);
        reveal_strlit("int");
        assert("double"@.len() == 6 && "int"@.len() == 3);
        assert(base != "int"@);
        reveal_strlit("int4");
        assert("double"@.len() == 6 && "int4"@.len() == 4);
        assert(base != "int4"@);
        reveal_strlit("integer");
        assert("double"@.len() == 6 && "integer"@.len() == 7);
        assert(base != "integer"@);
        reveal_strlit("int8");
        assert("double"@.len() == 6 && "int8"@.len() == 4);
        assert(base != "int8"@);
        reveal_strlit("bigint");
        assert("double"@[0] != "bigint"@[0]);
        assert(base != "bigint"@);
        reveal_strlit("float4");
        assert("double"@[0] != "float4"@[0]);
        assert(base != "float4"@);
        reveal_strlit("real");
        assert("double"@.len() == 6 && "real"@.len() == 4);
        assert(base != "real"@);
        reveal_strlit("float8");
        assert("double"@[0] != "float8"@[0]);
        assert(base != "float8"@);
        assert(alias_type(base) == Some(DataType::DoublePrecision));
    }
    if base == "double precision"@ {
        reveal_strlit("double precision");
        reveal_strlit("bool");
        assert("double precision"@.len() == 16 && "bool"@.len() == 4);
        assert(base != "bool"@);
        reveal_strlit("boolean");
        assert("double precision"@.len() == 16 && "boolean"@.len() == 7);
        assert(base != "boolean"@);
        reveal_strlit("int2");
        assert("double precision"@.len() == 16 && "int2"@.len() == 4);
        assert(base != "int2"@);
        reveal_strlit("smallint");
        assert("double precision"@.len() == 16 && "smallint"@.len() == 8);
        assert(base != "smallint"@);
        reveal_strlit("int");
        assert("double precision"@.len() == 16 && "int"@.len() == 3);
        assert(base != "int"@);
        reveal_strlit("int4");
        assert("double precision"@.len() == 16 && "int4"@.len() == 4);
        assert(base != "int4"@);
        reveal_strlit("integer");
        assert("double precision"@.len() == 16 && "integer"@.len() == 7);
        assert(base != "integer"@);
        reveal_strlit("int8");
        assert("double precision"@.len() == 16 && "int8"@.len() == 4);
        assert(base != "int8"@);
        reveal_strlit("bigint");
        assert("double precision"@.len() == 16 && "bigint"@.len() == 6);
        assert(base != "bigint"@);
        reveal_strlit("float4");
        assert("double precision"@.len() == 16 && "float4"@.len() == 6);
        assert(base != "float4"@);
        reveal_strlit("real");
        assert("double precision"@.len() == 16 && "real"@.len() == 4);
        assert(base != "real"@);
        reveal_strlit("float8");
        assert("double precision"@.len() == 16 && "float8"@.len() == 6);
        assert(base != "float8"@);
        reveal_strlit("double");
        assert("double precision"@.len() == 16 && "double"@.len() == 6);
        assert(base != "double"@);
        assert(alias_type(base) == Some(DataType::DoublePrecision));
    }
}

pub fn alias_to_data_type(base: &[char]) -> (r: Option<DataType>)
    ensures
        r == alias_type(base@),
{
    if text::eq_str(base, "bool") || text::eq_str(base, "boolean") {
        Some(DataType::Boolean)
    } else if text::eq_str(base, "int2") || text::eq_str(base, "smallint") {
        Some(DataType::SmallInt)
    } else if text::eq_str(base, "int") || text::eq_str(base, "int4") || text::eq_str(base, "integer") {
        Some(DataType::Integer)
    } else if text::eq_str(base, "int8") || text::eq_str(base, "bigint") {
        Some(DataType::BigInt)
    } else if text::eq_str(base, "float4") || text::eq_str(base, "real") {
        Some(DataType::Real)
    } else if text::eq_str(base, "float8") || text::eq_str(base, "double") || text::eq_str(
        base,
        "double precision",
    ) {
        Some(DataType::DoublePrecision)
    } else if text::eq_str(base, "numeric") || text::eq_str(base, "decimal") {
        Some(DataType::Numeric { precision: None, scale: None })
    } else if text::eq_str(base, "text") {
        Some(DataType::Text)
    } else if text::eq_str(base, "varchar") || text::eq_str(base, "character varying") {
        Some(DataType::Varchar { length: None })
    } else if text::eq_str(base, "bpchar") || text::eq_str(base, "char") || text::eq_str(
        base,
        "character",
    ) {
        Some(DataType::Char { length: None })
    } else if text::eq_str(base, "bytea") {
        Some(DataType::Blob)
    } else if text::eq_str(base, "date") {
        Some(DataType::Date)
    } else if text::eq_str(base, "time") || text::eq_str(base, "time without time zone") {
        Some(DataType::Time { with_timezone: false })
    } else if text::eq_str(base, "timetz") || text::eq_str(base, "time with time zone") {
        Some(DataType::Time { with_timezone: true })
    } else if text::eq_str(base, "timestamp") || text::eq_str(base, "timestamp without time zone") {
        Some(DataType::Timestamp { with_timezone: false })
    } else if text::eq_str(base, "timestamptz") || text::eq_str(base, "timestamp with time zone") {
        Some(DataType::Timestamp { with_timezone: true })
    } else if text::eq_str(base, "json") {
        Some(DataType::Json)
    } else if text::eq_str(base, "jsonb") {
        Some(DataType::Jsonb)
    } else if text::eq_str(base, "uuid") {
        Some(DataType::Uuid)
    } else {
        None
    }
}

/// `r` is the type a custom type name stands for: a built-in type when its last segment
/// names one, else the custom type in canonical form.
pub open spec fn custom_type_normalized(r: DataType, raw: Seq<char>) -> bool {
    let canonical = canonical_custom_text(raw);
    match alias_type(text::trim(after_last(canonical, '.'))) {
        Some(d) => r == d,
        None => r matches DataType::Custom(s) && s@ == canonical,
    }
}

pub fn normalize_custom_data_type(raw: &str) -> (r: DataType)
    ensures
        custom_type_normalized(r, raw@),
{
    let v = text::chars_of(raw);
    let canonical = canonical_custom(v.as_slice());
    let last = after_last_chars(canonical.as_slice(), '.');
    let base = text::trim_chars(last.as_slice());
    match alias_to_data_type(base.as_slice()) {
        Some(d) => d,
        None => DataType::Custom(text::string_of(canonical.as_slice())),
    }
}

/// `r` is `d` with every custom type name, also inside arrays, resolved.
pub open spec fn type_normalized(r: DataType, d: DataType) -> bool
    decreases d,
{
    match d {
        DataType::Array(inner) => r matches DataType::Array(i2) && type_normalized(*i2, *inner),
        DataType::Custom(c) => custom_type_normalized(r, c@),
        _ => r == d,
    }
}

/// Resolves custom type names, also inside arrays, to the types they stand for.
pub fn normalize_data_type(data_type: &mut DataType)
    ensures
        type_normalized(*final(data_type), *old(data_type)),
    decreases *old(data_type),
{
    let replacement = match data_type {
        DataType::Array(inner) => {
            normalize_data_type(inner);
            None
        },
        DataType::Custom(custom) => Some(normalize_custom_data_type(custom.as_str())),
        _ => None,
    };
    match replacement {
        Some(r) => {
            *data_type = r;
        },
        None => {},
    }
}


pub open spec fn generated_normalized(r: Option<GeneratedColumn>, g: Option<GeneratedColumn>) -> bool {
    match g {
        None => r is None,
        Some(x) => r matches Some(y) && y.stored == x.stored && normalized_from(y.expr, x.expr),
    }
}

/// The column with its default and generation expressions normalized, nothing else
/// changed.
pub open spec fn column_exprs_normalized(r: Column, c: Column) -> bool {
    &&& r == (Column { default: r.default, generated: r.generated, ..c })
    &&& opt_expr_normalized(r.default, c.default)
    &&& generated_normalized(r.generated, c.generated)
}

pub fn normalize_column_exprs(c: &mut Column)
    ensures
        column_exprs_normalized(*final(c), *old(c)),
{
    normalize_opt_expr(&mut c.default);
    match &mut c.generated {
        Some(g) => normalize_expr(&mut g.expr),
        None => {},
    }
}

pub open spec fn columns_exprs_normalized(r: Seq<Column>, c: Seq<Column>) -> bool {
    r.len() == c.len() && forall|i: int|
        0 <= i < c.len() ==> column_exprs_normalized(#[trigger] r[i], c[i])
}

fn normalize_columns_exprs(columns: &mut Vec<Column>)
    ensures
        columns_exprs_normalized(final(columns)@, old(columns)@),
{
    let mut i: usize = 0;
    while i < columns.len()
        invariant
            i <= columns@.len(),
            columns@.len() == old(columns)@.len(),
            forall|j: int|
                0 <= j < i ==> column_exprs_normalized(#[trigger] columns@[j], old(columns)@[j]),
            forall|j: int| i <= j < columns@.len() ==> #[trigger] columns@[j] == old(columns)@[j],
        decreases columns.len() - i,
    {
        normalize_column_exprs(&mut columns[i]);
        i += 1;
    }
}

pub open spec fn check_exprs_normalized(r: Seq<CheckConstraint>, c: Seq<CheckConstraint>) -> bool {
    r.len() == c.len() && forall|i: int|
        0 <= i < c.len() ==> #[trigger] r[i] == (CheckConstraint { expr: r[i].expr, ..c[i] })
            && normalized_from(r[i].expr, c[i].expr)
}

fn normalize_check_exprs(checks: &mut Vec<CheckConstraint>)
    ensures
        check_exprs_normalized(final(checks)@, old(checks)@),
{
    let mut i: usize = 0;
    while i < checks.len()
        invariant
            i <= checks@.len(),
            checks@.len() == old(checks)@.len(),
            forall|j: int|
                0 <= j < i ==> #[trigger] checks@[j] == (CheckConstraint {
                    expr: checks@[j].expr,
                    ..old(checks)@[j]
                }) && normalized_from(checks@[j].expr, old(checks)@[j].expr),
            forall|j: int| i <= j < checks@.len() ==> #[trigger] checks@[j] == old(checks)@[j],
        decreases checks.len() - i,
    {
        normalize_expr(&mut checks[i].expr);
        i += 1;
    }
}

/// The exclusion with each element's expression and its predicate normalized.
pub open spec fn exclusion_exprs_normalized(r: Exclusion, x: Exclusion) -> bool {
    &&& r == (Exclusion { elements: r.elements, where_clause: r.where_clause, ..x })
    &&& r.elements@.len() == x.elements@.len()
    &&& forall|i: int|
        0 <= i < x.elements@.len() ==> #[trigger] r.elements@[i] == (ExclusionElement {
            expr: r.elements@[i].expr,
            ..x.elements@[i]
        }) && normalized_from(r.elements@[i].expr, x.elements@[i].expr)
    &&& opt_expr_normalized(r.where_clause, x.where_clause)
}

fn normalize_exclusion_exprs(x: &mut Exclusion)
    ensures
        exclusion_exprs_normalized(*final(x), *old(x)),
{
    let mut i: usize = 0;
    while i < x.elements.len()
        invariant
            i <= x.elements@.len(),
            x.elements@.len() == old(x).elements@.len(),
            *x == (Exclusion { elements: x.elements, ..*old(x) }),
            forall|j: int|
                0 <= j < i ==> #[trigger] x.elements@[j] == (ExclusionElement {
                    expr: x.elements@[j].expr,
                    ..old(x).elements@[j]
                }) && normalized_from(x.elements@[j].expr, old(x).elements@[j].expr),
            forall|j: int|
                i <= j < x.elements@.len() ==> #[trigger] x.elements@[j] == old(x).elements@[j],
        decreases x.elements.len() - i,
    {
        normalize_expr(&mut x.elements[i].expr);
        i += 1;
    }
    normalize_opt_expr(&mut x.where_clause);
}

pub open spec fn exclusions_exprs_normalized(r: Seq<Exclusion>, x: Seq<Exclusion>) -> bool {
    r.len() == x.len() && forall|i: int|
        0 <= i < x.len() ==> exclusion_exprs_normalized(#[trigger] r[i], x[i])
}

fn normalize_exclusions_exprs(items: &mut Vec<Exclusion>)
    ensures
        exclusions_exprs_normalized(final(items)@, old(items)@),
{
    let mut i: usize = 0;
    while i < items.len()
        invariant
            i <= items@.len(),
            items@.len() == old(items)@.len(),
            forall|j: int|
                0 <= j < i ==> exclusion_exprs_normalized(#[trigger] items@[j], old(items)@[j]),
            forall|j: int| i <= j < items@.len() ==> #[trigger] items@[j] == old(items)@[j],
        decreases items.len() - i,
    {
        normalize_exclusion_exprs(&mut items[i]);
        i += 1;
    }
}

pub open spec fn bound_normalized(r: Option<PartitionBound>, b: Option<PartitionBound>) -> bool {
    match b {
        None => r is None,
        Some(PartitionBound::LessThan(v)) => r matches Some(PartitionBound::LessThan(v2))
            && normalized_list(v2@, v@),
        Some(PartitionBound::In(v)) => r matches Some(PartitionBound::In(v2)) && normalized_list(
            v2@,
            v@,
        ),
        Some(PartitionBound::FromTo { from, to }) => r matches Some(
            PartitionBound::FromTo { from: f2, to: t2 },
        ) && normalized_list(f2@, from@) && normalized_list(t2@, to@),
        Some(PartitionBound::MaxValue) => r == b,
    }
}

fn normalize_bound(b: &mut Option<PartitionBound>)
    ensures
        bound_normalized(*final(b), *old(b)),
{
    match b {
        Some(PartitionBound::LessThan(v)) => normalize_list(v),
        Some(PartitionBound::In(v)) => normalize_list(v),
        Some(PartitionBound::FromTo { from, to }) => {
            normalize_list(from);
            normalize_list(to);
        },
        _ => {},
    }
}

/// The partitioning with the expressions of every bound normalized.
pub open spec fn partition_bounds_normalized(r: Partition, p: Partition) -> bool {
    &&& r == (Partition { partitions: r.partitions, ..p })
    &&& r.partitions@.len() == p.partitions@.len()
    &&& forall|i: int|
        0 <= i < p.partitions@.len() ==> #[trigger] r.partitions@[i] == (PartitionElement {
            bound: r.partitions@[i].bound,
            ..p.partitions@[i]
        }) && bound_normalized(r.partitions@[i].bound, p.partitions@[i].bound)
}

pub fn normalize_partition_bounds(p: &mut Partition)
    ensures
        partition_bounds_normalized(*final(p), *old(p)),
{
    let mut i: usize = 0;
    while i < p.partitions.len()
        invariant
            i <= p.partitions@.len(),
            p.partitions@.len() == old(p).partitions@.len(),
            *p == (Partition { partitions: p.partitions, ..*old(p) }),
            forall|j: int|
                0 <= j < i ==> #[trigger] p.partitions@[j] == (PartitionElement {
                    bound: p.partitions@[j].bound,
                    ..old(p).partitions@[j]
                }) && bound_normalized(p.partitions@[j].bound, old(p).partitions@[j].bound),
            forall|j: int|
                i <= j < p.partitions@.len() ==> #[trigger] p.partitions@[j] == old(p).partitions@[j],
        decreases p.partitions.len() - i,
    {
        normalize_bound(&mut p.partitions[i].bound);
        i += 1;
    }
}

/// The table with the expressions of its columns, checks, exclusions and partition bounds
/// normalized, nothing else changed.
pub open spec fn table_exprs_normalized(r: Table, t: Table) -> bool {
    &&& r == (Table {
        columns: r.columns,
        checks: r.checks,
        exclusions: r.exclusions,
        partition: r.partition,
        ..t
    })
    &&& columns_exprs_normalized(r.columns@, t.columns@)
    &&& check_exprs_normalized(r.checks@, t.checks@)
    &&& exclusions_exprs_normalized(r.exclusions@, t.exclusions@)
    &&& match t.partition {
        None => r.partition is None,
        Some(p) => r.partition matches Some(p2) && partition_bounds_normalized(p2, p),
    }
}

fn normalize_table_exprs(t: &mut Table)
    ensures
        table_exprs_normalized(*final(t), *old(t)),
{
    normalize_columns_exprs(&mut t.columns);
    normalize_check_exprs(&mut t.checks);
    normalize_exclusions_exprs(&mut t.exclusions);
    match &mut t.partition {
        Some(p) => normalize_partition_bounds(p),
        None => {},
    }
}


/// The index with its key expressions and predicate normalized.
pub open spec fn index_exprs_normalized(r: IndexDef, i: IndexDef) -> bool {
    &&& r == (IndexDef { columns: r.columns, where_clause: r.where_clause, ..i })
    &&& r.columns@.len() == i.columns@.len()
    &&& forall|k: int|
        0 <= k < i.columns@.len() ==> normalized_from(
            #[trigger] r.columns@[k].expr,
            i.columns@[k].expr,
        )
    &&& opt_expr_normalized(r.where_clause, i.where_clause)
}

pub fn normalize_index_exprs(index: &mut IndexDef)
    ensures
        index_exprs_normalized(*final(index), *old(index)),
{
    let mut k: usize = 0;
    while k < index.columns.len()
        invariant
            k <= index.columns@.len(),
            index.columns@.len() == old(index).columns@.len(),
            *index == (IndexDef { columns: index.columns, ..*old(index) }),
            forall|j: int|
                0 <= j < k ==> normalized_from(
                    #[trigger] index.columns@[j].expr,
                    old(index).columns@[j].expr,
                ),
            forall|j: int|
                k <= j < index.columns@.len() ==> #[trigger] index.columns@[j] == old(
                    index,
                ).columns@[j],
        decreases index.columns.len() - k,
    {
        normalize_expr(&mut index.columns[k].expr);
        k += 1;
    }
    normalize_opt_expr(&mut index.where_clause);
}

pub open spec fn params_exprs_normalized(r: Seq<FunctionParam>, p: Seq<FunctionParam>) -> bool {
    r.len() == p.len() && forall|i: int|
        0 <= i < p.len() ==> #[trigger] r[i] == (FunctionParam { default: r[i].default, ..p[i] })
            && opt_expr_normalized(r[i].default, p[i].default)
}

fn normalize_params_exprs(params: &mut Vec<FunctionParam>)
    ensures
        params_exprs_normalized(final(params)@, old(params)@),
{
    let mut i: usize = 0;
    while i < params.len()
        invariant
            i <= params@.len(),
            params@.len() == old(params)@.len(),
            forall|j: int|
                0 <= j < i ==> #[trigger] params@[j] == (FunctionParam {
                    default: params@[j].default,
                    ..old(params)@[j]
                }) && opt_expr_normalized(params@[j].default, old(params)@[j].default),
            forall|j: int| i <= j < params@.len() ==> #[trigger] params@[j] == old(params)@[j],
        decreases params.len() - i,
    {
        normalize_opt_expr(&mut params[i].default);
        i += 1;
    }
}

/// `r` is the object with the expressions it holds normalized: raw expression and subquery
/// texts trimmed, at any depth. Views, sequences, types, extensions, schemas, comments and
/// privileges hold none.
pub open spec fn object_exprs_normalized(r: SchemaObject, o: SchemaObject) -> bool {
    match o {
        SchemaObject::Table(t) => r matches SchemaObject::Table(t2) && table_exprs_normalized(t2, t),
        SchemaObject::MaterializedView(v) => r matches SchemaObject::MaterializedView(v2)
            && v2 == (MaterializedView { columns: v2.columns, ..v }) && columns_exprs_normalized(
            v2.columns@,
            v.columns@,
        ),
        SchemaObject::Index(i) => r matches SchemaObject::Index(i2) && index_exprs_normalized(i2, i),
        SchemaObject::Trigger(t) => r matches SchemaObject::Trigger(t2) && t2 == (Trigger {
            when_clause: t2.when_clause,
            ..t
        }) && opt_expr_normalized(t2.when_clause, t.when_clause),
        SchemaObject::Function(f) => r matches SchemaObject::Function(f2) && f2 == (Function {
            params: f2.params,
            ..f
        }) && params_exprs_normalized(f2.params@, f.params@),
        SchemaObject::Domain(d) => r matches SchemaObject::Domain(d2) && d2 == (Domain {
            default: d2.default,
            checks: d2.checks,
            ..d
        }) && opt_expr_normalized(d2.default, d.default) && check_exprs_normalized(
            d2.checks@,
            d.checks@,
        ),
        SchemaObject::Policy(p) => r matches SchemaObject::Policy(p2) && p2 == (Policy {
            using_expr: p2.using_expr,
            check_expr: p2.check_expr,
            ..p
        }) && opt_expr_normalized(p2.using_expr, p.using_expr) && opt_expr_normalized(
            p2.check_expr,
            p.check_expr,
        ),
        _ => r == o,
    }
}

/// Normalizing the expressions of an object changes only expressions: a view,
/// sequence, type, extension, schema, comment or privilege comes out as it went in, and
/// every other object keeps its kind (and all its parts that are not expressions).
pub proof fn law_object_exprs_touch_only_expressions(r: SchemaObject, o: SchemaObject)
    requires
        object_exprs_normalized(r, o),
    ensures
        (o is View || o is Sequence || o is Type || o is Extension || o is Schema || o is Comment
            || o is Privilege) ==> r == o,
        (r is Table) == (o is Table),
        (r is MaterializedView) == (o is MaterializedView),
        (r is Index) == (o is Index),
        (r is Trigger) == (o is Trigger),
        (r is Function) == (o is Function),
        (r is Domain) == (o is Domain),
        (r is Policy) == (o is Policy),
{
}

/// Normalizes the expressions an object holds.
pub fn normalize_object_exprs(object: &mut SchemaObject)
    ensures
        object_exprs_normalized(*final(object), *old(object)),
{
    match object {
        SchemaObject::Table(t) => normalize_table_exprs(t),
        SchemaObject::MaterializedView(v) => normalize_columns_exprs(&mut v.columns),
        SchemaObject::Index(i) => normalize_index_exprs(i),
        SchemaObject::Trigger(t) => normalize_opt_expr(&mut t.when_clause),
        SchemaObject::Function(f) => normalize_params_exprs(&mut f.params),
        SchemaObject::Domain(d) => {
            normalize_opt_expr(&mut d.default);
            normalize_check_exprs(&mut d.checks);
        },
        SchemaObject::Policy(p) => {
            normalize_opt_expr(&mut p.using_expr);
            normalize_opt_expr(&mut p.check_expr);
        },
        _ => {},
    }
}


pub open spec fn opt_type_normalized(r: Option<DataType>, d: Option<DataType>) -> bool {
    match d {
        None => r is None,
        Some(x) => r matches Some(y) && type_normalized(y, x),
    }
}

fn normalize_opt_type(d: &mut Option<DataType>)
    ensures
        opt_type_normalized(*final(d), *old(d)),
{
    match d {
        Some(x) => normalize_data_type(x),
        None => {},
    }
}

/// The columns with their types resolved, nothing else changed.
pub open spec fn column_types_normalized(r: Seq<Column>, c: Seq<Column>) -> bool {
    r.len() == c.len() && forall|i: int|
        0 <= i < c.len() ==> #[trigger] r[i] == (Column { data_type: r[i].data_type, ..c[i] })
            && type_normalized(r[i].data_type, c[i].data_type)
}

fn normalize_column_types(columns: &mut Vec<Column>)
    ensures
        column_types_normalized(final(columns)@, old(columns)@),
{
    let mut i: usize = 0;
    while i < columns.len()
        invariant
            i <= columns@.len(),
            columns@.len() == old(columns)@.len(),
            forall|j: int|
                0 <= j < i ==> #[trigger] columns@[j] == (Column {
                    data_type: columns@[j].data_type,
                    ..old(columns)@[j]
                }) && type_normalized(columns@[j].data_type, old(columns)@[j].data_type),
            forall|j: int| i <= j < columns@.len() ==> #[trigger] columns@[j] == old(columns)@[j],
        decreases columns.len() - i,
    {
        normalize_data_type(&mut columns[i].data_type);
        i += 1;
    }
}

pub open spec fn param_types_normalized(r: Seq<FunctionParam>, p: Seq<FunctionParam>) -> bool {
    r.len() == p.len() && forall|i: int|
        0 <= i < p.len() ==> #[trigger] r[i] == (FunctionParam { data_type: r[i].data_type, ..p[i] })
            && type_normalized(r[i].data_type, p[i].data_type)
}

fn normalize_param_types(params: &mut Vec<FunctionParam>)
    ensures
        param_types_normalized(final(params)@, old(params)@),
{
    let mut i: usize = 0;
    while i < params.len()
        invariant
            i <= params@.len(),
            params@.len() == old(params)@.len(),
            forall|j: int|
                0 <= j < i ==> #[trigger] params@[j] == (FunctionParam {
                    data_type: params@[j].data_type,
                    ..old(params)@[j]
                }) && type_normalized(params@[j].data_type, old(params)@[j].data_type),
            forall|j: int| i <= j < params@.len() ==> #[trigger] params@[j] == old(params)@[j],
        decreases params.len() - i,
    {
        normalize_data_type(&mut params[i].data_type);
        i += 1;
    }
}

pub open spec fn field_types_normalized(r: Seq<(Ident, DataType)>, f: Seq<(Ident, DataType)>) -> bool {
    r.len() == f.len() && forall|i: int|
        0 <= i < f.len() ==> (#[trigger] r[i]).0 == f[i].0 && type_normalized(r[i].1, f[i].1)
}

fn normalize_field_types(fields: &mut Vec<(Ident, DataType)>)
    ensures
        field_types_normalized(final(fields)@, old(fields)@),
{
    let mut i: usize = 0;
    while i < fields.len()
        invariant
            i <= fields@.len(),
            fields@.len() == old(fields)@.len(),
            forall|j: int|
                0 <= j < i ==> (#[trigger] fields@[j]).0 == old(fields)@[j].0 && type_normalized(
                    fields@[j].1,
                    old(fields)@[j].1,
                ),
            forall|j: int| i <= j < fields@.len() ==> #[trigger] fields@[j] == old(fields)@[j],
        decreases fields.len() - i,
    {
        normalize_data_type(&mut fields[i].1);
        i += 1;
    }
}

pub open spec fn type_def_normalized(r: TypeDef, t: TypeDef) -> bool {
    r.name == t.name && match t.kind {
        TypeKind::Enum { .. } => r.kind == t.kind,
        TypeKind::Composite { fields } => r.kind matches TypeKind::Composite { fields: f2 }
            && field_types_normalized(f2@, fields@),
        TypeKind::Range { subtype } => r.kind matches TypeKind::Range { subtype: s2 }
            && type_normalized(s2, subtype),
    }
}

fn normalize_type_def(t: &mut TypeDef)
    ensures
        type_def_normalized(*final(t), *old(t)),
{
    match &mut t.kind {
        TypeKind::Enum { .. } => {},
        TypeKind::Composite { fields } => normalize_field_types(fields),
        TypeKind::Range { subtype } => normalize_data_type(subtype),
    }
}

/// `r` is the object with every data type it holds resolved: custom type names that name
/// built-in types replaced by them, the others in canonical form.
pub open spec fn object_types_normalized(r: SchemaObject, o: SchemaObject) -> bool {
    match o {
        SchemaObject::Table(t) => r matches SchemaObject::Table(t2) && t2 == (Table {
            columns: t2.columns,
            ..t
        }) && column_types_normalized(t2.columns@, t.columns@),
        SchemaObject::MaterializedView(v) => r matches SchemaObject::MaterializedView(v2)
            && v2 == (MaterializedView { columns: v2.columns, ..v }) && column_types_normalized(
            v2.columns@,
            v.columns@,
        ),
        SchemaObject::Sequence(q) => r matches SchemaObject::Sequence(q2) && q2 == (Sequence {
            data_type: q2.data_type,
            ..q
        }) && opt_type_normalized(q2.data_type, q.data_type),
        SchemaObject::Function(f) => r matches SchemaObject::Function(f2) && f2 == (Function {
            return_type: f2.return_type,
            params: f2.params,
            ..f
        }) && opt_type_normalized(f2.return_type, f.return_type) && param_types_normalized(
            f2.params@,
            f.params@,
        ),
        SchemaObject::Type(t) => r matches SchemaObject::Type(t2) && type_def_normalized(t2, t),
        SchemaObject::Domain(d) => r matches SchemaObject::Domain(d2) && d2 == (Domain {
            data_type: d2.data_type,
            ..d
        }) && type_normalized(d2.data_type, d.data_type),
        _ => r == o,
    }
}

/// Resolves the data types an object holds.
pub fn normalize_object_types(object: &mut SchemaObject)
    ensures
        object_types_normalized(*final(object), *old(object)),
{
    match object {
        SchemaObject::Table(t) => normalize_column_types(&mut t.columns),
        SchemaObject::MaterializedView(v) => normalize_column_types(&mut v.columns),
        SchemaObject::Sequence(q) => normalize_opt_type(&mut q.data_type),
        SchemaObject::Function(f) => {
            normalize_opt_type(&mut f.return_type);
            normalize_param_types(&mut f.params);
        },
        SchemaObject::Type(t) => normalize_type_def(t),
        SchemaObject::Domain(d) => normalize_data_type(&mut d.data_type),
        _ => {},
    }
}


/// An identity of the mode read from the catalog: `a` or `always` (in any case, around
/// any blanks) is `ALWAYS`, any other `BY DEFAULT`; no option set.
pub open spec fn identity_of_mode(mode: Seq<char>) -> Identity {
    let m = text::lower(text::trim(mode));
    Identity {
        always: m == "a"@ || m == "always"@,
        start: None,
        increment: None,
        min_value: None,
        max_value: None,
        cache: None,
        cycle: false,
    }
}

pub fn identity_from_mode(mode: &str) -> (r: Identity)
    ensures
        r == identity_of_mode(mode@),
{
    let t = text::trim_str(mode);
    let m = text::lower_chars(t.as_slice());
    let always = text::eq_str(m.as_slice(), "a") || text::eq_str(m.as_slice(), "always");
    Identity {
        always,
        start: None,
        increment: None,
        min_value: None,
        max_value: None,
        cache: None,
        cycle: false,
    }
}

/// The identity a column has once the mode read from the catalog is taken in.
pub open spec fn hydrated_identity(c: Column) -> Option<Identity> {
    if c.identity is Some {
        c.identity
    } else {
        match c.identity_hint {
            Some(Value::String(m)) => Some(identity_of_mode(m@)),
            _ => None,
        }
    }
}

/// The mode read from the catalog is dropped once it is taken in.
pub open spec fn hydrated_hint(c: Column) -> Option<Value> {
    if c.identity is None && c.identity_hint matches Some(Value::String(_)) {
        None
    } else {
        c.identity_hint
    }
}

/// Gives a column without an identity the one its catalog mode names.
pub fn hydrate_identity_from_extra(c: &mut Column)
    ensures
        *final(c) == (Column {
            identity: hydrated_identity(*old(c)),
            identity_hint: hydrated_hint(*old(c)),
            ..*old(c)
        }),
{
    if c.identity.is_some() {
        return;
    }
    let id = match &c.identity_hint {
        Some(Value::String(mode)) => identity_from_mode(mode.as_str()),
        _ => return,
    };
    c.identity = Some(id);
    c.identity_hint = None;
}

/// The integer type a `serial` type name stands for.
pub open spec fn serial_alias(alias: Seq<char>) -> Option<DataType> {
    if alias == "serial"@ || alias == "serial4"@ {
        Some(DataType::Integer)
    } else if alias == "bigserial"@ || alias == "serial8"@ {
        Some(DataType::BigInt)
    } else if alias == "smallserial"@ || alias == "serial2"@ {
        Some(DataType::SmallInt)
    } else {
        None
    }
}

/// The integer type of a column declared `serial`, `bigserial` or `smallserial` (by the
/// last segment of its type name).
pub open spec fn serial_type(c: Column) -> Option<DataType> {
    match c.data_type {
        DataType::Custom(s) => serial_alias(after_last(s@, '.')),
        _ => None,
    }
}

/// The name of a sequence as `regclass` reads it: the schema, a dot and the name, as
/// written.
pub open spec fn regclass_identifier(schema: Option<Ident>, name: Seq<char>) -> Seq<char> {
    match schema {
        Some(s) => s.value@ + "."@ + name,
        None => name,
    }
}

pub fn render_regclass_identifier(name: &QualifiedName) -> (r: Vec<char>)
    ensures
        r@ == regclass_identifier(name.schema, name.name.value@),
{
    let mut out: Vec<char> = Vec::new();
    match &name.schema {
        Some(s) => {
            text::append_str(&mut out, s.value.as_str());
            text::append_str(&mut out, ".");
        },
        None => {},
    }
    text::append_str(&mut out, name.name.value.as_str());
    out
}

/// `nextval('<sequence>'::regclass)`.
pub open spec fn nextval_sql(regclass: Seq<char>) -> Seq<char> {
    "nextval("@ + text::quoted_with(regclass, '\'') + "::regclass)"@
}

pub fn nextval_expr(name: &QualifiedName) -> (r: String)
    ensures
        r@ == nextval_sql(regclass_identifier(name.schema, name.name.value@)),
{
    let mut out: Vec<char> = Vec::new();
    text::append_str(&mut out, "nextval(");
    let id = render_regclass_identifier(name);
    let q = text::quote_chars(id.as_slice(), '\'');
    text::append_chars(&mut out, q.as_slice());
    text::append_str(&mut out, "::regclass)");
    assert(out@ =~= nextval_sql(regclass_identifier(name.schema, name.name.value@)));
    text::string_of(out.as_slice())
}

/// The name PostgreSQL gives the sequence behind a `serial` or identity column:
/// `<table>_<column>_seq`, in the table's schema.
pub open spec fn implicit_sequence_text(table: QualifiedName, column: Ident) -> Seq<char> {
    table.name.value@ + "_"@ + column.value@ + "_seq"@
}

/// The implicit sequence of a column as `regclass` reads it.
pub open spec fn sequence_regclass(table: QualifiedName, column: Ident) -> Seq<char> {
    regclass_identifier(table.schema, implicit_sequence_text(table, column))
}

pub fn implicit_sequence_name(table: &QualifiedName, column: &Ident) -> (r: QualifiedName)
    ensures
        schema::same_qualifier(r.schema, table.schema),
        r.name.value@ == implicit_sequence_text(*table, *column),
        regclass_identifier(r.schema, r.name.value@) == sequence_regclass(*table, *column),
        !r.name.quoted,
{
    let mut v = text::chars_of(table.name.value.as_str());
    text::append_str(&mut v, "_");
    text::append_str(&mut v, column.value.as_str());
    text::append_str(&mut v, "_seq");
    let schema = match &table.schema {
        Some(s) => Some(crate::schema::copy_ident(s)),
        None => None,
    };
    QualifiedName { schema, name: Ident { value: text::string_of(v.as_slice()), quoted: false } }
}

/// A column declared `serial`: its integer type, and a `nextval` default of its implicit
/// sequence when it has no default.
pub fn normalize_serial_alias(table: &QualifiedName, c: &mut Column)
    ensures
        match serial_type(*old(c)) {
            Some(d) => final(c).data_type == d && (old(c).default is Some ==> final(c).default
                == old(c).default) && (old(c).default is None ==> (final(c).default matches Some(
                Expr::Raw(s),
            ) && s@ == nextval_sql(sequence_regclass(*table, old(c).name))))
                && *final(c) == (Column {
                data_type: final(c).data_type,
                default: final(c).default,
                ..*old(c)
            }),
            None => *final(c) == *old(c),
        },
{
    let mapped = match &c.data_type {
        DataType::Custom(custom) => {
            let v = text::chars_of(custom.as_str());
            let alias = after_last_chars(v.as_slice(), '.');
            if text::eq_str(alias.as_slice(), "serial") || text::eq_str(alias.as_slice(), "serial4") {
                Some(DataType::Integer)
            } else if text::eq_str(alias.as_slice(), "bigserial") || text::eq_str(
                alias.as_slice(),
                "serial8",
            ) {
                Some(DataType::BigInt)
            } else if text::eq_str(alias.as_slice(), "smallserial") || text::eq_str(
                alias.as_slice(),
                "serial2",
            ) {
                Some(DataType::SmallInt)
            } else {
                None
            }
        },
        _ => None,
    };
    match mapped {
        Some(d) => {
            c.data_type = d;
            if c.default.is_none() {
                let seq_name = implicit_sequence_name(table, &c.name);
                c.default = Some(Expr::Raw(nextval_expr(&seq_name)));
            }
        },
        None => {},
    }
}

/// The column as its sequence is represented: the identity its catalog mode names, the
/// integer type and `nextval` default of a `serial` column, and no default beside an
/// identity.
pub open spec fn column_sequence_normalized(r: Column, c: Column, table: QualifiedName) -> bool {
    let identity = hydrated_identity(c);
    &&& r.identity == identity
    &&& r.identity_hint == hydrated_hint(c)
    &&& match serial_type(c) {
        Some(d) => r.data_type == d,
        None => r.data_type == c.data_type,
    }
    &&& if identity is Some {
        r.default is None
    } else if serial_type(c) is Some && c.default is None {
        r.default matches Some(Expr::Raw(s)) && s@ == nextval_sql(sequence_regclass(table, c.name))
    } else {
        r.default == c.default
    }
    &&& r == (Column {
        data_type: r.data_type,
        default: r.default,
        identity: r.identity,
        identity_hint: r.identity_hint,
        ..c
    })
}

fn normalize_column_sequence(table: &QualifiedName, c: &mut Column)
    ensures
        column_sequence_normalized(*final(c), *old(c), *table),
{
    hydrate_identity_from_extra(c);
    let ghost hydrated = *c;
    normalize_serial_alias(table, c);
    proof {
        assert(serial_type(hydrated) == serial_type(*old(c)));
        assert(hydrated.name == old(c).name);
    }
    if c.identity.is_some() {
        c.default = None;
    }
}

pub open spec fn table_sequences_normalized(r: Table, t: Table) -> bool {
    &&& r == (Table { columns: r.columns, ..t })
    &&& r.columns@.len() == t.columns@.len()
    &&& forall|i: int|
        0 <= i < t.columns@.len() ==> column_sequence_normalized(
            #[trigger] r.columns@[i],
            t.columns@[i],
            t.name,
        )
}

/// Represents the sequences behind a table's `serial` and identity columns the way the
/// catalog reads them back.
pub fn normalize_table_sequence_representation(t: &mut Table)
    ensures
        table_sequences_normalized(*final(t), *old(t)),
{
    let table_name = crate::schema::copy_name(&t.name);
    let mut i: usize = 0;
    while i < t.columns.len()
        invariant
            i <= t.columns@.len(),
            t.columns@.len() == old(t).columns@.len(),
            schema::same_name(table_name, old(t).name),
            *t == (Table { columns: t.columns, ..*old(t) }),
            forall|j: int|
                0 <= j < i ==> column_sequence_normalized(
                    #[trigger] t.columns@[j],
                    old(t).columns@[j],
                    old(t).name,
                ),
            forall|j: int| i <= j < t.columns@.len() ==> #[trigger] t.columns@[j] == old(t).columns@[j],
        decreases t.columns.len() - i,
    {
        normalize_column_sequence(&table_name, &mut t.columns[i]);
        assert(sequence_regclass(table_name, old(t).columns@[i as int].name) == sequence_regclass(
            old(t).name,
            old(t).columns@[i as int].name,
        ));
        i += 1;
    }
}

pub open spec fn object_sequences_normalized(r: SchemaObject, o: SchemaObject) -> bool {
    match o {
        SchemaObject::Table(t) => r matches SchemaObject::Table(t2) && table_sequences_normalized(
            t2,
            t,
        ),
        _ => r == o,
    }
}

pub fn normalize_object_sequences(object: &mut SchemaObject)
    ensures
        object_sequences_normalized(*final(object), *old(object)),
{
    match object {
        SchemaObject::Table(t) => normalize_table_sequence_representation(t),
        _ => {},
    }
}

/// `r` is the object with its types resolved, its expressions normalized and the
/// sequences of its columns represented as the catalog reads them back, in that order.
pub open spec fn object_normalized(r: SchemaObject, o: SchemaObject) -> bool {
    exists|a: SchemaObject, b: SchemaObject|
        object_types_normalized(a, o) && object_exprs_normalized(b, a)
            && object_sequences_normalized(r, b)
}

/// Normalizes a schema object so that equal schemas compare equal.
pub fn normalize_object(object: &mut SchemaObject)
    ensures
        object_normalized(*final(object), *old(object)),
{
    normalize_object_types(object);
    let ghost a = *object;
    normalize_object_exprs(object);
    let ghost b = *object;
    normalize_object_sequences(object);
    assert(object_types_normalized(a, *old(object)) && object_exprs_normalized(b, a)
        && object_sequences_normalized(*object, b));
}


/// `r` is the schema with each object normalized, then the sequence contract applied,
/// then the partition children folded into their parents.
pub open spec fn schema_normalized(r: Seq<SchemaObject>, objects: Seq<SchemaObject>) -> bool {
    exists|a: Seq<SchemaObject>, b: Seq<SchemaObject>|
        a.len() == objects.len() && (forall|i: int|
            0 <= i < objects.len() ==> object_normalized(#[trigger] a[i], objects[i]))
            && crate::postgres::sequences::sequence_contract_applied(b, a)
            && crate::postgres::partitions::partition_children_folded(r, b)
}

/// Normalizes a whole schema: each object, then the sequences PostgreSQL creates for
/// `serial` and identity columns, then the partitions read as tables of their own.
pub fn normalize_schema(objects: &mut Vec<SchemaObject>)
    ensures
        schema_normalized(final(objects)@, old(objects)@),
{
    let mut i: usize = 0;
    while i < objects.len()
        invariant
            i <= objects@.len(),
            objects@.len() == old(objects)@.len(),
            forall|j: int| 0 <= j < i ==> object_normalized(#[trigger] objects@[j], old(objects)@[j]),
            forall|j: int| i <= j < objects@.len() ==> #[trigger] objects@[j] == old(objects)@[j],
        decreases objects.len() - i,
    {
        normalize_object(&mut objects[i]);
        i += 1;
    }
    let ghost a = objects@;
    crate::postgres::sequences::apply_sequence_contract(objects);
    let ghost b = objects@;
    crate::postgres::partitions::fold_partition_children(objects);
    assert(a.len() == old(objects)@.len() && (forall|i: int|
        0 <= i < old(objects)@.len() ==> object_normalized(#[trigger] a[i], old(objects)@[i]))
        && crate::postgres::sequences::sequence_contract_applied(b, a)
        && crate::postgres::partitions::partition_children_folded(objects@, b));
}

} // verus!
