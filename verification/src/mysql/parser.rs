use vstd::prelude::*;

use crate::schema;
use crate::schema::{Ident, QualifiedName};
use crate::error::Error;
use crate::text;
use vstd::string::StringSliceAdditionalSpecFns;

verus! {

/// Where the statement splitter is inside the SQL text.
#[derive(Debug, Clone, Copy, PartialEq, Eq, Structural)]
pub enum LexMode {
    Normal,
    LineComment,
    BlockComment,
    SingleQuote,
    DoubleQuote,
    Backtick,
    Bracket,
}

/// The end of a quoted region closed by `close`, where a doubled `close` is an escape.
pub open spec fn quoted_step(b: Seq<u8>, i: int, close: u8, mode: LexMode) -> (int, LexMode) {
    if b[i] == close {
        if i + 1 < b.len() && b[i + 1] == close {
            (i + 2, mode)
        } else {
            (i + 1, LexMode::Normal)
        }
    } else {
        (i + 1, mode)
    }
}

/// One step of the splitter at byte `i` (which must be in range): the next position and mode.
pub open spec fn lex_step(b: Seq<u8>, i: int, mode: LexMode) -> (int, LexMode) {
    let x = b[i];
    match mode {
        LexMode::LineComment => (i + 1, if x == 10u8 {
            LexMode::Normal
        } else {
            LexMode::LineComment
        }),
        LexMode::BlockComment => if x == 42u8 && i + 1 < b.len() && b[i + 1] == 47u8 {
            (i + 2, LexMode::Normal)
        } else {
            (i + 1, LexMode::BlockComment)
        },
        LexMode::SingleQuote => if x == 92u8 {
            (if i + 2 <= b.len() {
                i + 2
            } else {
                b.len() as int
            }, LexMode::SingleQuote)
        } else {
            quoted_step(b, i, 39u8, mode)
        },
        LexMode::DoubleQuote => quoted_step(b, i, 34u8, mode),
        LexMode::Backtick => quoted_step(b, i, 96u8, mode),
        LexMode::Bracket => quoted_step(b, i, 93u8, mode),
        LexMode::Normal => if x == 45u8 && i + 1 < b.len() && b[i + 1] == 45u8 {
            (i + 2, LexMode::LineComment)
        } else if x == 47u8 && i + 1 < b.len() && b[i + 1] == 42u8 {
            (i + 2, LexMode::BlockComment)
        } else if x == 39u8 {
            (i + 1, LexMode::SingleQuote)
        } else if x == 34u8 {
            (i + 1, LexMode::DoubleQuote)
        } else if x == 96u8 {
            (i + 1, LexMode::Backtick)
        } else if x == 91u8 {
            (i + 1, LexMode::Bracket)
        } else {
            (i + 1, LexMode::Normal)
        },
    }
}

/// The statement spans of `b` from position `i`: a statement ends just after each `;`
/// met outside quotes and comments; text after the last `;` is a final statement.
pub open spec fn span_scan(
    b: Seq<u8>,
    i: int,
    mode: LexMode,
    start: int,
    spans: Seq<(int, int)>,
) -> Seq<(int, int)>
    decreases b.len() - i,
{
    if i < 0 || i >= b.len() {
        if start < b.len() {
            spans.push((start, b.len() as int))
        } else {
            spans
        }
    } else if mode == LexMode::Normal && b[i] == 59u8 {
        span_scan(b, i + 1, LexMode::Normal, i + 1, spans.push((start, i + 1)))
    } else {
        let (next, m) = lex_step(b, i, mode);
        if next <= i {
            spans
        } else {
            span_scan(b, next, m, start, spans)
        }
    }
}

pub open spec fn statement_spans(b: Seq<u8>) -> Seq<(int, int)> {
    span_scan(b, 0, LexMode::Normal, 0, Seq::empty())
}

/// `spans` cover the bytes before `end`: the first starts at 0, each is non-empty, and
/// each starts where the one before it ends, the last ending at `end`.
pub open spec fn tiles_prefix(spans: Seq<(int, int)>, end: int) -> bool {
    &&& (spans.len() == 0 ==> end == 0)
    &&& (spans.len() > 0 ==> spans[0].0 == 0 && spans.last().1 == end)
    &&& forall|k: int| 0 <= k < spans.len() ==> #[trigger] spans[k].0 < spans[k].1
    &&& forall|k: int| 0 <= k < spans.len() - 1 ==> #[trigger] spans[k].1 == spans[k + 1].0
}

proof fn lemma_tiles_push(spans: Seq<(int, int)>, start: int, end: int)
    requires
        tiles_prefix(spans, start),
        start < end,
    ensures
        tiles_prefix(spans.push((start, end)), end),
{
    let t = spans.push((start, end));
    assert forall|k: int| 0 <= k < t.len() - 1 implies #[trigger] t[k].1 == t[k + 1].0 by {
        if k < spans.len() - 1 {
            assert(t[k] == spans[k] && t[k + 1] == spans[k + 1]);
        } else {
            assert(t[k] == spans.last());
        }
    }
    assert forall|k: int| 0 <= k < t.len() implies #[trigger] t[k].0 < t[k].1 by {
        if k < spans.len() {
            assert(t[k] == spans[k]);
        }
    }
}

proof fn lemma_lex_step_advances(b: Seq<u8>, i: int, mode: LexMode)
    requires
        0 <= i < b.len(),
    ensures
        i < lex_step(b, i, mode).0 <= b.len(),
{
}

proof fn lemma_span_scan_tiles(b: Seq<u8>, i: int, mode: LexMode, start: int, spans: Seq<(int, int)>)
    requires
        0 <= start <= i <= b.len(),
        tiles_prefix(spans, start),
    ensures
        tiles_prefix(span_scan(b, i, mode, start, spans), b.len() as int),
    decreases b.len() - i,
{
    if i >= b.len() {
        if start < b.len() {
            lemma_tiles_push(spans, start, b.len() as int);
        }
    } else if mode == LexMode::Normal && b[i] == 59u8 {
        lemma_tiles_push(spans, start, i + 1);
        lemma_span_scan_tiles(b, i + 1, LexMode::Normal, i + 1, spans.push((start, i + 1)));
    } else {
        lemma_lex_step_advances(b, i, mode);
        let (next, m) = lex_step(b, i, mode);
        lemma_span_scan_tiles(b, next, m, start, spans);
    }
}

/// The statements a text splits into cover it: from its first byte to its last, each
/// non-empty, each starting where the one before it ends; an empty text has none.
pub proof fn law_statement_spans_tile(b: Seq<u8>)
    ensures
        tiles_prefix(statement_spans(b), b.len() as int),
{
    lemma_span_scan_tiles(b, 0, LexMode::Normal, 0, Seq::empty());
}

/// Each of `spans` ends just after a `;` of `b`.
pub open spec fn end_at_semicolons(b: Seq<u8>, spans: Seq<(int, int)>) -> bool {
    forall|k: int| 0 <= k < spans.len() ==> b[#[trigger] spans[k].1 - 1] == 59u8
}

proof fn lemma_span_scan_semicolons(b: Seq<u8>, i: int, mode: LexMode, start: int, spans: Seq<(int, int)>)
    requires
        end_at_semicolons(b, spans),
    ensures
        ({
            let r = span_scan(b, i, mode, start, spans);
            forall|k: int| 0 <= k < r.len() - 1 ==> b[#[trigger] r[k].1 - 1] == 59u8
        }),
    decreases b.len() - i,
{
    let r = span_scan(b, i, mode, start, spans);
    if i < 0 || i >= b.len() {
        assert forall|k: int| 0 <= k < r.len() - 1 implies b[#[trigger] r[k].1 - 1] == 59u8 by {
            assert(r[k] == spans[k]);
        }
    } else if mode == LexMode::Normal && b[i] == 59u8 {
        let t = spans.push((start, i + 1));
        assert forall|k: int| 0 <= k < t.len() implies b[#[trigger] t[k].1 - 1] == 59u8 by {
            if k < spans.len() {
                assert(t[k] == spans[k]);
            }
        }
        lemma_span_scan_semicolons(b, i + 1, LexMode::Normal, i + 1, t);
        assert(r == span_scan(b, i + 1, LexMode::Normal, i + 1, t));
    } else {
        let (next, m) = lex_step(b, i, mode);
        if next > i {
            lemma_span_scan_semicolons(b, next, m, start, spans);
            assert(r == span_scan(b, next, m, start, spans));
        } else {
            assert(r == spans);
            assert forall|k: int| 0 <= k < r.len() - 1 implies b[#[trigger] r[k].1 - 1] == 59u8 by {
                assert(r[k] == spans[k]);
            }
        }
    }
}

/// Every statement of a text but the last ends just after a `;` (one outside quotes and
/// comments); only the text after the last such `;` may end otherwise.
pub proof fn law_statement_spans_end_at_semicolons(b: Seq<u8>)
    ensures
        forall|k: int|
            0 <= k < statement_spans(b).len() - 1 ==> b[#[trigger] statement_spans(b)[k].1 - 1] == 59u8,
{
    lemma_span_scan_semicolons(b, 0, LexMode::Normal, 0, Seq::empty());
}

pub open spec fn span_views(v: Seq<(usize, usize)>) -> Seq<(int, int)> {
    v.map_values(|p: (usize, usize)| (p.0 as int, p.1 as int))
}

/// Splits SQL text into byte spans, one per statement.
pub fn split_statement_spans(sql: &str) -> (r: Vec<(usize, usize)>)
    ensures
        span_views(r@) == statement_spans(sql.spec_bytes()),
{
    let bytes = sql.as_bytes();
    let n = bytes.len();
    let mut spans: Vec<(usize, usize)> = Vec::new();
    let mut start: usize = 0;
    let mut index: usize = 0;
    let mut mode = LexMode::Normal;
    assert(span_views(spans@) =~= Seq::<(int, int)>::empty());
    while index < n
        invariant
            n == bytes@.len(),
            bytes@ == sql.spec_bytes(),
            index <= n,
            start <= index,
            statement_spans(bytes@) == span_scan(
                bytes@,
                index as int,
                mode,
                start as int,
                span_views(spans@),
            ),
        decreases n - index,
    {
        let byte = bytes[index];
        let ghost sv = span_views(spans@);
        if mode == LexMode::Normal && byte == 59u8 {
            spans.push((start, index + 1));
            assert(span_views(spans@) =~= sv.push((start as int, index + 1)));
            start = index + 1;
            index += 1;
        } else {
            let ghost step = lex_step(bytes@, index as int, mode);
            match mode {
                LexMode::LineComment => {
                    if byte == 10u8 {
                        mode = LexMode::Normal;
                    }
                    index += 1;
                },
                LexMode::BlockComment => {
                    if byte == 42u8 && index + 1 < n && bytes[index + 1] == 47u8 {
                        mode = LexMode::Normal;
                        index += 2;
                    } else {
                        index += 1;
                    }
                },
                LexMode::SingleQuote => {
                    if byte == 92u8 {
                        index = if n - index >= 2 {
                            index + 2
                        } else {
                            n
                        };
                    } else if byte == 39u8 {
                        if index + 1 < n && bytes[index + 1] == 39u8 {
                            index += 2;
                        } else {
                            mode = LexMode::Normal;
                            index += 1;
                        }
                    } else {
                        index += 1;
                    }
                },
                LexMode::DoubleQuote => {
                    if byte == 34u8 {
                        if index + 1 < n && bytes[index + 1] == 34u8 {
                            index += 2;
                        } else {
                            mode = LexMode::Normal;
                            index += 1;
                        }
                    } else {
                        index += 1;
                    }
                },
                LexMode::Backtick => {
                    if byte == 96u8 {
                        if index + 1 < n && bytes[index + 1] == 96u8 {
                            index += 2;
                        } else {
                            mode = LexMode::Normal;
                            index += 1;
                        }
                    } else {
                        index += 1;
                    }
                },
                LexMode::Bracket => {
                    if byte == 93u8 {
                        if index + 1 < n && bytes[index + 1] == 93u8 {
                            index += 2;
                        } else {
                            mode = LexMode::Normal;
                            index += 1;
                        }
                    } else {
                        index += 1;
                    }
                },
                LexMode::Normal => {
                    if byte == 45u8 && index + 1 < n && bytes[index + 1] == 45u8 {
                        mode = LexMode::LineComment;
                        index += 2;
                    } else if byte == 47u8 && index + 1 < n && bytes[index + 1] == 42u8 {
                        mode = LexMode::BlockComment;
                        index += 2;
                    } else if byte == 39u8 {
                        mode = LexMode::SingleQuote;
                        index += 1;
                    } else if byte == 34u8 {
                        mode = LexMode::DoubleQuote;
                        index += 1;
                    } else if byte == 96u8 {
                        mode = LexMode::Backtick;
                        index += 1;
                    } else if byte == 91u8 {
                        mode = LexMode::Bracket;
                        index += 1;
                    } else {
                        index += 1;
                    }
                },
            }
            assert(step == (index as int, mode));
        }
    }
    if start < n {
        let ghost sv = span_views(spans@);
        spans.push((start, n));
        assert(span_views(spans@) =~= sv.push((start as int, n as int)));
    }
    spans
}

/// An identifier token with surrounding whitespace, a leading `(` and trailing
/// `;`, `,` and `)` removed (in that order).
pub open spec fn trimmed_token(raw: Seq<char>) -> Seq<char> {
    text::strip_trailing(
        text::strip_trailing(text::strip_trailing(text::strip_leading(text::trim(raw), '('), ';'), ','),
        ')',
    )
}

pub fn trim_identifier_token(raw: &[char]) -> (r: Vec<char>)
    ensures
        r@ == trimmed_token(raw@),
{
    let t = text::trim_chars(raw);
    let t = text::strip_leading_chars(t.as_slice(), '(');
    let t = text::strip_trailing_chars(t.as_slice(), ';');
    let t = text::strip_trailing_chars(t.as_slice(), ',');
    text::strip_trailing_chars(t.as_slice(), ')')
}

/// Whether a token is the keyword, ignoring ASCII case and identifier punctuation.
pub open spec fn is_keyword(token: Seq<char>, keyword: Seq<char>) -> bool {
    text::eq_ignore_case(trimmed_token(token), keyword)
}

pub fn eq_keyword(token: &[char], keyword: &str) -> (b: bool)
    ensures
        b == is_keyword(token@, keyword@),
{
    let t = trim_identifier_token(token);
    text::eq_ignore_case_str(t.as_slice(), keyword)
}

/// The first two words of a statement, for error messages (`unknown` when empty).
pub open spec fn kind_of(sql: Seq<char>) -> Seq<char> {
    let w = text::words(sql);
    if w.len() == 0 {
        "unknown"@
    } else if w.len() == 1 {
        w[0]
    } else {
        w[0] + " "@ + w[1]
    }
}

pub fn statement_kind(statement_sql: &[char]) -> (r: Vec<char>)
    ensures
        r@ == kind_of(statement_sql@),
{
    let w = text::words_chars(statement_sql);
    let ghost wv = w@.map_values(|x: Vec<char>| x@);
    if w.len() == 0 {
        return text::chars_of("unknown");
    }
    assert(wv[0] == w@[0]@);
    let mut out = text::slice_copy(w[0].as_slice(), 0, w[0].len());
    if w.len() >= 2 {
        assert(wv[1] == w@[1]@);
        text::append_str(&mut out, " ");
        text::append_chars(&mut out, w[1].as_slice());
    }
    out
}

/// The splitter state of `split_qualified_name`.
pub struct NameSplit {
    pub parts: Seq<Seq<char>>,
    pub current: Seq<char>,
    pub in_double: bool,
    pub in_backtick: bool,
    pub in_bracket: bool,
}

/// Splits a name on `.` outside `"..."`, `` `...` `` and `[...]` quoting; each part is trimmed.
pub open spec fn name_scan(s: Seq<char>, st: NameSplit) -> NameSplit
    decreases s.len(),
{
    if s.len() == 0 {
        st
    } else {
        let c = s[0];
        let rest = s.drop_first();
        if st.in_double {
            name_scan(rest, NameSplit { current: st.current.push(c), in_double: c != '"', ..st })
        } else if st.in_backtick {
            name_scan(rest, NameSplit { current: st.current.push(c), in_backtick: c != '`', ..st })
        } else if st.in_bracket {
            name_scan(rest, NameSplit { current: st.current.push(c), in_bracket: c != ']', ..st })
        } else if c == '.' {
            name_scan(
                rest,
                NameSplit {
                    parts: st.parts.push(text::trim(st.current)),
                    current: Seq::empty(),
                    ..st
                },
            )
        } else if c == '"' {
            name_scan(rest, NameSplit { current: st.current.push(c), in_double: true, ..st })
        } else if c == '`' {
            name_scan(rest, NameSplit { current: st.current.push(c), in_backtick: true, ..st })
        } else if c == '[' {
            name_scan(rest, NameSplit { current: st.current.push(c), in_bracket: true, ..st })
        } else {
            name_scan(rest, NameSplit { current: st.current.push(c), ..st })
        }
    }
}

pub open spec fn name_parts(token: Seq<char>) -> Seq<Seq<char>> {
    let st = name_scan(
        token,
        NameSplit {
            parts: Seq::empty(),
            current: Seq::empty(),
            in_double: false,
            in_backtick: false,
            in_bracket: false,
        },
    );
    if st.current.len() > 0 {
        st.parts.push(text::trim(st.current))
    } else {
        st.parts
    }
}

pub fn split_qualified_name(token: &[char]) -> (r: Vec<Vec<char>>)
    ensures
        r@.map_values(|p: Vec<char>| p@) == name_parts(token@),
{
    let ghost init = NameSplit {
        parts: Seq::empty(),
        current: Seq::empty(),
        in_double: false,
        in_backtick: false,
        in_bracket: false,
    };
    let mut parts: Vec<Vec<char>> = Vec::new();
    let mut current: Vec<char> = Vec::new();
    let mut in_double = false;
    let mut in_backtick = false;
    let mut in_bracket = false;
    let mut i: usize = 0;
    assert(token@.skip(0) =~= token@);
    assert(parts@.map_values(|p: Vec<char>| p@) =~= Seq::<Seq<char>>::empty());
    while i < token.len()
        invariant
            i <= token@.len(),
            name_scan(token@, init) == name_scan(
                token@.skip(i as int),
                NameSplit {
                    parts: parts@.map_values(|p: Vec<char>| p@),
                    current: current@,
                    in_double,
                    in_backtick,
                    in_bracket,
                },
            ),
        decreases token.len() - i,
    {
        let ghost rest = token@.skip(i as int);
        let c = token[i];
        assert(rest[0] == c);
        assert(rest.drop_first() =~= token@.skip(i + 1));
        if in_double {
            current.push(c);
            in_double = c != '"';
        } else if in_backtick {
            current.push(c);
            in_backtick = c != '`';
        } else if in_bracket {
            current.push(c);
            in_bracket = c != ']';
        } else if c == '.' {
            let ghost pv = parts@.map_values(|p: Vec<char>| p@);
            let t = text::trim_chars(current.as_slice());
            parts.push(t);
            assert(parts@.map_values(|p: Vec<char>| p@) =~= pv.push(t@));
            current = Vec::new();
            assert(current@ =~= Seq::<char>::empty());
        } else if c == '"' {
            current.push(c);
            in_double = true;
        } else if c == '`' {
            current.push(c);
            in_backtick = true;
        } else if c == '[' {
            current.push(c);
            in_bracket = true;
        } else {
            current.push(c);
        }
        i += 1;
    }
    assert(token@.skip(i as int) =~= Seq::<char>::empty());
    if current.len() > 0 {
        let ghost pv = parts@.map_values(|p: Vec<char>| p@);
        let t = text::trim_chars(current.as_slice());
        parts.push(t);
        assert(parts@.map_values(|p: Vec<char>| p@) =~= pv.push(t@));
    }
    parts
}

/// A quoted identifier token's inner text, when `t` is wrapped in `open`/`close`.
pub open spec fn wrapped_by(t: Seq<char>, open: char, close: char) -> bool {
    t.len() >= 2 && t[0] == open && t.last() == close
}

pub open spec fn inner_of(t: Seq<char>) -> Seq<char> {
    t.subrange(1, t.len() - 1)
}

/// An identifier read from a token: backtick-, double-quote- or bracket-quoted names
/// are quoted identifiers with their doubled closing character unescaped; anything
/// else is an unquoted identifier.
pub open spec fn ident_of(raw: Seq<char>) -> Option<(Seq<char>, bool)> {
    let t = trimmed_token(raw);
    if t.len() == 0 {
        None
    } else if wrapped_by(t, '`', '`') {
        Some((text::undouble_char(inner_of(t), '`'), true))
    } else if wrapped_by(t, '"', '"') {
        Some((text::undouble_char(inner_of(t), '"'), true))
    } else if wrapped_by(t, '[', ']') {
        Some((text::undouble_char(inner_of(t), ']'), true))
    } else {
        Some((t, false))
    }
}

pub open spec fn ident_matches(ident: Ident, view: (Seq<char>, bool)) -> bool {
    ident.value@ == view.0 && ident.quoted == view.1
}

/// An identifier quoted with backticks reads back as the same identifier, quoted.
pub proof fn law_quoted_identifier_reads_back(name: Seq<char>)
    ensures
        ident_of(text::quoted_with(name, '`')) == Some((name, true)),
{
    let q = text::quoted_with(name, '`');
    assert(q[0] == '`');
    assert(q.last() == '`');
    assert(!text::is_ws('`'));
    assert(text::trim_start(q) == q);
    assert(text::trim_end(q) == q);
    assert(text::strip_leading(q, '(') == q);
    assert(text::strip_trailing(q, ';') == q);
    assert(text::strip_trailing(q, ',') == q);
    assert(text::strip_trailing(q, ')') == q);
    assert(trimmed_token(q) == q);
    assert(inner_of(q) =~= text::double_char(name, '`'));
    text::lemma_undouble_double(name, '`');
}

pub fn parse_ident_token(raw: &[char]) -> (r: Option<Ident>)
    ensures
        match ident_of(raw@) {
            Some(v) => r matches Some(id) && ident_matches(id, v),
            None => r is None,
        },
{
    let t = trim_identifier_token(raw);
    let n = t.len();
    if n == 0 {
        return None;
    }
    let (open, close, quoted): (char, char, bool) = if n >= 2 && t[0] == '`' && t[n - 1] == '`' {
        ('`', '`', true)
    } else if n >= 2 && t[0] == '"' && t[n - 1] == '"' {
        ('"', '"', true)
    } else if n >= 2 && t[0] == '[' && t[n - 1] == ']' {
        ('[', ']', true)
    } else {
        (' ', ' ', false)
    };
    if quoted {
        let inner = text::slice_copy(t.as_slice(), 1, n - 1);
        let value = text::undouble_chars(inner.as_slice(), close);
        Some(Ident { value: text::string_of(value.as_slice()), quoted: true })
    } else {
        Some(Ident { value: text::string_of(t.as_slice()), quoted: false })
    }
}

/// A possibly schema-qualified name read from a token (at most two parts).
pub open spec fn qualified_name_of(raw: Seq<char>) -> Option<(Option<(Seq<char>, bool)>, (Seq<char>, bool))> {
    let t = trimmed_token(raw);
    if t.len() == 0 {
        None
    } else {
        let parts = name_parts(t);
        if parts.len() == 0 || parts.len() > 2 {
            None
        } else if parts.len() == 1 {
            match ident_of(parts[0]) {
                Some(name) => Some((None, name)),
                None => None,
            }
        } else {
            match (ident_of(parts[0]), ident_of(parts[1])) {
                (Some(schema), Some(name)) => Some((Some(schema), name)),
                _ => None,
            }
        }
    }
}

pub open spec fn qualified_matches(
    q: QualifiedName,
    view: (Option<(Seq<char>, bool)>, (Seq<char>, bool)),
) -> bool {
    &&& ident_matches(q.name, view.1)
    &&& match (q.schema, view.0) {
        (None, None) => true,
        (Some(s), Some(v)) => ident_matches(s, v),
        _ => false,
    }
}

pub fn parse_qualified_name_token(raw: &[char]) -> (r: Option<QualifiedName>)
    ensures
        match qualified_name_of(raw@) {
            Some(v) => r matches Some(q) && qualified_matches(q, v),
            None => r is None,
        },
{
    let t = trim_identifier_token(raw);
    if t.len() == 0 {
        return None;
    }
    let parts = split_qualified_name(t.as_slice());
    let ghost pv = parts@.map_values(|p: Vec<char>| p@);
    if parts.len() == 0 || parts.len() > 2 {
        return None;
    }
    assert(pv[0] == parts@[0]@);
    if parts.len() == 1 {
        let name = match parse_ident_token(parts[0].as_slice()) {
            Some(n) => n,
            None => return None,
        };
        return Some(QualifiedName { schema: None, name });
    }
    assert(pv[1] == parts@[1]@);
    let schema = match parse_ident_token(parts[0].as_slice()) {
        Some(n) => n,
        None => return None,
    };
    let name = match parse_ident_token(parts[1].as_slice()) {
        Some(n) => n,
        None => return None,
    };
    Some(QualifiedName { schema: Some(schema), name })
}

/// The table name of a `CREATE [TEMP|TEMPORARY] TABLE [IF NOT EXISTS] name ...` statement.
pub open spec fn create_table_name_of(sql: Seq<char>) -> Option<
    (Option<(Seq<char>, bool)>, (Seq<char>, bool)),
> {
    let tokens = text::words(sql);
    if tokens.len() == 0 || !is_keyword(tokens[0], "CREATE"@) {
        None
    } else {
        let c1: int = if tokens.len() > 1 && (is_keyword(tokens[1], "TEMP"@) || is_keyword(
            tokens[1],
            "TEMPORARY"@,
        )) {
            2
        } else {
            1
        };
        if !(c1 < tokens.len() && is_keyword(tokens[c1], "TABLE"@)) {
            None
        } else {
            let c2 = c1 + 1;
            let c3 = if c2 + 2 < tokens.len() && is_keyword(tokens[c2], "IF"@) && is_keyword(
                tokens[c2 + 1],
                "NOT"@,
            ) && is_keyword(tokens[c2 + 2], "EXISTS"@) {
                c2 + 3
            } else {
                c2
            };
            if c3 < tokens.len() {
                qualified_name_of(tokens[c3])
            } else {
                None
            }
        }
    }
}

pub fn parse_create_table_name(statement_sql: &[char]) -> (r: Option<QualifiedName>)
    ensures
        match create_table_name_of(statement_sql@) {
            Some(v) => r matches Some(q) && qualified_matches(q, v),
            None => r is None,
        },
{
    let tokens = text::words_chars(statement_sql);
    let ghost tv = tokens@.map_values(|x: Vec<char>| x@);
    let n = tokens.len();
    if n == 0 {
        return None;
    }
    assert(tv[0] == tokens@[0]@);
    if !eq_keyword(tokens[0].as_slice(), "CREATE") {
        return None;
    }
    let mut cursor: usize = 1;
    if n > 1 {
        assert(tv[1] == tokens@[1]@);
        if eq_keyword(tokens[1].as_slice(), "TEMP") || eq_keyword(tokens[1].as_slice(), "TEMPORARY") {
            cursor = 2;
        }
    }
    if cursor >= n {
        return None;
    }
    assert(tv[cursor as int] == tokens@[cursor as int]@);
    if !eq_keyword(tokens[cursor].as_slice(), "TABLE") {
        return None;
    }
    cursor += 1;
    if cursor < n && n - cursor > 2 {
        assert(tv[cursor as int] == tokens@[cursor as int]@);
        assert(tv[cursor + 1] == tokens@[cursor + 1]@);
        assert(tv[cursor + 2] == tokens@[cursor + 2]@);
        if eq_keyword(tokens[cursor].as_slice(), "IF") && eq_keyword(
            tokens[cursor + 1].as_slice(),
            "NOT",
        ) && eq_keyword(tokens[cursor + 2].as_slice(), "EXISTS") {
            cursor += 3;
        }
    }
    if cursor >= n {
        return None;
    }
    assert(tv[cursor as int] == tokens@[cursor as int]@);
    parse_qualified_name_token(tokens[cursor].as_slice())
}

/// The partition clause of a `CREATE TABLE` statement: from `PARTITION BY` (or else
/// from ` PARTITION `), matched without regard to ASCII case, to the end, trimmed and
/// without trailing `;`.
pub open spec fn partition_clause_of(sql: Seq<char>) -> Option<Seq<char>> {
    let up = text::upper(sql);
    let found = match text::find_sub(up, "PARTITION BY"@) {
        Some(i) => Some(i),
        None => text::find_sub(up, " PARTITION "@),
    };
    match found {
        None => None,
        Some(i) => {
            let clause = text::trim(text::strip_trailing(text::trim(sql.skip(i)), ';'));
            if clause.len() == 0 {
                None
            } else {
                Some(clause)
            }
        },
    }
}

pub fn extract_partition_clause(statement_sql: &[char]) -> (r: Option<Vec<char>>)
    ensures
        match r {
            Some(v) => partition_clause_of(statement_sql@) == Some(v@),
            None => partition_clause_of(statement_sql@) is None,
        },
{
    let up = text::upper_chars(statement_sql);
    let m1 = text::chars_of("PARTITION BY");
    let index = match text::find_chars(up.as_slice(), m1.as_slice()) {
        Some(i) => i,
        None => {
            let m2 = text::chars_of(" PARTITION ");
            match text::find_chars(up.as_slice(), m2.as_slice()) {
                Some(i) => i,
                None => return None,
            }
        },
    };
    let tail = text::slice_copy(statement_sql, index, statement_sql.len());
    assert(tail@ =~= statement_sql@.skip(index as int));
    let t = text::trim_chars(tail.as_slice());
    let t = text::strip_trailing_chars(t.as_slice(), ';');
    let t = text::trim_chars(t.as_slice());
    if t.len() == 0 {
        None
    } else {
        Some(t)
    }
}

/// What the text of a `CREATE TABLE` statement tells before conversion: the
/// trimmed source, and whether it mentions `CHANGE COLUMN`, ` AFTER `,
/// `AUTO_INCREMENT` or `PARTITION BY` (ASCII case ignored), with the partition clause.
pub struct TableHints {
    pub source_sql: String,
    pub has_change_column: bool,
    pub has_after_clause: bool,
    pub has_auto_increment: bool,
    pub has_partitioning: bool,
    pub partition_sql: Option<String>,
}

pub open spec fn hints_hold(sql: Seq<char>, h: TableHints) -> bool {
    let up = text::upper(sql);
    &&& h.source_sql@ == text::trim(sql)
    &&& h.has_change_column == text::contains_sub(up, "CHANGE COLUMN"@)
    &&& h.has_after_clause == text::contains_sub(up, " AFTER "@)
    &&& h.has_auto_increment == text::contains_sub(up, "AUTO_INCREMENT"@)
    &&& h.has_partitioning == text::contains_sub(up, "PARTITION BY"@)
    &&& match h.partition_sql {
        Some(p) => h.has_partitioning && partition_clause_of(sql) == Some(p@),
        None => !h.has_partitioning || partition_clause_of(sql) is None,
    }
}

pub fn apply_preconversion_hints(statement_sql: &[char]) -> (h: TableHints)
    ensures
        hints_hold(statement_sql@, h),
{
    let source = text::trim_chars(statement_sql);
    let up = text::upper_chars(statement_sql);
    let has_change_column = text::contains_str(up.as_slice(), "CHANGE COLUMN");
    let has_after_clause = text::contains_str(up.as_slice(), " AFTER ");
    let has_auto_increment = text::contains_str(up.as_slice(), "AUTO_INCREMENT");
    let has_partitioning = text::contains_str(up.as_slice(), "PARTITION BY");
    let partition_sql = if has_partitioning {
        match extract_partition_clause(statement_sql) {
            Some(p) => Some(text::string_of(p.as_slice())),
            None => None,
        }
    } else {
        None
    };
    TableHints {
        source_sql: text::string_of(source.as_slice()),
        has_change_column,
        has_after_clause,
        has_auto_increment,
        has_partitioning,
        partition_sql,
    }
}

/// A table read from a `CREATE TABLE` statement: its name and the hints of its text.
pub struct ConvertedTable {
    pub name: QualifiedName,
    pub hints: TableHints,
    /// The line the statement starts on, where annotations attach.
    pub line: usize,
}

pub fn convert_create_table_statement(statement_sql: &[char], line: usize) -> (r: Result<
    ConvertedTable,
    Vec<char>,
>)
    ensures
        match create_table_name_of(statement_sql@) {
            Some(v) => r matches Ok(t) && qualified_matches(t.name, v) && hints_hold(
                statement_sql@,
                t.hints,
            ) && t.line == line,
            None => r matches Err(m) && m@ == "failed to parse CREATE TABLE name"@,
        },
{
    let name = match parse_create_table_name(statement_sql) {
        Some(n) => n,
        None => return Err(text::chars_of("failed to parse CREATE TABLE name")),
    };
    let hints = apply_preconversion_hints(statement_sql);
    Ok(ConvertedTable { name, hints, line })
}

/// The SQL SECURITY characteristic of a view.
#[derive(Debug, Clone, Copy, PartialEq, Eq, Structural)]
pub enum ViewSecurity {
    Definer,
    Invoker,
}

/// What a parsed `CREATE VIEW` statement says, as plain values. A name part that is
/// not a plain identifier is `None`.
pub struct CreateViewInfo {
    pub materialized: bool,
    pub secure: bool,
    pub temporary: bool,
    pub has_to: bool,
    pub with_no_schema_binding: bool,
    pub has_algorithm: bool,
    pub has_definer: bool,
    pub security: Option<ViewSecurity>,
    pub name_text: String,
    pub name_parts: Vec<Option<Ident>>,
    pub columns: Vec<Ident>,
    pub query: String,
}

/// A view read from a `CREATE VIEW` statement.
pub struct ConvertedView {
    pub name: QualifiedName,
    pub query: String,
    pub columns: Vec<Ident>,
    pub security: Option<ViewSecurity>,
    pub line: usize,
}

pub open spec fn view_rejection(info: CreateViewInfo) -> Option<Seq<char>> {
    if info.materialized || info.secure || info.temporary {
        Some("unsupported CREATE VIEW variant: materialized/secure/temporary"@)
    } else if info.has_to || info.with_no_schema_binding {
        Some("unsupported CREATE VIEW clause: TO or WITH NO SCHEMA BINDING"@)
    } else if info.has_algorithm || info.has_definer {
        Some("unsupported CREATE VIEW parameters: ALGORITHM/DEFINER"@)
    } else if info.name_parts@.len() == 0 || info.name_parts@.len() > 2 {
        Some("unsupported qualified name in CREATE VIEW: "@ + info.name_text@)
    } else if exists|k: int| 0 <= k < info.name_parts@.len() && #[trigger] info.name_parts@[k] is None {
        Some("unsupported object name part in CREATE VIEW: "@ + info.name_text@)
    } else {
        None
    }
}

/// Converts a `CREATE VIEW` statement: only plain MySQL views with a one- or
/// two-part name are accepted.
pub fn convert_create_view_statement(info: &CreateViewInfo, line: usize) -> (r: Result<
    ConvertedView,
    Vec<char>,
>)
    ensures
        match view_rejection(*info) {
            Some(m) => r matches Err(e) && e@ == m,
            None => r matches Ok(v) && v.query@ == info.query@ && v.security == info.security
                && v.line == line && v.columns@.len() == info.columns@.len() && (forall|k: int|
                0 <= k < info.columns@.len() ==> schema::same_ident(
                    #[trigger] v.columns@[k],
                    info.columns@[k],
                )) && (if info.name_parts@.len() == 1 {
                v.name.schema is None && schema::same_ident(v.name.name, info.name_parts@[0]->0)
            } else {
                v.name.schema matches Some(s) && schema::same_ident(s, info.name_parts@[0]->0)
                    && schema::same_ident(v.name.name, info.name_parts@[1]->0)
            }),
        },
{
    if info.materialized || info.secure || info.temporary {
        return Err(text::chars_of("unsupported CREATE VIEW variant: materialized/secure/temporary"));
    }
    if info.has_to || info.with_no_schema_binding {
        return Err(text::chars_of("unsupported CREATE VIEW clause: TO or WITH NO SCHEMA BINDING"));
    }
    if info.has_algorithm || info.has_definer {
        return Err(text::chars_of("unsupported CREATE VIEW parameters: ALGORITHM/DEFINER"));
    }
    let n = info.name_parts.len();
    if n == 0 || n > 2 {
        let mut m = text::chars_of("unsupported qualified name in CREATE VIEW: ");
        text::append_str(&mut m, info.name_text.as_str());
        return Err(m);
    }
    let mut k: usize = 0;
    while k < n
        invariant
            k <= n,
            1 <= n <= 2,
            n == info.name_parts@.len(),
            !(info.materialized || info.secure || info.temporary),
            !(info.has_to || info.with_no_schema_binding),
            !(info.has_algorithm || info.has_definer),
            forall|j: int| 0 <= j < k ==> info.name_parts@[j] is Some,
        decreases n - k,
    {
        if info.name_parts[k].is_none() {
            let mut m = text::chars_of("unsupported object name part in CREATE VIEW: ");
            text::append_str(&mut m, info.name_text.as_str());
            assert(info.name_parts@[k as int] is None);
            return Err(m);
        }
        k += 1;
    }
    let first = match &info.name_parts[0] {
        Some(id) => schema::copy_ident(id),
        None => return Err(Vec::new()),
    };
    let name = if n == 1 {
        QualifiedName { schema: None, name: first }
    } else {
        let second = match &info.name_parts[1] {
            Some(id) => schema::copy_ident(id),
            None => return Err(Vec::new()),
        };
        QualifiedName { schema: Some(first), name: second }
    };
    let mut columns: Vec<Ident> = Vec::new();
    let mut j: usize = 0;
    while j < info.columns.len()
        invariant
            j <= info.columns@.len(),
            columns@.len() == j,
            forall|i: int| 0 <= i < j ==> schema::same_ident(#[trigger] columns@[i], info.columns@[i]),
        decreases info.columns.len() - j,
    {
        columns.push(schema::copy_ident(&info.columns[j]));
        j += 1;
    }
    Ok(ConvertedView { name, query: info.query.clone(), columns, security: info.security, line })
}

/// The conversion error of a statement, with its position, text and line.
pub fn statement_conversion_error(
    statement_index: usize,
    source_sql: String,
    line: Option<usize>,
    message: Vec<char>,
) -> (e: Error)
    ensures
        e matches Error::StatementConversion { statement_index: i, source_sql: s, line: l, message: m }
            && i == statement_index && s@ == source_sql@ && l == line && m@ == message@,
{
    Error::StatementConversion {
        statement_index,
        source_sql,
        line,
        message: text::string_of(message.as_slice()),
    }
}

} // verus!
