use vstd::prelude::*;

use crate::ir::Expr;
use crate::strset;
use crate::text;

verus! {

/// The scanner state of `collapse_whitespace`.
pub struct CollapseState {
    pub out: Seq<char>,
    pub in_single: bool,
    pub in_double: bool,
    pub pending_space: bool,
}

/// Output so far with a pending separator written out when needed.
pub open spec fn flush_space(st: CollapseState) -> Seq<char> {
    if st.pending_space && st.out.len() > 0 {
        st.out.push(' ')
    } else {
        st.out
    }
}

/// Collapses runs of whitespace outside quoted text to one space; quoted text
/// (single or double quotes, with doubled quotes as escapes) is kept as written.
pub open spec fn collapse_scan(s: Seq<char>, st: CollapseState) -> Seq<char>
    decreases s.len(),
{
    if s.len() == 0 {
        st.out
    } else {
        let c = s[0];
        if c == '\'' && !st.in_double {
            let out = flush_space(st).push(c);
            if st.in_single {
                if s.len() >= 2 && s[1] == '\'' {
                    collapse_scan(
                        s.skip(2),
                        CollapseState { out: out.push('\''), pending_space: false, ..st },
                    )
                } else {
                    collapse_scan(
                        s.drop_first(),
                        CollapseState { out, pending_space: false, in_single: false, ..st },
                    )
                }
            } else {
                collapse_scan(
                    s.drop_first(),
                    CollapseState { out, pending_space: false, in_single: true, ..st },
                )
            }
        } else if c == '"' && !st.in_single {
            let out = flush_space(st).push(c);
            if st.in_double {
                if s.len() >= 2 && s[1] == '"' {
                    collapse_scan(
                        s.skip(2),
                        CollapseState { out: out.push('"'), pending_space: false, ..st },
                    )
                } else {
                    collapse_scan(
                        s.drop_first(),
                        CollapseState { out, pending_space: false, in_double: false, ..st },
                    )
                }
            } else {
                collapse_scan(
                    s.drop_first(),
                    CollapseState { out, pending_space: false, in_double: true, ..st },
                )
            }
        } else if !st.in_single && !st.in_double && text::is_ws(c) {
            collapse_scan(s.drop_first(), CollapseState { pending_space: true, ..st })
        } else {
            collapse_scan(
                s.drop_first(),
                CollapseState { out: flush_space(st).push(c), pending_space: false, ..st },
            )
        }
    }
}

pub open spec fn collapsed(s: Seq<char>) -> Seq<char> {
    text::trim(
        collapse_scan(
            s,
            CollapseState {
                out: Seq::empty(),
                in_single: false,
                in_double: false,
                pending_space: false,
            },
        ),
    )
}

/// Collapses whitespace outside quotes and trims the result.
pub fn collapse_whitespace(input: &[char]) -> (r: Vec<char>)
    ensures
        r@ == collapsed(input@),
{
    let ghost init = CollapseState {
        out: Seq::empty(),
        in_single: false,
        in_double: false,
        pending_space: false,
    };
    let mut out: Vec<char> = Vec::new();
    let mut in_single = false;
    let mut in_double = false;
    let mut pending = false;
    let mut i: usize = 0;
    assert(input@.skip(0) =~= input@);
    while i < input.len()
        invariant
            i <= input@.len(),
            collapse_scan(input@, init) == collapse_scan(
                input@.skip(i as int),
                CollapseState {
                    out: out@,
                    in_single,
                    in_double,
                    pending_space: pending,
                },
            ),
        decreases input.len() - i,
    {
        let ghost rest = input@.skip(i as int);
        let ghost st = CollapseState { out: out@, in_single, in_double, pending_space: pending };
        let c = input[i];
        assert(rest[0] == c);
        assert(rest.drop_first() =~= input@.skip(i + 1));
        if c == '\'' && !in_double {
            if pending && out.len() > 0 {
                out.push(' ');
            }
            pending = false;
            out.push(c);
            if in_single {
                if i + 1 < input.len() && input[i + 1] == '\'' {
                    assert(rest[1] == '\'');
                    assert(rest.skip(2) =~= input@.skip(i + 2));
                    out.push('\'');
                    i += 2;
                } else {
                    in_single = false;
                    i += 1;
                }
            } else {
                in_single = true;
                i += 1;
            }
        } else if c == '"' && !in_single {
            if pending && out.len() > 0 {
                out.push(' ');
            }
            pending = false;
            out.push(c);
            if in_double {
                if i + 1 < input.len() && input[i + 1] == '"' {
                    assert(rest[1] == '"');
                    assert(rest.skip(2) =~= input@.skip(i + 2));
                    out.push('"');
                    i += 2;
                } else {
                    in_double = false;
                    i += 1;
                }
            } else {
                in_double = true;
                i += 1;
            }
        } else if !in_single && !in_double && text::is_whitespace(c) {
            pending = true;
            i += 1;
        } else {
            if pending && out.len() > 0 {
                out.push(' ');
            }
            pending = false;
            out.push(c);
            i += 1;
        }
    }
    assert(input@.skip(i as int) =~= Seq::<char>::empty());
    text::trim_chars(out.as_slice())
}

/// Whether a parenthesised expression's first `(` closes at its very last character,
/// ignoring parentheses inside quoted text, with balanced parentheses and quotes.
pub open spec fn wrap_scan(s: Seq<char>, depth: nat, in_single: bool, in_double: bool) -> bool
    decreases s.len(),
{
    if s.len() == 0 {
        depth == 0 && !in_single && !in_double
    } else {
        let c = s[0];
        if c == '\'' && !in_double {
            if in_single {
                if s.len() >= 2 && s[1] == '\'' {
                    wrap_scan(s.skip(2), depth, in_single, in_double)
                } else {
                    wrap_scan(s.drop_first(), depth, false, in_double)
                }
            } else {
                wrap_scan(s.drop_first(), depth, true, in_double)
            }
        } else if c == '"' && !in_single {
            if in_double {
                if s.len() >= 2 && s[1] == '"' {
                    wrap_scan(s.skip(2), depth, in_single, in_double)
                } else {
                    wrap_scan(s.drop_first(), depth, in_single, false)
                }
            } else {
                wrap_scan(s.drop_first(), depth, in_single, true)
            }
        } else if in_single || in_double {
            wrap_scan(s.drop_first(), depth, in_single, in_double)
        } else if c == '(' {
            wrap_scan(s.drop_first(), depth + 1, in_single, in_double)
        } else if c == ')' {
            if depth == 0 {
                false
            } else if depth == 1 && s.len() > 1 {
                false
            } else {
                wrap_scan(s.drop_first(), (depth - 1) as nat, in_single, in_double)
            }
        } else {
            wrap_scan(s.drop_first(), depth, in_single, in_double)
        }
    }
}

pub open spec fn parens_wrap_entire(s: Seq<char>) -> bool {
    wrap_scan(s, 0, false, false)
}

pub fn outer_parens_wrap_entire_expr(expr: &[char]) -> (b: bool)
    ensures
        b == parens_wrap_entire(expr@),
{
    let mut depth: usize = 0;
    let mut in_single = false;
    let mut in_double = false;
    let mut i: usize = 0;
    assert(expr@.skip(0) =~= expr@);
    while i < expr.len()
        invariant
            i <= expr@.len(),
            depth <= i,
            parens_wrap_entire(expr@) == wrap_scan(
                expr@.skip(i as int),
                depth as nat,
                in_single,
                in_double,
            ),
        decreases expr.len() - i,
    {
        let ghost rest = expr@.skip(i as int);
        let c = expr[i];
        assert(rest[0] == c);
        assert(rest.drop_first() =~= expr@.skip(i + 1));
        if c == '\'' && !in_double {
            if in_single {
                if i + 1 < expr.len() && expr[i + 1] == '\'' {
                    assert(rest[1] == '\'');
                    assert(rest.skip(2) =~= expr@.skip(i + 2));
                    i += 2;
                } else {
                    in_single = false;
                    i += 1;
                }
            } else {
                in_single = true;
                i += 1;
            }
        } else if c == '"' && !in_single {
            if in_double {
                if i + 1 < expr.len() && expr[i + 1] == '"' {
                    assert(rest[1] == '"');
                    assert(rest.skip(2) =~= expr@.skip(i + 2));
                    i += 2;
                } else {
                    in_double = false;
                    i += 1;
                }
            } else {
                in_double = true;
                i += 1;
            }
        } else if in_single || in_double {
            i += 1;
        } else if c == '(' {
            depth += 1;
            i += 1;
        } else if c == ')' {
            if depth == 0 {
                return false;
            }
            if depth == 1 && i + 1 < expr.len() {
                return false;
            }
            depth -= 1;
            i += 1;
        } else {
            i += 1;
        }
    }
    assert(expr@.skip(i as int) =~= Seq::<char>::empty());
    depth == 0 && !in_single && !in_double
}

/// Outer parentheses that enclose the whole expression removed, repeatedly, with
/// whitespace trimmed at each step.
pub open spec fn strip_parens(s: Seq<char>) -> Seq<char>
    decreases s.len(),
{
    let t = text::trim(s);
    if t.len() >= 2 && t[0] == '(' && t.last() == ')' && parens_wrap_entire(t) {
        proof {
            lemma_trim_shorter(s);
        }
        strip_parens(t.subrange(1, t.len() - 1))
    } else {
        t
    }
}

pub proof fn lemma_trim_shorter(s: Seq<char>)
    ensures
        text::trim(s).len() <= s.len(),
{
    lemma_trim_start_shorter(s);
    lemma_trim_end_shorter(text::trim_start(s));
}

proof fn lemma_trim_start_shorter(s: Seq<char>)
    ensures
        text::trim_start(s).len() <= s.len(),
    decreases s.len(),
{
    if s.len() > 0 && text::is_ws(s[0]) {
        lemma_trim_start_shorter(s.drop_first());
    }
}

proof fn lemma_trim_end_shorter(s: Seq<char>)
    ensures
        text::trim_end(s).len() <= s.len(),
    decreases s.len(),
{
    if s.len() > 0 && text::is_ws(s.last()) {
        lemma_trim_end_shorter(s.drop_last());
    }
}

pub fn strip_redundant_outer_parens(input: &[char]) -> (r: Vec<char>)
    ensures
        r@ == strip_parens(input@),
{
    let mut candidate = text::slice_copy(input, 0, input.len());
    assert(candidate@ =~= input@);
    loop
        invariant
            strip_parens(input@) == strip_parens(candidate@),
        decreases candidate@.len(),
    {
        let trimmed = text::trim_chars(candidate.as_slice());
        proof {
            lemma_trim_shorter(candidate@);
        }
        let n = trimmed.len();
        if !(n >= 2 && trimmed[0] == '(' && trimmed[n - 1] == ')') {
            return trimmed;
        }
        if !outer_parens_wrap_entire_expr(trimmed.as_slice()) {
            return trimmed;
        }
        candidate = text::slice_copy(trimmed.as_slice(), 1, n - 1);
    }
}

/// A signed integer literal in canonical form: trimmed, sign `+` dropped, leading
/// zeros dropped (keeping one `0`), and `-0` written `0`.
pub open spec fn canonical_integer(raw: Seq<char>) -> Option<Seq<char>> {
    let v = text::trim(raw);
    if v.len() == 0 {
        None
    } else {
        let negative = v[0] == '-';
        let digits = if v[0] == '-' || v[0] == '+' {
            v.drop_first()
        } else {
            v
        };
        if digits.len() == 0 || !text::all_digits(digits) {
            None
        } else {
            let stripped = text::strip_leading(digits, '0');
            let nd = if stripped.len() == 0 {
                seq!['0']
            } else {
                stripped
            };
            if negative && nd != seq!['0'] {
                Some(seq!['-'] + nd)
            } else {
                Some(nd)
            }
        }
    }
}

pub fn canonical_integer_literal(raw: &[char]) -> (r: Option<Vec<char>>)
    ensures
        match r {
            Some(v) => canonical_integer(raw@) == Some(v@),
            None => canonical_integer(raw@) is None,
        },
{
    let v = text::trim_chars(raw);
    if v.len() == 0 {
        return None;
    }
    let negative = v[0] == '-';
    let digits = if v[0] == '-' || v[0] == '+' {
        text::slice_copy(v.as_slice(), 1, v.len())
    } else {
        text::slice_copy(v.as_slice(), 0, v.len())
    };
    assert(digits@ =~= (if v@[0] == '-' || v@[0] == '+' {
        v@.drop_first()
    } else {
        v@
    }));
    if digits.len() == 0 {
        return None;
    }
    let mut i: usize = 0;
    while i < digits.len()
        invariant
            i <= digits@.len(),
            v@ == text::trim(raw@),
            v@.len() > 0,
            digits@ == (if v@[0] == '-' || v@[0] == '+' {
                v@.drop_first()
            } else {
                v@
            }),
            forall|k: int| 0 <= k < i ==> text::is_digit(#[trigger] digits@[k]),
        decreases digits.len() - i,
    {
        if !('0' <= digits[i] && digits[i] <= '9') {
            assert(!text::all_digits(digits@));
            return None;
        }
        i += 1;
    }
    assert(text::all_digits(digits@));
    let stripped = text::strip_leading_chars(digits.as_slice(), '0');
    let nd = if stripped.len() == 0 {
        let mut z: Vec<char> = Vec::new();
        z.push('0');
        z
    } else {
        stripped
    };
    let is_zero = nd.len() == 1 && nd[0] == '0';
    assert(is_zero == (nd@ == seq!['0'])) by {
        if nd@ == seq!['0'] {
            assert(nd@[0] == '0');
        }
        if is_zero {
            assert(nd@ =~= seq!['0']);
        }
    }
    if negative && !is_zero {
        let mut out: Vec<char> = Vec::new();
        out.push('-');
        text::append_chars(&mut out, nd.as_slice());
        assert(out@ =~= seq!['-'] + nd@);
        Some(out)
    } else {
        Some(nd)
    }
}

/// The index of the first pair `cc` in `s`.
pub open spec fn first_pair(s: Seq<char>, c: char) -> Option<int>
    decreases s.len(),
{
    if s.len() < 2 {
        None
    } else if s[0] == c && s[1] == c {
        Some(0)
    } else {
        match first_pair(s.drop_first(), c) {
            Some(k) => Some(k + 1),
            None => None,
        }
    }
}

pub proof fn lemma_first_pair_at(s: Seq<char>, c: char, i: int)
    requires
        0 <= i,
        i + 1 < s.len(),
        s[i] == c && s[i + 1] == c,
        forall|k: int| 0 <= k < i ==> !(s[k] == c && #[trigger] s[k + 1] == c),
    ensures
        first_pair(s, c) == Some(i),
    decreases i,
{
    if i > 0 {
        let t = s.drop_first();
        assert forall|k: int| 0 <= k < i - 1 implies !(t[k] == c && #[trigger] t[k + 1] == c) by {
            assert(t[k] == s[k + 1]);
            assert(t[k + 1] == s[k + 2]);
            assert(!(s[k + 1] == c && s[(k + 1) + 1] == c));
        }
        lemma_first_pair_at(t, c, i - 1);
        assert(!(s[0] == c && s[0int + 1] == c));
    }
}

pub proof fn lemma_first_pair_none(s: Seq<char>, c: char)
    requires
        forall|k: int| 0 <= k && k + 1 < s.len() ==> !(s[k] == c && #[trigger] s[k + 1] == c),
    ensures
        first_pair(s, c) is None,
    decreases s.len(),
{
    if s.len() >= 2 {
        let t = s.drop_first();
        assert forall|k: int| 0 <= k && k + 1 < t.len() implies !(t[k] == c && #[trigger] t[k
            + 1] == c) by {
            assert(t[k] == s[k + 1]);
            assert(t[k + 1] == s[k + 2]);
            assert(!(s[k + 1] == c && s[(k + 1) + 1] == c));
        }
        lemma_first_pair_none(t, c);
        assert(!(s[0] == c && s[0int + 1] == c));
    }
}

pub fn find_pair(v: &[char], c: char) -> (r: Option<usize>)
    ensures
        match r {
            Some(i) => first_pair(v@, c) == Some(i as int) && i + 1 < v@.len(),
            None => first_pair(v@, c) is None,
        },
{
    let mut i: usize = 0;
    while i < v.len() && v.len() - i > 1
        invariant
            i <= v@.len(),
            forall|k: int| 0 <= k < i && k + 1 < v@.len() ==> !(v@[k] == c && #[trigger] v@[k + 1]
                == c),
        decreases v.len() - i,
    {
        if v[i] == c && v[i + 1] == c {
            proof {
                lemma_first_pair_at(v@, c, i as int);
            }
            return Some(i);
        }
        i += 1;
    }
    proof {
        lemma_first_pair_none(v@, c);
    }
    None
}

/// The last `.`-separated part of a type name, trimmed, stripped of double quotes
/// and lowercased.
pub open spec fn canonical_type(raw: Seq<char>) -> Seq<char> {
    text::lower(
        text::strip_trailing(text::strip_leading(text::trim(text::split_on(raw, '.').last()), '"'), '"'),
    )
}

pub fn canonical_type_name(raw: &[char]) -> (r: Vec<char>)
    ensures
        r@ == canonical_type(raw@),
{
    let parts = text::split_chars(raw, '.');
    proof {
        text::lemma_split_on_nonempty(raw@, '.');
    }
    let ghost pv = parts@.map_values(|p: Vec<char>| p@);
    assert(pv.last() == parts@[parts@.len() - 1]@);
    let last = &parts[parts.len() - 1];
    let t = text::trim_chars(last.as_slice());
    let t = text::strip_leading_chars(t.as_slice(), '"');
    let t = text::strip_trailing_chars(t.as_slice(), '"');
    text::lower_chars(t.as_slice())
}

pub open spec fn integer_type_name(t: Seq<char>) -> bool {
    ||| t == "int"@
    ||| t == "int2"@
    ||| t == "int4"@
    ||| t == "int8"@
    ||| t == "integer"@
    ||| t == "smallint"@
    ||| t == "bigint"@
}

pub fn is_integer_type(t: &[char]) -> (b: bool)
    ensures
        b == integer_type_name(t@),
{
    text::eq_str(t, "int") || text::eq_str(t, "int2") || text::eq_str(t, "int4") || text::eq_str(
        t,
        "int8",
    ) || text::eq_str(t, "integer") || text::eq_str(t, "smallint") || text::eq_str(t, "bigint")
}

/// A quoted integer cast such as `'007'::int4`, reduced to its canonical integer.
pub open spec fn integer_cast_literal(expr: Seq<char>) -> Option<Seq<char>> {
    match first_pair(expr, ':') {
        None => None,
        Some(k) => {
            let literal = expr.take(k);
            let data_type = expr.skip(k + 2);
            if first_pair(data_type, ':') is Some {
                None
            } else if !integer_type_name(canonical_type(data_type)) {
                None
            } else {
                let q = text::trim(literal);
                if q.len() >= 2 && q[0] == '\'' && q.last() == '\'' {
                    let inner = q.subrange(1, q.len() - 1);
                    if inner.contains('\'') {
                        None
                    } else {
                        canonical_integer(inner)
                    }
                } else {
                    None
                }
            }
        },
    }
}

#[verifier::loop_isolation(false)]
pub fn normalize_integer_cast_literal(expr: &[char]) -> (r: Option<Vec<char>>)
    ensures
        match r {
            Some(v) => integer_cast_literal(expr@) == Some(v@),
            None => integer_cast_literal(expr@) is None,
        },
{
    let k = match find_pair(expr, ':') {
        Some(k) => k,
        None => return None,
    };
    let len = expr.len();
    assert(k + 1 < len);
    let literal = text::slice_copy(expr, 0, k);
    let data_type = text::slice_copy(expr, k + 2, len);
    assert(literal@ =~= expr@.take(k as int));
    assert(data_type@ =~= expr@.skip(k + 2));
    if find_pair(data_type.as_slice(), ':').is_some() {
        return None;
    }
    let canonical_type = canonical_type_name(data_type.as_slice());
    if !is_integer_type(canonical_type.as_slice()) {
        return None;
    }
    let q = text::trim_chars(literal.as_slice());
    let n = q.len();
    if !(n >= 2 && q[0] == '\'' && q[n - 1] == '\'') {
        return None;
    }
    let inner = text::slice_copy(q.as_slice(), 1, n - 1);
    let mut i: usize = 0;
    while i < inner.len()
        invariant
            i <= inner@.len(),
            forall|k2: int| 0 <= k2 < i ==> inner@[k2] != '\'',
        decreases inner.len() - i,
    {
        if inner[i] == '\'' {
            assert(inner@.contains('\''));
            return None;
        }
        i += 1;
    }
    assert(!inner@.contains('\''));
    canonical_integer_literal(inner.as_slice())
}

/// The canonical spelling of a raw expression used when comparing expressions:
/// whitespace collapsed, redundant outer parentheses removed, and integer literals
/// (plain or cast from a quoted string) written canonically.
pub open spec fn canonical_raw(raw: Seq<char>) -> Seq<char> {
    let n = collapsed(strip_parens(collapsed(raw)));
    match integer_cast_literal(n) {
        Some(x) => x,
        None => match canonical_integer(n) {
            Some(x) => x,
            None => n,
        },
    }
}

pub fn canonical_raw_expr(raw: &[char]) -> (r: Vec<char>)
    ensures
        r@ == canonical_raw(raw@),
{
    let n = collapse_whitespace(raw);
    let n = strip_redundant_outer_parens(n.as_slice());
    let n = collapse_whitespace(n.as_slice());
    if let Some(x) = normalize_integer_cast_literal(n.as_slice()) {
        return x;
    }
    if let Some(x) = canonical_integer_literal(n.as_slice()) {
        return x;
    }
    n
}

/// The canonical text of an expression, for raw text possibly wrapped in parentheses;
/// the policy has none for any other form of expression.
pub open spec fn canonical_expr(e: Expr) -> Option<Seq<char>>
    decreases e,
{
    match e {
        Expr::Raw(raw) => Some(canonical_raw(raw@)),
        Expr::Paren(inner) => canonical_expr(*inner),
        _ => None,
    }
}

pub fn canonical_expression(e: &Expr) -> (r: Option<Vec<char>>)
    ensures
        match r {
            Some(v) => canonical_expr(*e) == Some(v@),
            None => canonical_expr(*e) is None,
        },
    decreases e,
{
    match e {
        Expr::Raw(raw) => {
            let v = text::chars_of(raw.as_str());
            Some(canonical_raw_expr(v.as_slice()))
        },
        Expr::Paren(inner) => canonical_expression(inner),
        _ => None,
    }
}

/// Two expressions are equivalent when both have a canonical text and the texts agree.
pub open spec fn equivalent(left: Expr, right: Expr) -> bool {
    canonical_expr(left) is Some && canonical_expr(right) is Some && canonical_expr(left)
        == canonical_expr(right)
}

/// The residual equivalence check of the PostgreSQL policy for expressions whose
/// raw spellings still differ after normalization.
pub fn is_equivalent_expr(left: &Expr, right: &Expr) -> (b: bool)
    ensures
        b == equivalent(*left, *right),
{
    let l = match canonical_expression(left) {
        Some(l) => l,
        None => return false,
    };
    let r = match canonical_expression(right) {
        Some(r) => r,
        None => return false,
    };
    strset::compare_chars(l.as_slice(), r.as_slice()) == 0
}

/// Equivalence is symmetric.
pub proof fn law_equivalence_symmetric(left: Expr, right: Expr)
    ensures
        equivalent(left, right) == equivalent(right, left),
{
}

/// Equivalence is transitive.
pub proof fn law_equivalence_transitive(a: Expr, b: Expr, c: Expr)
    requires
        equivalent(a, b),
        equivalent(b, c),
    ensures
        equivalent(a, c),
{
}

/// Every raw expression, however parenthesised, is equivalent to itself; only
/// structured forms are never equivalent to anything.
pub proof fn law_equivalence_reflexive_on_raw(e: Expr)
    requires
        canonical_expr(e) is Some,
    ensures
        equivalent(e, e),
{
}

/// Wrapping an expression in parentheses does not change what it is equivalent to.
pub proof fn law_parentheses_transparent(e: Expr, other: Expr)
    ensures
        equivalent(Expr::Paren(Box::new(e)), other) == equivalent(e, other),
{
}

} // verus!
