use vstd::prelude::*;

use crate::text;

verus! {

/// The scanner state while splitting a `search_path` value on commas outside quotes.
pub struct SplitState {
    pub entries: Seq<Seq<char>>,
    pub current: Seq<char>,
    pub in_quotes: bool,
}

/// Splits `s` on commas outside double quotes; `""` inside quotes is kept as an escaped quote.
pub open spec fn split_scan(s: Seq<char>, st: SplitState) -> SplitState
    decreases s.len(),
{
    if s.len() == 0 {
        st
    } else if s[0] == '"' {
        if st.in_quotes && s.len() >= 2 && s[1] == '"' {
            split_scan(
                s.skip(2),
                SplitState { current: st.current + seq!['"', '"'], ..st },
            )
        } else {
            split_scan(
                s.drop_first(),
                SplitState { current: st.current.push('"'), in_quotes: !st.in_quotes, ..st },
            )
        }
    } else if s[0] == ',' && !st.in_quotes {
        split_scan(
            s.drop_first(),
            SplitState {
                entries: st.entries.push(text::trim(st.current)),
                current: Seq::empty(),
                ..st
            },
        )
    } else {
        split_scan(s.drop_first(), SplitState { current: st.current.push(s[0]), ..st })
    }
}

/// The comma-separated entries of a `search_path` value, each trimmed. A trailing
/// comma yields a final empty entry.
pub open spec fn search_path_entries(raw: Seq<char>) -> Seq<Seq<char>> {
    let st = split_scan(raw, SplitState { entries: Seq::empty(), current: Seq::empty(), in_quotes: false });
    if st.current.len() > 0 || (raw.len() > 0 && raw.last() == ',') {
        st.entries.push(text::trim(st.current))
    } else {
        st.entries
    }
}

pub fn split_search_path(raw: &str) -> (r: Vec<Vec<char>>)
    ensures
        r@.map_values(|e: Vec<char>| e@) == search_path_entries(raw@),
{
    let s = text::chars_of(raw);
    let ghost init = SplitState { entries: Seq::empty(), current: Seq::empty(), in_quotes: false };
    let mut entries: Vec<Vec<char>> = Vec::new();
    let mut current: Vec<char> = Vec::new();
    let mut in_quotes = false;
    let mut i: usize = 0;
    assert(s@.skip(0) =~= s@);
    assert(entries@.map_values(|e: Vec<char>| e@) =~= Seq::<Seq<char>>::empty());
    while i < s.len()
        invariant
            i <= s@.len(),
            s@ == raw@,
            split_scan(s@, init) == split_scan(
                s@.skip(i as int),
                SplitState {
                    entries: entries@.map_values(|e: Vec<char>| e@),
                    current: current@,
                    in_quotes,
                },
            ),
        decreases s.len() - i,
    {
        let ghost rest = s@.skip(i as int);
        let ghost st = SplitState {
            entries: entries@.map_values(|e: Vec<char>| e@),
            current: current@,
            in_quotes,
        };
        let c = s[i];
        assert(rest[0] == c);
        if c == '"' {
            if in_quotes && i + 1 < s.len() && s[i + 1] == '"' {
                assert(rest[1] == '"');
                current.push('"');
                current.push('"');
                assert(current@ =~= st.current + seq!['"', '"']);
                assert(rest.skip(2) =~= s@.skip(i + 2));
                assert(split_scan(rest, st) == split_scan(
                    rest.skip(2),
                    SplitState { current: st.current + seq!['"', '"'], ..st },
                ));
                i += 2;
            } else {
                current.push('"');
                in_quotes = !in_quotes;
                assert(rest.drop_first() =~= s@.skip(i + 1));
                assert(split_scan(rest, st) == split_scan(
                    rest.drop_first(),
                    SplitState { current: st.current.push('"'), in_quotes: !st.in_quotes, ..st },
                ));
                i += 1;
            }
        } else if c == ',' && !in_quotes {
            let t = text::trim_chars(current.as_slice());
            let ghost old_entries = entries@.map_values(|e: Vec<char>| e@);
            entries.push(t);
            assert(entries@.map_values(|e: Vec<char>| e@) =~= old_entries.push(t@));
            current = Vec::new();
            assert(rest.drop_first() =~= s@.skip(i + 1));
            assert(current@ =~= Seq::<char>::empty());
            i += 1;
        } else {
            current.push(c);
            assert(rest.drop_first() =~= s@.skip(i + 1));
            i += 1;
        }
    }
    assert(s@.skip(i as int) =~= Seq::<char>::empty());
    let ends_with_comma = s.len() > 0 && s[s.len() - 1] == ',';
    if current.len() > 0 || ends_with_comma {
        let t = text::trim_chars(current.as_slice());
        let ghost old_entries = entries@.map_values(|e: Vec<char>| e@);
        entries.push(t);
        assert(entries@.map_values(|e: Vec<char>| e@) =~= old_entries.push(t@));
    }
    entries
}

/// A search-path entry with its surrounding double quotes removed and `""` unescaped.
pub open spec fn unquote_entry(entry: Seq<char>) -> Seq<char> {
    if entry.len() >= 2 && entry[0] == '"' && entry.last() == '"' {
        text::undouble_char(entry.subrange(1, entry.len() - 1), '"')
    } else {
        entry
    }
}

/// Unquoting a search-path entry gives back any name that was quoted as an identifier.
pub proof fn law_unquote_inverts_quote(name: Seq<char>)
    ensures
        unquote_entry(text::quoted_with(name, '"')) == name,
{
    let q = text::quoted_with(name, '"');
    text::lemma_undouble_double(name, '"');
    assert(q.subrange(1, q.len() - 1) =~= text::double_char(name, '"'));
}

pub fn unquote_search_path_entry(entry: &[char]) -> (r: Vec<char>)
    ensures
        r@ == unquote_entry(entry@),
{
    if entry.len() >= 2 && entry[0] == '"' && entry[entry.len() - 1] == '"' {
        let inner = text::slice_copy(entry, 1, entry.len() - 1);
        text::undouble_chars(inner.as_slice(), '"')
    } else {
        text::slice_copy(entry, 0, entry.len())
    }
}

/// Schemas that PostgreSQL searches implicitly: `$user`, `pg_catalog`, `pg_temp`
/// and the per-session `pg_temp_*` schemas, compared case-insensitively.
pub open spec fn implicit_schema(schema: Seq<char>) -> bool {
    let n = text::lower(text::trim(schema));
    ||| n == "$user"@
    ||| n == "pg_catalog"@
    ||| n == "pg_temp"@
    ||| text::starts_with(n, "pg_temp_"@)
}

pub fn is_implicit_schema(schema: &[char]) -> (b: bool)
    ensures
        b == implicit_schema(schema@),
{
    let t = text::trim_chars(schema);
    let n = text::lower_chars(t.as_slice());
    text::eq_str(n.as_slice(), "$user") || text::eq_str(n.as_slice(), "pg_catalog")
        || text::eq_str(n.as_slice(), "pg_temp") || text::starts_with_str(n.as_slice(), "pg_temp_")
}

/// A search-path entry as the library keeps it: trimmed, unquoted, and dropped when
/// empty or implicit.
pub open spec fn normalized_entry(entry: Seq<char>) -> Option<Seq<char>> {
    let t = text::trim(entry);
    if t.len() == 0 {
        None
    } else if implicit_schema(unquote_entry(t)) {
        None
    } else {
        Some(unquote_entry(t))
    }
}

pub fn normalize_search_path_entry(entry: &[char]) -> (r: Option<Vec<char>>)
    ensures
        match r {
            Some(v) => normalized_entry(entry@) == Some(v@),
            None => normalized_entry(entry@) is None,
        },
{
    let t = text::trim_chars(entry);
    if t.len() == 0 {
        return None;
    }
    let n = unquote_search_path_entry(t.as_slice());
    if is_implicit_schema(n.as_slice()) {
        return None;
    }
    Some(n)
}

/// The explicit schemas of a search path, in order.
pub open spec fn search_path_schemas(raw: Seq<char>) -> Seq<Seq<char>> {
    filter_entries(search_path_entries(raw))
}

pub open spec fn filter_entries(entries: Seq<Seq<char>>) -> Seq<Seq<char>>
    decreases entries.len(),
{
    if entries.len() == 0 {
        Seq::empty()
    } else {
        let prev = filter_entries(entries.drop_last());
        match normalized_entry(entries.last()) {
            Some(e) => prev.push(e),
            None => prev,
        }
    }
}

/// Parses `SHOW search_path` output into the explicit schemas it names.
pub fn parse_search_path(raw: &str) -> (r: Vec<String>)
    ensures
        text::views(r@) == search_path_schemas(raw@),
{
    let entries = split_search_path(raw);
    let ghost ev = entries@.map_values(|e: Vec<char>| e@);
    let mut out: Vec<String> = Vec::new();
    let mut i: usize = 0;
    while i < entries.len()
        invariant
            i <= entries@.len(),
            ev == entries@.map_values(|e: Vec<char>| e@),
            ev == search_path_entries(raw@),
            text::views(out@) == filter_entries(ev.take(i as int)),
        decreases entries.len() - i,
    {
        let ghost prev_out = text::views(out@);
        assert(ev.take(i + 1).drop_last() =~= ev.take(i as int));
        assert(ev.take(i + 1).last() == entries@[i as int]@);
        match normalize_search_path_entry(entries[i].as_slice()) {
            Some(v) => {
                let s = text::string_of(v.as_slice());
                out.push(s);
                assert(text::views(out@) =~= prev_out.push(v@));
            },
            None => {},
        }
        i += 1;
    }
    assert(ev.take(entries@.len() as int) =~= ev);
    out
}

} // verus!
