use vstd::prelude::*;

use crate::error::Error;
use crate::text;
use vstd::string::StringSliceAdditionalSpecFns;

verus! {

/// `e` is the execution error for statement `sql` with the given message.
pub open spec fn is_execution_error(e: Error, sql: Seq<char>, message: Seq<char>) -> bool {
    e matches Error::Execution { sql: s, message: m } && s@ == sql && m@ == message
}

/// An execution error for `sql` carrying `message`.
pub fn execution_error(sql: &str, message: &Vec<char>) -> (e: Error)
    ensures
        is_execution_error(e, sql@, message@),
{
    Error::Execution { sql: text::owned(sql), message: text::string_of(message.as_slice()) }
}

/// `sql` trimmed and ending with exactly the terminator it had, or one added.
pub fn ensure_statement_terminated(sql: &str) -> (r: String)
    ensures
        r@ == text::terminate(text::trim(sql@)),
{
    let t = text::trim_str(sql);
    let t = text::terminate_chars(t);
    text::string_of(t.as_slice())
}

/// An optional text value that counts only when it is non-empty after trimming;
/// it is then kept trimmed.
pub open spec fn nonblank(value: Option<String>) -> Option<Seq<char>> {
    match value {
        Some(v) => if text::trim(v@).len() > 0 {
            Some(text::trim(v@))
        } else {
            None
        },
        None => None,
    }
}

pub fn nonblank_value(value: &Option<String>) -> (r: Option<Vec<char>>)
    ensures
        match r {
            Some(v) => nonblank(*value) == Some(v@),
            None => nonblank(*value) is None,
        },
{
    match value {
        Some(v) => {
            let t = text::trim_str(v.as_str());
            if t.len() > 0 {
                Some(t)
            } else {
                None
            }
        },
        None => None,
    }
}

/// The number of newline bytes in `b`.
pub open spec fn newline_count(b: Seq<u8>) -> nat
    decreases b.len(),
{
    if b.len() == 0 {
        0
    } else {
        newline_count(b.drop_last()) + if b.last() == 10u8 {
            1nat
        } else {
            0nat
        }
    }
}

/// The 1-based line of byte `offset` (clamped to the text's length).
pub open spec fn line_of(b: Seq<u8>, offset: int) -> int {
    let end = if offset < b.len() {
        offset
    } else {
        b.len() as int
    };
    1 + newline_count(b.take(end)) as int
}

proof fn lemma_newline_count_bound(b: Seq<u8>)
    ensures
        newline_count(b) <= b.len(),
    decreases b.len(),
{
    if b.len() > 0 {
        lemma_newline_count_bound(b.drop_last());
    }
}

/// The line on which byte `offset` of `sql` lies.
pub fn offset_to_line(sql: &str, offset: usize) -> (line: usize)
    requires
        sql.spec_bytes().len() < usize::MAX,
    ensures
        line == line_of(sql.spec_bytes(), offset as int),
{
    let bytes = sql.as_bytes();
    let n = bytes.len();
    let end = if offset < n {
        offset
    } else {
        n
    };
    let mut line: usize = 1;
    let mut i: usize = 0;
    while i < end
        invariant
            i <= end <= n,
            n == bytes@.len(),
            n < usize::MAX,
            line == 1 + newline_count(bytes@.take(i as int)),
            line <= i + 1,
        decreases end - i,
    {
        proof {
            lemma_newline_count_bound(bytes@.take(i as int));
        }
        assert(bytes@.take(i + 1).drop_last() =~= bytes@.take(i as int));
        if bytes[i] == 10u8 {
            line += 1;
        }
        i += 1;
    }
    line
}

/// A statement's text trimmed and ending with one terminator.
pub fn ensure_sql_terminated(sql: &str) -> (r: String)
    ensures
        r@ == text::terminate(text::trim(sql@)),
{
    let trimmed = text::trim_str(sql);
    let done = text::terminate_chars(trimmed);
    text::string_of(done.as_slice())
}

/// The index of the character at which byte `b` of `s` starts, looking from character
/// `k` on; none when `b` falls inside a character or past the end.
pub open spec fn char_at_byte(s: Seq<char>, b: int, k: int) -> Option<int>
    decreases s.len() + 1 - k,
{
    if k < 0 || k > s.len() {
        None
    } else {
        let offset = vstd::utf8::encode_utf8(s.take(k)).len() as int;
        if offset == b {
            Some(k)
        } else if offset > b {
            None
        } else {
            char_at_byte(s, b, k + 1)
        }
    }
}

/// The characters between bytes `start` and `end` (`str::get`): none unless both fall on
/// character boundaries with `start <= end`.
pub open spec fn byte_slice(s: Seq<char>, start: int, end: int) -> Option<Seq<char>> {
    if start <= end {
        match (char_at_byte(s, start, 0), char_at_byte(s, end, 0)) {
            (Some(a), Some(b)) => Some(s.subrange(a, b)),
            _ => None,
        }
    } else {
        None
    }
}

proof fn lemma_encode_take_step(s: Seq<char>, k: int)
    requires
        0 <= k < s.len(),
    ensures
        vstd::utf8::encode_utf8(s.take(k + 1)).len() == vstd::utf8::encode_utf8(s.take(k)).len()
            + vstd::utf8::encode_scalar(s[k] as u32).len(),
{
    text::lemma_encode_push(s.take(k), s[k]);
    assert(s.take(k + 1) =~= s.take(k).push(s[k]));
}

/// The index of the character of `v` at which byte `b` starts.
fn char_index_at_byte(v: &Vec<char>, b: usize) -> (r: Option<usize>)
    requires
        vstd::utf8::encode_utf8(v@).len() <= usize::MAX,
    ensures
        match r {
            Some(k) => char_at_byte(v@, b as int, 0) == Some(k as int) && k <= v@.len(),
            None => char_at_byte(v@, b as int, 0) is None,
        },
{
    let mut k: usize = 0;
    let mut offset: usize = 0;
    proof {
        assert(v@.take(0) =~= Seq::<char>::empty());
        assert(vstd::utf8::encode_utf8(Seq::<char>::empty()) =~= Seq::<u8>::empty());
    }
    while k <= v.len()
        invariant
            k <= v@.len() + 1,
            k <= v@.len() ==> offset == vstd::utf8::encode_utf8(v@.take(k as int)).len(),
            vstd::utf8::encode_utf8(v@).len() <= usize::MAX,
            char_at_byte(v@, b as int, 0) == char_at_byte(v@, b as int, k as int),
        decreases v@.len() + 1 - k,
    {
        if offset == b {
            return Some(k);
        }
        if offset > b {
            return None;
        }
        if k == v.len() {
            assert(char_at_byte(v@, b as int, k + 1) is None);
            return None;
        }
        proof {
            lemma_encode_take_step(v@, k as int);
            text::lemma_encode_prefix_len(v@, k + 1);
        }
        offset = offset + text::utf8_len(v[k]);
        k += 1;
    }
    None
}

/// The characters between two byte offsets of `sql`, or all of it when they do not fall
/// on character boundaries in order.
pub fn fragment_between(sql: &str, start: usize, end: usize) -> (r: Vec<char>)
    ensures
        r@ == match byte_slice(sql@, start as int, end as int) {
            Some(f) => f,
            None => sql@,
        },
{
    let v = text::chars_of(sql);
    proof {
        assert(sql.spec_bytes() == vstd::utf8::encode_utf8(v@));
    }
    let total = sql.as_bytes().len();
    if start <= end {
        match (char_index_at_byte(&v, start), char_index_at_byte(&v, end)) {
            (Some(x), Some(y)) => {
                if x <= y {
                    return text::slice_copy(v.as_slice(), x, y);
                }
                proof {
                    lemma_char_at_byte_monotone(v@, start as int, end as int);
                }
            },
            _ => {},
        }
    }
    v
}

/// A later byte starts at a later character.
proof fn lemma_char_at_byte_monotone(s: Seq<char>, b1: int, b2: int)
    requires
        b1 <= b2,
        char_at_byte(s, b1, 0) is Some,
        char_at_byte(s, b2, 0) is Some,
    ensures
        char_at_byte(s, b1, 0)->0 <= char_at_byte(s, b2, 0)->0,
{
    lemma_char_at_byte_offset(s, b1, 0);
    lemma_char_at_byte_offset(s, b2, 0);
    let x = char_at_byte(s, b1, 0)->0;
    let y = char_at_byte(s, b2, 0)->0;
    if y < x {
        lemma_prefix_len_strict(s, y, x);
    }
}

proof fn lemma_char_at_byte_offset(s: Seq<char>, b: int, k: int)
    ensures
        char_at_byte(s, b, k) matches Some(x) ==> k <= x <= s.len()
            && vstd::utf8::encode_utf8(s.take(x)).len() == b,
    decreases s.len() + 1 - k,
{
    if 0 <= k <= s.len() {
        let offset = vstd::utf8::encode_utf8(s.take(k)).len() as int;
        if offset != b && offset < b {
            lemma_char_at_byte_offset(s, b, k + 1);
        }
    }
}

/// Longer prefixes have longer encodings.
proof fn lemma_prefix_len_strict(s: Seq<char>, i: int, j: int)
    requires
        0 <= i < j <= s.len(),
    ensures
        vstd::utf8::encode_utf8(s.take(i)).len() < vstd::utf8::encode_utf8(s.take(j)).len(),
    decreases j - i,
{
    lemma_encode_take_step(s, j - 1);
    if i < j - 1 {
        lemma_prefix_len_strict(s, i, j - 1);
    }
}


/// The fragment of `sql` between two byte offsets, or all of it.
pub open spec fn fragment_of(sql: Seq<char>, start: int, end: int) -> Seq<char> {
    match byte_slice(sql, start, end) {
        Some(f) => f,
        None => sql,
    }
}

} // verus!
