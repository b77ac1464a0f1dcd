use vstd::prelude::*;

use crate::text;

verus! {

/// A server version as `major.minor.patch`.
#[derive(Debug, Clone, Copy, PartialEq, Eq, Structural)]
pub struct Version {
    pub major: u16,
    pub minor: u16,
    pub patch: u16,
}

/// The leading run of ASCII digits of `s`.
pub open spec fn digit_prefix(s: Seq<char>) -> Seq<char>
    decreases s.len(),
{
    if s.len() > 0 && text::is_digit(s[0]) {
        seq![s[0]] + digit_prefix(s.drop_first())
    } else {
        Seq::empty()
    }
}

pub open spec fn digit_value(c: char) -> nat {
    (c as u32 - '0' as u32) as nat
}

/// The decimal value of a run of ASCII digits.
pub open spec fn decimal_value(d: Seq<char>) -> nat
    decreases d.len(),
{
    if d.len() == 0 {
        0
    } else {
        decimal_value(d.drop_last()) * 10 + digit_value(d.last())
    }
}

/// A version component: the leading ASCII digits of `raw`, read as a `u16`
/// (`None` when there are no leading digits or the value does not fit).
pub open spec fn version_component(raw: Seq<char>) -> Option<u16> {
    let d = digit_prefix(raw);
    if d.len() == 0 || decimal_value(d) > u16::MAX {
        None
    } else {
        Some(decimal_value(d) as u16)
    }
}

/// The component at `index` among the `.`-separated parts of `word`, if that part exists.
pub open spec fn dotted_part(word: Seq<char>, index: nat) -> Option<Seq<char>>
    decreases index,
{
    if index == 0 {
        Some(text::prefix_until(word, '.'))
    } else {
        match text::after_first(word, '.') {
            Some(rest) => dotted_part(rest, (index - 1) as nat),
            None => None,
        }
    }
}

/// An optional component that defaults to zero when absent or unreadable.
pub open spec fn component_or_zero(part: Option<Seq<char>>) -> u16 {
    match part {
        Some(p) => match version_component(p) {
            Some(v) => v,
            None => 0,
        },
        None => 0,
    }
}

/// A server version string: its first word split on `.`, with a required
/// major component and optional minor and patch components.
pub open spec fn server_version_of(raw: Seq<char>) -> Option<Version> {
    match text::first_word(raw) {
        None => None,
        Some(w) => match version_component(text::prefix_until(w, '.')) {
            None => None,
            Some(major) => Some(
                Version {
                    major,
                    minor: component_or_zero(dotted_part(w, 1)),
                    patch: component_or_zero(dotted_part(w, 2)),
                },
            ),
        },
    }
}

proof fn lemma_digit_prefix_take(s: Seq<char>, i: int)
    requires
        0 <= i <= s.len(),
        forall|k: int| 0 <= k < i ==> text::is_digit(#[trigger] s[k]),
        i == s.len() || !text::is_digit(s[i]),
    ensures
        digit_prefix(s) == s.take(i),
    decreases i,
{
    if i == 0 {
        assert(s.take(0) =~= Seq::<char>::empty());
    } else {
        lemma_digit_prefix_take(s.drop_first(), i - 1);
        assert(seq![s[0]] + s.drop_first().take(i - 1) =~= s.take(i));
    }
}

/// Reads the leading ASCII digits of `raw` as a `u16`.
pub fn parse_version_component(raw: &[char]) -> (r: Option<u16>)
    ensures
        r == version_component(raw@),
{
    let mut i: usize = 0;
    let mut acc: u32 = 0;
    let mut overflow = false;
    while i < raw.len() && '0' <= raw[i] && raw[i] <= '9'
        invariant
            i <= raw@.len(),
            forall|k: int| 0 <= k < i ==> text::is_digit(#[trigger] raw@[k]),
            acc <= u16::MAX,
            !overflow ==> acc == decimal_value(raw@.take(i as int)),
            overflow ==> decimal_value(raw@.take(i as int)) > u16::MAX,
        decreases raw.len() - i,
    {
        let ghost prev = raw@.take(i as int);
        let d = (raw[i] as u32) - ('0' as u32);
        assert(raw@.take(i + 1).drop_last() =~= prev);
        assert(raw@.take(i + 1).last() == raw@[i as int]);
        if !overflow {
            let next = acc * 10 + d;
            if next > 65535 {
                overflow = true;
                acc = 0;
            } else {
                acc = next;
            }
        }
        i += 1;
    }
    proof {
        lemma_digit_prefix_take(raw@, i as int);
    }
    if i == 0 || overflow {
        None
    } else {
        Some(acc as u16)
    }
}

/// Parses a server version string such as `8.0.36-log` or `13.2 (Debian)`.
pub fn parse_server_version(raw: &str) -> (r: Option<Version>)
    ensures
        r == server_version_of(raw@),
{
    let chars = text::chars_of(raw);
    let word = match text::first_word_chars(chars.as_slice()) {
        Some(w) => w,
        None => return None,
    };
    let (head, rest1) = text::split_once_char(word.as_slice(), '.');
    let major = match parse_version_component(head.as_slice()) {
        Some(v) => v,
        None => return None,
    };
    let mut minor: u16 = 0;
    let mut patch: u16 = 0;
    match rest1 {
        Some(rest1) => {
            let (second, rest2) = text::split_once_char(rest1.as_slice(), '.');
            minor = match parse_version_component(second.as_slice()) {
                Some(v) => v,
                None => 0,
            };
            match rest2 {
                Some(rest2) => {
                    let (third, _) = text::split_once_char(rest2.as_slice(), '.');
                    patch = match parse_version_component(third.as_slice()) {
                        Some(v) => v,
                        None => 0,
                    };
                },
                None => {},
            }
        },
        None => {},
    }
    proof {
        let w = word@;
        reveal_with_fuel(dotted_part, 3);
        match text::after_first(w, '.') {
            Some(r) => {
                assert(dotted_part(w, 2) == dotted_part(r, 1));
            },
            None => {},
        }
    }
    Some(Version { major, minor, patch })
}

} // verus!
