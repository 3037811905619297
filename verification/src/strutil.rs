//! Character classes and the few string primitives the library builds on.
//!
//! Unicode's Alphabetic/Numeric and White_Space classes are not written out
//! here: only their ASCII parts are pinned, and the rest is left as a named
//! function of the character alone.

use vstd::prelude::*;

verus! {

pub uninterp spec fn unicode_alphanumeric(c: char) -> bool;

pub uninterp spec fn unicode_whitespace(c: char) -> bool;

/// What `char::is_alphanumeric` returns: on ASCII, exactly the letters and
/// digits; beyond ASCII, a named class.
pub open spec fn is_alnum_char(c: char) -> bool {
    if (c as u32) < 128 {
        (97 <= (c as u32) && (c as u32) <= 122) || (65 <= (c as u32) && (c as u32) <= 90) || (48
            <= (c as u32) && (c as u32) <= 57)
    } else {
        unicode_alphanumeric(c)
    }
}

/// What `char::is_whitespace` returns: on ASCII, exactly space, tab, line
/// feed, vertical tab, form feed and carriage return; beyond ASCII, a named
/// class.
pub open spec fn is_ws_char(c: char) -> bool {
    if (c as u32) < 128 {
        c == ' ' || c == '\t' || c == '\n' || c == '\r' || (c as u32) == 0xb || (c as u32) == 0xc
    } else {
        unicode_whitespace(c)
    }
}

/// Relies on char::is_alphanumeric: true exactly on characters that are
/// Unicode alphabetic or numeric; within ASCII these are the letters and
/// digits.
#[verifier::external_body]
pub fn char_is_alphanumeric(c: char) -> (r: bool)
    ensures
        r == is_alnum_char(c),
        (c as u32) >= 128 ==> r == unicode_alphanumeric(c),
{
    c.is_alphanumeric()
}

/// Relies on char::is_whitespace: true exactly on characters with the Unicode
/// White_Space property; within ASCII these are space, tab, line feed,
/// vertical tab, form feed and carriage return.
#[verifier::external_body]
pub fn char_is_whitespace(c: char) -> (r: bool)
    ensures
        r == is_ws_char(c),
        (c as u32) >= 128 ==> r == unicode_whitespace(c),
{
    c.is_whitespace()
}

/// Relies on str::chars: yields the string's characters in order.
#[verifier::external_body]
pub fn str_chars(s: &str) -> (r: Vec<char>)
    ensures
        r@ == s@,
{
    s.chars().collect()
}

/// Relies on String's FromIterator impl: collects the characters in order.
#[verifier::external_body]
pub fn string_from_chars(v: &Vec<char>) -> (r: String)
    ensures
        r@ == v@,
{
    v.iter().collect()
}

/// ASCII lowercasing of one character, as `char::to_ascii_lowercase` does it.
pub open spec fn lower_char(c: char) -> char {
    if 65 <= (c as u32) && (c as u32) <= 90 {
        (((c as u32) + 32) as u8) as char
    } else {
        c
    }
}

pub open spec fn lower_seq(s: Seq<char>) -> Seq<char> {
    s.map_values(|c: char| lower_char(c))
}

/// Whether every character of the sequence is ASCII.
pub open spec fn ascii_seq(s: Seq<char>) -> bool {
    forall|i: int| 0 <= i < s.len() ==> (s[i] as u32) < 128
}

/// The view of an optional string.
pub open spec fn opt_view(o: Option<String>) -> Option<Seq<char>> {
    match o {
        Option::Some(s) => Option::Some(s@),
        Option::None => Option::None,
    }
}

/// Index one past the last occurrence of `c`, or 0 when `c` does not occur.
pub fn find_after_last(cs: &Vec<char>, c: char) -> (r: usize)
    ensures
        0 <= r <= cs@.len(),
        forall|j: int| r <= j < cs@.len() ==> cs@[j] != c,
        r > 0 ==> cs@[r - 1] == c,
{
    let mut i: usize = cs.len();
    while i > 0
        invariant
            0 <= i <= cs@.len(),
            forall|j: int| i <= j < cs@.len() ==> cs@[j] != c,
        decreases i,
    {
        if cs[i - 1] == c {
            return i;
        }
        i = i - 1;
    }
    0
}

/// Copies `cs[from..to]` into a fresh vector.
pub fn copy_range(cs: &Vec<char>, from: usize, to: usize) -> (r: Vec<char>)
    requires
        0 <= from <= to <= cs@.len(),
    ensures
        r@ == cs@.subrange(from as int, to as int),
{
    let mut out: Vec<char> = Vec::new();
    proof {
        assert(out@ =~= cs@.subrange(from as int, from as int));
    }
    let mut i: usize = from;
    while i < to
        invariant
            from <= i <= to <= cs@.len(),
            out@ == cs@.subrange(from as int, i as int),
        decreases to - i,
    {
        out.push(cs[i]);
        i = i + 1;
        proof {
            assert(out@ =~= cs@.subrange(from as int, i as int));
        }
    }
    out
}

/// Equality test on two character vectors.
pub fn chars_eq(a: &Vec<char>, b: &Vec<char>) -> (r: bool)
    ensures
        r == (a@ == b@),
{
    if a.len() != b.len() {
        return false;
    }
    let mut i: usize = 0;
    while i < a.len()
        invariant
            0 <= i <= a.len(),
            a@.len() == b@.len(),
            forall|j: int| 0 <= j < i ==> a@[j] == b@[j],
        decreases a.len() - i,
    {
        if a[i] != b[i] {
            return false;
        }
        i = i + 1;
    }
    proof {
        assert(a@ =~= b@);
    }
    true
}

} // verus!
