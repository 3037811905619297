//! Deterministic naming of extracted tests: case folding, sanitization of a
//! document's base name, and the `root_N` counter names.

use vstd::prelude::*;
use crate::strutil::{
    is_alnum_char, lower_seq, ascii_seq, char_is_alphanumeric, str_chars, string_from_chars,
    find_after_last, copy_range,
};

verus! {

/// The full Unicode lowercase of a character sequence, a function of the
/// characters alone; too large a table to write out, so it stands as a name.
pub uninterp spec fn unicode_lower_of(s: Seq<char>) -> Seq<char>;

/// Case folding used on test names, so that generated test functions do not
/// trip style lints.
///
/// Relies on str::to_lowercase: the full Unicode lowercase of the string,
/// depending on its characters alone; on an ASCII string it lowers exactly
/// the ASCII uppercase letters.
#[verifier::external_body]
pub fn to_lowercase(s: &str) -> (r: String)
    ensures
        r@ == unicode_lower_of(s@),
        ascii_seq(s@) ==> r@ == lower_seq(s@),
{
    s.to_lowercase()
}

/// One character of a sanitized, already case-folded name: kept if it is
/// alphanumeric, replaced with `_` otherwise.
pub open spec fn sanitize_char(c: char) -> char {
    if is_alnum_char(c) {
        c
    } else {
        '_'
    }
}

pub open spec fn sanitize_seq(s: Seq<char>) -> Seq<char> {
    s.map_values(|c: char| sanitize_char(c))
}

/// Turns a document's base name into a test-name root: all letters are case
/// folded, and every character of the folded name that is not alphanumeric
/// becomes `_`.
pub fn sanitize_test_name(s: &str) -> (r: String)
    ensures
        r@ == sanitize_seq(unicode_lower_of(s@)),
{
    let folded = to_lowercase(s);
    let cs = str_chars(folded.as_str());
    let mut out: Vec<char> = Vec::new();
    let mut i: usize = 0;
    while i < cs.len()
        invariant
            0 <= i <= cs.len(),
            cs@ == unicode_lower_of(s@),
            out@ == sanitize_seq(cs@.take(i as int)),
        decreases cs.len() - i,
    {
        let c = cs[i];
        if char_is_alphanumeric(c) {
            out.push(c);
        } else {
            out.push('_');
        }
        i = i + 1;
        proof {
            assert(cs@.take(i as int) =~= cs@.take(i - 1).push(cs@[i - 1]));
            assert(out@ =~= sanitize_seq(cs@.take(i as int)));
        }
    }
    proof {
        assert(cs@.take(cs@.len() as int) =~= cs@);
    }
    string_from_chars(&out)
}

/// Sanitization maps each character of the folded name independently: the
/// length is kept, alphanumerics stay, and everything else becomes `_`.
pub proof fn lemma_sanitize_chars(folded: Seq<char>)
    ensures
        sanitize_seq(folded).len() == folded.len(),
        forall|i: int|
            0 <= i < folded.len() ==> sanitize_seq(folded)[i] == (if is_alnum_char(folded[i]) {
                folded[i]
            } else {
                '_'
            }),
{
}

/// The decimal digits of `n`, most significant first.
pub open spec fn dec_of(n: nat) -> Seq<char>
    decreases n,
{
    if n < 10 {
        seq![((48 + n) as u8) as char]
    } else {
        dec_of(n / 10) + seq![((48 + n % 10) as u8) as char]
    }
}

pub fn u64_to_dec(n: u64) -> (r: String)
    ensures
        r@ == dec_of(n as nat),
    decreases n,
{
    if n < 10 {
        let d: char = ((48 + n) as u8) as char;
        let v: Vec<char> = vec![d];
        proof {
            assert(v@ =~= dec_of(n as nat));
        }
        string_from_chars(&v)
    } else {
        let mut s = u64_to_dec(n / 10);
        let d: char = ((48 + n % 10) as u8) as char;
        let v: Vec<char> = vec![d];
        let t = string_from_chars(&v);
        s.append(t.as_str());
        proof {
            assert(s@ =~= dec_of(n as nat));
        }
        s
    }
}

/// The name of the `i`-th test extracted under a given root.
pub open spec fn test_name_spec(root: Seq<char>, i: nat) -> Seq<char> {
    root + seq!['_'] + dec_of(i)
}

pub fn make_test_name(root: &String, i: u64) -> (r: String)
    ensures
        r@ == test_name_spec(root@, i as nat),
{
    let mut out = root.clone();
    let u: Vec<char> = vec!['_'];
    let us = string_from_chars(&u);
    out.append(us.as_str());
    let num = u64_to_dec(i);
    out.append(num.as_str());
    proof {
        assert(out@ =~= test_name_spec(root@, i as nat));
    }
    out
}

/// Hands out the `root_0, root_1, ...` names for one document, in order.
pub struct TestNameGen {
    pub root: String,
    pub count: u64,
}

impl TestNameGen {
    /// Starts the counter for a document given its path; the root is the
    /// case-folded, sanitized file stem. Total on every path: one with no
    /// final component (empty, or ending in the separator) yields the empty
    /// stem and so the empty root.
    pub fn new(path: &str) -> (r: TestNameGen)
        ensures
            r.root@ == sanitize_seq(unicode_lower_of(file_stem_seq(path@))),
            r.count == 0,
    {
        let stem = file_stem_of(path);
        TestNameGen { root: sanitize_test_name(stem.as_str()), count: 0 }
    }

    pub fn advance(&mut self) -> (r: String)
        requires
            old(self).count < u64::MAX,
        ensures
            r@ == test_name_spec(old(self).root@, old(self).count as nat),
            final(self).root == old(self).root,
            final(self).count == old(self).count + 1,
    {
        let r = make_test_name(&self.root, self.count);
        self.count = self.count + 1;
        r
    }
}

/// What stands after the last occurrence of `c`, or all of `s` if `c` does
/// not occur.
pub open spec fn after_last(s: Seq<char>, c: char) -> Seq<char>
    decreases s.len(),
{
    if s.len() == 0 {
        s
    } else if s.last() == c {
        Seq::empty()
    } else {
        after_last(s.drop_last(), c) + seq![s.last()]
    }
}

/// What stands before the last occurrence of `c`; meaningful only when `c`
/// occurs in `s`.
pub open spec fn before_last(s: Seq<char>, c: char) -> Seq<char>
    decreases s.len(),
{
    if s.len() == 0 {
        s
    } else if s.last() == c {
        s.drop_last()
    } else {
        before_last(s.drop_last(), c)
    }
}

pub proof fn lemma_after_last_none(s: Seq<char>, c: char)
    requires
        forall|j: int| 0 <= j < s.len() ==> s[j] != c,
    ensures
        after_last(s, c) == s,
    decreases s.len(),
{
    if s.len() > 0 {
        lemma_after_last_none(s.drop_last(), c);
        assert(after_last(s, c) =~= s);
    } else {
        assert(after_last(s, c) =~= s);
    }
}

pub proof fn lemma_after_last_at(s: Seq<char>, c: char, i: int)
    requires
        0 <= i < s.len(),
        s[i] == c,
        forall|j: int| i < j < s.len() ==> s[j] != c,
    ensures
        after_last(s, c) == s.skip(i + 1),
    decreases s.len(),
{
    if i == s.len() - 1 {
        assert(s.last() == c);
        assert(after_last(s, c) =~= s.skip(i + 1));
    } else {
        lemma_after_last_at(s.drop_last(), c, i);
        assert(s.drop_last().skip(i + 1) =~= s.skip(i + 1).drop_last());
        assert(after_last(s, c) =~= s.skip(i + 1));
    }
}

pub proof fn lemma_before_last_at(s: Seq<char>, c: char, i: int)
    requires
        0 <= i < s.len(),
        s[i] == c,
        forall|j: int| i < j < s.len() ==> s[j] != c,
    ensures
        before_last(s, c) == s.take(i),
    decreases s.len(),
{
    if i == s.len() - 1 {
        assert(before_last(s, c) =~= s.take(i));
    } else {
        lemma_before_last_at(s.drop_last(), c, i);
        assert(s.drop_last().take(i) =~= s.take(i));
    }
}

/// The file stem of a `/`-separated path: the part of the final component
/// that stands before its last dot, the whole component when it has no dot
/// after its first character. Total: a path with no final component (empty,
/// or ending in `/`) has the empty stem.
pub open spec fn file_stem_seq(p: Seq<char>) -> Seq<char> {
    let name = after_last(p, '/');
    if name.len() >= 1 && name.drop_first().contains('.') {
        before_last(name, '.')
    } else {
        name
    }
}

/// The file stem of a `/`-separated path, as `file_stem_seq` states it.
pub fn file_stem_of(p: &str) -> (r: String)
    ensures
        r@ == file_stem_seq(p@),
{
    let cs = str_chars(p);
    let start = find_after_last(&cs, '/');
    proof {
        if start > 0 {
            lemma_after_last_at(cs@, '/', start - 1);
        } else {
            lemma_after_last_none(cs@, '/');
            assert(cs@.skip(0) =~= cs@);
        }
    }
    let name = copy_range(&cs, start, cs.len());
    proof {
        assert(name@ =~= after_last(p@, '/'));
    }
    let dot = find_after_last(&name, '.');
    let has_late_dot = dot >= 2;
    proof {
        let nv = name@;
        if nv.len() >= 1 {
            if has_late_dot {
                assert(nv[dot - 1] == '.');
                assert(nv.drop_first()[dot - 2] == '.');
                assert(nv.drop_first().contains('.'));
                lemma_before_last_at(nv, '.', dot - 1);
            } else {
                if nv.drop_first().contains('.') {
                    let k = choose|k: int| 0 <= k < nv.drop_first().len() && nv.drop_first()[k] == '.';
                    assert(nv[k + 1] == '.');
                    assert(false);
                }
            }
        }
    }
    if has_late_dot {
        let stem = copy_range(&name, 0, dot - 1);
        proof {
            assert(stem@ =~= file_stem_seq(p@));
        }
        string_from_chars(&stem)
    } else {
        proof {
            assert(name@ =~= file_stem_seq(p@));
        }
        string_from_chars(&name)
    }
}

} // verus!
