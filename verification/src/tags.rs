//! The tag parser: an info string attached to a fenced block is split into
//! tokens, and the tokens decide whether the block is a runnable sample, a
//! template, or neither, and which control flags it carries.

use vstd::prelude::*;
use crate::strutil::{
    is_alnum_char, opt_view, char_is_alphanumeric, str_chars, string_from_chars, chars_eq,
    copy_range,
};

verus! {

/// Token separators: anything that is not alphanumeric, `_` or `-`.
pub open spec fn is_sep_char(c: char) -> bool {
    !(c == '_' || c == '-' || is_alnum_char(c))
}

/// The nonempty maximal runs of non-separator characters, in order.
pub open spec fn tokens_rec(s: Seq<char>, cur: Seq<char>, acc: Seq<Seq<char>>) -> Seq<Seq<char>>
    decreases s.len(),
{
    if s.len() == 0 {
        if cur.len() > 0 {
            acc.push(cur)
        } else {
            acc
        }
    } else if is_sep_char(s[0]) {
        tokens_rec(
            s.drop_first(),
            Seq::empty(),
            if cur.len() > 0 {
                acc.push(cur)
            } else {
                acc
            },
        )
    } else {
        tokens_rec(s.drop_first(), cur.push(s[0]), acc)
    }
}

pub open spec fn tokens_of(s: Seq<char>) -> Seq<Seq<char>> {
    tokens_rec(s, Seq::empty(), Seq::empty())
}

/// The attributes read off one fenced block's info string.
pub struct CodeBlockInfo {
    pub is_rust: bool,
    pub should_panic: bool,
    pub ignore: bool,
    pub no_run: bool,
    pub is_old_template: bool,
    pub template: Option<String>,
}

pub struct CodeBlockInfoV {
    pub is_rust: bool,
    pub should_panic: bool,
    pub ignore: bool,
    pub no_run: bool,
    pub is_old_template: bool,
    pub template: Option<Seq<char>>,
}

impl View for CodeBlockInfo {
    type V = CodeBlockInfoV;

    open spec fn view(&self) -> CodeBlockInfoV {
        CodeBlockInfoV {
            is_rust: self.is_rust,
            should_panic: self.should_panic,
            ignore: self.ignore,
            no_run: self.no_run,
            is_old_template: self.is_old_template,
            template: opt_view(self.template),
        }
    }
}

pub open spec fn tok_rust() -> Seq<char> {
    seq!['r', 'u', 's', 't']
}

pub open spec fn tok_should_panic() -> Seq<char> {
    seq!['s', 'h', 'o', 'u', 'l', 'd', '_', 'p', 'a', 'n', 'i', 'c']
}

pub open spec fn tok_ignore() -> Seq<char> {
    seq!['i', 'g', 'n', 'o', 'r', 'e']
}

pub open spec fn tok_no_run() -> Seq<char> {
    seq!['n', 'o', '_', 'r', 'u', 'n']
}

pub open spec fn tok_old_template() -> Seq<char> {
    seq!['s', 'k', 'e', 'p', 't', 'i', 'c', '-', 't', 'e', 'm', 'p', 'l', 'a', 't', 'e']
}

pub open spec fn tok_template_prefix() -> Seq<char> {
    seq!['s', 'k', 't', '-']
}

/// The fold state while reading tokens: the attributes so far, plus whether
/// a recognized sample-control tag (not the bare sample marker) and whether
/// an unrecognized tag was seen.
pub struct TagState {
    pub info: CodeBlockInfoV,
    pub seen_control: bool,
    pub seen_other: bool,
}

pub open spec fn init_tag_state() -> TagState {
    TagState {
        info: CodeBlockInfoV {
            is_rust: false,
            should_panic: false,
            ignore: false,
            no_run: false,
            is_old_template: false,
            template: Option::None,
        },
        seen_control: false,
        seen_other: false,
    }
}

/// One token's effect. The sample marker only marks; it is not itself a
/// control tag. A legacy-template marker and a named-template reference
/// exclude one another: the later of the two wins and clears the other.
pub open spec fn apply_token(st: TagState, tok: Seq<char>) -> TagState {
    if tok == tok_rust() {
        TagState { info: CodeBlockInfoV { is_rust: true, ..st.info }, ..st }
    } else if tok == tok_should_panic() {
        TagState { info: CodeBlockInfoV { should_panic: true, ..st.info }, seen_control: true, ..st }
    } else if tok == tok_ignore() {
        TagState { info: CodeBlockInfoV { ignore: true, ..st.info }, seen_control: true, ..st }
    } else if tok == tok_no_run() {
        TagState { info: CodeBlockInfoV { no_run: true, ..st.info }, seen_control: true, ..st }
    } else if tok == tok_old_template() {
        TagState {
            info: CodeBlockInfoV { is_old_template: true, template: Option::None, ..st.info },
            seen_control: true,
            ..st
        }
    } else if tok.len() >= 4 && tok.take(4) == tok_template_prefix() {
        TagState {
            info: CodeBlockInfoV {
                template: Option::Some(tok.skip(4)),
                is_old_template: false,
                ..st.info
            },
            seen_control: true,
            ..st
        }
    } else {
        TagState { seen_other: true, ..st }
    }
}

pub open spec fn fold_tokens(st: TagState, toks: Seq<Seq<char>>) -> TagState
    decreases toks.len(),
{
    if toks.len() == 0 {
        st
    } else {
        fold_tokens(apply_token(st, toks[0]), toks.drop_first())
    }
}

/// What the tag parser makes of an info string: the fold over its tokens,
/// with the final rule that unrecognized tags make the block non-runnable
/// unless a recognized sample-control tag is also present.
pub open spec fn parse_info_spec(s: Seq<char>) -> CodeBlockInfoV {
    let st = fold_tokens(init_tag_state(), tokens_of(s));
    CodeBlockInfoV {
        is_rust: st.info.is_rust && (!st.seen_other || st.seen_control),
        ..st.info
    }
}

proof fn lemma_fold_tokens_push(st: TagState, a: Seq<Seq<char>>, x: Seq<char>)
    ensures
        fold_tokens(st, a.push(x)) == apply_token(fold_tokens(st, a), x),
    decreases a.len(),
{
    if a.len() == 0 {
        assert(a.push(x)[0] == x);
        assert(a.push(x).drop_first() =~= Seq::<Seq<char>>::empty());
        assert(fold_tokens(st, a.push(x)) == fold_tokens(
            apply_token(st, x),
            Seq::<Seq<char>>::empty(),
        ));
        assert(fold_tokens(apply_token(st, x), Seq::<Seq<char>>::empty()) == apply_token(st, x));
        assert(fold_tokens(st, a) == st);
    } else {
        assert(a.push(x)[0] == a[0]);
        assert(a.push(x).drop_first() =~= a.drop_first().push(x));
        lemma_fold_tokens_push(apply_token(st, a[0]), a.drop_first(), x);
        assert(fold_tokens(st, a.push(x)) == fold_tokens(
            apply_token(st, a[0]),
            a.drop_first().push(x),
        ));
        assert(fold_tokens(st, a) == fold_tokens(apply_token(st, a[0]), a.drop_first()));
    }
}

fn tokenize(cs: &Vec<char>) -> (r: Vec<Vec<char>>)
    ensures
        r@.map_values(|t: Vec<char>| t@) == tokens_of(cs@),
{
    let mut acc: Vec<Vec<char>> = Vec::new();
    let mut cur: Vec<char> = Vec::new();
    let mut i: usize = 0;
    proof {
        assert(cs@.skip(0) =~= cs@);
        assert(acc@.map_values(|t: Vec<char>| t@) =~= Seq::<Seq<char>>::empty());
    }
    while i < cs.len()
        invariant
            0 <= i <= cs@.len(),
            tokens_rec(cs@.skip(i as int), cur@, acc@.map_values(|t: Vec<char>| t@)) == tokens_of(
                cs@,
            ),
        decreases cs.len() - i,
    {
        proof {
            assert(cs@.skip(i as int).drop_first() =~= cs@.skip(i + 1));
            assert(cs@.skip(i as int)[0] == cs@[i as int]);
        }
        let c = cs[i];
        let sep = !(c == '_' || c == '-' || char_is_alphanumeric(c));
        if sep {
            if cur.len() > 0 {
                let ghost accv = acc@.map_values(|t: Vec<char>| t@);
                let ghost curv = cur@;
                acc.push(cur);
                cur = Vec::new();
                proof {
                    assert(acc@.map_values(|t: Vec<char>| t@) =~= accv.push(curv));
                    assert(cur@ =~= Seq::<char>::empty());
                }
            } else {
                proof {
                    assert(cur@ =~= Seq::<char>::empty());
                }
            }
        } else {
            cur.push(c);
        }
        i = i + 1;
    }
    proof {
        assert(cs@.skip(cs@.len() as int) =~= Seq::<char>::empty());
    }
    if cur.len() > 0 {
        let ghost accv = acc@.map_values(|t: Vec<char>| t@);
        let ghost curv = cur@;
        acc.push(cur);
        proof {
            assert(acc@.map_values(|t: Vec<char>| t@) =~= accv.push(curv));
        }
    }
    acc
}

fn lit_rust() -> (r: Vec<char>)
    ensures
        r@ == tok_rust(),
{
    let v: Vec<char> = vec!['r', 'u', 's', 't'];
    proof {
        assert(v@ =~= tok_rust());
    }
    v
}

fn lit_should_panic() -> (r: Vec<char>)
    ensures
        r@ == tok_should_panic(),
{
    let v: Vec<char> = vec!['s', 'h', 'o', 'u', 'l', 'd', '_', 'p', 'a', 'n', 'i', 'c'];
    proof {
        assert(v@ =~= tok_should_panic());
    }
    v
}

fn lit_ignore() -> (r: Vec<char>)
    ensures
        r@ == tok_ignore(),
{
    let v: Vec<char> = vec!['i', 'g', 'n', 'o', 'r', 'e'];
    proof {
        assert(v@ =~= tok_ignore());
    }
    v
}

fn lit_no_run() -> (r: Vec<char>)
    ensures
        r@ == tok_no_run(),
{
    let v: Vec<char> = vec!['n', 'o', '_', 'r', 'u', 'n'];
    proof {
        assert(v@ =~= tok_no_run());
    }
    v
}

fn lit_old_template() -> (r: Vec<char>)
    ensures
        r@ == tok_old_template(),
{
    let v: Vec<char> = vec![
        's', 'k', 'e', 'p', 't', 'i', 'c', '-', 't', 'e', 'm', 'p', 'l', 'a', 't', 'e',
    ];
    proof {
        assert(v@ =~= tok_old_template());
    }
    v
}

/// Reads a fenced block's info string into its attribute set.
pub fn parse_code_block_info(info: &str) -> (r: CodeBlockInfo)
    ensures
        r@ == parse_info_spec(info@),
{
    let cs = str_chars(info);
    let toks = tokenize(&cs);
    let ghost toksv = toks@.map_values(|t: Vec<char>| t@);

    let mut is_rust = false;
    let mut should_panic = false;
    let mut ignore = false;
    let mut no_run = false;
    let mut is_old_template = false;
    let mut template: Option<String> = None;
    let mut seen_control = false;
    let mut seen_other = false;

    let mut i: usize = 0;
    proof {
        assert(toksv.take(0) =~= Seq::<Seq<char>>::empty());
    }
    while i < toks.len()
        invariant
            0 <= i <= toks@.len(),
            toksv == toks@.map_values(|t: Vec<char>| t@),
            fold_tokens(init_tag_state(), toksv.take(i as int)) == (TagState {
                info: CodeBlockInfoV {
                    is_rust,
                    should_panic,
                    ignore,
                    no_run,
                    is_old_template,
                    template: opt_view(template),
                },
                seen_control,
                seen_other,
            }),
        decreases toks.len() - i,
    {
        let tok = &toks[i];
        let ghost st0 = fold_tokens(init_tag_state(), toksv.take(i as int));
        proof {
            assert(toksv.take(i + 1) =~= toksv.take(i as int).push(toksv[i as int]));
            lemma_fold_tokens_push(init_tag_state(), toksv.take(i as int), toksv[i as int]);
            assert(toksv[i as int] == tok@);
        }
        if chars_eq(tok, &lit_rust()) {
            is_rust = true;
        } else if chars_eq(tok, &lit_should_panic()) {
            should_panic = true;
            seen_control = true;
        } else if chars_eq(tok, &lit_ignore()) {
            ignore = true;
            seen_control = true;
        } else if chars_eq(tok, &lit_no_run()) {
            no_run = true;
            seen_control = true;
        } else if chars_eq(tok, &lit_old_template()) {
            is_old_template = true;
            template = None;
            seen_control = true;
        } else if tok.len() >= 4 && tok[0] == 's' && tok[1] == 'k' && tok[2] == 't' && tok[3]
            == '-' {
            proof {
                assert(tok@.take(4) =~= tok_template_prefix());
            }
            let name = copy_range(tok, 4, tok.len());
            proof {
                assert(name@ =~= tok@.skip(4));
            }
            template = Some(string_from_chars(&name));
            is_old_template = false;
            seen_control = true;
        } else {
            proof {
                if tok@.len() >= 4 && tok@.take(4) == tok_template_prefix() {
                    assert(tok@[0] == tok@.take(4)[0]);
                    assert(tok@[1] == tok@.take(4)[1]);
                    assert(tok@[2] == tok@.take(4)[2]);
                    assert(tok@[3] == tok@.take(4)[3]);
                    assert(false);
                }
            }
            seen_other = true;
        }
        i = i + 1;
    }
    proof {
        assert(toksv.take(toks@.len() as int) =~= toksv);
    }
    CodeBlockInfo { is_rust: is_rust && (!seen_other || seen_control), should_panic, ignore, no_run, is_old_template, template }
}

proof fn lemma_fold_exclusive(st: TagState, toks: Seq<Seq<char>>)
    requires
        !(st.info.is_old_template && st.info.template is Some),
    ensures
        !(fold_tokens(st, toks).info.is_old_template && fold_tokens(st, toks).info.template
            is Some),
    decreases toks.len(),
{
    if toks.len() > 0 {
        lemma_fold_exclusive(apply_token(st, toks[0]), toks.drop_first());
    }
}

/// At most one of the two template roles can come out of an info string: a
/// block is never both the legacy template and carrier of a named template
/// reference.
pub proof fn lemma_template_roles_exclusive(s: Seq<char>)
    ensures
        !(parse_info_spec(s).is_old_template && parse_info_spec(s).template is Some),
{
    lemma_fold_exclusive(init_tag_state(), tokens_of(s));
}

} // verus!
