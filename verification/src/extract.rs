//! The block extractor: one document's markdown event stream is folded into
//! the document's list of tests and its templates.

use vstd::prelude::*;
use crate::names::{sanitize_seq, unicode_lower_of, file_stem_seq, test_name_spec,
    sanitize_test_name, file_stem_of, make_test_name};
use crate::strutil::opt_view;
use crate::tags::{CodeBlockInfo, CodeBlockInfoV, parse_info_spec, parse_code_block_info};
use vstd::string::StringExecFns;

verus! {

/// One markdown event, reduced to what block extraction reads: a fenced
/// code block opening with its info string, verbatim text, a code block
/// closing, or anything else.
pub enum MdEvent {
    BlockStart(String),
    BlockText(String),
    BlockEnd,
    Other,
}

pub enum MdEventV {
    BlockStart(Seq<char>),
    BlockText(Seq<char>),
    BlockEnd,
    Other,
}

impl View for MdEvent {
    type V = MdEventV;

    open spec fn view(&self) -> MdEventV {
        match self {
            MdEvent::BlockStart(s) => MdEventV::BlockStart(s@),
            MdEvent::BlockText(s) => MdEventV::BlockText(s@),
            MdEvent::BlockEnd => MdEventV::BlockEnd,
            MdEvent::Other => MdEventV::Other,
        }
    }
}

/// The markdown event stream of a document, a function of its text alone.
pub uninterp spec fn md_events_of(s: Seq<char>) -> Seq<MdEventV>;

/// Relies on pulldown_cmark::Parser: yields the document's events in order.
/// A fenced code block opens with its info string and closes with a matching
/// end event, and its contents arrive as text events in between; indented
/// blocks and everything that is not a code-block boundary or text fall
/// under `Other`.
#[verifier::external_body]
fn md_events(s: &str) -> (r: Vec<MdEvent>)
    ensures
        r@.map_values(|e: MdEvent| e@) == md_events_of(s@),
{
    let mut v = Vec::new();
    for ev in pulldown_cmark::Parser::new(s) {
        v.push(match ev {
            pulldown_cmark::Event::Start(pulldown_cmark::Tag::CodeBlock(
                pulldown_cmark::CodeBlockKind::Fenced(info),
            )) => MdEvent::BlockStart(info.to_string()),
            pulldown_cmark::Event::End(pulldown_cmark::TagEnd::CodeBlock) => MdEvent::BlockEnd,
            pulldown_cmark::Event::Text(t) => MdEvent::BlockText(t.to_string()),
            _ => MdEvent::Other,
        });
    }
    v
}

/// One extracted sample: its generated name, its raw lines, its control
/// flags, and its explicit template reference if one was given.
pub struct Test {
    pub name: String,
    pub text: Vec<String>,
    pub ignore: bool,
    pub no_run: bool,
    pub should_panic: bool,
    pub template: Option<String>,
}

pub struct TestV {
    pub name: Seq<char>,
    pub text: Seq<Seq<char>>,
    pub ignore: bool,
    pub no_run: bool,
    pub should_panic: bool,
    pub template: Option<Seq<char>>,
}

impl View for Test {
    type V = TestV;

    open spec fn view(&self) -> TestV {
        TestV {
            name: self.name@,
            text: self.text@.map_values(|l: String| l@),
            ignore: self.ignore,
            no_run: self.no_run,
            should_panic: self.should_panic,
            template: opt_view(self.template),
        }
    }
}

/// Everything extraction found in one document: its tests in order, its
/// legacy template if any, and the named templates of its sibling
/// template file.
pub struct DocTest {
    pub path: String,
    pub old_template: Option<String>,
    pub tests: Vec<Test>,
    pub templates: Vec<(String, String)>,
}

pub struct DocTestV {
    pub path: Seq<char>,
    pub old_template: Option<Seq<char>>,
    pub tests: Seq<TestV>,
    pub templates: Seq<(Seq<char>, Seq<char>)>,
}

impl View for DocTest {
    type V = DocTestV;

    open spec fn view(&self) -> DocTestV {
        DocTestV {
            path: self.path@,
            old_template: opt_view(self.old_template),
            tests: self.tests@.map_values(|t: Test| t@),
            templates: self.templates@.map_values(|p: (String, String)| (p.0@, p.1@)),
        }
    }
}

pub struct DocTestSuite {
    pub doc_tests: Vec<DocTest>,
}

impl View for DocTestSuite {
    type V = Seq<DocTestV>;

    open spec fn view(&self) -> Seq<DocTestV> {
        self.doc_tests@.map_values(|d: DocTest| d@)
    }
}

/// Splits text into lines; each `\n` closes a line and stays with it, and a
/// final fragment without `\n` is kept as a last line.
pub open spec fn split_rec(s: Seq<char>, cur: Seq<char>, acc: Seq<Seq<char>>) -> Seq<Seq<char>>
    decreases s.len(),
{
    if s.len() == 0 {
        if cur.len() > 0 {
            acc.push(cur)
        } else {
            acc
        }
    } else if s[0] == '\n' {
        split_rec(s.drop_first(), Seq::empty(), acc.push(cur.push('\n')))
    } else {
        split_rec(s.drop_first(), cur.push(s[0]), acc)
    }
}

pub open spec fn split_lines(s: Seq<char>) -> Seq<Seq<char>> {
    split_rec(s, Seq::empty(), Seq::empty())
}

fn split_lines_exec(s: &str) -> (r: Vec<String>)
    ensures
        r@.map_values(|l: String| l@) == split_lines(s@),
{
    let cs = crate::strutil::str_chars(s);
    let mut acc: Vec<String> = Vec::new();
    let mut cur: Vec<char> = Vec::new();
    let mut i: usize = 0;
    proof {
        assert(cs@.skip(0) =~= cs@);
        assert(acc@.map_values(|l: String| l@) =~= Seq::<Seq<char>>::empty());
    }
    while i < cs.len()
        invariant
            0 <= i <= cs@.len(),
            cs@ == s@,
            split_rec(cs@.skip(i as int), cur@, acc@.map_values(|l: String| l@)) == split_lines(
                s@,
            ),
        decreases cs.len() - i,
    {
        proof {
            assert(cs@.skip(i as int)[0] == cs@[i as int]);
            assert(cs@.skip(i as int).drop_first() =~= cs@.skip(i + 1));
        }
        let c = cs[i];
        if c == '\n' {
            let ghost accv = acc@.map_values(|l: String| l@);
            let ghost curv = cur@;
            cur.push('\n');
            let line = crate::strutil::string_from_chars(&cur);
            acc.push(line);
            cur = Vec::new();
            proof {
                assert(acc@.map_values(|l: String| l@) =~= accv.push(curv.push('\n')));
                assert(cur@ =~= Seq::<char>::empty());
            }
        } else {
            cur.push(c);
        }
        i = i + 1;
    }
    proof {
        assert(cs@.skip(cs@.len() as int) =~= Seq::<char>::empty());
    }
    if cur.len() > 0 {
        let ghost accv = acc@.map_values(|l: String| l@);
        let ghost curv = cur@;
        let line = crate::strutil::string_from_chars(&cur);
        acc.push(line);
        proof {
            assert(acc@.map_values(|l: String| l@) =~= accv.push(curv));
        }
    }
    acc
}

/// The extractor's fold state: the tests found so far, the legacy template
/// if one closed already, and the open runnable block being accumulated —
/// its attributes and its text fragments joined verbatim.
pub struct ExtractStV {
    pub tests: Seq<TestV>,
    pub old_template: Option<Seq<char>>,
    pub buf: Option<(CodeBlockInfoV, Seq<char>)>,
}

pub open spec fn init_extract_state() -> ExtractStV {
    ExtractStV { tests: Seq::empty(), old_template: Option::None, buf: Option::None }
}

/// One step of the extractor: a runnable block opening begins accumulation,
/// text fragments accumulate verbatim while a block is open, and a close
/// finalizes the block as the legacy template or as the next test, whose
/// raw lines are the accumulated text split at its line breaks.
pub open spec fn extract_step(root: Seq<char>, st: ExtractStV, ev: MdEventV) -> ExtractStV {
    match ev {
        MdEventV::BlockStart(info) => {
            let i = parse_info_spec(info);
            if i.is_rust {
                ExtractStV { buf: Option::Some((i, Seq::empty())), ..st }
            } else {
                st
            }
        },
        MdEventV::BlockText(t) => match st.buf {
            Option::Some((i, text)) => ExtractStV { buf: Option::Some((i, text + t)), ..st },
            Option::None => st,
        },
        MdEventV::BlockEnd => match st.buf {
            Option::Some((i, text)) => if i.is_old_template {
                ExtractStV { old_template: Option::Some(text), buf: Option::None, ..st }
            } else {
                ExtractStV {
                    tests: st.tests.push(
                        TestV {
                            name: test_name_spec(root, st.tests.len()),
                            text: split_lines(text),
                            ignore: i.ignore,
                            no_run: i.no_run,
                            should_panic: i.should_panic,
                            template: i.template,
                        },
                    ),
                    buf: Option::None,
                    ..st
                }
            },
            Option::None => st,
        },
        MdEventV::Other => st,
    }
}

pub open spec fn extract_fold(root: Seq<char>, evs: Seq<MdEventV>, st: ExtractStV) -> ExtractStV
    decreases evs.len(),
{
    if evs.len() == 0 {
        st
    } else {
        extract_fold(root, evs.drop_first(), extract_step(root, st, evs[0]))
    }
}

proof fn lemma_extract_fold_push(root: Seq<char>, evs: Seq<MdEventV>, st: ExtractStV, x: MdEventV)
    ensures
        extract_fold(root, evs.push(x), st) == extract_step(root, extract_fold(root, evs, st), x),
    decreases evs.len(),
{
    if evs.len() == 0 {
        assert(evs.push(x)[0] == x);
        assert(evs.push(x).drop_first() =~= Seq::<MdEventV>::empty());
        assert(extract_fold(root, evs.push(x), st) == extract_fold(
            root,
            Seq::<MdEventV>::empty(),
            extract_step(root, st, x),
        ));
        assert(extract_fold(root, Seq::<MdEventV>::empty(), extract_step(root, st, x))
            == extract_step(root, st, x));
        assert(extract_fold(root, evs, st) == st);
    } else {
        assert(evs.push(x)[0] == evs[0]);
        assert(evs.push(x).drop_first() =~= evs.drop_first().push(x));
        lemma_extract_fold_push(root, evs.drop_first(), extract_step(root, st, evs[0]), x);
        assert(extract_fold(root, evs.push(x), st) == extract_fold(
            root,
            evs.drop_first().push(x),
            extract_step(root, st, evs[0]),
        ));
        assert(extract_fold(root, evs, st) == extract_fold(
            root,
            evs.drop_first(),
            extract_step(root, st, evs[0]),
        ));
    }
}

/// What extraction makes of one document's event stream.
pub open spec fn extract_doc_spec(root: Seq<char>, evs: Seq<MdEventV>) -> ExtractStV {
    extract_fold(root, evs, init_extract_state())
}

fn extract_from_events(root: &String, evs: &Vec<MdEvent>) -> (r: (Vec<Test>, Option<String>))
    ensures
        ({
            let f = extract_doc_spec(root@, evs@.map_values(|e: MdEvent| e@));
            r.0@.map_values(|t: Test| t@) == f.tests && opt_view(r.1) == f.old_template
        }),
{
    let ghost evsv = evs@.map_values(|e: MdEvent| e@);
    let mut tests: Vec<Test> = Vec::new();
    let mut old_template: Option<String> = None;
    let mut buf_info: Option<CodeBlockInfo> = None;
    let mut buf_text: String = String::new();
    let mut i: usize = 0;
    proof {
        assert(evsv.take(0) =~= Seq::<MdEventV>::empty());
        assert(tests@.map_values(|t: Test| t@) =~= Seq::<TestV>::empty());
    }
    while i < evs.len()
        invariant
            0 <= i <= evs@.len(),
            evsv == evs@.map_values(|e: MdEvent| e@),
            extract_fold(root@, evsv.take(i as int), init_extract_state()) == (ExtractStV {
                tests: tests@.map_values(|t: Test| t@),
                old_template: opt_view(old_template),
                buf: match buf_info {
                    Option::Some(ci) => Option::Some((ci@, buf_text@)),
                    Option::None => Option::None,
                },
            }),
        decreases evs.len() - i,
    {
        proof {
            assert(evsv.take(i + 1) =~= evsv.take(i as int).push(evsv[i as int]));
            lemma_extract_fold_push(root@, evsv.take(i as int), init_extract_state(), evsv[i as int]);
            assert(evsv[i as int] == evs@[i as int]@);
        }
        match &evs[i] {
            MdEvent::BlockStart(info) => {
                let cbi = parse_code_block_info(info.as_str());
                if cbi.is_rust {
                    buf_info = Some(cbi);
                    buf_text = String::new();
                }
            },
            MdEvent::BlockText(t) => {
                if buf_info.is_some() {
                    buf_text.append(t.as_str());
                }
            },
            MdEvent::BlockEnd => {
                let taken = buf_info;
                buf_info = None;
                match taken {
                    Some(info) => {
                        let text = buf_text;
                        buf_text = String::new();
                        if info.is_old_template {
                            old_template = Some(text);
                        } else {
                            let ghost tv = tests@.map_values(|t: Test| t@);
                            let name = make_test_name(root, tests.len() as u64);
                            let lines = split_lines_exec(text.as_str());
                            let t = Test {
                                name,
                                text: lines,
                                ignore: info.ignore,
                                no_run: info.no_run,
                                should_panic: info.should_panic,
                                template: info.template,
                            };
                            let ghost tvv = t@;
                            tests.push(t);
                            proof {
                                assert(tests@.map_values(|t: Test| t@) =~= tv.push(tvv));
                            }
                        }
                    },
                    None => {},
                }
            },
            MdEvent::Other => {},
        }
        i = i + 1;
    }
    proof {
        assert(evsv.take(evs@.len() as int) =~= evsv);
    }
    (tests, old_template)
}

/// The template loader's fold state for a sibling template file: named
/// entries in the order their blocks closed, later entries overriding
/// earlier ones of the same name.
pub struct TemplStV {
    pub entries: Seq<(Seq<char>, Seq<char>)>,
    pub buf: Option<(CodeBlockInfoV, Seq<char>)>,
}

pub open spec fn init_templ_state() -> TemplStV {
    TemplStV { entries: Seq::empty(), buf: Option::None }
}

pub open spec fn templ_step(st: TemplStV, ev: MdEventV) -> TemplStV {
    match ev {
        MdEventV::BlockStart(info) => {
            let i = parse_info_spec(info);
            if i.is_rust {
                TemplStV { buf: Option::Some((i, Seq::empty())), ..st }
            } else {
                st
            }
        },
        MdEventV::BlockText(t) => match st.buf {
            Option::Some((i, text)) => TemplStV { buf: Option::Some((i, text + t)), ..st },
            Option::None => st,
        },
        MdEventV::BlockEnd => match st.buf {
            Option::Some((i, text)) => match i.template {
                Option::Some(name) => TemplStV {
                    entries: st.entries.push((name, text)),
                    buf: Option::None,
                },
                Option::None => TemplStV { buf: Option::None, ..st },
            },
            Option::None => st,
        },
        MdEventV::Other => st,
    }
}

pub open spec fn templ_fold(evs: Seq<MdEventV>, st: TemplStV) -> TemplStV
    decreases evs.len(),
{
    if evs.len() == 0 {
        st
    } else {
        templ_fold(evs.drop_first(), templ_step(st, evs[0]))
    }
}

proof fn lemma_templ_fold_push(evs: Seq<MdEventV>, st: TemplStV, x: MdEventV)
    ensures
        templ_fold(evs.push(x), st) == templ_step(templ_fold(evs, st), x),
    decreases evs.len(),
{
    if evs.len() == 0 {
        assert(evs.push(x)[0] == x);
        assert(evs.push(x).drop_first() =~= Seq::<MdEventV>::empty());
        assert(templ_fold(evs.push(x), st) == templ_fold(
            Seq::<MdEventV>::empty(),
            templ_step(st, x),
        ));
        assert(templ_fold(Seq::<MdEventV>::empty(), templ_step(st, x)) == templ_step(st, x));
        assert(templ_fold(evs, st) == st);
    } else {
        assert(evs.push(x)[0] == evs[0]);
        assert(evs.push(x).drop_first() =~= evs.drop_first().push(x));
        lemma_templ_fold_push(evs.drop_first(), templ_step(st, evs[0]), x);
        assert(templ_fold(evs.push(x), st) == templ_fold(
            evs.drop_first().push(x),
            templ_step(st, evs[0]),
        ));
        assert(templ_fold(evs, st) == templ_fold(evs.drop_first(), templ_step(st, evs[0])));
    }
}

/// The named templates read out of a sibling template file's event stream.
pub open spec fn load_templates_spec(evs: Seq<MdEventV>) -> Seq<(Seq<char>, Seq<char>)> {
    templ_fold(evs, init_templ_state()).entries
}

fn load_templates_from_events(evs: &Vec<MdEvent>) -> (r: Vec<(String, String)>)
    ensures
        r@.map_values(|p: (String, String)| (p.0@, p.1@)) == load_templates_spec(
            evs@.map_values(|e: MdEvent| e@),
        ),
{
    let ghost evsv = evs@.map_values(|e: MdEvent| e@);
    let mut entries: Vec<(String, String)> = Vec::new();
    let mut buf_info: Option<CodeBlockInfo> = None;
    let mut buf_text: String = String::new();
    let mut i: usize = 0;
    proof {
        assert(evsv.take(0) =~= Seq::<MdEventV>::empty());
        assert(entries@.map_values(|p: (String, String)| (p.0@, p.1@)) =~= Seq::<
            (Seq<char>, Seq<char>),
        >::empty());
    }
    while i < evs.len()
        invariant
            0 <= i <= evs@.len(),
            evsv == evs@.map_values(|e: MdEvent| e@),
            templ_fold(evsv.take(i as int), init_templ_state()) == (TemplStV {
                entries: entries@.map_values(|p: (String, String)| (p.0@, p.1@)),
                buf: match buf_info {
                    Option::Some(ci) => Option::Some((ci@, buf_text@)),
                    Option::None => Option::None,
                },
            }),
        decreases evs.len() - i,
    {
        proof {
            assert(evsv.take(i + 1) =~= evsv.take(i as int).push(evsv[i as int]));
            lemma_templ_fold_push(evsv.take(i as int), init_templ_state(), evsv[i as int]);
            assert(evsv[i as int] == evs@[i as int]@);
        }
        match &evs[i] {
            MdEvent::BlockStart(info) => {
                let cbi = parse_code_block_info(info.as_str());
                if cbi.is_rust {
                    buf_info = Some(cbi);
                    buf_text = String::new();
                }
            },
            MdEvent::BlockText(t) => {
                if buf_info.is_some() {
                    buf_text.append(t.as_str());
                }
            },
            MdEvent::BlockEnd => {
                let taken = buf_info;
                buf_info = None;
                match taken {
                    Some(info) => {
                        let text = buf_text;
                        buf_text = String::new();
                        match info.template {
                            Some(name) => {
                                let ghost ev = entries@.map_values(
                                    |p: (String, String)| (p.0@, p.1@),
                                );
                                let ghost pv = (name@, text@);
                                entries.push((name, text));
                                proof {
                                    assert(entries@.map_values(
                                        |p: (String, String)| (p.0@, p.1@),
                                    ) =~= ev.push(pv));
                                }
                            },
                            None => {},
                        }
                    },
                    None => {},
                }
            },
            MdEvent::Other => {},
        }
        i = i + 1;
    }
    proof {
        assert(evsv.take(evs@.len() as int) =~= evsv);
    }
    entries
}

/// What one document's extraction produces, given its own event stream and
/// its sibling template file's stream if that file exists.
pub open spec fn doc_extract_spec(
    path: Seq<char>,
    evs: Seq<MdEventV>,
    tevs: Option<Seq<MdEventV>>,
) -> DocTestV {
    let root = sanitize_seq(unicode_lower_of(file_stem_seq(path)));
    let f = extract_fold(root, evs, init_extract_state());
    DocTestV {
        path,
        old_template: f.old_template,
        tests: f.tests,
        templates: match tevs {
            Option::Some(e) => load_templates_spec(e),
            Option::None => Seq::empty(),
        },
    }
}

/// Extracts one document's tests and templates from its text and the text
/// of its sibling template file, if that file exists.
pub fn extract_tests_from_contents(
    path: &String,
    contents: &str,
    template_contents: Option<&str>,
) -> (r: DocTest)
    ensures
        r@ == doc_extract_spec(
            path@,
            md_events_of(contents@),
            match template_contents {
                Option::Some(s) => Option::Some(md_events_of(s@)),
                Option::None => Option::None,
            },
        ),
{
    let stem = file_stem_of(path.as_str());
    let root = sanitize_test_name(stem.as_str());
    let evs = md_events(contents);
    let (tests, old_template) = extract_from_events(&root, &evs);
    let templates: Vec<(String, String)> = match template_contents {
        Some(tc) => {
            let tevs = md_events(tc);
            load_templates_from_events(&tevs)
        },
        None => {
            let v: Vec<(String, String)> = Vec::new();
            proof {
                assert(v@.map_values(|p: (String, String)| (p.0@, p.1@)) =~= Seq::<
                    (Seq<char>, Seq<char>),
                >::empty());
            }
            v
        },
    };
    DocTest { path: path.clone(), old_template, tests, templates }
}

/// What extraction makes of one configured document.
pub open spec fn doc_of_input(d: crate::DocumentInputV) -> DocTestV {
    doc_extract_spec(
        d.path,
        md_events_of(d.contents),
        match d.template_contents {
            Option::Some(s) => Option::Some(md_events_of(s)),
            Option::None => Option::None,
        },
    )
}

pub open spec fn extract_suite_spec(c: crate::ConfigV) -> Seq<DocTestV> {
    c.docs.map_values(|d: crate::DocumentInputV| doc_of_input(d))
}

/// Extracts every configured document, in input order.
pub fn extract_tests(config: &crate::Config) -> (r: DocTestSuite)
    ensures
        r@ == extract_suite_spec(config@),
{
    let mut doc_tests: Vec<DocTest> = Vec::new();
    let mut i: usize = 0;
    while i < config.docs.len()
        invariant
            0 <= i <= config.docs@.len(),
            doc_tests@.len() == i,
            forall|j: int|
                0 <= j < i ==> doc_tests@[j]@ == doc_of_input(
                    config.docs@.map_values(|d: crate::DocumentInput| d@)[j],
                ),
        decreases config.docs.len() - i,
    {
        let d = &config.docs[i];
        let tc: Option<&str> = match &d.template_contents {
            Some(s) => Some(s.as_str()),
            None => None,
        };
        let dt = extract_tests_from_contents(&d.path, d.contents.as_str(), tc);
        doc_tests.push(dt);
        i = i + 1;
    }
    let r = DocTestSuite { doc_tests };
    proof {
        assert(r@ =~= extract_suite_spec(config@));
    }
    r
}

/// The count state while walking a stream: whether a runnable block is open,
/// and whether that block is the legacy template.
pub open spec fn runnable_count_rec(evs: Seq<MdEventV>, open_block: Option<bool>) -> nat
    decreases evs.len(),
{
    if evs.len() == 0 {
        0
    } else {
        match evs[0] {
            MdEventV::BlockStart(info) => {
                let i = parse_info_spec(info);
                runnable_count_rec(
                    evs.drop_first(),
                    if i.is_rust {
                        Option::Some(i.is_old_template)
                    } else {
                        open_block
                    },
                )
            },
            MdEventV::BlockText(_) => runnable_count_rec(evs.drop_first(), open_block),
            MdEventV::BlockEnd => match open_block {
                Option::Some(old) => (if old {
                    0nat
                } else {
                    1nat
                }) + runnable_count_rec(evs.drop_first(), Option::None),
                Option::None => runnable_count_rec(evs.drop_first(), Option::None),
            },
            MdEventV::Other => runnable_count_rec(evs.drop_first(), open_block),
        }
    }
}

/// The number of runnable sample blocks in a stream, templates excluded.
pub open spec fn runnable_sample_count(evs: Seq<MdEventV>) -> nat {
    runnable_count_rec(evs, Option::None)
}

pub open spec fn buf_flag(b: Option<(CodeBlockInfoV, Seq<char>)>) -> Option<bool> {
    match b {
        Option::Some((i, _)) => Option::Some(i.is_old_template),
        Option::None => Option::None,
    }
}

proof fn lemma_extract_fold_count(root: Seq<char>, evs: Seq<MdEventV>, st: ExtractStV)
    ensures
        extract_fold(root, evs, st).tests.len() == st.tests.len() + runnable_count_rec(
            evs,
            buf_flag(st.buf),
        ),
    decreases evs.len(),
{
    if evs.len() > 0 {
        lemma_extract_fold_count(root, evs.drop_first(), extract_step(root, st, evs[0]));
    }
}

proof fn lemma_extract_fold_names(root: Seq<char>, evs: Seq<MdEventV>, st: ExtractStV)
    requires
        forall|i: int|
            0 <= i < st.tests.len() ==> st.tests[i].name == test_name_spec(root, i as nat),
    ensures
        extract_fold(root, evs, st).tests.len() >= st.tests.len(),
        forall|i: int|
            0 <= i < extract_fold(root, evs, st).tests.len() ==> extract_fold(
                root,
                evs,
                st,
            ).tests[i].name == test_name_spec(root, i as nat),
    decreases evs.len(),
{
    if evs.len() > 0 {
        lemma_extract_fold_names(root, evs.drop_first(), extract_step(root, st, evs[0]));
    }
}

/// Extraction yields exactly one test per runnable sample block, template
/// blocks excluded, and the tests carry the names `root_0 .. root_{N-1}` in
/// document order.
pub proof fn lemma_extraction_count_and_names(root: Seq<char>, evs: Seq<MdEventV>)
    ensures
        extract_doc_spec(root, evs).tests.len() == runnable_sample_count(evs),
        forall|i: int|
            0 <= i < extract_doc_spec(root, evs).tests.len() ==> extract_doc_spec(
                root,
                evs,
            ).tests[i].name == test_name_spec(root, i as nat),
{
    lemma_extract_fold_count(root, evs, init_extract_state());
    lemma_extract_fold_names(root, evs, init_extract_state());
}

pub open spec fn template_file_suffix() -> Seq<char> {
    seq!['.', 's', 'k', 't', '.', 'm', 'd']
}

/// Whether a path names a sibling template file rather than a document; such
/// paths are dropped from the configured document list.
pub fn is_template_path(p: &str) -> (r: bool)
    ensures
        r == (p@.len() >= 7 && p@.skip(p@.len() - 7) == template_file_suffix()),
{
    let cs = crate::strutil::str_chars(p);
    let n = cs.len();
    if n < 7 {
        return false;
    }
    let m = crate::strutil::copy_range(&cs, n - 7, n);
    let suffix: Vec<char> = vec!['.', 's', 'k', 't', '.', 'm', 'd'];
    proof {
        assert(suffix@ =~= template_file_suffix());
        assert(m@ =~= p@.skip(p@.len() - 7));
    }
    crate::strutil::chars_eq(&m, &suffix)
}

} // verus!
