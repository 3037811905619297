//! Assembly of one extracted sample into generated test source text: the
//! line-omission rule, template resolution, and the emitted test entry.

use vstd::prelude::*;
use crate::strutil::{is_ws_char, char_is_whitespace, str_chars, string_from_chars, copy_range};
use vstd::string::StringExecFns;

verus! {

/// `s` with its leading whitespace removed.
pub open spec fn trim_start_seq(s: Seq<char>) -> Seq<char>
    decreases s.len(),
{
    if s.len() > 0 && is_ws_char(s[0]) {
        trim_start_seq(s.drop_first())
    } else {
        s
    }
}

/// Whether the line, after trimming, is a bare marker line `#\n` or starts
/// with the two-character marker prefix `# `.
pub open spec fn omission_match(s: Seq<char>) -> bool {
    let t = trim_start_seq(s);
    t == seq!['#', '\n'] || (t.len() >= 2 && t[0] == '#' && t[1] == ' ')
}

/// The line-omission rule: a trimmed `#\n` keeps only the newline, a trimmed
/// `# ` prefix is dropped, and every other line passes through unchanged.
pub open spec fn clean_line_spec(s: Seq<char>) -> Seq<char> {
    let t = trim_start_seq(s);
    if t == seq!['#', '\n'] {
        t.drop_first()
    } else if t.len() >= 2 && t[0] == '#' && t[1] == ' ' {
        t.skip(2)
    } else {
        s
    }
}

/// Applies the line-omission rule to one line of a sample.
pub fn clean_omitted_line(line: &String) -> (r: String)
    ensures
        r@ == clean_line_spec(line@),
{
    let cs = str_chars(line.as_str());
    let mut j: usize = 0;
    proof {
        assert(cs@.skip(0) =~= cs@);
    }
    while j < cs.len() && char_is_whitespace(cs[j])
        invariant
            0 <= j <= cs@.len(),
            cs@ == line@,
            trim_start_seq(line@) == trim_start_seq(cs@.skip(j as int)),
        decreases cs.len() - j,
    {
        proof {
            assert(cs@.skip(j as int)[0] == cs@[j as int]);
            assert(cs@.skip(j as int).drop_first() =~= cs@.skip(j + 1));
        }
        j = j + 1;
    }
    proof {
        if j < cs@.len() {
            assert(cs@.skip(j as int)[0] == cs@[j as int]);
        } else {
            assert(cs@.skip(j as int) =~= Seq::<char>::empty());
        }
        assert(trim_start_seq(line@) == cs@.skip(j as int));
    }
    let n = cs.len();
    let ghost t = trim_start_seq(line@);
    if n - j == 2 && cs[j] == '#' && cs[j + 1] == '\n' {
        proof {
            assert(t.len() == 2);
            assert(t[0] == '#' && t[1] == '\n');
            assert(t =~= seq!['#', '\n']);
        }
        let v: Vec<char> = vec!['\n'];
        proof {
            assert(v@ =~= t.drop_first());
        }
        string_from_chars(&v)
    } else if n - j >= 2 && cs[j] == '#' && cs[j + 1] == ' ' {
        proof {
            assert(t.len() >= 2);
            assert(t[0] == '#' && t[1] == ' ');
        }
        let v = copy_range(&cs, j + 2, n);
        proof {
            assert(v@ =~= t.skip(2));
            assert(!(t == seq!['#', '\n']));
        }
        string_from_chars(&v)
    } else {
        proof {
            if t == seq!['#', '\n'] {
                assert(t.len() == 2 && t[0] == '#' && t[1] == '\n');
                assert(false);
            }
            if t.len() >= 2 && t[0] == '#' && t[1] == ' ' {
                assert(false);
            }
        }
        line.clone()
    }
}

/// Cleaning a line a second time changes nothing, for every line whose
/// cleaned form does not itself match the omission marker again.
pub proof fn lemma_clean_omitted_line_idempotent(line: Seq<char>)
    requires
        !omission_match(clean_line_spec(line)),
    ensures
        clean_line_spec(clean_line_spec(line)) == clean_line_spec(line),
{
}

/// The body of one generated test: every raw line cleaned, then joined.
pub open spec fn test_input_spec(lines: Seq<Seq<char>>) -> Seq<char>
    decreases lines.len(),
{
    if lines.len() == 0 {
        Seq::empty()
    } else {
        clean_line_spec(lines[0]) + test_input_spec(lines.drop_first())
    }
}

proof fn lemma_test_input_push(lines: Seq<Seq<char>>, x: Seq<char>)
    ensures
        test_input_spec(lines.push(x)) == test_input_spec(lines) + clean_line_spec(x),
    decreases lines.len(),
{
    if lines.len() == 0 {
        assert(lines.push(x)[0] == x);
        assert(lines.push(x).drop_first() =~= Seq::<Seq<char>>::empty());
        assert(test_input_spec(lines.push(x)) == clean_line_spec(x) + test_input_spec(
            Seq::<Seq<char>>::empty(),
        ));
        assert(test_input_spec(Seq::<Seq<char>>::empty()) =~= Seq::<char>::empty());
        assert(clean_line_spec(x) + Seq::<char>::empty() =~= clean_line_spec(x));
        assert(test_input_spec(lines) + clean_line_spec(x) =~= clean_line_spec(x));
    } else {
        assert(lines.push(x)[0] == lines[0]);
        assert(lines.push(x).drop_first() =~= lines.drop_first().push(x));
        lemma_test_input_push(lines.drop_first(), x);
        assert(test_input_spec(lines.push(x)) == clean_line_spec(lines[0]) + test_input_spec(
            lines.drop_first().push(x),
        ));
        assert(test_input_spec(lines) == clean_line_spec(lines[0]) + test_input_spec(
            lines.drop_first(),
        ));
        assert(clean_line_spec(lines[0]) + (test_input_spec(lines.drop_first())
            + clean_line_spec(x)) =~= (clean_line_spec(lines[0]) + test_input_spec(
            lines.drop_first(),
        )) + clean_line_spec(x));
    }
}

/// Builds the code text a generated test operates on: each raw line is run
/// through the line-omission rule and the results are joined in order.
pub fn create_test_input(lines: &Vec<String>) -> (r: String)
    ensures
        r@ == test_input_spec(lines@.map_values(|l: String| l@)),
{
    let ghost lv = lines@.map_values(|l: String| l@);
    let mut out = String::new();
    let mut i: usize = 0;
    proof {
        assert(lv.take(0) =~= Seq::<Seq<char>>::empty());
        assert(out@ =~= test_input_spec(lv.take(0)));
    }
    while i < lines.len()
        invariant
            0 <= i <= lines@.len(),
            lv == lines@.map_values(|l: String| l@),
            out@ == test_input_spec(lv.take(i as int)),
        decreases lines.len() - i,
    {
        let cleaned = clean_omitted_line(&lines[i]);
        out.append(cleaned.as_str());
        proof {
            assert(lv.take(i + 1) =~= lv.take(i as int).push(lv[i as int]));
            lemma_test_input_push(lv.take(i as int), lv[i as int]);
            assert(lv[i as int] == lines@[i as int]@);
        }
        i = i + 1;
    }
    proof {
        assert(lv.take(lines@.len() as int) =~= lv);
    }
    out
}

/// A generation-time failure: a test referenced a named template that its
/// document's template store does not hold.
#[derive(Debug)]
pub struct SkepticError {
    pub template: String,
    pub doc: String,
}

pub struct SkepticErrorV {
    pub template: Seq<char>,
    pub doc: Seq<char>,
}

impl View for SkepticError {
    type V = SkepticErrorV;

    open spec fn view(&self) -> SkepticErrorV {
        SkepticErrorV { template: self.template@, doc: self.doc@ }
    }
}

impl SkepticError {
    /// A readable message naming both the missing template and the document.
    pub fn describe(&self) -> (r: String)
        ensures
            r@ == "template "@ + self.template@ + " not found for "@ + self.doc@,
    {
        let mut out = String::new();
        out.append("template ");
        out.append(self.template.as_str());
        out.append(" not found for ");
        out.append(self.doc.as_str());
        proof {
            assert(out@ =~= "template "@ + self.template@ + " not found for "@ + self.doc@);
        }
        out
    }
}

pub open spec fn res_view(r: Result<String, SkepticError>) -> Result<Seq<char>, SkepticErrorV> {
    match r {
        Result::Ok(s) => Result::Ok(s@),
        Result::Err(e) => Result::Err(e@),
    }
}

/// The last entry stored under `name`, since later template definitions
/// override earlier ones of the same name.
pub open spec fn lookup_template(ts: Seq<(Seq<char>, Seq<char>)>, name: Seq<char>) -> Option<
    Seq<char>,
>
    decreases ts.len(),
{
    if ts.len() == 0 {
        Option::None
    } else if ts.last().0 == name {
        Option::Some(ts.last().1)
    } else {
        lookup_template(ts.drop_last(), name)
    }
}

fn lookup_template_exec(ts: &Vec<(String, String)>, name: &String) -> (r: Option<String>)
    ensures
        crate::strutil::opt_view(r) == lookup_template(
            ts@.map_values(|p: (String, String)| (p.0@, p.1@)),
            name@,
        ),
{
    let ghost tsv = ts@.map_values(|p: (String, String)| (p.0@, p.1@));
    let mut j: usize = ts.len();
    proof {
        assert(tsv.take(ts@.len() as int) =~= tsv);
    }
    while j > 0
        invariant
            0 <= j <= ts@.len(),
            tsv == ts@.map_values(|p: (String, String)| (p.0@, p.1@)),
            lookup_template(tsv, name@) == lookup_template(tsv.take(j as int), name@),
        decreases j,
    {
        proof {
            assert(tsv.take(j as int).last() == tsv[j - 1]);
        }
        if ts[j - 1].0 == *name {
            return Some(ts[j - 1].1.clone());
        }
        proof {
            assert(tsv.take(j as int).drop_last() =~= tsv.take(j - 1));
        }
        j = j - 1;
    }
    proof {
        assert(tsv.take(0) =~= Seq::<(Seq<char>, Seq<char>)>::empty());
    }
    None
}

/// The template a test's body is substituted into: its explicit reference
/// when resolved, else the document's legacy template, else the identity
/// template that is nothing but the substitution point.
pub open spec fn resolved_template_spec(template: Option<Seq<char>>) -> Seq<char> {
    match template {
        Option::Some(t) => t,
        Option::None => seq!['{', '}'],
    }
}

/// The full text of one generated test entry.
pub open spec fn runner_spec(
    out_dir: Seq<char>,
    template: Option<Seq<char>>,
    t: crate::extract::TestV,
) -> Seq<char> {
    (if t.ignore {
        "#[ignore]\n"@
    } else {
        Seq::<char>::empty()
    }) + (if t.should_panic {
        "#[should_panic]\n"@
    } else {
        Seq::<char>::empty()
    }) + "#[test] fn "@ + t.name + "() {\n"@ + "    let s = &format!(r####\"\n"@
        + resolved_template_spec(template) + "\"####, r####\""@ + test_input_spec(t.text)
        + "\"####);\n"@ + (if t.no_run {
        "    skeptic::rt::compile_test(r#\""@
    } else {
        "    skeptic::rt::run_test(r#\""@
    }) + out_dir + "\"#, s);\n"@ + "}\n\n"@
}

/// Writes the generated test entry for one sample: its annotations, its
/// named test function, the template-and-body substitution, and the call
/// into the harness — the compile-only entry point when the sample is
/// `no_run`, the compile-and-run entry point otherwise.
pub fn create_test_runner(
    config: &crate::Config,
    template: &Option<String>,
    test: &crate::extract::Test,
) -> (r: String)
    ensures
        r@ == runner_spec(config.out_dir@, crate::strutil::opt_view(*template), test@),
{
    let mut out = String::new();
    if test.ignore {
        out.append("#[ignore]\n");
    }
    if test.should_panic {
        out.append("#[should_panic]\n");
    }
    out.append("#[test] fn ");
    out.append(test.name.as_str());
    out.append("() {\n");
    out.append("    let s = &format!(r####\"\n");
    match template {
        Some(t) => out.append(t.as_str()),
        None => out.append("{}"),
    }
    out.append("\"####, r####\"");
    let body = create_test_input(&test.text);
    out.append(body.as_str());
    out.append("\"####);\n");
    if test.no_run {
        out.append("    skeptic::rt::compile_test(r#\"");
    } else {
        out.append("    skeptic::rt::run_test(r#\"");
    }
    out.append(config.out_dir.as_str());
    out.append("\"#, s);\n");
    out.append("}\n\n");
    proof {
        if template is Some {
            assert(resolved_template_spec(crate::strutil::opt_view(*template))
                == template->Some_0@);
        } else {
            reveal_strlit("{}");
            assert(resolved_template_spec(crate::strutil::opt_view(*template)) =~= "{}"@);
        }
        assert(out@ =~= runner_spec(config.out_dir@, crate::strutil::opt_view(*template), test@));
    }
    out
}

/// An ignored sample is still generated in full: its emitted entry merely
/// opens with the ignore annotation, and more text follows it.
pub proof fn lemma_ignore_annotation(
    out_dir: Seq<char>,
    template: Option<Seq<char>>,
    t: crate::extract::TestV,
)
    requires
        t.ignore,
    ensures
        runner_spec(out_dir, template, t).take(10) == "#[ignore]\n"@,
        runner_spec(out_dir, template, t).len() > 10,
{
    reveal_strlit("#[ignore]\n");
    reveal_strlit("#[test] fn ");
    assert(runner_spec(out_dir, template, t).take(10) =~= "#[ignore]\n"@);
}

/// Resolution of one test's template: an explicit reference overrides the
/// document's legacy template; a test with neither gets no wrapper. A
/// reference that resolves to nothing is the missing-template error, naming
/// the template and the document.
pub open spec fn resolve_template_spec(
    doc: crate::extract::DocTestV,
    t: crate::extract::TestV,
) -> Result<Option<Seq<char>>, SkepticErrorV> {
    match t.template {
        Option::Some(name) => match lookup_template(doc.templates, name) {
            Option::Some(text) => Result::Ok(Option::Some(text)),
            Option::None => Result::Err(SkepticErrorV { template: name, doc: doc.path }),
        },
        Option::None => Result::Ok(doc.old_template),
    }
}

/// Template resolution priority: an explicit reference that resolves wins,
/// whatever the document's legacy template holds; a test without a
/// reference falls back to the legacy template; and a test with neither is
/// wrapped in the identity template, the bare substitution point.
pub proof fn lemma_template_priority(doc: crate::extract::DocTestV, t: crate::extract::TestV)
    ensures
        t.template is Some && lookup_template(doc.templates, t.template->Some_0) is Some
            ==> resolve_template_spec(doc, t) == Result::<
            Option<Seq<char>>,
            SkepticErrorV,
        >::Ok(Option::Some(lookup_template(doc.templates, t.template->Some_0)->Some_0)),
        t.template is None ==> resolve_template_spec(doc, t) == Result::<
            Option<Seq<char>>,
            SkepticErrorV,
        >::Ok(doc.old_template),
        resolved_template_spec(Option::None) == seq!['{', '}'],
{
}

/// The emitted entries of one document from test index `k` on, or the first
/// missing-template error.
pub open spec fn emit_doc_rec(
    out_dir: Seq<char>,
    doc: crate::extract::DocTestV,
    k: int,
) -> Result<Seq<char>, SkepticErrorV>
    decreases doc.tests.len() - k,
{
    if k < 0 || k >= doc.tests.len() {
        Result::Ok(Seq::<char>::empty())
    } else {
        match resolve_template_spec(doc, doc.tests[k]) {
            Result::Err(e) => Result::Err(e),
            Result::Ok(tmpl) => match emit_doc_rec(out_dir, doc, k + 1) {
                Result::Err(e) => Result::Err(e),
                Result::Ok(rest) => Result::Ok(
                    runner_spec(out_dir, tmpl, doc.tests[k]) + rest,
                ),
            },
        }
    }
}

proof fn lemma_missing_from(out_dir: Seq<char>, doc: crate::extract::DocTestV, j: int, k: int)
    requires
        0 <= j <= k < doc.tests.len(),
        forall|m: int| j <= m < k ==> resolve_template_spec(doc, doc.tests[m]) is Ok,
        resolve_template_spec(doc, doc.tests[k]) is Err,
    ensures
        emit_doc_rec(out_dir, doc, j) == Result::<Seq<char>, SkepticErrorV>::Err(
            resolve_template_spec(doc, doc.tests[k])->Err_0,
        ),
    decreases k - j,
{
    if j < k {
        lemma_missing_from(out_dir, doc, j + 1, k);
    }
}

/// A test whose named template is missing aborts the whole document's
/// generation: when every earlier test resolves, the emitted result is that
/// test's error, naming the missing template and the document, and no
/// generated text at all.
pub proof fn lemma_missing_template_aborts(
    out_dir: Seq<char>,
    doc: crate::extract::DocTestV,
    k: int,
)
    requires
        0 <= k < doc.tests.len(),
        forall|m: int| 0 <= m < k ==> resolve_template_spec(doc, doc.tests[m]) is Ok,
        doc.tests[k].template is Some,
        lookup_template(doc.templates, doc.tests[k].template->Some_0) is None,
    ensures
        emit_doc_rec(out_dir, doc, 0) == Result::<Seq<char>, SkepticErrorV>::Err(
            SkepticErrorV { template: doc.tests[k].template->Some_0, doc: doc.path },
        ),
{
    lemma_missing_from(out_dir, doc, 0, k);
}

/// The emitted entries of all documents from index `k` on.
pub open spec fn emit_docs_rec(
    out_dir: Seq<char>,
    docs: Seq<crate::extract::DocTestV>,
    k: int,
) -> Result<Seq<char>, SkepticErrorV>
    decreases docs.len() - k,
{
    if k < 0 || k >= docs.len() {
        Result::Ok(Seq::<char>::empty())
    } else {
        match emit_doc_rec(out_dir, docs[k], 0) {
            Result::Err(e) => Result::Err(e),
            Result::Ok(s) => match emit_docs_rec(out_dir, docs, k + 1) {
                Result::Err(e) => Result::Err(e),
                Result::Ok(rest) => Result::Ok(s + rest),
            },
        }
    }
}

/// The fixed first line of the artifact, declaring the generated tests'
/// dependency on this library's runtime harness.
pub open spec fn preamble_spec() -> Seq<char> {
    seq![
        'e', 'x', 't', 'e', 'r', 'n', ' ', 'c', 'r', 'a', 't', 'e', ' ', 's', 'k', 'e', 'p',
        't', 'i', 'c', ';', '\n',
    ]
}

fn preamble_string() -> (r: String)
    ensures
        r@ == preamble_spec(),
{
    let v: Vec<char> = vec![
        'e', 'x', 't', 'e', 'r', 'n', ' ', 'c', 'r', 'a', 't', 'e', ' ', 's', 'k', 'e', 'p',
        't', 'i', 'c', ';', '\n',
    ];
    proof {
        assert(v@ =~= preamble_spec());
    }
    crate::strutil::string_from_chars(&v)
}

/// The whole artifact: the preamble, then every document's every entry in
/// document order then per-document test order — or the first
/// missing-template error, in which case there is no artifact text at all.
pub open spec fn emit_spec(out_dir: Seq<char>, docs: Seq<crate::extract::DocTestV>) -> Result<
    Seq<char>,
    SkepticErrorV,
> {
    match emit_docs_rec(out_dir, docs, 0) {
        Result::Err(e) => Result::Err(e),
        Result::Ok(s) => Result::Ok(preamble_spec() + s),
    }
}

pub open spec fn prepend_result(p: Seq<char>, r: Result<Seq<char>, SkepticErrorV>) -> Result<
    Seq<char>,
    SkepticErrorV,
> {
    match r {
        Result::Ok(s) => Result::Ok(p + s),
        Result::Err(e) => Result::Err(e),
    }
}

/// Serializes the whole suite into the artifact text, or stops at the first
/// test whose named template is missing and returns that error instead.
pub fn emit_tests(config: &crate::Config, suite: crate::extract::DocTestSuite) -> (r: Result<
    String,
    SkepticError,
>)
    ensures
        res_view(r) == emit_spec(config.out_dir@, suite@),
{
    let ghost docsv = suite@;
    let mut body = String::new();
    let mut i: usize = 0;
    proof {
        assert(Seq::<char>::empty() + body@ =~= body@);
    }
    while i < suite.doc_tests.len()
        invariant
            0 <= i <= suite.doc_tests@.len(),
            docsv == suite.doc_tests@.map_values(|d: crate::extract::DocTest| d@),
            prepend_result(body@, emit_docs_rec(config.out_dir@, docsv, i as int))
                == emit_docs_rec(config.out_dir@, docsv, 0),
        decreases suite.doc_tests.len() - i,
    {
        let doc = &suite.doc_tests[i];
        let ghost dv = docsv[i as int];
        let ghost body_outer = body@;
        let mut k: usize = 0;
        while k < doc.tests.len()
            invariant
                0 <= k <= doc.tests@.len(),
                0 <= i < suite.doc_tests@.len(),
                docsv == suite.doc_tests@.map_values(|d: crate::extract::DocTest| d@),
                dv == docsv[i as int],
                dv == doc@,
                doc == &suite.doc_tests@[i as int],
                prepend_result(body_outer, emit_docs_rec(config.out_dir@, docsv, i as int))
                    == emit_docs_rec(config.out_dir@, docsv, 0),
                prepend_result(body@, emit_doc_rec(config.out_dir@, dv, k as int))
                    == prepend_result(body_outer, emit_doc_rec(config.out_dir@, dv, 0)),
            decreases doc.tests.len() - k,
        {
            let t = &doc.tests[k];
            proof {
                assert(dv.tests[k as int] == t@);
            }
            let tmpl: Option<String> = match &t.template {
                Some(name) => {
                    match lookup_template_exec(&doc.templates, name) {
                        Some(text) => Some(text),
                        None => {
                            let e = SkepticError {
                                template: name.clone(),
                                doc: doc.path.clone(),
                            };
                            proof {
                                assert(resolve_template_spec(dv, dv.tests[k as int])
                                    == Result::<Option<Seq<char>>, SkepticErrorV>::Err(e@));
                                assert(emit_doc_rec(config.out_dir@, dv, k as int)
                                    == Result::<Seq<char>, SkepticErrorV>::Err(e@));
                                assert(emit_doc_rec(config.out_dir@, dv, 0)
                                    == Result::<Seq<char>, SkepticErrorV>::Err(e@));
                                assert(emit_docs_rec(config.out_dir@, docsv, i as int)
                                    == Result::<Seq<char>, SkepticErrorV>::Err(e@));
                                assert(emit_docs_rec(config.out_dir@, docsv, 0)
                                    == Result::<Seq<char>, SkepticErrorV>::Err(e@));
                            }
                            return Err(e);
                        },
                    }
                },
                None => {
                    match &doc.old_template {
                        Some(t0) => Some(t0.clone()),
                        None => None,
                    }
                },
            };
            proof {
                assert(resolve_template_spec(dv, dv.tests[k as int]) == Result::<
                    Option<Seq<char>>,
                    SkepticErrorV,
                >::Ok(crate::strutil::opt_view(tmpl)));
            }
            let entry = create_test_runner(config, &tmpl, t);
            let ghost body_before = body@;
            body.append(entry.as_str());
            proof {
                let od = config.out_dir@;
                assert(emit_doc_rec(od, dv, k as int) == (match emit_doc_rec(od, dv, k + 1) {
                    Result::<Seq<char>, SkepticErrorV>::Err(e) => Result::<
                        Seq<char>,
                        SkepticErrorV,
                    >::Err(e),
                    Result::<Seq<char>, SkepticErrorV>::Ok(rest) => Result::<
                        Seq<char>,
                        SkepticErrorV,
                    >::Ok(entry@ + rest),
                }));
                if emit_doc_rec(od, dv, k + 1) is Ok {
                    assert(body_before + (entry@ + emit_doc_rec(od, dv, k + 1)->Ok_0) =~= body@
                        + emit_doc_rec(od, dv, k + 1)->Ok_0);
                }
            }
            k = k + 1;
        }
        proof {
            let od = config.out_dir@;
            assert(emit_doc_rec(od, dv, dv.tests.len() as int) == Result::<
                Seq<char>,
                SkepticErrorV,
            >::Ok(Seq::<char>::empty()));
            assert(body@ + Seq::<char>::empty() =~= body@);
            assert(prepend_result(body@, emit_doc_rec(od, dv, dv.tests.len() as int))
                == Result::<Seq<char>, SkepticErrorV>::Ok(body@));
            assert(emit_doc_rec(od, dv, 0) is Ok);
            let delta = emit_doc_rec(od, dv, 0)->Ok_0;
            assert(body@ == body_outer + delta);
            assert(emit_docs_rec(od, docsv, i as int) == (match emit_docs_rec(od, docsv, i + 1) {
                Result::<Seq<char>, SkepticErrorV>::Err(e) => Result::<
                    Seq<char>,
                    SkepticErrorV,
                >::Err(e),
                Result::<Seq<char>, SkepticErrorV>::Ok(rest) => Result::<
                    Seq<char>,
                    SkepticErrorV,
                >::Ok(delta + rest),
            }));
            if emit_docs_rec(od, docsv, i + 1) is Ok {
                assert(body_outer + (delta + emit_docs_rec(od, docsv, i + 1)->Ok_0) =~= body@
                    + emit_docs_rec(od, docsv, i + 1)->Ok_0);
            }
        }
        i = i + 1;
    }
    proof {
        let od = config.out_dir@;
        assert(emit_docs_rec(od, docsv, docsv.len() as int) == Result::<
            Seq<char>,
            SkepticErrorV,
        >::Ok(Seq::<char>::empty()));
        assert(body@ + Seq::<char>::empty() =~= body@);
    }
    let mut full = preamble_string();
    full.append(body.as_str());
    Ok(full)
}

/// Whether the artifact must be (re)written: only when there is no existing
/// content, or the existing content differs from the fresh text. Unchanged
/// inputs regenerate byte-identical content, and the artifact is then left
/// untouched.
pub fn needs_write(existing: Option<&String>, fresh: &String) -> (r: bool)
    ensures
        r == !(match existing {
            Option::Some(c) => c@ == fresh@,
            Option::None => false,
        }),
{
    match existing {
        Some(c) => !(*c == *fresh),
        None => true,
    }
}

} // verus!
