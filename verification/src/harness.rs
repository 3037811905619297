//! The pure parts of the execution harness: recovering a library name from a
//! dependency archive's file stem, assembling the compiler invocation, and
//! the per-test state machine that separates compile-only from run.

use vstd::prelude::*;
use crate::names::{before_last, lemma_before_last_at};
use crate::strutil::{str_chars, string_from_chars, chars_eq, copy_range, find_after_last};
use vstd::string::StringExecFns;

verus! {

/// The library name encoded in a dependency archive's file stem: the part
/// before the final hash segment, with the fixed three-character library
/// prefix stripped; stems without a hash separator or too short a prefix
/// part are malformed and yield nothing.
pub open spec fn libname_spec(stem: Seq<char>) -> Option<Seq<char>> {
    if !stem.contains('-') {
        Option::None
    } else {
        let pre = before_last(stem, '-');
        if pre.len() >= 3 {
            Option::Some(pre.skip(3))
        } else {
            Option::None
        }
    }
}

/// Recovers the declared library name from a dependency archive's file stem.
pub fn parse_archive_libname(stem: &str) -> (r: Option<String>)
    ensures
        crate::strutil::opt_view(r) == libname_spec(stem@),
{
    let cs = str_chars(stem);
    let d = find_after_last(&cs, '-');
    if d == 0 {
        proof {
            if stem@.contains('-') {
                let j = choose|j: int| 0 <= j < stem@.len() && stem@[j] == '-';
                assert(false);
            }
        }
        return None;
    }
    proof {
        lemma_before_last_at(cs@, '-', d - 1);
        assert(stem@[d - 1] == '-');
        assert(stem@.contains('-'));
    }
    if d - 1 >= 3 {
        let name = copy_range(&cs, 3, d - 1);
        proof {
            assert(name@ =~= before_last(stem@, '-').skip(3));
        }
        Some(string_from_chars(&name))
    } else {
        None
    }
}

/// One directory entry of the dependency-archive directory, reduced to what
/// the harness reads: the file stem, the extension, and the full path.
pub struct DepEntry {
    pub stem: String,
    pub extension: String,
    pub path: String,
}

pub struct DepEntryV {
    pub stem: Seq<char>,
    pub extension: Seq<char>,
    pub path: Seq<char>,
}

impl View for DepEntry {
    type V = DepEntryV;

    open spec fn view(&self) -> DepEntryV {
        DepEntryV { stem: self.stem@, extension: self.extension@, path: self.path@ }
    }
}

pub open spec fn rlib_ext() -> Seq<char> {
    seq!['r', 'l', 'i', 'b']
}

/// The explicit named-dependency arguments for the entries from index `k`
/// on: one `--extern name=path` pair per archive whose stem parses.
pub open spec fn extern_args_rec(deps: Seq<DepEntryV>, k: int) -> Seq<Seq<char>>
    decreases deps.len() - k,
{
    if k < 0 || k >= deps.len() {
        Seq::empty()
    } else {
        let rest = extern_args_rec(deps, k + 1);
        if deps[k].extension == rlib_ext() {
            match libname_spec(deps[k].stem) {
                Option::Some(name) => seq!["--extern"@, name + "="@ + deps[k].path] + rest,
                Option::None => rest,
            }
        } else {
            rest
        }
    }
}

/// The full compiler invocation for one assembled test: input, output,
/// the two library search paths, and one named dependency per archive.
pub open spec fn rustc_args_spec(
    in_path: Seq<char>,
    out_path: Seq<char>,
    target_dir: Seq<char>,
    deps_dir: Seq<char>,
    deps: Seq<DepEntryV>,
) -> Seq<Seq<char>> {
    seq![
        in_path,
        "--verbose"@,
        "-o"@,
        out_path,
        "--crate-type=bin"@,
        "-L"@,
        target_dir,
        "-L"@,
        deps_dir,
    ] + extern_args_rec(deps, 0)
}

/// Assembles the compiler's argument list for one test.
pub fn rustc_args(
    in_path: &String,
    out_path: &String,
    target_dir: &String,
    deps_dir: &String,
    deps: &Vec<DepEntry>,
) -> (r: Vec<String>)
    ensures
        r@.map_values(|a: String| a@) == rustc_args_spec(
            in_path@,
            out_path@,
            target_dir@,
            deps_dir@,
            deps@.map_values(|d: DepEntry| d@),
        ),
{
    let ghost depsv = deps@.map_values(|d: DepEntry| d@);
    let mut out: Vec<String> = Vec::new();
    out.push(in_path.clone());
    out.push(String::from_str("--verbose"));
    out.push(String::from_str("-o"));
    out.push(out_path.clone());
    out.push(String::from_str("--crate-type=bin"));
    out.push(String::from_str("-L"));
    out.push(target_dir.clone());
    out.push(String::from_str("-L"));
    out.push(deps_dir.clone());
    let ghost full = rustc_args_spec(in_path@, out_path@, target_dir@, deps_dir@, depsv);
    let mut k: usize = 0;
    proof {
        assert(out@.map_values(|a: String| a@) + extern_args_rec(depsv, 0) =~= full);
    }
    while k < deps.len()
        invariant
            0 <= k <= deps@.len(),
            depsv == deps@.map_values(|d: DepEntry| d@),
            full == rustc_args_spec(in_path@, out_path@, target_dir@, deps_dir@, depsv),
            out@.map_values(|a: String| a@) + extern_args_rec(depsv, k as int) == full,
        decreases deps.len() - k,
    {
        let d = &deps[k];
        proof {
            assert(depsv[k as int] == d@);
        }
        let ext = str_chars(d.extension.as_str());
        let rl: Vec<char> = vec!['r', 'l', 'i', 'b'];
        proof {
            assert(rl@ =~= rlib_ext());
        }
        if chars_eq(&ext, &rl) {
            match parse_archive_libname(d.stem.as_str()) {
                Some(name) => {
                    let ghost outv = out@.map_values(|a: String| a@);
                    out.push(String::from_str("--extern"));
                    let mut pair = name;
                    pair.append("=");
                    pair.append(d.path.as_str());
                    let ghost pairv = pair@;
                    out.push(pair);
                    proof {
                        assert(out@.map_values(|a: String| a@) =~= outv.push("--extern"@).push(
                            pairv,
                        ));
                        assert(extern_args_rec(depsv, k as int) =~= seq!["--extern"@, pairv]
                            + extern_args_rec(depsv, k + 1));
                        assert(outv.push("--extern"@).push(pairv) + extern_args_rec(depsv, k + 1)
                            =~= outv + extern_args_rec(depsv, k as int));
                    }
                },
                None => {},
            }
        }
        k = k + 1;
    }
    proof {
        assert(extern_args_rec(depsv, depsv.len() as int) =~= Seq::<Seq<char>>::empty());
        assert(out@.map_values(|a: String| a@) + Seq::<Seq<char>>::empty() =~= out@.map_values(
            |a: String| a@,
        ));
    }
    out
}

/// The parent of a `/`-separated path without a trailing separator: what
/// stands before the last `/`, or nothing when there is none.
pub open spec fn parent_spec(p: Seq<char>) -> Seq<char> {
    if p.contains('/') {
        before_last(p, '/')
    } else {
        Seq::empty()
    }
}

pub fn parent_of(p: &str) -> (r: String)
    ensures
        r@ == parent_spec(p@),
{
    let cs = str_chars(p);
    let d = find_after_last(&cs, '/');
    if d == 0 {
        proof {
            if p@.contains('/') {
                let j = choose|j: int| 0 <= j < p@.len() && p@[j] == '/';
                assert(false);
            }
        }
        let v: Vec<char> = Vec::new();
        proof {
            assert(v@ =~= parent_spec(p@));
        }
        string_from_chars(&v)
    } else {
        proof {
            lemma_before_last_at(cs@, '/', d - 1);
            assert(p@[d - 1] == '/');
            assert(p@.contains('/'));
        }
        let v = copy_range(&cs, 0, d - 1);
        proof {
            assert(v@ =~= parent_spec(p@));
        }
        string_from_chars(&v)
    }
}

/// The build artifact root: three directory levels above the build output
/// directory.
pub fn target_dir_of(out_dir: &str) -> (r: String)
    ensures
        r@ == parent_spec(parent_spec(parent_spec(out_dir@))),
{
    let a = parent_of(out_dir);
    let b = parent_of(a.as_str());
    parent_of(b.as_str())
}

/// The dependency-archive directory under the build artifact root.
pub fn deps_dir_of(target_dir: &str) -> (r: String)
    ensures
        r@ == target_dir@ + "/deps"@,
{
    let mut out = String::from_str(target_dir);
    out.append("/deps");
    out
}

/// The life of one generated test at run time.
#[derive(Clone, Copy, PartialEq, Eq, Structural, Debug)]
pub enum TestState {
    Pending,
    Compiling,
    CompileFailed,
    Compiled,
    CompiledOnly,
    Running,
    RunFailed,
    Passed,
}

/// What the harness observes: the compile being started, the compile's exit
/// status, the decision point after a successful compile, and the run's
/// exit status.
#[derive(Clone, Copy, PartialEq, Eq, Structural, Debug)]
pub enum HarnessEvent {
    BeginCompile,
    CompileOutcome(bool),
    Proceed,
    RunOutcome(bool),
}

/// One transition: a failed step is terminal for the test, and a compiled
/// `no_run` test finishes without ever reaching the run state.
pub open spec fn harness_step_spec(st: TestState, no_run: bool, ev: HarnessEvent) -> TestState {
    match (st, ev) {
        (TestState::Pending, HarnessEvent::BeginCompile) => TestState::Compiling,
        (TestState::Compiling, HarnessEvent::CompileOutcome(ok)) => if ok {
            TestState::Compiled
        } else {
            TestState::CompileFailed
        },
        (TestState::Compiled, HarnessEvent::Proceed) => if no_run {
            TestState::CompiledOnly
        } else {
            TestState::Running
        },
        (TestState::Running, HarnessEvent::RunOutcome(ok)) => if ok {
            TestState::Passed
        } else {
            TestState::RunFailed
        },
        _ => st,
    }
}

pub fn harness_step(st: TestState, no_run: bool, ev: HarnessEvent) -> (r: TestState)
    ensures
        r == harness_step_spec(st, no_run, ev),
{
    match (st, ev) {
        (TestState::Pending, HarnessEvent::BeginCompile) => TestState::Compiling,
        (TestState::Compiling, HarnessEvent::CompileOutcome(ok)) => if ok {
            TestState::Compiled
        } else {
            TestState::CompileFailed
        },
        (TestState::Compiled, HarnessEvent::Proceed) => if no_run {
            TestState::CompiledOnly
        } else {
            TestState::Running
        },
        (TestState::Running, HarnessEvent::RunOutcome(ok)) => if ok {
            TestState::Passed
        } else {
            TestState::RunFailed
        },
        _ => st,
    }
}

pub open spec fn harness_run_spec(st: TestState, no_run: bool, evs: Seq<HarnessEvent>) -> TestState
    decreases evs.len(),
{
    if evs.len() == 0 {
        st
    } else {
        harness_run_spec(harness_step_spec(st, no_run, evs[0]), no_run, evs.drop_first())
    }
}

proof fn lemma_no_run_preserved(st: TestState, evs: Seq<HarnessEvent>)
    requires
        st != TestState::Running,
    ensures
        harness_run_spec(st, true, evs) != TestState::Running,
    decreases evs.len(),
{
    if evs.len() > 0 {
        lemma_no_run_preserved(harness_step_spec(st, true, evs[0]), evs.drop_first());
    }
}

/// A compile-only test never reaches the run step: whatever events the
/// harness observes, the machine of a `no_run` test never enters `Running`.
pub proof fn lemma_no_run_never_runs(evs: Seq<HarnessEvent>)
    ensures
        harness_run_spec(TestState::Pending, true, evs) != TestState::Running,
{
    lemma_no_run_preserved(TestState::Pending, evs);
}

} // verus!
