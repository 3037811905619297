use skeptic::harness::{
    deps_dir_of, harness_step, parent_of, parse_archive_libname, rustc_args, target_dir_of,
    DepEntry, HarnessEvent, TestState,
};

#[test]
fn archive_names_are_parsed() {
    assert_eq!(parse_archive_libname("libserde-8c4a2f91e0b7d365").as_deref(), Some("serde"));
    assert_eq!(parse_archive_libname("libfoo_bar-123").as_deref(), Some("foo_bar"));
    // The hash segment is the part after the last separator.
    assert_eq!(parse_archive_libname("liba-b-c").as_deref(), Some("a-b"));
}

#[test]
fn malformed_archive_names_yield_nothing() {
    assert_eq!(parse_archive_libname(""), None);
    assert_eq!(parse_archive_libname("nodash"), None);
    assert_eq!(parse_archive_libname("ab-hash"), None);
    // A bare prefix part leaves an empty name.
    assert_eq!(parse_archive_libname("lib-hash").as_deref(), Some(""));
}

#[test]
fn directories_are_derived_from_the_output_dir() {
    assert_eq!(parent_of("a/b/c"), "a/b");
    assert_eq!(parent_of("c"), "");
    assert_eq!(target_dir_of("target/debug/build/demo/out"), "target/debug");
    assert_eq!(deps_dir_of("target/debug"), "target/debug/deps");
}

#[test]
fn compiler_arguments_are_assembled() {
    let deps = vec![
        DepEntry {
            stem: "libfoo-1a2b".to_owned(),
            extension: "rlib".to_owned(),
            path: "deps/libfoo-1a2b.rlib".to_owned(),
        },
        DepEntry {
            stem: "libbar-3c4d".to_owned(),
            extension: "so".to_owned(),
            path: "deps/libbar-3c4d.so".to_owned(),
        },
    ];
    let args = rustc_args(
        &"tmp/test.rs".to_owned(),
        &"tmp/out.exe".to_owned(),
        &"target/debug".to_owned(),
        &"target/debug/deps".to_owned(),
        &deps,
    );
    let expected: Vec<String> = vec![
        "tmp/test.rs".to_owned(),
        "--verbose".to_owned(),
        "-o".to_owned(),
        "tmp/out.exe".to_owned(),
        "--crate-type=bin".to_owned(),
        "-L".to_owned(),
        "target/debug".to_owned(),
        "-L".to_owned(),
        "target/debug/deps".to_owned(),
        "--extern".to_owned(),
        "foo=deps/libfoo-1a2b.rlib".to_owned(),
    ];
    assert_eq!(args, expected);
}

#[test]
fn state_machine_follows_the_contract() {
    let s = harness_step(TestState::Pending, false, HarnessEvent::BeginCompile);
    assert_eq!(s, TestState::Compiling);
    assert_eq!(
        harness_step(TestState::Compiling, false, HarnessEvent::CompileOutcome(false)),
        TestState::CompileFailed
    );
    assert_eq!(
        harness_step(TestState::Compiling, false, HarnessEvent::CompileOutcome(true)),
        TestState::Compiled
    );
    assert_eq!(
        harness_step(TestState::Running, false, HarnessEvent::RunOutcome(true)),
        TestState::Passed
    );
    assert_eq!(
        harness_step(TestState::Running, false, HarnessEvent::RunOutcome(false)),
        TestState::RunFailed
    );
}

#[test]
fn no_run_test_never_reaches_the_run_state() {
    // A compiled test with the compile-only flag finishes as CompiledOnly.
    assert_eq!(
        harness_step(TestState::Compiled, true, HarnessEvent::Proceed),
        TestState::CompiledOnly
    );
    // Without the flag the same transition proceeds to the run step.
    assert_eq!(
        harness_step(TestState::Compiled, false, HarnessEvent::Proceed),
        TestState::Running
    );
    // Events aimed at later states leave a terminal state alone.
    assert_eq!(
        harness_step(TestState::CompiledOnly, true, HarnessEvent::RunOutcome(true)),
        TestState::CompiledOnly
    );
}
