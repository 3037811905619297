use skeptic::{run, Config, DocumentInput};
use skeptic::assemble::needs_write;

fn config_for(path: &str, contents: &str, template_contents: Option<&str>) -> Config {
    Config {
        out_dir: "target/debug/build/demo/out".to_owned(),
        docs: vec![DocumentInput {
            path: path.to_owned(),
            contents: contents.to_owned(),
            template_contents: template_contents.map(|s| s.to_owned()),
        }],
    }
}

#[test]
fn artifact_for_one_plain_sample() {
    let config = config_for("t.md", "```rust\nfn main() {}\n```\n", None);
    let artifact = run(&config).unwrap();
    let expected = format!(
        "{}{}",
        "ext",
        "ern crate skeptic;\n#[test] fn t_0() {\n    let s = &format!(r####\"\n{}\"####, r####\"fn main() {}\n\"####);\n    skeptic::rt::run_test(r#\"target/debug/build/demo/out\"#, s);\n}\n\n"
    );
    assert_eq!(artifact, expected);
}

#[test]
fn explicit_reference_overrides_legacy_template() {
    let doc = "\
```rust,skeptic-template
legacy wrapper {}
```

```rust,skt-named
body0
```

```rust
body1
```
";
    let tpl = "\
```rust,skt-named
named wrapper {}
```
";
    let config = config_for("p.md", doc, Some(tpl));
    let artifact = run(&config).unwrap();
    let first = artifact.find("fn p_0()").unwrap();
    let second = artifact.find("fn p_1()").unwrap();
    assert!(first < second);
    // The explicitly referenced template wraps the first test.
    let entry0 = &artifact[first..second];
    assert!(entry0.contains("named wrapper {}"));
    assert!(!entry0.contains("legacy wrapper {}"));
    // The legacy template wraps the test without a reference.
    let entry1 = &artifact[second..];
    assert!(entry1.contains("legacy wrapper {}"));
    assert!(!entry1.contains("named wrapper {}"));
}

#[test]
fn test_without_any_template_gets_identity() {
    let config = config_for("i.md", "```rust\nlet v = 5;\n```\n", None);
    let artifact = run(&config).unwrap();
    assert!(artifact.contains("format!(r####\"\n{}\"####, r####\"let v = 5;\n\"####)"));
}

#[test]
fn missing_template_aborts_generation() {
    let config = config_for("m.md", "```rust,skt-absent\nlet w = 6;\n```\n", None);
    let err = run(&config).unwrap_err();
    assert_eq!(err.template, "absent");
    assert_eq!(err.doc, "m.md");
    let msg = err.describe();
    assert!(msg.contains("absent"));
    assert!(msg.contains("m.md"));
    assert_eq!(msg, "template absent not found for m.md");
}

#[test]
fn no_run_sample_compiles_only() {
    let config = config_for("n.md", "```rust,no_run\nlet q = 7;\n```\n", None);
    let artifact = run(&config).unwrap();
    assert!(artifact.contains("skeptic::rt::compile_test"));
    assert!(!artifact.contains("skeptic::rt::run_test"));
}

#[test]
fn ignored_sample_is_still_generated_with_annotation() {
    let config = config_for("g.md", "```rust,ignore\nlet z = 8;\n```\n", None);
    let artifact = run(&config).unwrap();
    assert!(artifact.contains("#[ignore]\n#[test] fn g_0()"));
    // The body is present: the sample is generated, only annotated.
    assert!(artifact.contains("let z = 8;"));
}

#[test]
fn should_panic_annotation_is_emitted() {
    let config = config_for("s.md", "```rust,should_panic\npanic!(\"boom\");\n```\n", None);
    let artifact = run(&config).unwrap();
    let marker = format!("{}{}", "#[should_", "panic]\n#[test] fn s_0()");
    assert!(artifact.contains(&marker));
}

#[test]
fn omitted_lines_are_cleaned_in_emitted_body() {
    let config = config_for("o.md", "```rust\n# use a::B;\nfn main() {}\n```\n", None);
    let artifact = run(&config).unwrap();
    assert!(artifact.contains("r####\"use a::B;\nfn main() {}\n\"####"));
}

#[test]
fn regeneration_is_stable_and_skips_the_write() {
    let doc = "```rust\nfn main() {}\n```\n";
    let config = config_for("w.md", doc, None);
    let first = run(&config).unwrap();
    let second = run(&config).unwrap();
    assert_eq!(first, second);
    // Byte-identical content must not be rewritten.
    assert!(!needs_write(Some(&first), &second));
    assert!(needs_write(None, &second));
    let other = format!("{}{}", second, "x");
    assert!(needs_write(Some(&other), &second));
}

#[test]
fn documents_are_emitted_in_input_order() {
    let config = Config {
        out_dir: "target/debug/build/demo/out".to_owned(),
        docs: vec![
            DocumentInput {
                path: "a.md".to_owned(),
                contents: "```rust\nlet a = 1;\n```\n".to_owned(),
                template_contents: None,
            },
            DocumentInput {
                path: "b.md".to_owned(),
                contents: "```rust\nlet b = 2;\n```\n".to_owned(),
                template_contents: None,
            },
        ],
    };
    let artifact = run(&config).unwrap();
    let a = artifact.find("fn a_0()").unwrap();
    let b = artifact.find("fn b_0()").unwrap();
    assert!(a < b);
}
