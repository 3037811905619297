use skeptic::extract::{extract_tests_from_contents, is_template_path};
use skeptic::tags::parse_code_block_info;

#[test]
fn tag_parser_recognizes_tokens() {
    let info = parse_code_block_info("rust");
    assert!(info.is_rust);
    assert!(!info.should_panic && !info.ignore && !info.no_run && !info.is_old_template);
    assert!(info.template.is_none());

    let info = parse_code_block_info("rust,should_panic");
    assert!(info.is_rust && info.should_panic);

    let info = parse_code_block_info("rust,ignore");
    assert!(info.is_rust && info.ignore);

    let info = parse_code_block_info("rust,no_run");
    assert!(info.is_rust && info.no_run);

    let info = parse_code_block_info("rust,skeptic-template");
    assert!(info.is_rust && info.is_old_template);

    let info = parse_code_block_info("rust,skt-wrapper");
    assert!(info.is_rust);
    assert_eq!(info.template.as_deref(), Some("wrapper"));
}

#[test]
fn tag_parser_rejects_non_samples() {
    assert!(!parse_code_block_info("").is_rust);
    assert!(!parse_code_block_info("python").is_rust);
    assert!(!parse_code_block_info("text,no_run").is_rust);
    // An unknown annotation beside the bare marker makes the block
    // non-runnable: only a recognized sample-control tag restores it.
    assert!(!parse_code_block_info("rust,unknown-annotation").is_rust);
    assert!(parse_code_block_info("rust,ignore,unknown-annotation").is_rust);
    assert!(parse_code_block_info("rust,no_run,unknown-annotation").is_rust);
}

#[test]
fn tag_parser_tolerates_malformed_info() {
    let info = parse_code_block_info(",,;;  ~~rust~~ ,");
    assert!(info.is_rust);
    let info = parse_code_block_info("{.rust .other}");
    assert!(!info.is_rust);
    let info = parse_code_block_info("{.rust .should_panic}");
    assert!(info.is_rust && info.should_panic);
}

#[test]
fn tag_parser_keeps_template_roles_exclusive() {
    // The later of the two template markers wins and clears the other.
    let info = parse_code_block_info("rust,skeptic-template,skt-x");
    assert!(!info.is_old_template);
    assert_eq!(info.template.as_deref(), Some("x"));
    let info = parse_code_block_info("rust,skt-x,skeptic-template");
    assert!(info.is_old_template);
    assert!(info.template.is_none());
}

#[test]
fn unknown_tags_exclude_a_block_from_extraction() {
    let path = "u.md".to_owned();
    let doc = "\
```rust,mystery
let u = 1;
```

```rust
let v = 2;
```
";
    let dt = extract_tests_from_contents(&path, doc, None);
    assert_eq!(dt.tests.len(), 1);
    assert_eq!(dt.tests[0].name, "u_0");
    assert_eq!(dt.tests[0].text, vec!["let v = 2;\n".to_owned()]);
}

#[test]
fn extraction_names_tests_in_order() {
    let path = "docs/My-Doc.2.md".to_owned();
    let doc = "\
# Title

```rust
fn main() {}
```

prose in between

```text
not a sample
```

```rust,ignore
let x = 1;
```
";
    let dt = extract_tests_from_contents(&path, doc, None);
    assert_eq!(dt.path, "docs/My-Doc.2.md");
    assert_eq!(dt.tests.len(), 2);
    assert_eq!(dt.tests[0].name, "my_doc_2_0");
    assert_eq!(dt.tests[1].name, "my_doc_2_1");
    assert!(!dt.tests[0].ignore);
    assert!(dt.tests[1].ignore);
    assert_eq!(dt.tests[0].text, vec!["fn main() {}\n".to_owned()]);
    assert!(dt.old_template.is_none());
    assert!(dt.templates.is_empty());
}

#[test]
fn extraction_stores_legacy_template() {
    let path = "r.md".to_owned();
    let doc = "\
```rust,skeptic-template
fn main() {{
    {}
}}
```

```rust
let a = 1;
```
";
    let dt = extract_tests_from_contents(&path, doc, None);
    // The template block is not a test.
    assert_eq!(dt.tests.len(), 1);
    assert_eq!(dt.tests[0].name, "r_0");
    assert_eq!(dt.old_template.as_deref(), Some("fn main() {{\n    {}\n}}\n"));
}

#[test]
fn extraction_reads_sibling_templates() {
    let path = "guide.md".to_owned();
    let doc = "\
```rust,skt-wrap
let b = 2;
```
";
    let tpl = "\
```rust,skt-wrap
fn main() {{
    {}
}}
```

```rust
no name, dropped
```
";
    let dt = extract_tests_from_contents(&path, doc, Some(tpl));
    assert_eq!(dt.tests.len(), 1);
    assert_eq!(dt.tests[0].template.as_deref(), Some("wrap"));
    assert_eq!(dt.templates.len(), 1);
    assert_eq!(dt.templates[0].0, "wrap");
    assert_eq!(dt.templates[0].1, "fn main() {{\n    {}\n}}\n");
}

#[test]
fn extraction_flags_carry_over() {
    let path = "f.md".to_owned();
    let doc = "\
```rust,no_run,should_panic
let c = 3;
```
";
    let dt = extract_tests_from_contents(&path, doc, None);
    assert_eq!(dt.tests.len(), 1);
    assert!(dt.tests[0].no_run);
    assert!(dt.tests[0].should_panic);
    assert!(!dt.tests[0].ignore);
}

#[test]
fn template_paths_are_recognized() {
    assert!(is_template_path("README.md.skt.md"));
    assert!(!is_template_path("README.md"));
    assert!(!is_template_path("skt.md"));
}
