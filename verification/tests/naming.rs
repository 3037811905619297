use skeptic::names::{sanitize_test_name, to_lowercase, TestNameGen};

#[test]
fn sanitize_maps_non_alphanumerics() {
    assert_eq!(sanitize_test_name("My-Doc.2"), "my_doc_2");
    assert_eq!(sanitize_test_name("README"), "readme");
    assert_eq!(sanitize_test_name("a b/c"), "a_b_c");
    assert_eq!(sanitize_test_name(""), "");
}

#[test]
fn lowercase_folds_letters() {
    assert_eq!(to_lowercase("AbC-9"), "abc-9");
    assert_eq!(to_lowercase(""), "");
}

#[test]
fn name_gen_counts_from_zero() {
    let mut gen = TestNameGen::new("docs/My-Doc.2.md");
    assert_eq!(gen.advance(), "my_doc_2_0");
    assert_eq!(gen.advance(), "my_doc_2_1");
    assert_eq!(gen.advance(), "my_doc_2_2");
}

#[test]
fn name_gen_uses_file_stem() {
    let mut gen = TestNameGen::new("README.md");
    assert_eq!(gen.advance(), "readme_0");
    let mut hidden = TestNameGen::new("dir/.hidden");
    assert_eq!(hidden.advance(), "_hidden_0");
}
