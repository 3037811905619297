use skeptic::assemble::{clean_omitted_line, create_test_input};

#[test]
fn test_omitted_lines() {
    let lines = vec![
        "# use std::collections::BTreeMap as Map;\n".to_owned(),
        "#\n".to_owned(),
        "#[allow(dead_code)]\n".to_owned(),
        "fn main() {\n".to_owned(),
        "    let map = Map::new();\n".to_owned(),
        "    #\n".to_owned(),
        "    # let _ = map;\n".to_owned(),
        "}\n".to_owned(),
    ];

    let expected = [
        "use std::collections::BTreeMap as Map;\n",
        "\n",
        "#[allow(dead_code)]\n",
        "fn main() {\n",
        "    let map = Map::new();\n",
        "\n",
        "let _ = map;\n",
        "}\n",
    ]
    .concat();

    assert_eq!(create_test_input(&lines), expected);
}

#[test]
fn omission_scenarios() {
    assert_eq!(clean_omitted_line(&"# use a::B;\n".to_owned()), "use a::B;\n");
    assert_eq!(clean_omitted_line(&"#\n".to_owned()), "\n");
    assert_eq!(clean_omitted_line(&"    # let _ = x;\n".to_owned()), "let _ = x;\n");
    assert_eq!(clean_omitted_line(&"fn main() {\n".to_owned()), "fn main() {\n");
}

#[test]
fn omission_keeps_untrimmed_lines() {
    // A line that matches no marker pattern passes through with its leading
    // whitespace intact.
    assert_eq!(clean_omitted_line(&"    indented\n".to_owned()), "    indented\n");
    // A bare `#` without newline or following space is not a marker line.
    assert_eq!(clean_omitted_line(&"#no_space\n".to_owned()), "#no_space\n");
}

#[test]
fn omission_idempotent_on_ordinary_lines() {
    let once = clean_omitted_line(&"  # let y = 1;\n".to_owned());
    let twice = clean_omitted_line(&once);
    assert_eq!(once, twice);
}

#[test]
fn create_test_input_empty() {
    let lines: Vec<String> = Vec::new();
    assert_eq!(create_test_input(&lines), "");
}
