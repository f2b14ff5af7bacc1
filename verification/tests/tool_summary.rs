use ralph_stream::tool_summary::{
    compose_summary, format_tool_summary, recipe_for, Recipe, COMMAND_PREVIEW_CHARS,
};

fn parse(json: &str) -> serde_json::Value {
    serde_json::from_str(json).unwrap()
}

#[test]
fn every_recognized_tool_reads_its_field() {
    let input = parse(
        r#"{"file_path": "a.rs", "command": "ls", "pattern": "x*", "description": "do it",
            "url": "https://example.org", "query": "verus", "operation": "hover",
            "filePath": "src/lib.rs", "notebook_path": "nb.ipynb"}"#,
    );
    let cases = [
        ("Read", "a.rs"),
        ("Edit", "a.rs"),
        ("Write", "a.rs"),
        ("Bash", "ls"),
        ("Grep", "x*"),
        ("Glob", "x*"),
        ("Task", "do it"),
        ("WebFetch", "https://example.org"),
        ("WebSearch", "verus"),
        ("LSP", "hover @ src/lib.rs"),
        ("NotebookEdit", "nb.ipynb"),
        ("TodoWrite", "updating todo list"),
    ];
    for (name, expected) in cases {
        assert_eq!(format_tool_summary(name, &input), Some(expected.to_string()), "{}", name);
    }
}

#[test]
fn unrecognized_tools_have_no_summary_whatever_the_input() {
    let inputs = [
        parse(r#"{"file_path": "a.rs", "command": "ls"}"#),
        parse("{}"),
        parse("null"),
        parse("[1, 2]"),
        parse(r#""file_path""#),
    ];
    for name in ["", "read", "READ", "Reads", "Rea", "Unknown", "Bash ", "lsp", "Todo"] {
        for input in &inputs {
            assert_eq!(format_tool_summary(name, input), None, "{}", name);
        }
    }
}

#[test]
fn recognized_tools_without_their_field_have_no_summary() {
    let empty = parse("{}");
    for name in [
        "Read", "Edit", "Write", "Bash", "Grep", "Glob", "Task", "WebFetch", "WebSearch", "LSP",
        "NotebookEdit",
    ] {
        assert_eq!(format_tool_summary(name, &empty), None, "{}", name);
        assert_eq!(format_tool_summary(name, &parse("[]")), None, "{}", name);
    }
    // the fixed descriptor needs no field
    assert_eq!(
        format_tool_summary("TodoWrite", &empty),
        Some("updating todo list".to_string())
    );
    assert_eq!(
        format_tool_summary("TodoWrite", &parse("null")),
        Some("updating todo list".to_string())
    );
}

#[test]
fn a_field_of_another_type_counts_as_missing() {
    assert_eq!(format_tool_summary("Read", &parse(r#"{"file_path": 7}"#)), None);
    assert_eq!(format_tool_summary("Bash", &parse(r#"{"command": ["ls"]}"#)), None);
    assert_eq!(format_tool_summary("Grep", &parse(r#"{"pattern": null}"#)), None);
    assert_eq!(format_tool_summary("Task", &parse(r#"{"description": {"a": "b"}}"#)), None);
}

#[test]
fn located_summary_needs_both_fields() {
    assert_eq!(
        format_tool_summary("LSP", &parse(r#"{"operation": "hover"}"#)),
        None
    );
    assert_eq!(
        format_tool_summary("LSP", &parse(r#"{"filePath": "a.rs"}"#)),
        None
    );
    assert_eq!(
        format_tool_summary("LSP", &parse(r#"{"operation": "hover", "filePath": 3}"#)),
        None
    );
    assert_eq!(
        format_tool_summary("LSP", &parse(r#"{"operation": "", "filePath": ""}"#)),
        Some(" @ ".to_string())
    );
}

#[test]
fn command_is_cut_to_sixty_characters() {
    assert_eq!(COMMAND_PREVIEW_CHARS, 60);
    let exact = "é".repeat(60);
    let long = "é".repeat(61);
    let input = |cmd: &str| parse(&format!(r#"{{"command": "{}"}}"#, cmd));
    assert_eq!(format_tool_summary("Bash", &input(&exact)), Some(exact.clone()));
    assert_eq!(
        format_tool_summary("Bash", &input(&long)),
        Some(format!("{}...", exact))
    );
    // other tools are not cut
    let path = "p".repeat(300);
    assert_eq!(
        format_tool_summary("Read", &parse(&format!(r#"{{"file_path": "{}"}}"#, path))),
        Some(path)
    );
}

#[test]
fn recipes_of_the_table() {
    assert!(matches!(recipe_for("Read"), Some(Recipe::Field("file_path"))));
    assert!(matches!(recipe_for("Bash"), Some(Recipe::Shortened("command", 60))));
    assert!(matches!(recipe_for("LSP"), Some(Recipe::Located("operation", "filePath"))));
    assert!(matches!(recipe_for("TodoWrite"), Some(Recipe::Fixed("updating todo list"))));
    assert!(recipe_for("Nope").is_none());
}

#[test]
fn summaries_from_given_fields() {
    let some = |s: &str| Some(s.to_string());
    assert_eq!(compose_summary(&Recipe::Field("k"), some("v"), None), some("v"));
    assert_eq!(compose_summary(&Recipe::Field("k"), None, some("w")), None);
    assert_eq!(
        compose_summary(&Recipe::Shortened("k", 3), some("abcdef"), None),
        some("abc...")
    );
    assert_eq!(compose_summary(&Recipe::Shortened("k", 3), some("abc"), None), some("abc"));
    assert_eq!(compose_summary(&Recipe::Shortened("k", 3), None, None), None);
    assert_eq!(
        compose_summary(&Recipe::Located("a", "b"), some("rename"), some("x.rs")),
        some("rename @ x.rs")
    );
    assert_eq!(compose_summary(&Recipe::Located("a", "b"), some("rename"), None), None);
    assert_eq!(compose_summary(&Recipe::Located("a", "b"), None, some("x.rs")), None);
    assert_eq!(compose_summary(&Recipe::Fixed("fixed"), None, None), some("fixed"));
}
