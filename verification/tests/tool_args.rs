use faber::tool_args::{
    format_tool_arguments, format_tool_output, preview_partial_tool_arguments,
};

#[test]
fn test_format_tool_arguments_short() {
    assert_eq!(
        format_tool_arguments(r#"{"path":"foo"}"#),
        r#"{"path":"foo"}"#
    );
}

#[test]
fn test_format_tool_arguments_long_truncated() {
    let long_args = "a".repeat(100);
    let result = format_tool_arguments(&long_args);
    assert!(result.contains("..."));
    assert!(result.contains("(100)"));
}

#[test]
fn test_format_tool_arguments_newlines_removed() {
    let args = "line1\nline2\tline3";
    let result = format_tool_arguments(args);
    assert!(!result.contains('\n'));
    assert!(!result.contains('\t'));
}

#[test]
fn test_format_tool_output_json() {
    let output = r#"{"stdout":"hello\n","stderr":"","exit_code":0,"success":true}"#;
    let result = format_tool_output(output);
    assert_eq!(result, "hello");
}

#[test]
fn test_format_tool_output_json_with_stderr() {
    let output = r#"{"stdout":"out","stderr":"err","exit_code":1,"success":false}"#;
    let result = format_tool_output(output);
    assert!(result.contains("out"));
    assert!(result.contains("stderr: err"));
}

#[test]
fn test_format_tool_output_plain_text() {
    let result = format_tool_output("just plain text");
    assert_eq!(result, "just plain text");
}

#[test]
fn test_preview_partial_tool_arguments_nothing_yet() {
    assert_eq!(preview_partial_tool_arguments(""), None);
    assert_eq!(preview_partial_tool_arguments("{"), None);
    assert_eq!(preview_partial_tool_arguments(r#"{"pa"#), None);
    assert_eq!(preview_partial_tool_arguments("not json"), None);
}

#[test]
fn test_preview_partial_tool_arguments_incomplete_string_value() {
    assert_eq!(preview_partial_tool_arguments(r#"{"path":"Cargo.t"#), None);
}

#[test]
fn test_preview_partial_tool_arguments_single_complete_pair() {
    assert_eq!(
        preview_partial_tool_arguments(r#"{"path":"Cargo.toml"#),
        None
    );
    assert_eq!(
        preview_partial_tool_arguments(r#"{"path":"Cargo.toml""#),
        Some(r#"path="Cargo.toml""#.to_string())
    );
}

#[test]
fn test_preview_partial_tool_arguments_keeps_earlier_pairs_when_later_one_is_incomplete() {
    let partial = r#"{"path":"Cargo.toml","old_content":"fo"#;
    assert_eq!(
        preview_partial_tool_arguments(partial),
        Some(r#"path="Cargo.toml""#.to_string())
    );
}

#[test]
fn test_preview_partial_tool_arguments_multiple_complete_pairs() {
    let complete = r#"{"path":"Cargo.toml","replace_all":true}"#;
    assert_eq!(
        preview_partial_tool_arguments(complete),
        Some(r#"path="Cargo.toml", replace_all=true"#.to_string())
    );
}

#[test]
fn test_preview_partial_tool_arguments_number_bool_null() {
    assert_eq!(
        preview_partial_tool_arguments(r#"{"n":42,"ok":false,"x":null,"#),
        Some("n=42, ok=false, x=null".to_string())
    );
    assert_eq!(preview_partial_tool_arguments(r#"{"n":4"#), None);
}

#[test]
fn test_preview_partial_tool_arguments_nested_value() {
    let partial = r#"{"options":{"a":1,"b":2},"path":"x"#;
    assert_eq!(
        preview_partial_tool_arguments(partial),
        Some(r#"options={"a":1,"b":2}"#.to_string())
    );
}

#[test]
fn test_preview_partial_tool_arguments_escaped_quote_in_string() {
    let args = r#"{"content":"say \"hi\""}"#;
    assert_eq!(
        preview_partial_tool_arguments(args),
        Some(r#"content="say \"hi\"""#.to_string())
    );
}

#[test]
fn test_preview_partial_tool_arguments_never_produces_multiple_lines() {
    let with_newline_in_nested_value = "{\"options\":{\"a\":\n1}}";
    let preview = preview_partial_tool_arguments(with_newline_in_nested_value).unwrap();
    assert!(
        !preview.contains('\n'),
        "preview contained a newline: {:?}",
        preview
    );

    let with_raw_newline_in_string = "{\"content\":\"line1\nline2\"}";
    if let Some(preview) = preview_partial_tool_arguments(with_raw_newline_in_string) {
        assert!(
            !preview.contains('\n'),
            "preview contained a newline: {:?}",
            preview
        );
    }
}
