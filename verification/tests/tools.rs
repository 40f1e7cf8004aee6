use faber::tools::initialize_tools;

#[test]
fn test_initialize_tools_safe() {
    let tools = initialize_tools(false, None);
    assert!(tools.contains_key("read_file"));
    assert!(tools.contains_key("write_file"));
    assert!(!tools.contains_key("run_command"));
    assert!(!tools.contains_key("fetch_web_content"));
}

#[test]
fn test_initialize_tools_unsafe() {
    let tools = initialize_tools(true, None);
    assert!(tools.contains_key("read_file"));
    assert!(tools.contains_key("run_command"));
    assert!(tools.contains_key("fetch_web_content"));
}

#[test]
fn test_initialize_tools_allowed_filter() {
    let allowed = vec!["read_file".to_string(), "write_file".to_string()];
    let tools = initialize_tools(true, Some(allowed.as_slice()));
    assert!(tools.contains_key("read_file"));
    assert!(tools.contains_key("write_file"));
    assert!(!tools.contains_key("run_command"));
    assert!(!tools.contains_key("glob"));
}

#[test]
fn test_patch_file_registered_as_safe_tool() {
    let tools = initialize_tools(false, None);
    assert!(tools.contains_key("patch_file"));
}
