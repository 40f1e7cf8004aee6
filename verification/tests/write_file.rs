use faber::context::ToolContext;
use faber::write_file::{
    default_file_mode, must_exist_message, plan_write, tool_write_file, WriteFileParams,
    WriteFileResult, WriteKind,
};

/// The arguments that write a whole file.
fn whole(path: &str, content: &str) -> WriteFileParams {
    WriteFileParams {
        path: path.to_string(),
        content: content.to_string(),
        mode: default_file_mode(),
        offset: None,
        length: None,
        start_line: None,
        end_line: None,
        old_content: None,
        replace_all: None,
    }
}

/// Writes a file that may be there already.
fn write(file: &mut Option<Vec<u8>>, params: &WriteFileParams) -> Result<WriteFileResult, String> {
    let (_, kind) = plan_write(params)?;
    let created = file.is_none();
    if created && kind != WriteKind::Whole {
        return Err(must_exist_message(&params.path));
    }
    let existing = file.clone().unwrap_or_default();
    let mut ctx = ToolContext::new();
    let (bytes, result) = tool_write_file(&mut ctx, params, &existing, created)?;
    *file = Some(bytes);
    Ok(result)
}

fn text(file: &Option<Vec<u8>>) -> String {
    String::from_utf8(file.clone().unwrap()).unwrap()
}

fn stored(content: &str) -> Option<Vec<u8>> {
    Some(content.as_bytes().to_vec())
}

#[test]
fn test_write_file_full_create() {
    let path = "_test_wf_full_create.tmp";
    let mut file = None;
    let params = whole(path, "hello world\n");
    let result = write(&mut file, &params).unwrap();
    assert_eq!(result.created, true);
    assert_eq!(result.operation, "create");
    assert_eq!(result.bytes_written, 12);
    assert_eq!(text(&file), "hello world\n");
}

#[test]
fn test_write_file_full_overwrite() {
    let path = "_test_wf_full_overwrite.tmp";
    let mut file = stored("old content\n");
    let params = whole(path, "new content\n");
    let result = write(&mut file, &params).unwrap();
    assert_eq!(result.created, false);
    assert_eq!(result.operation, "overwrite");
    assert_eq!(text(&file), "new content\n");
}

#[test]
fn test_write_file_search_replace() {
    let path = "_test_wf_search_replace.tmp";
    let mut file = stored("line one\nline two\nline three\n");
    let params = WriteFileParams {
        old_content: Some("line two".to_string()),
        ..whole(path, "line TWO")
    };
    let result = write(&mut file, &params).unwrap();
    assert_eq!(result.operation, "patch_search_replace");
    assert_eq!(text(&file), "line one\nline TWO\nline three\n");
}

#[test]
fn test_write_file_search_replace_all() {
    let path = "_test_wf_search_replace_all.tmp";
    let mut file = stored("aaa bbb aaa ccc aaa\n");
    let params = WriteFileParams {
        old_content: Some("aaa".to_string()),
        replace_all: Some(true),
        ..whole(path, "XXX")
    };
    let result = write(&mut file, &params).unwrap();
    assert_eq!(result.operation, "patch_search_replace");
    assert_eq!(text(&file), "XXX bbb XXX ccc XXX\n");
}

#[test]
fn test_write_file_search_replace_not_found() {
    let path = "_test_wf_sr_notfound.tmp";
    let mut file = stored("hello world\n");
    let params = WriteFileParams {
        old_content: Some("nonexistent".to_string()),
        ..whole(path, "replacement")
    };
    let result = write(&mut file, &params);
    assert!(result.is_err());
    assert!(result.err().unwrap().contains("not found"));
}

#[test]
fn test_write_file_search_replace_multiple_without_flag() {
    let path = "_test_wf_sr_multi.tmp";
    let mut file = stored("foo bar foo baz foo\n");
    let params = WriteFileParams { old_content: Some("foo".to_string()), ..whole(path, "X") };
    let result = write(&mut file, &params);
    assert!(result.is_err());
    assert!(result.err().unwrap().contains("matches 3 times"));
}

#[test]
fn test_write_file_search_replace_identical() {
    let path = "_test_wf_sr_identical.tmp";
    let mut file = stored("hello world\n");
    let params = WriteFileParams {
        old_content: Some("hello".to_string()),
        ..whole(path, "hello")
    };
    let result = write(&mut file, &params);
    assert!(result.is_err());
    assert!(result.err().unwrap().contains("identical"));
}

#[test]
fn test_write_file_byte_offset() {
    let path = "_test_wf_byte_offset.tmp";
    let mut file = stored("Hello, World!");
    let params = WriteFileParams { offset: Some(7), length: Some(5), ..whole(path, "Rust") };
    let result = write(&mut file, &params).unwrap();
    assert_eq!(result.operation, "patch_offset");
    assert_eq!(text(&file), "Hello, Rust!");
}

#[test]
fn test_write_file_byte_offset_expand() {
    let path = "_test_wf_byte_offset_expand.tmp";
    let mut file = stored("ABCDE");
    let params = WriteFileParams { offset: Some(1), length: Some(2), ..whole(path, "XXXX") };
    let result = write(&mut file, &params).unwrap();
    assert_eq!(text(&file), "AXXXXDE");
    assert_eq!(result.bytes_written, 7);
}

#[test]
fn test_write_file_byte_offset_out_of_bounds() {
    let path = "_test_wf_byte_oob.tmp";
    let mut file = stored("short");
    let params = WriteFileParams { offset: Some(100), length: Some(1), ..whole(path, "x") };
    let result = write(&mut file, &params);
    assert!(result.is_err());
    assert!(result.err().unwrap().contains("beyond file size"));
}

#[test]
fn test_write_file_byte_offset_length_exceeds() {
    let path = "_test_wf_byte_len_oob.tmp";
    let mut file = stored("short");
    let params = WriteFileParams { offset: Some(3), length: Some(10), ..whole(path, "x") };
    let result = write(&mut file, &params);
    assert!(result.is_err());
    assert!(
        result.err().unwrap()
            .contains("exceeds file size")
    );
}

#[test]
fn test_write_file_line_range() {
    let path = "_test_wf_line_range.tmp";
    let mut file = stored("line1\nline2\nline3\nline4\nline5\n");
    let params = WriteFileParams {
        start_line: Some(2),
        end_line: Some(3),
        ..whole(path, "NEW2\nNEW3")
    };
    let result = write(&mut file, &params).unwrap();
    assert_eq!(result.operation, "patch_lines");
    assert_eq!(text(&file), "line1\nNEW2\nNEW3\nline4\nline5\n");
}

#[test]
fn test_write_file_line_range_single_line() {
    let path = "_test_wf_line_single.tmp";
    let mut file = stored("aaa\nbbb\nccc\n");
    let params = WriteFileParams { start_line: Some(2), end_line: Some(2), ..whole(path, "BBB") };
    let _result = write(&mut file, &params).unwrap();
    assert_eq!(text(&file), "aaa\nBBB\nccc\n");
}

#[test]
fn test_write_file_line_range_out_of_bounds() {
    let path = "_test_wf_line_oob.tmp";
    let mut file = stored("one\ntwo\n");
    let params = WriteFileParams { start_line: Some(1), end_line: Some(10), ..whole(path, "x") };
    let result = write(&mut file, &params);
    assert!(result.is_err());
    assert!(
        result.err().unwrap()
            .contains("exceeds file line count")
    );
}

#[test]
fn test_write_file_line_range_zero_start() {
    let path = "_test_wf_line_zero.tmp";
    let mut file = stored("one\ntwo\n");
    let params = WriteFileParams { start_line: Some(0), end_line: Some(1), ..whole(path, "x") };
    let result = write(&mut file, &params);
    assert!(result.is_err());
    assert!(result.err().unwrap().contains("1-based"));
}

#[test]
fn test_write_file_line_range_end_before_start() {
    let path = "_test_wf_line_inv.tmp";
    let mut file = stored("one\ntwo\nthree\n");
    let params = WriteFileParams { start_line: Some(3), end_line: Some(1), ..whole(path, "x") };
    let result = write(&mut file, &params);
    assert!(result.is_err());
    assert!(result.err().unwrap().contains("must be >="));
}

#[test]
fn test_write_file_conflicting_params_old_content_and_offset() {
    let path = "_test_wf_conflict1.tmp";
    let mut file = stored("content");
    let params = WriteFileParams {
        old_content: Some("con".to_string()),
        offset: Some(0),
        length: Some(3),
        ..whole(path, "x")
    };
    let result = write(&mut file, &params);
    assert!(result.is_err());
    assert!(result.err().unwrap().contains("Cannot combine"));
}

#[test]
fn test_write_file_conflicting_params_offset_and_start_line() {
    let path = "_test_wf_conflict2.tmp";
    let mut file = stored("content\n");
    let params = WriteFileParams {
        offset: Some(0),
        length: Some(1),
        start_line: Some(1),
        end_line: Some(1),
        ..whole(path, "x")
    };
    let result = write(&mut file, &params);
    assert!(result.is_err());
    assert!(result.err().unwrap().contains("Cannot combine"));
}

#[test]
fn test_write_file_offset_without_length() {
    let path = "_test_wf_no_len.tmp";
    let mut file = stored("content");
    let params = WriteFileParams { offset: Some(0), ..whole(path, "x") };
    let result = write(&mut file, &params);
    assert!(result.is_err());
    assert!(result.err().unwrap().contains("requires length"));
}

#[test]
fn test_write_file_start_line_without_end_line() {
    let path = "_test_wf_no_end.tmp";
    let mut file = stored("content\n");
    let params = WriteFileParams { start_line: Some(1), ..whole(path, "x") };
    let result = write(&mut file, &params);
    assert!(result.is_err());
    assert!(
        result.err().unwrap()
            .contains("requires end_line")
    );
}

#[test]
fn test_write_file_partial_on_nonexistent_file() {
    let path = "_test_wf_nofile.tmp";
    let mut file = None;
    let params = WriteFileParams { old_content: Some("y".to_string()), ..whole(path, "x") };
    let result = write(&mut file, &params);
    assert!(result.is_err());
    assert!(result.err().unwrap().contains("must exist"));
}
