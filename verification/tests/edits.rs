use faber::context::ToolContext;
use faber::patch_file::{apply_edits, preview_edits, report_patch, tool_patch_file, Edit};
use faber::tool_args::{
    complete_pairs, format_tool_arguments, format_tool_output, preview_partial_tool_arguments,
};
use faber::tools::{initialize_tools, ToolKind};

fn edit(old_content: &str, new_content: &str, replace_all: bool) -> Edit {
    Edit {
        old_content: old_content.to_string(),
        new_content: new_content.to_string(),
        replace_all,
    }
}

fn previewed(text: &str, edits: &[Edit]) -> Vec<String> {
    let (new, _, spots) = apply_edits("f", text.as_bytes(), edits).unwrap();
    preview_edits(&new, edits, &spots)
}

#[test]
fn a_preview_shows_numbered_lines_around_an_edit() {
    let text: String = (1..=12).map(|i| format!("l{}\n", i)).collect();
    assert_eq!(
        previewed(&text, &[edit("l6\n", "x\ny\n", false)]),
        vec!["3: l3\n4: l4\n5: l5\n6: x\n7: y\n8: l7\n9: l8\n10: l9\n11: l10"]
    );
    assert_eq!(previewed(&text, &[edit("l1\n", "a\n", false)])[0].lines().next(), Some("1: a"));
    let both = previewed(&text, &[edit("l10", "z", false), edit("l1\n", "", false)]);
    assert_eq!(both[0], "6: l7\n7: l8\n8: l9\n9: z\n10: l11\n11: l12");
    assert_eq!(both[1], "1: l2\n2: l3\n3: l4\n4: l5");
}

#[test]
fn a_patch_is_reported_with_its_previews() {
    let mut ctx = ToolContext::new();
    let preview = vec!["1: a".to_string()];
    let r = report_patch(&mut ctx, "f", 1, 2, 10, 12, (3, 7), preview.clone());
    assert_eq!((r.edits_applied, r.replacements, r.bytes_written), (1, 2, 4));
    assert_eq!((r.bytes_before, r.bytes_after), (10, 12));
    assert_eq!(r.preview, preview);
    assert_eq!(ctx.lines[1], "   Path: f");
    assert_eq!(ctx.lines[2], "   Edits: 1 (2 replacements)");
    assert_eq!(ctx.lines[3], "   Bytes: 10 -> 12 (4 written)");
}

#[test]
fn test_patch_file_schema_and_dispatch() {
    let tools = initialize_tools(false, None);
    let tool = tools.get("patch_file").unwrap();
    assert!(tool.kind == ToolKind::PatchFile);
    let schema: serde_json::Value = serde_json::from_str(&tool.schema).unwrap();
    let function = &schema["function"];
    assert_eq!(function["name"], "patch_file");
    let required = |v: &serde_json::Value| -> Vec<String> {
        v["required"].as_array().unwrap().iter().map(|s| s.as_str().unwrap().to_string()).collect()
    };
    assert_eq!(required(&function["parameters"]), vec!["path", "edits"]);
    let items = &function["parameters"]["properties"]["edits"]["items"];
    assert_eq!(required(items), vec!["old_content", "new_content"]);

    let mut ctx = ToolContext::new();
    let path = "_test_pf_dispatch.tmp";
    let file =
        tool_patch_file(&mut ctx, path, b"before\n", &[edit("before", "after", false)]).unwrap();
    assert!(file.result.message.contains("patched successfully"));
    assert_eq!(file.text, "after\n");
}

#[test]
fn a_patch_is_reported_as_it_is_made() {
    let mut ctx = ToolContext::new();
    let edits = [edit("a", "bb", true), edit("c", "d", false)];
    let file = tool_patch_file(&mut ctx, "f", b"xa a c", &edits).unwrap();
    assert_eq!(file.text, "xbb bb d");
    assert_eq!(file.region, (1, 8));
    let r = file.result;
    assert_eq!((r.edits_applied, r.replacements), (2, 3));
    assert_eq!((r.bytes_before, r.bytes_after, r.bytes_written), (6, 8, 7));
    assert_eq!(r.preview, vec!["1: xbb bb d", "1: xbb bb d"]);
    assert_eq!(ctx.lines[2], "   Edits: 2 (3 replacements)");
    assert_eq!(ctx.lines[3], "   Bytes: 6 -> 8 (7 written)");
    let mut ctx = ToolContext::new();
    let none = tool_patch_file(&mut ctx, "f", b"x", &[]);
    assert_eq!(none.err(), Some("edits must contain at least one edit".to_string()));
    let missing = tool_patch_file(&mut ctx, "f", b"x", &[edit("a", "b", false)]);
    assert_eq!(missing.err(), Some("edit 1: old_content not found in 'f'".to_string()));
    assert!(ctx.lines.is_empty());
}

#[test]
fn long_arguments_are_cut() {
    let fifty = "a".repeat(50);
    assert_eq!(format_tool_arguments(&fifty), fifty);
    assert_eq!(format_tool_arguments(&"a".repeat(51)), format!("{}... (51)", "a".repeat(47)));
    let wide = "é".repeat(30);
    assert_eq!(format_tool_arguments(&wide), format!("{}... (60)", "é".repeat(23)));
}

#[test]
fn pairs_that_have_arrived_stay() {
    let text = r#"{"a": "x\"y", "b": [1, {"c": "]"}], "d": tru"#;
    let pairs = complete_pairs(text);
    let keys: Vec<&str> = pairs.iter().map(|p| p.key.as_str()).collect();
    assert_eq!(keys, vec!["a", "b"]);
    assert!(pairs[0].is_string && !pairs[1].is_string);
    assert_eq!(pairs[1].raw, r#"[1, {"c": "]"}]"#);
    for end in 0..text.len() {
        let fewer = complete_pairs(&text[..end]);
        assert!(fewer.len() <= pairs.len());
        assert!(fewer.iter().zip(&pairs).all(|(f, p)| f.key == p.key && f.raw == p.raw));
        let shown = preview_partial_tool_arguments(&text[..end]);
        assert!(!shown.unwrap_or_default().contains('\n'));
    }
}

#[test]
fn outputs_without_streams_are_shown_as_they_are() {
    assert_eq!(format_tool_output("{\"a\":1}"), "{\"a\":1}");
    assert_eq!(format_tool_output("{\"stdout\":\"x\"}"), "x");
}
