use faber::context::ToolContext;
use faber::file_tools::{
    check_pattern, diff_args, fetched_page, grep_args, list_matches, plan_command, plan_fetch,
    read_contents, read_error, read_page, report_command, report_command_error, report_fetch,
    report_grep, show_diff, FetchPlan, Invocation, ReadFileResult,
};
use faber::table::TableEntry;

fn strings(v: &[&str]) -> Vec<String> {
    v.iter().map(|s| s.to_string()).collect()
}

#[test]
fn a_full_read_gives_the_file_as_it_is() {
    let text = "one\r\ntwo\nthree";
    let r = read_contents(text.to_string(), None, None);
    assert_eq!(r.content, Some(text.to_string()));
    assert_eq!(r.total_lines, Some(3));
    assert_eq!(r.note, None);
    assert_eq!(r.error, None);
}

#[test]
fn a_large_file_comes_with_a_note() {
    let r = read_contents("x\n".repeat(999), None, None);
    assert_eq!(r.note, None);
    let r = read_contents("x\n".repeat(1000), None, None);
    assert_eq!(r.total_lines, Some(1000));
    assert_eq!(
        r.note,
        Some(
            "This file has 1000 lines; use start_line and end_line to read just a range."
                .to_string()
        )
    );
    let r = read_contents("x\n".repeat(1000), Some(2), Some(3));
    assert_eq!(r.note, None);
}

#[test]
fn a_range_of_lines_is_read() {
    let text = "a\nb\nc\nd\n";
    let read = |s, e| read_contents(text.to_string(), s, e);
    assert_eq!(read(Some(2), Some(3)).content, Some("b\nc".to_string()));
    assert_eq!(read(Some(3), None).content, Some("c\nd".to_string()));
    assert_eq!(read(None, Some(2)).content, Some("a\nb".to_string()));
    assert_eq!(read(Some(4), Some(99)).content, Some("d".to_string()));
    assert_eq!(read(Some(4), Some(99)).total_lines, Some(4));
    let error = |s, e| read(s, e).error.unwrap();
    assert_eq!(error(Some(0), Some(1)), "start_line is 1-based, cannot be 0");
    assert_eq!(error(Some(3), Some(2)), "end_line (2) must be >= start_line (3)");
    assert_eq!(error(Some(5), None), "start_line 5 exceeds file line count 4");
}

#[test]
fn a_file_that_cannot_be_read() {
    let want = |e: &str| ReadFileResult {
        content: None,
        error: Some(e.to_string()),
        total_lines: None,
        note: None,
    };
    assert_eq!(read_error(true, "x"), want("Failed to read file: x"));
    assert_eq!(read_error(false, "x"), want("File not found or cannot be opened: x"));
}

#[test]
fn patterns_stay_inside_the_directory() {
    assert_eq!(check_pattern("src/**/*.rs"), Ok(()));
    assert_eq!(check_pattern("a..b"), Ok(()));
    let refused = Err("Pattern cannot access parent directories or absolute paths".to_string());
    assert_eq!(check_pattern("src/../../x"), refused);
    assert_eq!(check_pattern("/etc/*"), refused);
    assert_eq!(list_matches(&strings(&["b", "a/c", "a"])), "a\na/c\nb");
}

#[test]
fn a_fetch_has_defaults() {
    let mut ctx = ToolContext::new();
    let plan = plan_fetch(&mut ctx, "https://x", None, None, None);
    assert_eq!(
        plan,
        Ok(FetchPlan {
            timeout_seconds: 30,
            follow_redirects: true,
            max_content_length: 10_000_000,
        })
    );
    assert_eq!(
        ctx.lines,
        vec![
            "🌐 Fetching content from: https://x",
            "   Timeout: 30s",
            "   Follow redirects: true",
            "   Max content length: 10000000 bytes",
        ]
    );
    let mut ctx = ToolContext::new();
    let plan = plan_fetch(&mut ctx, "ftp://x", Some(1), Some(false), Some(2));
    assert_eq!(plan, Err("URL must start with http:// or https://".to_string()));
    assert!(ctx.lines.is_empty());
}

#[test]
fn pages_are_read() {
    assert_eq!(read_page(true, b"caf\xc3\xa9", 10, "200 OK"), Ok("café".to_string()));
    assert_eq!(read_page(true, b"a\xffb", 10, "200 OK"), Ok("a\u{fffd}b".to_string()));
    assert_eq!(
        read_page(true, b"abc", 2, "200 OK"),
        Err("Content too large: 3 bytes (max: 2)".to_string())
    );
    assert_eq!(
        read_page(false, b"abc", 2, "404 Not Found"),
        Ok("HTTP Error: 404 Not Found".to_string())
    );
}

fn header(name: &str, value: &str) -> TableEntry<String> {
    TableEntry { name: name.to_string(), value: value.to_string() }
}

#[test]
fn a_fetch_is_recorded() {
    let kind = Some("text/html".to_string());
    let headers = vec![header("a", "1"), header("b", "2"), header("a", "3")];
    let page = fetched_page("http://x", "http://x/", 404, kind, headers, "é!".to_string());
    assert_eq!(page.url, "http://x");
    assert_eq!(page.final_url, Some("http://x/".to_string()));
    assert_eq!(page.status_code, 404);
    assert_eq!(page.content_type, Some("text/html".to_string()));
    assert_eq!(page.content, "é!");
    assert_eq!(page.content_length, 3);
    assert_eq!(page.headers.len(), 2);
    assert_eq!(page.headers.get("a"), Some(&"3".to_string()));
    assert_eq!(page.headers.get("b"), Some(&"2".to_string()));
    let page = fetched_page("http://x", "http://x", 200, None, vec![], String::new());
    assert_eq!((page.final_url, page.content_type, page.content_length), (None, None, 0));
}

#[test]
fn a_fetch_is_reported_with_a_preview() {
    let mut ctx = ToolContext::new();
    let long = "é".repeat(60);
    let content = format!("a\n{}\nc\nd\ne\nf", long);
    let kind = Some("text/plain".to_string());
    let page = fetched_page("http://x", "http://x", 200, kind, vec![], content.clone());
    report_fetch(&mut ctx, &page);
    assert_eq!(ctx.lines[0], "📄 Content fetched successfully");
    assert_eq!(ctx.lines[1], "   Status: 200");
    assert_eq!(ctx.lines[2], "   Content-Type: text/plain");
    assert_eq!(ctx.lines[3], format!("   Content length: {} bytes", content.len()));
    assert_eq!(ctx.lines[4], "   Content preview:");
    assert_eq!(ctx.lines[5], "     a");
    assert_eq!(ctx.lines[6], format!("     {}...", "é".repeat(48)));
    assert_eq!(ctx.lines[10], "     ... (content truncated in preview)");
    assert_eq!(ctx.lines.len(), 11);
    let mut ctx = ToolContext::new();
    report_fetch(&mut ctx, &fetched_page("http://x", "http://y", 200, None, vec![], String::new()));
    assert_eq!(ctx.lines.len(), 4);
    assert_eq!(ctx.lines[2], "   Final URL: http://y");
}

#[test]
fn commands_with_spaces_go_to_the_shell() {
    let plan = |c: &str, a: Option<Vec<String>>| plan_command(c, a);
    let want = |p: &str, a: &[&str]| Invocation { program: p.to_string(), args: strings(a) };
    assert_eq!(plan("ls", None), want("ls", &[]));
    assert_eq!(plan("ls -l", None), want("sh", &["-c", "ls -l"]));
    assert_eq!(plan("my prog", Some(strings(&["x"]))), want("my prog", &["x"]));
}

#[test]
fn the_outcome_of_a_command_is_reported() {
    let mut ctx = ToolContext::new();
    let r = report_command(&mut ctx, b"a\nb\n", b"", Some(0), true);
    assert_eq!((r.stdout.as_str(), r.stderr.as_str()), ("a\nb\n", ""));
    assert_eq!((r.exit_code, r.success), (Some(0), true));
    assert_eq!(ctx.lines, vec!["✅ Command executed successfully:", "STDOUT:", "  a", "  b"]);
    let mut ctx = ToolContext::new();
    let r = report_command(&mut ctx, b"\xff", b"e", None, false);
    assert_eq!(r.stdout, "<non-utf8 output>");
    assert_eq!(
        ctx.lines,
        vec![
            "❌ Command failed (exit code: -1):",
            "STDOUT:",
            "  <non-utf8 output>",
            "STDERR:",
            "  e",
        ]
    );
    let mut ctx = ToolContext::new();
    report_command(&mut ctx, b"", b"", Some(3), false);
    assert_eq!(ctx.lines, vec!["❌ Command failed (exit code: 3):", "(no output)"]);
    let mut ctx = ToolContext::new();
    let r = report_command_error(&mut ctx, "not found");
    assert_eq!(r.stderr, "Failed to execute command: not found");
    assert_eq!((r.exit_code, r.success), (None, false));
    assert_eq!(ctx.lines, vec!["ERROR: Failed to execute command: not found"]);
}

#[test]
fn grep_finds_lines_or_none() {
    assert_eq!(grep_args("-x"), strings(&["-r", "-n", "-e", "-x"]));
    let mut ctx = ToolContext::new();
    let out = (0..12).map(|i| format!("f:{}\n", i)).collect::<String>();
    let r = report_grep(&mut ctx, "p", true, Some(0), "exit status: 0", out.as_bytes(), b"");
    assert_eq!(r, Ok(out));
    assert_eq!(ctx.lines[0], "🔍 Grep results for pattern 'p':");
    assert_eq!(ctx.lines[1], "Found 12 matches:");
    assert_eq!(ctx.lines[11], "  f:9");
    assert_eq!(ctx.lines[12], "  ... and 2 more matches");
    let mut ctx = ToolContext::new();
    let r = report_grep(&mut ctx, "p", false, Some(1), "exit status: 1", b"", b"");
    assert_eq!(r, Ok("".to_string()));
    assert_eq!(ctx.lines[1], "(no matches found)");
    let mut ctx = ToolContext::new();
    let r = report_grep(&mut ctx, "p", false, Some(2), "S", b"", b"bad");
    assert_eq!(r, Err("grep command failed with status S. Stderr: bad".to_string()));
    let mut ctx = ToolContext::new();
    let r = report_grep(&mut ctx, "p", true, Some(0), "S", b"\xff", b"");
    assert!(r.unwrap_err().contains("invalid utf-8"));
}

#[test]
fn a_diff_is_shown_where_there_is_one() {
    assert_eq!(
        diff_args("f", "/old", "/new"),
        strings(&[
            "--color=always",
            "-Naur",
            "--label",
            "a/f",
            "--label",
            "b/f",
            "/old",
            "/new",
        ])
    );
    let shown = |code: Option<i32>, out: &[u8]| {
        let mut ctx = ToolContext::new();
        show_diff(&mut ctx, code, out);
        ctx.lines
    };
    assert_eq!(shown(Some(0), b""), strings(&["   No differences detected"]));
    assert_eq!(shown(Some(1), b"-a\n+b\n"), strings(&["   Changes:", "   -a", "   +b"]));
    assert_eq!(shown(Some(1), b"\xff"), strings(&["   Changes:", "   \u{fffd}"]));
    assert!(shown(Some(2), b"x").is_empty());
    assert!(shown(None, b"x").is_empty());
}
