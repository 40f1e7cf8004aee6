//! The tools that read files, search, run commands and fetch pages.

use vstd::prelude::*;
use vstd::utf8::*;
use crate::context::ToolContext;
use crate::json;
use crate::numbers;
use crate::numbers::{decimal_text, signed_text, usize_text};
use crate::order;
use crate::order::{cut_at, sorted};
use crate::session::push_line;
use crate::table;
use crate::table::{Table, TableEntry};
use crate::text;
use crate::text::{same, str_contains, str_starts_with, text2, text3, text4, text5};
use crate::words;
use crate::words::{join, text_lines};
use crate::write_file;
use crate::write_file::utf8_text;

verus! {

// ---------------------------------------------------------------------------
// Reading files
// ---------------------------------------------------------------------------

/// The number of lines from which on a range is suggested.
pub const LARGE_FILE_LINES: usize = 1000;

/// What `read_file` reports.
#[derive(Debug, PartialEq, Eq)]
pub struct ReadFileResult {
    pub content: Option<String>,
    pub error: Option<String>,
    pub total_lines: Option<usize>,
    pub note: Option<String>,
}

/// What `read_file` reports.
pub ghost struct ReadReport {
    pub content: Option<Seq<char>>,
    pub error: Option<Seq<char>>,
    pub total_lines: Option<usize>,
    pub note: Option<Seq<char>>,
}

impl View for ReadFileResult {
    type V = ReadReport;

    open spec fn view(&self) -> ReadReport {
        ReadReport {
            content: json::opt_view(self.content),
            error: json::opt_view(self.error),
            total_lines: self.total_lines,
            note: json::opt_view(self.note),
        }
    }
}

/// A report of a failure.
pub open spec fn read_failure(e: Seq<char>) -> ReadReport {
    ReadReport { content: None, error: Some(e), total_lines: None, note: None }
}

/// The hint that goes with a large file that is read in full.
pub open spec fn range_note(total: nat) -> Option<Seq<char>> {
    if total >= LARGE_FILE_LINES {
        Some(
            "This file has "@ + numbers::decimal(total)
                + " lines; use start_line and end_line to read just a range."@,
        )
    } else {
        None
    }
}

/// The report on a file that was read: its whole text, or the lines from `start` to `end`, counted
/// from one, as far as there are that many.
pub open spec fn read_report(
    contents: Seq<char>,
    start: Option<usize>,
    end: Option<usize>,
    total: usize,
) -> ReadReport {
    let v = words::lines(contents);
    let first: int = match start {
        Some(s) => s as int,
        None => 1,
    };
    let last: int = match end {
        Some(e) => if e < v.len() {
            e as int
        } else {
            v.len() as int
        },
        None => v.len() as int,
    };
    if start is None && end is None {
        ReadReport {
            content: Some(contents),
            error: None,
            total_lines: Some(total),
            note: range_note(v.len()),
        }
    } else if first == 0 {
        read_failure("start_line is 1-based, cannot be 0"@)
    } else if end is Some && end->0 < first {
        read_failure(
            "end_line ("@ + numbers::decimal(end->0 as nat) + ") must be >= start_line ("@
                + numbers::decimal(first as nat) + ")"@,
        )
    } else if first > v.len() {
        read_failure(
            "start_line "@ + numbers::decimal(first as nat) + " exceeds file line count "@
                + numbers::decimal(v.len()),
        )
    } else {
        ReadReport {
            content: Some(words::joined(v.subrange(first - 1, last), "\n"@)),
            error: None,
            total_lines: Some(total),
            note: None,
        }
    }
}

fn failed_read(e: String) -> (r: ReadFileResult)
    ensures
        r@ == read_failure(e@),
{
    ReadFileResult { content: None, error: Some(e), total_lines: None, note: None }
}

fn copy_lines(v: &[String], i: usize, j: usize) -> (r: Vec<String>)
    requires
        i <= j <= v@.len(),
    ensures
        words::views(r@) == words::views(v@).subrange(i as int, j as int),
{
    let ghost w = words::views(v@);
    let mut r: Vec<String> = Vec::new();
    let mut k: usize = i;
    assert(words::views(r@) =~= w.subrange(i as int, i as int));
    while k < j
        invariant
            i <= k <= j <= v@.len(),
            w == words::views(v@),
            words::views(r@) == w.subrange(i as int, k as int),
        decreases j - k,
    {
        push_line(&mut r, v[k].clone());
        assert(w.subrange(i as int, k + 1) =~= w.subrange(i as int, k as int).push(v@[k as int]@));
        k += 1;
    }
    r
}

/// Reports on a file that was read: its whole text, or a range of its lines.
pub fn read_contents(contents: String, start: Option<usize>, end: Option<usize>) -> (r:
    ReadFileResult)
    ensures
        ({
            let total = words::lines(contents@).len();
            total <= usize::MAX && r@ == read_report(contents@, start, end, total as usize)
        }),
{
    let lines = text_lines(contents.as_str());
    let ghost v = words::views(lines@);
    assert(v.len() == lines@.len());
    let total = lines.len();
    if start.is_none() && end.is_none() {
        let note = if total >= LARGE_FILE_LINES {
            let n = usize_text(total);
            Some(
                text3(
                    "This file has ",
                    n.as_str(),
                    " lines; use start_line and end_line to read just a range.",
                ),
            )
        } else {
            None
        };
        return ReadFileResult {
            content: Some(contents),
            error: None,
            total_lines: Some(total),
            note,
        };
    }
    let first: usize = match start {
        Some(s) => s,
        None => 1,
    };
    if first == 0 {
        return failed_read("start_line is 1-based, cannot be 0".to_owned());
    }
    let last: usize = match end {
        Some(e) => {
            if e < first {
                let a = usize_text(e);
                let b = usize_text(first);
                return failed_read(
                    text5("end_line (", a.as_str(), ") must be >= start_line (", b.as_str(), ")"),
                );
            }
            if e < total {
                e
            } else {
                total
            }
        },
        None => total,
    };
    if first > total {
        let a = usize_text(first);
        let b = usize_text(total);
        return failed_read(
            text4("start_line ", a.as_str(), " exceeds file line count ", b.as_str()),
        );
    }
    let part = copy_lines(lines.as_slice(), first - 1, last);
    ReadFileResult {
        content: Some(join(part.as_slice(), "\n")),
        error: None,
        total_lines: Some(total),
        note: None,
    }
}

/// Reports that a file could not be opened, or not be read.
pub fn read_error(opened: bool, error: &str) -> (r: ReadFileResult)
    ensures
        r@ == read_failure(
            if opened {
                "Failed to read file: "@ + error@
            } else {
                "File not found or cannot be opened: "@ + error@
            },
        ),
{
    if opened {
        failed_read(text2("Failed to read file: ", error))
    } else {
        failed_read(text2("File not found or cannot be opened: ", error))
    }
}

/// Reading a file without a range gives its text as it is.
pub proof fn full_reads_are_exact(contents: Seq<char>, total: usize)
    ensures
        read_report(contents, None, None, total).content == Some(contents),
{
}

// ---------------------------------------------------------------------------
// Finding files
// ---------------------------------------------------------------------------

/// A pattern that stays within the current directory.
pub open spec fn stays_inside(pattern: Seq<char>) -> bool {
    !text::contains(pattern, "../"@) && !text::begins(pattern, "/"@)
}

/// Refuses a pattern that leaves the current directory.
pub fn check_pattern(pattern: &str) -> (r: Result<(), String>)
    ensures
        r is Ok <==> stays_inside(pattern@),
        r matches Err(e) ==> e@
            == "Pattern cannot access parent directories or absolute paths"@,
{
    if str_contains(pattern, "../") || str_starts_with(pattern, "/") {
        Err("Pattern cannot access parent directories or absolute paths".to_owned())
    } else {
        Ok(())
    }
}

/// The files that were found, sorted, one per line.
pub fn list_matches(files: &[String]) -> (r: String)
    ensures
        r@ == words::joined(order::in_order(words::views(files@)), "\n"@),
{
    let s = sorted(files);
    join(s.as_slice(), "\n")
}

// ---------------------------------------------------------------------------
// Fetching pages
// ---------------------------------------------------------------------------

/// How a page is fetched.
#[derive(Clone, Copy, Debug, PartialEq, Eq, Structural)]
pub struct FetchPlan {
    pub timeout_seconds: u64,
    pub follow_redirects: bool,
    pub max_content_length: usize,
}

/// The lines that announce a fetch.
pub open spec fn fetch_lines(url: Seq<char>, plan: FetchPlan) -> Seq<Seq<char>> {
    seq![
        "🌐 Fetching content from: "@ + url,
        "   Timeout: "@ + numbers::decimal(plan.timeout_seconds as nat) + "s"@,
        "   Follow redirects: "@ + json::json_bool(plan.follow_redirects),
        "   Max content length: "@ + numbers::decimal(plan.max_content_length as nat)
            + " bytes"@,
    ]
}

/// The plan for a fetch, with the defaults for what is not given.
pub open spec fn fetch_plan(timeout: Option<u64>, follow: Option<bool>, max: Option<usize>) -> FetchPlan {
    FetchPlan {
        timeout_seconds: match timeout {
            Some(t) => t,
            None => 30,
        },
        follow_redirects: match follow {
            Some(f) => f,
            None => true,
        },
        max_content_length: match max {
            Some(m) => m,
            None => 10_000_000,
        },
    }
}

/// A URL that can be fetched.
pub open spec fn web_url(url: Seq<char>) -> bool {
    text::begins(url, "http://"@) || text::begins(url, "https://"@)
}

/// Plans a fetch and announces it; refuses a URL of another kind.
pub fn plan_fetch(
    ctx: &mut ToolContext,
    url: &str,
    timeout: Option<u64>,
    follow: Option<bool>,
    max: Option<usize>,
) -> (r: Result<FetchPlan, String>)
    ensures
        match r {
            Ok(p) => {
                &&& web_url(url@)
                &&& p == fetch_plan(timeout, follow, max)
                &&& words::views(final(ctx).lines@) == words::views(old(ctx).lines@)
                    + fetch_lines(url@, p)
            },
            Err(e) => {
                &&& !web_url(url@)
                &&& e@ == "URL must start with http:// or https://"@
                &&& words::views(final(ctx).lines@) == words::views(old(ctx).lines@)
            },
        },
        final(ctx).has_db == old(ctx).has_db,
        final(ctx).agent_name == old(ctx).agent_name,
{
    if !str_starts_with(url, "http://") && !str_starts_with(url, "https://") {
        return Err("URL must start with http:// or https://".to_owned());
    }
    let timeout_seconds: u64 = match timeout {
        Some(t) => t,
        None => 30,
    };
    let follow_redirects = match follow {
        Some(f) => f,
        None => true,
    };
    let max_content_length: usize = match max {
        Some(m) => m,
        None => 10_000_000,
    };
    let plan = FetchPlan { timeout_seconds, follow_redirects, max_content_length };
    let ghost before = words::views(ctx.lines@);
    ctx.println_pair("🌐 Fetching content from: ", url);
    let t = text3("   Timeout: ", decimal_text(timeout_seconds).as_str(), "s");
    ctx.println(t.as_str());
    let f: &str = if follow_redirects {
        "true"
    } else {
        "false"
    };
    ctx.println_pair("   Follow redirects: ", f);
    let m = text3(
        "   Max content length: ",
        usize_text(max_content_length).as_str(),
        " bytes",
    );
    ctx.println(m.as_str());
    assert(words::views(ctx.lines@) =~= before + fetch_lines(url@, plan));
    Ok(plan)
}

/// The text that std makes of bytes that are not UTF-8.
pub uninterp spec fn lossy_of(bytes: Seq<u8>) -> Seq<char>;

/// `String::from_utf8_lossy`: the text of some bytes, with a replacement character for what is not
/// UTF-8. It depends on the bytes alone.
#[verifier::external_body]
pub(crate) fn lossy_text(bytes: &[u8]) -> (r: String)
    ensures
        r@ == lossy_of(bytes@),
{
    String::from_utf8_lossy(bytes).into_owned()
}

/// The content of a page: its text where it was found and is not too large, else an error.
pub open spec fn page_content(
    success: bool,
    body: Seq<u8>,
    max: usize,
    status: Seq<char>,
) -> Result<Seq<char>, Seq<char>> {
    if !success {
        Ok("HTTP Error: "@ + status)
    } else if body.len() > max {
        Err(
            "Content too large: "@ + numbers::decimal(body.len()) + " bytes (max: "@
                + numbers::decimal(max as nat) + ")"@,
        )
    } else if valid_utf8(body) {
        Ok(decode_utf8(body))
    } else {
        Ok(lossy_of(body))
    }
}

/// The content of a page: its text where it was found and is not too large. `status` is the status
/// as a text.
pub fn read_page(success: bool, body: &[u8], max: usize, status: &str) -> (r: Result<
    String,
    String,
>)
    ensures
        match r {
            Ok(t) => page_content(success, body@, max, status@) == Ok::<Seq<char>, Seq<char>>(t@),
            Err(e) => page_content(success, body@, max, status@) == Err::<Seq<char>, Seq<char>>(
                e@,
            ),
        },
{
    if !success {
        return Ok(text2("HTTP Error: ", status));
    }
    if body.len() > max {
        let a = usize_text(body.len());
        let b = usize_text(max);
        return Err(text5("Content too large: ", a.as_str(), " bytes (max: ", b.as_str(), ")"));
    }
    match utf8_text(body) {
        Ok(t) => {
            proof {
                encode_utf8_decode_utf8(t@);
                encode_utf8_valid_utf8(t@);
            }
            Ok(t)
        },
        Err(_) => Ok(lossy_text(body)),
    }
}

/// The most bytes of a line that a preview shows whole.
pub const PREVIEW_SHOWN: usize = 100;

/// The bytes of a longer line that a preview shows.
pub const PREVIEW_CUT: usize = 97;

/// The most lines that a preview shows.
pub const PREVIEW_LINES: usize = 5;

/// A line of a preview.
pub open spec fn preview_line(line: Seq<char>) -> Seq<char> {
    if encode_utf8(line).len() > PREVIEW_SHOWN {
        "     "@ + (order::cut(line, PREVIEW_CUT as int) + "..."@)
    } else {
        "     "@ + line
    }
}

/// The preview of a page.
pub open spec fn preview_of(content: Seq<char>) -> Seq<Seq<char>> {
    let v = words::lines(content);
    let shown = if v.len() < PREVIEW_LINES {
        v
    } else {
        v.take(PREVIEW_LINES as int)
    };
    let body = seq!["   Content preview:"@] + Seq::new(
        shown.len(),
        |i: int| preview_line(shown[i]),
    );
    if v.len() == 0 {
        Seq::empty()
    } else if v.len() > PREVIEW_LINES {
        body.push("     ... (content truncated in preview)"@)
    } else {
        body
    }
}

/// The line that shows an optional value.
pub open spec fn opt_line(label: Seq<char>, value: Option<Seq<char>>) -> Seq<Seq<char>> {
    match value {
        Some(v) => seq![label + v],
        None => Seq::empty(),
    }
}

/// The lines that report a fetch.
pub open spec fn fetched_lines(
    status: u16,
    content_type: Option<Seq<char>>,
    final_url: Option<Seq<char>>,
    content: Seq<char>,
) -> Seq<Seq<char>> {
    seq!["📄 Content fetched successfully"@, "   Status: "@ + numbers::decimal(status as nat)]
        + opt_line("   Content-Type: "@, content_type) + opt_line("   Final URL: "@, final_url)
        + seq![
        "   Content length: "@ + numbers::decimal(encode_utf8(content).len()) + " bytes"@,
    ] + preview_of(content)
}

fn print_opt(ctx: &mut ToolContext, label: &str, value: &Option<String>)
    ensures
        words::views(final(ctx).lines@) == words::views(old(ctx).lines@) + opt_line(
            label@,
            json::opt_view(*value),
        ),
        final(ctx).has_db == old(ctx).has_db,
        final(ctx).agent_name == old(ctx).agent_name,
{
    match value {
        Some(v) => {
            ctx.println_pair(label, v.as_str());
        },
        None => {},
    }
    assert(words::views(ctx.lines@) =~= words::views(old(ctx).lines@) + opt_line(
        label@,
        json::opt_view(*value),
    ));
}

fn preview_text(line: &str) -> (r: String)
    ensures
        r@ == preview_line(line@),
{
    if line.as_bytes().len() > PREVIEW_SHOWN {
        let cut = text2(cut_at(line, PREVIEW_CUT), "...");
        text2("     ", cut.as_str())
    } else {
        text2("     ", line)
    }
}

fn print_preview(ctx: &mut ToolContext, content: &str)
    ensures
        words::views(final(ctx).lines@) == words::views(old(ctx).lines@) + preview_of(content@),
        final(ctx).has_db == old(ctx).has_db,
        final(ctx).agent_name == old(ctx).agent_name,
{
    let lines = text_lines(content);
    let ghost v = words::views(lines@);
    let ghost before = words::views(ctx.lines@);
    assert(v.len() == lines@.len());
    if lines.len() == 0 {
        assert(words::views(ctx.lines@) =~= before + preview_of(content@));
        return ;
    }
    ctx.println("   Content preview:");
    let n: usize = if lines.len() < PREVIEW_LINES {
        lines.len()
    } else {
        PREVIEW_LINES
    };
    let ghost shown = v.take(n as int);
    let ghost all = Seq::new(shown.len(), |i: int| preview_line(shown[i]));
    let ghost head = words::views(ctx.lines@);
    let mut i: usize = 0;
    assert(words::views(ctx.lines@) =~= head + all.take(0));
    while i < n
        invariant
            i <= n <= lines@.len(),
            v == words::views(lines@),
            shown == v.take(n as int),
            all == Seq::new(shown.len(), |i: int| preview_line(shown[i])),
            words::views(ctx.lines@) == head + all.take(i as int),
            ctx.has_db == old(ctx).has_db,
            ctx.agent_name == old(ctx).agent_name,
        decreases n - i,
    {
        let t = preview_text(lines[i].as_str());
        assert(shown[i as int] == lines@[i as int]@);
        ctx.println(t.as_str());
        assert(words::views(ctx.lines@) =~= head + all.take(i + 1));
        i += 1;
    }
    assert(all.take(n as int) =~= all);
    if lines.len() > PREVIEW_LINES {
        ctx.println("     ... (content truncated in preview)");
    }
    proof {
        if v.len() < PREVIEW_LINES {
            assert(shown =~= v);
        }
        assert(words::views(ctx.lines@) =~= before + preview_of(content@));
    }
}

/// What a fetch found: the page, and where it was in the end if that is not where it was asked for.
#[derive(Debug)]
pub struct FetchedPage {
    pub url: String,
    pub status_code: u16,
    pub content_type: Option<String>,
    pub content: String,
    pub content_length: usize,
    pub final_url: Option<String>,
    pub headers: Table<String>,
}

/// The headers of an answer by name. Of those with the same name the last one counts.
fn headers_by_name(lines: Vec<TableEntry<String>>) -> (r: Table<String>)
    ensures
        r.wf(),
        r.map() == table::entries_map(lines@),
{
    let mut rest = lines;
    let mut r: Table<String> = Table::new();
    let ghost mut k: int = 0;
    assert(lines@.take(0) =~= Seq::empty());
    while rest.len() > 0
        invariant
            0 <= k <= lines@.len(),
            rest@ == lines@.skip(k),
            r.wf(),
            r.map() == table::entries_map(lines@.take(k)),
        decreases rest@.len(),
    {
        let line = rest.remove(0);
        r.set(line.name, line.value);
        proof {
            assert(line == lines@[k]);
            assert(rest@ =~= lines@.skip(k + 1));
            assert(lines@.take(k + 1).drop_last() =~= lines@.take(k));
            k = k + 1;
        }
    }
    assert(lines@.take(k) =~= lines@);
    r
}

/// Records what a fetch found: the page that was asked for, the one that answered, its status, its
/// type, its headers and its content.
pub fn fetched_page(
    asked: &str,
    answered: &str,
    status: u16,
    content_type: Option<String>,
    headers: Vec<TableEntry<String>>,
    content: String,
) -> (r: FetchedPage)
    ensures
        r.url@ == asked@,
        r.status_code == status,
        r.content_type == content_type,
        r.content == content,
        r.content_length == encode_utf8(content@).len(),
        json::opt_view(r.final_url) == (if answered@ != asked@ {
            Some(answered@)
        } else {
            None
        }),
        r.headers.wf(),
        r.headers.map() == table::entries_map(headers@),
{
    let content_length = content.as_str().as_bytes().len();
    let final_url = if same(answered, asked) {
        None
    } else {
        Some(answered.to_owned())
    };
    FetchedPage {
        url: asked.to_owned(),
        status_code: status,
        content_type,
        content,
        content_length,
        final_url,
        headers: headers_by_name(headers),
    }
}

/// Reports a fetch, with a preview of the page.
pub fn report_fetch(ctx: &mut ToolContext, page: &FetchedPage)
    ensures
        words::views(final(ctx).lines@) == words::views(old(ctx).lines@) + fetched_lines(
            page.status_code,
            json::opt_view(page.content_type),
            json::opt_view(page.final_url),
            page.content@,
        ),
        final(ctx).has_db == old(ctx).has_db,
        final(ctx).agent_name == old(ctx).agent_name,
{
    let ghost before = words::views(ctx.lines@);
    ctx.println("📄 Content fetched successfully");
    ctx.println_pair("   Status: ", decimal_text(page.status_code as u64).as_str());
    let ghost a = words::views(ctx.lines@);
    assert(a =~= before + seq![
        "📄 Content fetched successfully"@,
        "   Status: "@ + numbers::decimal(page.status_code as nat),
    ]);
    print_opt(ctx, "   Content-Type: ", &page.content_type);
    print_opt(ctx, "   Final URL: ", &page.final_url);
    let size = usize_text(page.content.as_str().as_bytes().len());
    let line = text3("   Content length: ", size.as_str(), " bytes");
    ctx.println(line.as_str());
    print_preview(ctx, page.content.as_str());
    assert(words::views(ctx.lines@) =~= before + fetched_lines(
        page.status_code,
        json::opt_view(page.content_type),
        json::opt_view(page.final_url),
        page.content@,
    ));
}

// ---------------------------------------------------------------------------
// Running commands
// ---------------------------------------------------------------------------

/// A program and its arguments.
#[derive(Debug, PartialEq, Eq)]
pub struct Invocation {
    pub program: String,
    pub args: Vec<String>,
}

/// The program and the arguments of a command: as they are given, or a shell line where the
/// command holds a space and no arguments are given.
pub open spec fn invoked(command: Seq<char>, args: Option<Seq<Seq<char>>>) -> (
    Seq<char>,
    Seq<Seq<char>>,
) {
    match args {
        Some(a) => (command, a),
        None => if text::contains(command, " "@) {
            ("sh"@, seq!["-c"@, command])
        } else {
            (command, Seq::empty())
        },
    }
}

/// The program and the arguments of a command.
pub fn plan_command(command: &str, args: Option<Vec<String>>) -> (r: Invocation)
    ensures
        (r.program@, words::views(r.args@)) == invoked(
            command@,
            match args {
                Some(a) => Some(words::views(a@)),
                None => None,
            },
        ),
{
    match args {
        Some(a) => Invocation { program: command.to_owned(), args: a },
        None => {
            if str_contains(command, " ") {
                let args = vec!["-c".to_owned(), command.to_owned()];
                assert(words::views(args@) =~= seq!["-c"@, command@]);
                Invocation { program: "sh".to_owned(), args }
            } else {
                let args: Vec<String> = Vec::new();
                assert(words::views(args@) =~= Seq::<Seq<char>>::empty());
                Invocation { program: command.to_owned(), args }
            }
        },
    }
}

/// What `run_command` reports.
#[derive(Debug, PartialEq, Eq)]
pub struct CommandResult {
    pub stdout: String,
    pub stderr: String,
    pub exit_code: Option<i32>,
    pub success: bool,
}

/// What a command wrote, as a text.
pub open spec fn output_text(bytes: Seq<u8>) -> Seq<char> {
    if valid_utf8(bytes) {
        decode_utf8(bytes)
    } else {
        "<non-utf8 output>"@
    }
}

fn read_output(bytes: &[u8]) -> (r: String)
    ensures
        r@ == output_text(bytes@),
{
    match utf8_text(bytes) {
        Ok(t) => {
            proof {
                encode_utf8_decode_utf8(t@);
                encode_utf8_valid_utf8(t@);
            }
            t
        },
        Err(_) => "<non-utf8 output>".to_owned(),
    }
}

/// Each line of a text, indented.
pub open spec fn indented(indent: Seq<char>, t: Seq<char>) -> Seq<Seq<char>> {
    let v = words::lines(t);
    Seq::new(v.len(), |i: int| indent + v[i])
}

fn print_indented(ctx: &mut ToolContext, indent: &str, t: &str)
    ensures
        words::views(final(ctx).lines@) == words::views(old(ctx).lines@) + indented(indent@, t@),
        final(ctx).has_db == old(ctx).has_db,
        final(ctx).agent_name == old(ctx).agent_name,
{
    let lines = text_lines(t);
    let ghost v = words::views(lines@);
    let ghost all = indented(indent@, t@);
    let ghost head = words::views(ctx.lines@);
    let mut i: usize = 0;
    assert(words::views(ctx.lines@) =~= head + all.take(0));
    while i < lines.len()
        invariant
            i <= lines@.len(),
            v == words::views(lines@),
            v == words::lines(t@),
            all == indented(indent@, t@),
            words::views(ctx.lines@) == head + all.take(i as int),
            ctx.has_db == old(ctx).has_db,
            ctx.agent_name == old(ctx).agent_name,
        decreases lines@.len() - i,
    {
        assert(v[i as int] == lines@[i as int]@);
        ctx.println_pair(indent, lines[i].as_str());
        assert(words::views(ctx.lines@) =~= head + all.take(i + 1));
        i += 1;
    }
    assert(all.take(v.len() as int) =~= all);
}

/// A section of the report on a command: nothing where the command wrote nothing.
pub open spec fn output_section(heading: Seq<char>, t: Seq<char>) -> Seq<Seq<char>> {
    if t.len() == 0 {
        Seq::empty()
    } else {
        seq![heading] + indented("  "@, t)
    }
}

/// The lines that report a command.
pub open spec fn command_lines(
    stdout: Seq<char>,
    stderr: Seq<char>,
    exit_code: Option<i32>,
    success: bool,
) -> Seq<Seq<char>> {
    seq![
        if success {
            "✅ Command executed successfully:"@
        } else {
            "❌ Command failed (exit code: "@ + numbers::decimal_int(code_or_minus_one(exit_code))
                + "):"@
        },
    ] + output_section("STDOUT:"@, stdout) + output_section("STDERR:"@, stderr) + (if stdout.len()
        == 0 && stderr.len() == 0 {
        seq!["(no output)"@]
    } else {
        Seq::empty()
    })
}

/// An exit code; minus one where there is none.
pub open spec fn code_or_minus_one(exit_code: Option<i32>) -> int {
    match exit_code {
        Some(c) => c as int,
        None => -1,
    }
}

fn print_section(ctx: &mut ToolContext, heading: &str, t: &str)
    ensures
        words::views(final(ctx).lines@) == words::views(old(ctx).lines@) + output_section(
            heading@,
            t@,
        ),
        final(ctx).has_db == old(ctx).has_db,
        final(ctx).agent_name == old(ctx).agent_name,
{
    if !t.is_empty() {
        ctx.println(heading);
        print_indented(ctx, "  ", t);
    }
    assert(words::views(ctx.lines@) =~= words::views(old(ctx).lines@) + output_section(
        heading@,
        t@,
    ));
}

/// Reports a command that ran.
pub fn report_command(
    ctx: &mut ToolContext,
    stdout: &[u8],
    stderr: &[u8],
    exit_code: Option<i32>,
    success: bool,
) -> (r: CommandResult)
    ensures
        r.stdout@ == output_text(stdout@),
        r.stderr@ == output_text(stderr@),
        r.exit_code == exit_code,
        r.success == success,
        words::views(final(ctx).lines@) == words::views(old(ctx).lines@) + command_lines(
            r.stdout@,
            r.stderr@,
            exit_code,
            success,
        ),
        final(ctx).has_db == old(ctx).has_db,
        final(ctx).agent_name == old(ctx).agent_name,
{
    let out = read_output(stdout);
    let err = read_output(stderr);
    let ghost before = words::views(ctx.lines@);
    if success {
        ctx.println("✅ Command executed successfully:");
    } else {
        let code: i64 = match exit_code {
            Some(c) => c as i64,
            None => -1,
        };
        let line = text3("❌ Command failed (exit code: ", signed_text(code).as_str(), "):");
        ctx.println(line.as_str());
    }
    print_section(ctx, "STDOUT:", out.as_str());
    print_section(ctx, "STDERR:", err.as_str());
    if out.as_str().is_empty() && err.as_str().is_empty() {
        ctx.println("(no output)");
    }
    assert(words::views(ctx.lines@) =~= before + command_lines(out@, err@, exit_code, success));
    CommandResult { stdout: out, stderr: err, exit_code, success }
}

/// Reports a command that could not be run.
pub fn report_command_error(ctx: &mut ToolContext, error: &str) -> (r: CommandResult)
    ensures
        r.stdout@.len() == 0,
        r.stderr@ == "Failed to execute command: "@ + error@,
        r.exit_code is None,
        !r.success,
        words::views(final(ctx).lines@) == words::views(old(ctx).lines@).push(
            "ERROR: Failed to execute command: "@ + error@,
        ),
        final(ctx).has_db == old(ctx).has_db,
        final(ctx).agent_name == old(ctx).agent_name,
{
    ctx.println_pair("ERROR: Failed to execute command: ", error);
    proof {
        reveal_strlit("");
    }
    CommandResult {
        stdout: "".to_owned(),
        stderr: text2("Failed to execute command: ", error),
        exit_code: None,
        success: false,
    }
}

// ---------------------------------------------------------------------------
// Searching
// ---------------------------------------------------------------------------

/// The arguments with which `grep` is run.
pub fn grep_args(pattern: &str) -> (r: Vec<String>)
    ensures
        words::views(r@) == seq!["-r"@, "-n"@, "-e"@, pattern@],
{
    let r = vec!["-r".to_owned(), "-n".to_owned(), "-e".to_owned(), pattern.to_owned()];
    assert(words::views(r@) =~= seq!["-r"@, "-n"@, "-e"@, pattern@]);
    r
}

/// The most matches that are printed.
pub const MATCHES_SHOWN: usize = 10;

/// The lines that show what a search found.
pub open spec fn match_lines(found: Seq<char>) -> Seq<Seq<char>> {
    let v = words::lines(found);
    let shown = if v.len() < MATCHES_SHOWN {
        v
    } else {
        v.take(MATCHES_SHOWN as int)
    };
    let body = seq!["Found "@ + numbers::decimal(v.len()) + " matches:"@] + Seq::new(
        shown.len(),
        |i: int| "  "@ + shown[i],
    );
    if v.len() > MATCHES_SHOWN {
        body.push(
            "  ... and "@ + numbers::decimal((v.len() - MATCHES_SHOWN) as nat) + " more matches"@,
        )
    } else {
        body
    }
}

/// The lines that report a search.
pub open spec fn grep_lines(pattern: Seq<char>, found: Seq<char>) -> Seq<Seq<char>> {
    seq!["🔍 Grep results for pattern '"@ + pattern + "':"@] + (if found.len() == 0 {
        seq!["(no matches found)"@]
    } else {
        match_lines(found)
    })
}

/// What a search gives: no match is not an error.
pub open spec fn grep_result(
    success: bool,
    code: Option<i32>,
    status: Seq<char>,
    stdout: Seq<u8>,
    stderr: Seq<u8>,
) -> Result<Seq<char>, Seq<char>> {
    if !success && code != Some(1i32) {
        if valid_utf8(stderr) {
            Err(
                "grep command failed with status "@ + status + ". Stderr: "@ + decode_utf8(stderr),
            )
        } else {
            Err(write_file::utf8_fault_of(stderr))
        }
    } else if valid_utf8(stdout) {
        Ok(decode_utf8(stdout))
    } else {
        Err(write_file::utf8_fault_of(stdout))
    }
}

fn decode(bytes: &[u8]) -> (r: Result<String, String>)
    ensures
        match r {
            Ok(t) => valid_utf8(bytes@) && t@ == decode_utf8(bytes@),
            Err(e) => !valid_utf8(bytes@) && e@ == write_file::utf8_fault_of(bytes@),
        },
{
    match utf8_text(bytes) {
        Ok(t) => {
            proof {
                encode_utf8_decode_utf8(t@);
                encode_utf8_valid_utf8(t@);
            }
            Ok(t)
        },
        Err(e) => Err(e),
    }
}

fn print_matches(ctx: &mut ToolContext, found: &str)
    ensures
        words::views(final(ctx).lines@) == words::views(old(ctx).lines@) + match_lines(found@),
        final(ctx).has_db == old(ctx).has_db,
        final(ctx).agent_name == old(ctx).agent_name,
{
    let lines = text_lines(found);
    let ghost v = words::views(lines@);
    let ghost before = words::views(ctx.lines@);
    assert(v.len() == lines@.len());
    let count = usize_text(lines.len());
    let head = text3("Found ", count.as_str(), " matches:");
    ctx.println(head.as_str());
    let n: usize = if lines.len() < MATCHES_SHOWN {
        lines.len()
    } else {
        MATCHES_SHOWN
    };
    let ghost shown = v.take(n as int);
    let ghost all = Seq::new(shown.len(), |i: int| "  "@ + shown[i]);
    let ghost top = words::views(ctx.lines@);
    let mut i: usize = 0;
    assert(words::views(ctx.lines@) =~= top + all.take(0));
    while i < n
        invariant
            i <= n <= lines@.len(),
            v == words::views(lines@),
            shown == v.take(n as int),
            all == Seq::new(shown.len(), |i: int| "  "@ + shown[i]),
            words::views(ctx.lines@) == top + all.take(i as int),
            ctx.has_db == old(ctx).has_db,
            ctx.agent_name == old(ctx).agent_name,
        decreases n - i,
    {
        assert(shown[i as int] == lines@[i as int]@);
        ctx.println_pair("  ", lines[i].as_str());
        assert(words::views(ctx.lines@) =~= top + all.take(i + 1));
        i += 1;
    }
    assert(all.take(n as int) =~= all);
    if lines.len() > MATCHES_SHOWN {
        let more = usize_text(lines.len() - MATCHES_SHOWN);
        let line = text3("  ... and ", more.as_str(), " more matches");
        ctx.println(line.as_str());
    }
    proof {
        if v.len() < MATCHES_SHOWN {
            assert(shown =~= v);
        }
        assert(words::views(ctx.lines@) =~= before + match_lines(found@));
    }
}

/// Reports a search; fails where `grep` did. `status` is its status as a text.
pub fn report_grep(
    ctx: &mut ToolContext,
    pattern: &str,
    success: bool,
    code: Option<i32>,
    status: &str,
    stdout: &[u8],
    stderr: &[u8],
) -> (r: Result<String, String>)
    ensures
        match r {
            Ok(t) => {
                &&& grep_result(success, code, status@, stdout@, stderr@) == Ok::<
                    Seq<char>,
                    Seq<char>,
                >(t@)
                &&& words::views(final(ctx).lines@) == words::views(old(ctx).lines@) + grep_lines(
                    pattern@,
                    t@,
                )
            },
            Err(e) => {
                &&& grep_result(success, code, status@, stdout@, stderr@) == Err::<
                    Seq<char>,
                    Seq<char>,
                >(e@)
                &&& words::views(final(ctx).lines@) == words::views(old(ctx).lines@)
            },
        },
        final(ctx).has_db == old(ctx).has_db,
        final(ctx).agent_name == old(ctx).agent_name,
{
    let none_found = match code {
        Some(c) => c == 1,
        None => false,
    };
    if !success && !none_found {
        let err = decode(stderr)?;
        return Err(
            text4("grep command failed with status ", status, ". Stderr: ", err.as_str()),
        );
    }
    let found = decode(stdout)?;
    let ghost before = words::views(ctx.lines@);
    let head = text3("🔍 Grep results for pattern '", pattern, "':");
    ctx.println(head.as_str());
    if found.as_str().is_empty() {
        ctx.println("(no matches found)");
    } else {
        print_matches(ctx, found.as_str());
    }
    assert(words::views(ctx.lines@) =~= before + grep_lines(pattern@, found@));
    Ok(found)
}

// ---------------------------------------------------------------------------
// Differences
// ---------------------------------------------------------------------------

/// The arguments with which `diff` is run on two files that hold the old and the new content.
pub fn diff_args(file_path: &str, old_path: &str, new_path: &str) -> (r: Vec<String>)
    ensures
        words::views(r@) == seq![
            "--color=always"@,
            "-Naur"@,
            "--label"@,
            "a/"@ + file_path@,
            "--label"@,
            "b/"@ + file_path@,
            old_path@,
            new_path@,
        ],
{
    let r = vec![
        "--color=always".to_owned(),
        "-Naur".to_owned(),
        "--label".to_owned(),
        text2("a/", file_path),
        "--label".to_owned(),
        text2("b/", file_path),
        old_path.to_owned(),
        new_path.to_owned(),
    ];
    assert(words::views(r@) =~= seq![
        "--color=always"@,
        "-Naur"@,
        "--label"@,
        "a/"@ + file_path@,
        "--label"@,
        "b/"@ + file_path@,
        old_path@,
        new_path@,
    ]);
    r
}

/// The lines that show the outcome of `diff`: it ends with zero where nothing differs, with one
/// where something does.
pub open spec fn diff_lines(code: Option<i32>, stdout: Seq<u8>) -> Seq<Seq<char>> {
    match code {
        Some(c) => if c == 0 {
            seq!["   No differences detected"@]
        } else if c == 1 {
            seq!["   Changes:"@] + indented("   "@, lossy_of(stdout))
        } else {
            Seq::empty()
        },
        None => Seq::empty(),
    }
}

/// Shows the outcome of `diff`.
pub fn show_diff(ctx: &mut ToolContext, code: Option<i32>, stdout: &[u8])
    ensures
        words::views(final(ctx).lines@) == words::views(old(ctx).lines@) + diff_lines(
            code,
            stdout@,
        ),
        final(ctx).has_db == old(ctx).has_db,
        final(ctx).agent_name == old(ctx).agent_name,
{
    let ghost before = words::views(ctx.lines@);
    match code {
        Some(c) => {
            if c == 0 {
                ctx.println("   No differences detected");
            } else if c == 1 {
                ctx.println("   Changes:");
                let t = lossy_text(stdout);
                print_indented(ctx, "   ", t.as_str());
            }
        },
        None => {},
    }
    assert(words::views(ctx.lines@) =~= before + diff_lines(code, stdout@));
}

} // verus!
