//! What holds of the tools that read, search and run things, and of what they show.

use vstd::prelude::*;
use vstd::utf8::*;
use crate::agent_tools;
use crate::file_tools;
use crate::kitty;
use crate::mcp;
use crate::mcp::{Brought, McpTool, McpToolDef, ServerListing, Sse};
use crate::numbers;
use crate::order;
use crate::replacing;
use crate::text;
use crate::text_laws;
use crate::words;

verus! {

/// A text on one line has the characters of the text, with a blank for each line break and tab.
pub proof fn flattening_keeps_the_rest(s: Seq<char>)
    ensures
        text::flattened(s).len() == s.len(),
        forall|i: int|
            0 <= i < s.len() ==> #[trigger] text::flattened(s)[i] == if s[i] == '\n' || s[i] == '\r'
                || s[i] == '\t' {
                ' '
            } else {
                s[i]
            },
{
}

proof fn starts_are_boundaries(s: Seq<char>, j: int)
    requires
        0 <= j <= s.len(),
    ensures
        is_char_boundary(encode_utf8(s), encode_utf8(s.take(j)).len() as int),
        encode_utf8(s) == encode_utf8(s.take(j)) + encode_utf8(s.skip(j)),
    decreases j,
{
    encode_utf8_valid_utf8(s);
    let b = encode_utf8(s);
    if j == 0 {
        assert(s.take(0) =~= Seq::<char>::empty());
        assert(s.skip(0) =~= s);
        assert(encode_utf8(s.take(0)) =~= Seq::<u8>::empty());
        assert(b =~= encode_utf8(s.take(0)) + encode_utf8(s.skip(0)));
    } else {
        let t = s.drop_first();
        let f = s.take(j);
        starts_are_boundaries(t, j - 1);
        assert(f.drop_first() =~= t.take(j - 1));
        assert(f[0] == s[0]);
        assert(s.skip(j) =~= t.skip(j - 1));
        encode_utf8_first_scalar(s);
        encode_utf8_first_scalar(f);
        assert(b =~= encode_utf8(f) + encode_utf8(s.skip(j)));
        assert(pop_first_scalar(b) =~= encode_utf8(t));
        assert(encode_utf8(f).len() == length_of_first_scalar(b) + encode_utf8(
            t.take(j - 1),
        ).len());
    }
}

/// A text that is cut is a start of the text that takes up no more bytes than allowed, and with one
/// more character it would.
pub proof fn cuts_are_starts(s: Seq<char>, n: int)
    requires
        0 <= n <= encode_utf8(s).len(),
    ensures
        ({
            let c = order::cut(s, n);
            &&& c.len() <= s.len() && c == s.take(c.len() as int)
            &&& encode_utf8(c).len() <= n
            &&& c.len() < s.len() ==> encode_utf8(s.take(c.len() as int + 1)).len() > n
        }),
{
    let bytes = encode_utf8(s);
    encode_utf8_valid_utf8(s);
    encode_utf8_decode_utf8(s);
    let b = order::boundary_below(bytes, n);
    below_is_boundary(bytes, n);
    decode_utf8_split(bytes, b);
    valid_utf8_split(bytes, b);
    assert(bytes.take(b) =~= bytes.subrange(0, b));
    decode_utf8_encode_utf8(bytes.subrange(0, b));
    let c = order::cut(s, n);
    let rest = decode_utf8(bytes.subrange(b, bytes.len() as int));
    assert(s =~= c + rest);
    assert(s.take(c.len() as int) =~= c);
    if c.len() < s.len() {
        let k = c.len() as int;
        let more = encode_utf8(s.take(k + 1)).len() as int;
        starts_are_boundaries(s, k + 1);
        starts_are_boundaries(s.take(k + 1), k);
        assert(s.take(k + 1).take(k) =~= c);
        let last = s.take(k + 1).skip(k);
        assert(last.len() == 1);
        encode_utf8_valid_utf8(last);
        encode_utf8_decode_utf8(last);
        assert(encode_utf8(last).len() > 0) by {
            if encode_utf8(last).len() == 0 {
                assert(encode_utf8(last) =~= encode_utf8(Seq::<char>::empty()));
                encode_utf8_decode_utf8(Seq::<char>::empty());
            }
        }
        assert(more > b);
        if more <= n {
            below_is_greatest(bytes, n, more);
        }
    }
}

proof fn below_is_boundary(bytes: Seq<u8>, n: int)
    requires
        valid_utf8(bytes),
        0 <= n <= bytes.len(),
    ensures
        is_char_boundary(bytes, order::boundary_below(bytes, n)),
        0 <= order::boundary_below(bytes, n) <= n,
    decreases n,
{
    if n > 0 && !is_char_boundary(bytes, n) {
        below_is_boundary(bytes, n - 1);
    } else if n == 0 {
        is_char_boundary_start_end_of_seq(bytes);
    }
}

proof fn below_is_greatest(bytes: Seq<u8>, n: int, m: int)
    requires
        valid_utf8(bytes),
        0 <= m <= n <= bytes.len(),
        is_char_boundary(bytes, m),
    ensures
        m <= order::boundary_below(bytes, n),
    decreases n,
{
    if n > 0 && !is_char_boundary(bytes, n) {
        below_is_greatest(bytes, n - 1, m);
    }
}

// ---------------------------------------------------------------------------
// Pages, commands and searches
// ---------------------------------------------------------------------------

/// A page is read as it was sent. One that is too large is refused, and of a failure the status is
/// told.
pub proof fn pages_are_read_whole(success: bool, body: Seq<u8>, max: usize, status: Seq<char>)
    ensures
        ({
            let r = file_tools::page_content(success, body, max, status);
            &&& r is Err <==> success && body.len() > max
            &&& success && body.len() <= max && valid_utf8(body) ==> encode_utf8(r->Ok_0) == body
            &&& !success ==> r->Ok_0 == "HTTP Error: "@ + status
        }),
{
    if valid_utf8(body) {
        decode_utf8_encode_utf8(body);
    }
}

/// What is asked of a fetch is done; else it has half a minute, follows redirects, and takes no
/// more than ten million bytes.
pub proof fn fetches_are_planned(t: u64, f: bool, m: usize)
    ensures
        ({
            let p = file_tools::fetch_plan(Some(t), Some(f), Some(m));
            let q = file_tools::fetch_plan(None, None, None);
            &&& p.timeout_seconds == t && p.follow_redirects == f && p.max_content_length == m
            &&& q.timeout_seconds == 30 && q.follow_redirects && q.max_content_length == 10_000_000
        }),
{
}

/// Only addresses of the web are fetched.
pub proof fn only_the_web_is_fetched(url: Seq<char>)
    ensures
        file_tools::web_url(url) <==> "http://"@.is_prefix_of(url) || "https://"@.is_prefix_of(url),
{
    if "http://"@.len() <= url.len() {
        assert(url.take("http://"@.len() as int) =~= url.subrange(0, "http://"@.len() as int));
    }
    if "https://"@.len() <= url.len() {
        assert(url.take("https://"@.len() as int) =~= url.subrange(0, "https://"@.len() as int));
    }
}

/// A pattern that leads upwards or starts at the root is refused, and every other is taken.
pub proof fn patterns_stay_inside(pattern: Seq<char>)
    ensures
        file_tools::stays_inside(pattern) <==> !(pattern.len() > 0 && pattern[0] == '/') && forall|
            i: int,
        |
            !#[trigger] replacing::stands(pattern, "../"@, i),
{
    reveal_strlit("/");
    assert("/"@ =~= seq!['/']);
    replacing::searching_gives_the_first_place(pattern, "../"@);
    if pattern.len() > 0 {
        assert(pattern.take(1) =~= seq![pattern[0]]);
        if pattern.take(1) == "/"@ {
            assert(pattern.take(1)[0] == '/');
        }
    }
}

/// A command with arguments is run with them. Without, a command that holds a blank goes to the
/// shell, and any other is run alone.
pub proof fn commands_are_run_as_given(command: Seq<char>, args: Seq<Seq<char>>)
    ensures
        file_tools::invoked(command, Some(args)) == (command, args),
        (exists|i: int| 0 <= i < command.len() && #[trigger] command[i] == ' ')
            ==> file_tools::invoked(command, None) == ("sh"@, seq!["-c"@, command]),
        (forall|i: int| 0 <= i < command.len() ==> #[trigger] command[i] != ' ')
            ==> file_tools::invoked(command, None) == (command, Seq::<Seq<char>>::empty()),
{
    reveal_strlit(" ");
    assert(" "@ =~= seq![' ']);
    replacing::searching_gives_the_first_place(command, " "@);
    if exists|i: int| 0 <= i < command.len() && #[trigger] command[i] == ' ' {
        let i = choose|i: int| 0 <= i < command.len() && #[trigger] command[i] == ' ';
        assert(replacing::stands(command, " "@, i)) by {
            assert forall|k: int| 0 <= k < " "@.len() implies command[i + k] == #[trigger] " "@[k] by {
                assert(k == 0);
            }
        }
    }
    if forall|i: int| 0 <= i < command.len() ==> #[trigger] command[i] != ' ' {
        assert forall|i: int| !#[trigger] replacing::stands(command, " "@, i) by {
            if replacing::stands(command, " "@, i) {
                assert(" "@[0] == ' ');
                assert(command[i + 0] == " "@[0]);
            }
        }
    }
}

/// The lines, each behind an indent.
pub open spec fn behind(indent: Seq<char>, v: Seq<Seq<char>>) -> Seq<Seq<char>> {
    v.map(|k: int, t: Seq<char>| indent + t)
}

/// Lines of output, with their last line feed or without.
pub open spec fn is_output(v: Seq<Seq<char>>, ended: bool) -> bool {
    text_laws::all_lines(v) && v.len() > 0 && (ended || v.last().len() > 0)
}

proof fn output_is_not_empty(v: Seq<Seq<char>>, ended: bool)
    requires
        is_output(v, ended),
    ensures
        text_laws::as_text(v, ended).len() > 0,
        words::lines(text_laws::as_text(v, ended)) == v,
{
    text_laws::lines_come_back(v, ended);
    if text_laws::as_text(v, ended).len() == 0 {
        assert(words::lines(text_laws::as_text(v, ended)).len() == 0);
    }
}

/// What a command writes is shown line by line, indented: first what it says, then what it
/// complains of.
pub proof fn command_output_is_shown(
    out: Seq<Seq<char>>,
    out_ended: bool,
    err: Seq<Seq<char>>,
    err_ended: bool,
    code: Option<i32>,
    success: bool,
)
    requires
        is_output(out, out_ended),
        is_output(err, err_ended),
    ensures
        ({
            let o = text_laws::as_text(out, out_ended);
            let e = text_laws::as_text(err, err_ended);
            let none = Seq::<char>::empty();
            let both = file_tools::command_lines(o, e, code, success);
            let first = file_tools::command_lines(o, none, code, success);
            let second = file_tools::command_lines(none, e, code, success);
            let neither = file_tools::command_lines(none, none, code, success);
            &&& both.skip(1) == seq!["STDOUT:"@] + behind("  "@, out) + seq!["STDERR:"@] + behind(
                "  "@,
                err,
            )
            &&& first.skip(1) == seq!["STDOUT:"@] + behind("  "@, out)
            &&& second.skip(1) == seq!["STDERR:"@] + behind("  "@, err)
            &&& neither.skip(1) == seq!["(no output)"@]
        }),
{
    output_is_not_empty(out, out_ended);
    output_is_not_empty(err, err_ended);
    let o = text_laws::as_text(out, out_ended);
    let e = text_laws::as_text(err, err_ended);
    let none = Seq::<char>::empty();
    assert(file_tools::indented("  "@, o) =~= behind("  "@, out));
    assert(file_tools::indented("  "@, e) =~= behind("  "@, err));
    let both = file_tools::command_lines(o, e, code, success);
    let first = file_tools::command_lines(o, none, code, success);
    let second = file_tools::command_lines(none, e, code, success);
    let neither = file_tools::command_lines(none, none, code, success);
    assert(both.skip(1) =~= seq!["STDOUT:"@] + behind("  "@, out) + seq!["STDERR:"@] + behind(
        "  "@,
        err,
    ));
    assert(first.skip(1) =~= seq!["STDOUT:"@] + behind("  "@, out));
    assert(second.skip(1) =~= seq!["STDERR:"@] + behind("  "@, err));
    assert(neither.skip(1) =~= seq!["(no output)"@]);
}

/// The output of a command is read as it was written, where it is text.
pub proof fn command_output_is_read(bytes: Seq<u8>)
    ensures
        valid_utf8(bytes) ==> encode_utf8(file_tools::output_text(bytes)) == bytes,
        !valid_utf8(bytes) ==> file_tools::output_text(bytes) == "<non-utf8 output>"@,
{
    if valid_utf8(bytes) {
        decode_utf8_encode_utf8(bytes);
    }
}

/// A search without a match is no failure. What is found is given as it was written.
pub proof fn searches_may_find_nothing(
    success: bool,
    code: Option<i32>,
    status: Seq<char>,
    stdout: Seq<u8>,
    stderr: Seq<u8>,
)
    ensures
        ({
            let r = file_tools::grep_result(success, code, status, stdout, stderr);
            &&& r is Ok <==> (success || code == Some(1i32)) && valid_utf8(stdout)
            &&& r matches Ok(t) ==> encode_utf8(t) == stdout
        }),
{
    if valid_utf8(stdout) {
        decode_utf8_encode_utf8(stdout);
    }
}

/// All matches are counted, and the first ten are shown, indented; of the others it is said how
/// many there are.
pub proof fn matches_are_counted(v: Seq<Seq<char>>, ended: bool)
    requires
        is_output(v, ended),
    ensures
        ({
            let r = file_tools::match_lines(text_laws::as_text(v, ended));
            let n = if v.len() < 10 {
                v.len() as int
            } else {
                10
            };
            &&& r[0] == "Found "@ + numbers::decimal(v.len()) + " matches:"@
            &&& r.subrange(1, n + 1) == behind("  "@, v.take(n))
            &&& v.len() <= 10 ==> r.len() == n + 1
            &&& v.len() > 10 ==> r.len() == 12 && r[11] == "  ... and "@ + numbers::decimal(
                (v.len() - 10) as nat,
            ) + " more matches"@
        }),
{
    output_is_not_empty(v, ended);
    let r = file_tools::match_lines(text_laws::as_text(v, ended));
    let n = if v.len() < 10 {
        v.len() as int
    } else {
        10
    };
    assert(v.take(n) =~= if v.len() < 10 {
        v
    } else {
        v.take(10)
    });
    assert(r.subrange(1, n + 1) =~= behind("  "@, v.take(n)));
}

/// A preview shows the first five lines, indented, and says where there are more. A line of no more
/// than a hundred bytes is shown whole.
pub proof fn previews_show_the_first_lines(v: Seq<Seq<char>>, ended: bool, i: int)
    requires
        is_output(v, ended),
        0 <= i < v.len(),
        i < 5,
    ensures
        ({
            let r = file_tools::preview_of(text_laws::as_text(v, ended));
            &&& encode_utf8(v[i]).len() <= 100 ==> r[i + 1] == "     "@ + v[i]
            &&& encode_utf8(v[i]).len() > 100 ==> r[i + 1] == "     "@ + order::cut(v[i], 97)
                + "..."@
            &&& v.len() <= 5 ==> r.len() == v.len() + 1
            &&& v.len() > 5 ==> r.len() == 7
        }),
{
    output_is_not_empty(v, ended);
    let c = order::cut(v[i], 97);
    assert("     "@ + (c + "..."@) =~= "     "@ + c + "..."@);
}

// ---------------------------------------------------------------------------
// Agents
// ---------------------------------------------------------------------------

/// A sub-agent is told who it is, then its own prompt, where it has one, and last what it is to do.
pub proof fn subagents_are_told_their_task(
    name: Seq<char>,
    own: Seq<char>,
    prompt: Seq<char>,
)
    ensures
        ({
            let with = agent_tools::subagent_prompts(name, Some(own), prompt);
            let without = agent_tools::subagent_prompts(name, None, prompt);
            &&& with.len() == 3 && without.len() == 2
            &&& with[0] == without[0] && with[0].role == "system"@ && with[0].content is Some
            &&& with[0].content->0 == "You are a sub-agent named '"@ + name
                + "'. Complete the task and return a concise result."@
            &&& with[1].role == "system"@ && with[1].content == Some(own)
            &&& with[2] == without[1] && with[2].role == "user"@ && with[2].content == Some(prompt)
        }),
{
}

// ---------------------------------------------------------------------------
// Servers
// ---------------------------------------------------------------------------

proof fn first_equals(a: Seq<char>, b: Seq<char>, i: int)
    requires
        0 <= i <= a.len(),
        forall|k: int| 0 <= k < a.len() ==> #[trigger] a[k] != '=',
        b.len() > 0 ==> b[0] == '=',
    ensures
        words::next_char(a + b, '=', i) == a.len(),
    decreases a.len() - i,
{
    if i < a.len() {
        assert((a + b)[i] == a[i]);
        first_equals(a, b, i + 1);
    } else if b.len() > 0 {
        assert((a + b)[i] == b[0]);
    }
}

/// A server is named before the first equals sign and has its address behind it; the mark for
/// events is no part of the address.
pub proof fn servers_are_named(name: Seq<char>, url: Seq<char>)
    requires
        forall|k: int| 0 <= k < name.len() ==> #[trigger] name[k] != '=',
    ensures
        mcp::remote_server(name) is None,
        mcp::remote_server(name + seq!['='] + "sse:"@ + url) == Some((name, url, true)),
        !"sse:"@.is_prefix_of(url) ==> mcp::remote_server(name + seq!['='] + url) == Some(
            (name, url, false),
        ),
{
    let e = Seq::<char>::empty();
    first_equals(name, e, 0);
    assert(name + e =~= name);
    let n = name.len() as int;
    let m = "sse:"@ + url;
    let a = name + seq!['='] + "sse:"@ + url;
    first_equals(name, seq!['='] + m, 0);
    assert(a =~= name + (seq!['='] + m));
    assert(a.take(n) =~= name);
    assert(a.skip(n + 1) =~= m);
    assert(m.take("sse:"@.len() as int) =~= "sse:"@);
    assert(m.skip("sse:"@.len() as int) =~= url);
    let b = name + seq!['='] + url;
    first_equals(name, seq!['='] + url, 0);
    assert(b =~= name + (seq!['='] + url));
    assert(b.take(n) =~= name);
    assert(b.skip(n + 1) =~= url);
    if text::begins(url, "sse:"@) {
        assert(url.take("sse:"@.len() as int) =~= url.subrange(0, "sse:"@.len() as int));
    }
}

proof fn event_lines()
    ensures
        "event: "@.len() == 7 && "event: "@[0] == 'e',
        "data: "@.len() == 6 && "data: "@[0] == 'd',
        ""@.len() == 0,
        "endpoint"@[0] == 'e' && "message"@[0] == 'm' && "endpoint"@.len() == 8 && "message"@.len()
            == 7,
        words::trimmed("message"@) == "message"@,
{
    reveal_strlit("event: ");
    reveal_strlit("data: ");
    reveal_strlit("");
    reveal_strlit("endpoint");
    reveal_strlit("message");
}

proof fn event_line(p: Sse, t: Seq<char>)
    ensures
        mcp::after_line(p, "event: "@ + t) == (
            Sse { event_type: words::trimmed(t), ..p },
            Brought::Nothing,
        ),
        mcp::after_line(p, "data: "@ + t) == (
            Sse {
                data: if p.data.len() > 0 {
                    p.data + seq!['\n'] + t
                } else {
                    t
                },
                ..p
            },
            Brought::Nothing,
        ),
{
    event_lines();
    let a = "event: "@ + t;
    let b = "data: "@ + t;
    assert(a.take(7) =~= "event: "@);
    assert(a.skip(7) =~= t);
    assert(b.take(6) =~= "data: "@);
    assert(b.skip(6) =~= t);
    if text::begins(b, "event: "@) {
        assert(b.take(7)[0] == b[0]);
    }
    assert(p.data.push('\n') + t =~= p.data + seq!['\n'] + t);
    if p.data.len() == 0 {
        assert(p.data + t =~= t);
    }
}

/// A message arrives once its event is over: its data lines, one below the other and without white
/// space around them. The next event begins anew, and a message says nothing of the endpoint.
pub proof fn messages_arrive_whole(p: Sse, a: Seq<char>, b: Seq<char>)
    requires
        p.event_type.len() == 0,
        p.data.len() == 0,
        a.len() > 0,
    ensures
        ({
            let p1 = mcp::after_line(p, "event: "@ + "message"@).0;
            let p2 = mcp::after_line(p1, "data: "@ + a).0;
            let p3 = mcp::after_line(p2, "data: "@ + b).0;
            let (short, one) = mcp::after_line(p2, ""@);
            let (long, two) = mcp::after_line(p3, ""@);
            &&& one == Brought::Message(words::trimmed(a))
            &&& two == Brought::Message(words::trimmed(a + seq!['\n'] + b))
            &&& short.event_type.len() == 0 && short.data.len() == 0
            &&& long.event_type.len() == 0 && long.data.len() == 0
            &&& long.endpoint_sent == p.endpoint_sent && long.base_url == p.base_url
        }),
{
    event_lines();
    event_line(p, "message"@);
    let p1 = mcp::after_line(p, "event: "@ + "message"@).0;
    event_line(p1, a);
    let p2 = mcp::after_line(p1, "data: "@ + a).0;
    event_line(p2, b);
}

/// The endpoint is where the server says: behind the address of the server where it begins with a
/// slash, and else as it is.
pub proof fn endpoints_are_found(p: Sse, a: Seq<char>)
    requires
        p.event_type == "endpoint"@,
        p.data == a,
        a.len() > 0,
        !p.endpoint_sent,
    ensures
        ({
            let t = words::trimmed(a);
            let (q, found) = mcp::after_line(p, ""@);
            &&& q.endpoint_sent
            &&& t.len() > 0 && t[0] == '/' ==> found == Brought::Endpoint(p.base_url + t)
            &&& !(t.len() > 0 && t[0] == '/') ==> found == Brought::Endpoint(t)
        }),
{
    event_lines();
    let t = words::trimmed(a);
    if t.len() > 0 {
        assert(t.take(1) =~= seq![t[0]]);
        if t.take(1) == seq!['/'] {
            assert(t.take(1)[0] == seq!['/'][0]);
        }
    }
}

/// Every tool of a server is found under its name with the name of the server before it, and is
/// known by its place and its own name; tools of other names stay.
pub proof fn tools_of_servers_are_found(
    m: Map<Seq<char>, McpTool>,
    server: Seq<char>,
    index: int,
    defs: Seq<McpToolDef>,
    i: int,
    other: Seq<char>,
)
    requires
        0 <= i < defs.len(),
        forall|j: int| i < j < defs.len() ==> (#[trigger] defs[j]).name@ != defs[i].name@,
        forall|j: int|
            0 <= j < defs.len() ==> other != "mcp_"@ + server + "_"@ + (#[trigger] defs[j]).name@,
    ensures
        ({
            let all = mcp::with_tools(m, server, index, defs, defs.len() as int);
            let name = "mcp_"@ + server + "_"@ + defs[i].name@;
            &&& all.dom().contains(name)
            &&& all[name].server_index == index && all[name].original_name == defs[i].name@
            &&& all.dom().contains(other) == m.dom().contains(other)
            &&& m.dom().contains(other) ==> all[other] == m[other]
        }),
{
    tools_so_far(m, server, index, defs, i, other, defs.len() as int);
}

proof fn tools_so_far(
    m: Map<Seq<char>, McpTool>,
    server: Seq<char>,
    index: int,
    defs: Seq<McpToolDef>,
    i: int,
    other: Seq<char>,
    k: int,
)
    requires
        0 <= i < defs.len(),
        0 <= k <= defs.len(),
        forall|j: int| i < j < defs.len() ==> (#[trigger] defs[j]).name@ != defs[i].name@,
        forall|j: int|
            0 <= j < defs.len() ==> other != "mcp_"@ + server + "_"@ + (#[trigger] defs[j]).name@,
    ensures
        ({
            let all = mcp::with_tools(m, server, index, defs, k);
            let name = mcp::prefixed_name(server, defs[i].name@);
            &&& i < k ==> all.dom().contains(name) && all[name].server_index == index
                && all[name].original_name == defs[i].name@
            &&& all.dom().contains(other) == m.dom().contains(other)
            &&& m.dom().contains(other) ==> all[other] == m[other]
        }),
    decreases k,
{
    if k > 0 {
        tools_so_far(m, server, index, defs, i, other, k - 1);
        assert(other != mcp::prefixed_name(server, defs[k - 1].name@));
        if i < k - 1 {
            mcp::prefixed_names_differ(server, defs[k - 1].name@, defs[i].name@);
        }
    }
}

// ---------------------------------------------------------------------------
// Images and colors
// ---------------------------------------------------------------------------

/// A color of sixteen bits is brought down to eight by its share of the full intensity.
pub proof fn colors_are_scaled(a: u16, b: u16)
    ensures
        kitty::scaled(a) * 65535 <= a * 255 < (kitty::scaled(a) + 1) * 65535,
        kitty::scaled(0) == 0,
        kitty::scaled(65535) == 255,
        a <= b ==> kitty::scaled(a) <= kitty::scaled(b),
{
    assert(0 <= a * 255 / 65535 <= 255);
    assert(0 <= b * 255 / 65535 <= 255);
}

/// A reply to a question for a color is read without its end, whichever of the two it is; a reply
/// to another question is not read.
pub proof fn replies_are_read(color: Seq<u8>, index: u8, buf: Seq<u8>)
    requires
        color.len() > 0,
    ensures
        ({
            let head = encode_utf8("\x1b]4;"@ + numbers::decimal(index as nat) + ";"@);
            &&& kitty::reply_color(head + color + seq![7u8], index) == Some(color)
            &&& kitty::reply_color(head + color + seq![27u8, 92u8], index) == Some(color)
            &&& !head.is_prefix_of(buf) ==> kitty::reply_color(buf, index) is None
        }),
{
    let head = encode_utf8("\x1b]4;"@ + numbers::decimal(index as nat) + ";"@);
    let n = head.len() as int;
    let a = head + color + seq![7u8];
    let b = head + color + seq![27u8, 92u8];
    assert(a.take(n) =~= head && b.take(n) =~= head);
    assert(a.skip(n) =~= color.push(7u8));
    assert(color.push(7u8).drop_last() =~= color);
    let t = b.skip(n);
    assert(t =~= color + seq![27u8, 92u8]);
    assert(t.take(t.len() - 2) =~= color);
    if kitty::bytes_begin(buf, head) {
        assert(buf.take(n) =~= buf.subrange(0, n));
    }
}

/// Only the lines that are not blank are kept, in order.
pub proof fn blank_lines_go(v: Seq<Seq<char>>)
    ensures
        kitty::dark_lines(v) == v.filter(|t: Seq<char>| words::trimmed(t).len() > 0),
    decreases v.len(),
{
    reveal(Seq::filter);
    let p = |t: Seq<char>| words::trimmed(t).len() > 0;
    if v.len() > 0 {
        blank_lines_go(v.drop_last());
    } else {
        assert(kitty::dark_lines(v) =~= v.filter(p));
    }
}

/// A confined command is run last, with its arguments; the whole file system is there to read, and
/// only the working directory to write.
pub proof fn confined_commands_come_last(
    cwd: Seq<char>,
    command: Seq<char>,
    args: Seq<Seq<char>>,
)
    ensures
        ({
            let v = kitty::whole_root_args(cwd, command, Some(args));
            let w = kitty::whole_root_args(cwd, command, None);
            let n = v.len() - args.len() - 1;
            &&& v.skip(n) == seq![command] + args
            &&& v.take(n) == w.drop_last() && w.last() == command
            &&& w.take(5) == seq![
                "--unshare-all"@,
                "--die-with-parent"@,
                "--new-session"@,
                "--cap-drop"@,
                "ALL"@,
            ]
            &&& w.subrange(5, w.len() - 1) == seq![
                "--ro-bind"@,
                "/"@,
                "/"@,
                "--bind"@,
                cwd,
                cwd,
            ]
        }),
{
    let v = kitty::whole_root_args(cwd, command, Some(args));
    let w = kitty::whole_root_args(cwd, command, None);
    let n = v.len() - args.len() - 1;
    assert(v.skip(n) =~= seq![command] + args);
    assert(v.take(n) =~= w.drop_last());
    assert(w.take(5) =~= seq![
        "--unshare-all"@,
        "--die-with-parent"@,
        "--new-session"@,
        "--cap-drop"@,
        "ALL"@,
    ]);
    assert(w.subrange(5, w.len() - 1) =~= seq!["--ro-bind"@, "/"@, "/"@, "--bind"@, cwd, cwd]);
}

/// An image is sent in pieces of at most four thousand and ninety-six characters, each as a command
/// to the terminal: the first says what it is, and all but the last say that more follows.
pub proof fn images_are_sent_in_pieces(encoded: Seq<char>, i: int)
    requires
        0 <= i < kitty::payloads_from(encoded, 0).len(),
    ensures
        ({
            let parts = kitty::payloads_from(encoded, 0);
            let sent = kitty::sequences_from(encoded, 0);
            let last = i + 1 == parts.len();
            let head = if i == 0 {
                "a=T,f=100,m="@
            } else {
                "m="@
            };
            let more = if last {
                "0"@
            } else {
                "1"@
            };
            &&& sent.len() == parts.len()
            &&& parts[i].len() <= 4096
            &&& sent[i] == "\x1b_G"@ + head + more + ";"@ + parts[i] + "\x1b\\"@
            &&& words::joined(parts, Seq::empty()) == encoded
        }),
{
    kitty::payloads_are_the_encoded_text(encoded, 0);
    assert(encoded.skip(0) =~= encoded);
}

/// The end of a log is its last fifteen lines that are not blank.
pub proof fn logs_are_cut_at_the_start(log: Seq<char>)
    ensures
        ({
            let v = words::lines(log).filter(|t: Seq<char>| words::trimmed(t).len() > 0);
            &&& v.len() <= 15 ==> kitty::log_tail(log) == words::joined(v, "\n"@)
            &&& v.len() > 15 ==> kitty::log_tail(log) == words::joined(v.skip(v.len() - 15), "\n"@)
        }),
{
    blank_lines_go(words::lines(log));
}

/// A color is read from a reply where the color can be read, each of its parts brought down to
/// eight bits in its place.
pub proof fn colors_are_read_in_place(buf: Seq<u8>, index: u8, c: (u16, u16, u16))
    requires
        kitty::reply_color(buf, index) is Some,
        kitty::readable_color(kitty::reply_color(buf, index)->0),
        kitty::x11_color(kitty::reply_color(buf, index)->0) == Some(c),
    ensures
        kitty::osc4_color(buf, index) == Some(
            (kitty::scaled(c.0), kitty::scaled(c.1), kitty::scaled(c.2)),
        ),
{
}

/// The tools of every server that was asked are there, each with the place of its server; a server
/// that gave none adds none.
pub proof fn tools_of_all_servers_are_listed(
    v: Seq<ServerListing>,
    k: int,
    defs: Vec<McpToolDef>,
    i: int,
)
    requires
        0 <= k < v.len(),
        v[k].tools == Some(defs),
        0 <= i < defs@.len(),
        forall|j: int| i < j < defs@.len() ==> (#[trigger] defs@[j]).name@ != defs@[i].name@,
        forall|m: int, d: Vec<McpToolDef>, j: int|
            k < m < v.len() && v[m].tools == Some(d) && 0 <= j < d@.len() ==> mcp::prefixed_name(
                v[k].server@,
                defs@[i].name@,
            ) != "mcp_"@ + (#[trigger] v[m]).server@ + "_"@ + (#[trigger] d@[j]).name@,
    ensures
        ({
            let all = mcp::listed_tools(v, v.len() as int);
            let name = "mcp_"@ + v[k].server@ + "_"@ + defs@[i].name@;
            &&& all.dom().contains(name)
            &&& all[name].server_index == k && all[name].original_name == defs@[i].name@
        }),
{
    let name = mcp::prefixed_name(v[k].server@, defs@[i].name@);
    let before = mcp::listed_tools(v, k);
    own_tool(before, v[k].server@, k, defs@, i, defs@.len() as int);
    later_servers(v, k, name, v.len() as int);
}

proof fn own_tool(
    m: Map<Seq<char>, McpTool>,
    server: Seq<char>,
    index: int,
    defs: Seq<McpToolDef>,
    i: int,
    k: int,
)
    requires
        0 <= i < k <= defs.len(),
        forall|j: int| i < j < defs.len() ==> (#[trigger] defs[j]).name@ != defs[i].name@,
    ensures
        ({
            let all = mcp::with_tools(m, server, index, defs, k);
            let name = mcp::prefixed_name(server, defs[i].name@);
            all.dom().contains(name) && all[name].server_index == index && all[name].original_name
                == defs[i].name@
        }),
    decreases k,
{
    if i < k - 1 {
        own_tool(m, server, index, defs, i, k - 1);
        mcp::prefixed_names_differ(server, defs[k - 1].name@, defs[i].name@);
    }
}

proof fn other_tool(
    m: Map<Seq<char>, McpTool>,
    server: Seq<char>,
    index: int,
    defs: Seq<McpToolDef>,
    name: Seq<char>,
    k: int,
)
    requires
        0 <= k <= defs.len(),
        forall|j: int|
            0 <= j < defs.len() ==> name != "mcp_"@ + server + "_"@ + (#[trigger] defs[j]).name@,
    ensures
        ({
            let all = mcp::with_tools(m, server, index, defs, k);
            all.dom().contains(name) == m.dom().contains(name) && (m.dom().contains(name)
                ==> all[name] == m[name])
        }),
    decreases k,
{
    if k > 0 {
        other_tool(m, server, index, defs, name, k - 1);
        assert(name != mcp::prefixed_name(server, defs[k - 1].name@));
    }
}

proof fn later_servers(v: Seq<ServerListing>, k: int, name: Seq<char>, n: int)
    requires
        0 <= k < n <= v.len(),
        forall|m: int, d: Vec<McpToolDef>, j: int|
            k < m < v.len() && v[m].tools == Some(d) && 0 <= j < d@.len() ==> name != "mcp_"@ + (
            #[trigger] v[m]).server@ + "_"@ + (#[trigger] d@[j]).name@,
        mcp::listed_tools(v, k + 1).dom().contains(name),
    ensures
        mcp::listed_tools(v, n).dom().contains(name),
        mcp::listed_tools(v, n)[name] == mcp::listed_tools(v, k + 1)[name],
    decreases n,
{
    if n > k + 1 {
        later_servers(v, k, name, n - 1);
        if let Some(d) = v[n - 1].tools {
            assert forall|j: int| 0 <= j < d@.len() implies name != "mcp_"@ + v[n - 1].server@ + "_"@
                + (#[trigger] d@[j]).name@ by {}
            other_tool(
                mcp::listed_tools(v, n - 1),
                v[n - 1].server@,
                n - 1,
                d@,
                name,
                d@.len() as int,
            );
        }
    }
}

} // verus!
