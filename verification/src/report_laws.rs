//! What holds of the reports that are shown and given back.

use vstd::prelude::*;
use crate::agent_tools;
use crate::agent_tools::SubagentEnd;
use crate::chat_loop;
use crate::chat_loop::Out;
use crate::database::DataRow;
use crate::dummy_llm;
use crate::file_tools;
use crate::file_tools::FetchPlan;
use crate::history;
use crate::history::{HistoryEntry, Query, SearchDirection};
use crate::listing;
use crate::listing::{ModelInfo, ShownPrices};
use crate::messages;
use crate::messages::Msg;
use crate::numbers;
use crate::order;
use crate::patch_file;
use crate::patch_file::Edit;
use crate::replacing;
use crate::schedule;
use crate::store;
use crate::store::{AgentRow, TaskRow};
use crate::summarize;
use crate::text;
use crate::tools;
use crate::tools::ToolKind;
use crate::words;
use crate::write_file;
use crate::write_file::{WriteFileParams, WriteKind};

verus! {

/// A list of agents has a line for each, in order, with its name and its description.
pub proof fn agents_are_listed(v: Seq<AgentRow>, i: int)
    requires
        0 <= i < v.len(),
    ensures
        ({
            let r = agent_tools::agent_lines(v);
            &&& r.len() == v.len() + 1
            &&& summarize::tells(r[0], numbers::decimal(v.len()))
            &&& summarize::tells(r[i + 1], v[i].name@)
            &&& summarize::tells(r[i + 1], v[i].description@)
        }),
{
    let n = v[i].name@;
    let d = v[i].description@;
    summarize::tells_inside("Found "@, numbers::decimal(v.len()), " agent(s)"@);
    let r = agent_tools::agent_lines(v);
    summarize::tells_inside("  - "@, n, " ("@ + d + ")"@);
    assert("  - "@ + n + (" ("@ + d + ")"@) =~= r[i + 1]);
    summarize::tells_inside("  - "@ + n + " ("@, d, ")"@);
}

/// A list of stored values has a line for each, in order, with its key and its value.
pub proof fn values_are_shown(agent: Seq<char>, v: Seq<DataRow>, i: int)
    requires
        0 <= i < v.len(),
    ensures
        ({
            let r = agent_tools::data_lines(agent, v);
            &&& r.len() == v.len() + 1
            &&& summarize::tells(r[0], agent)
            &&& summarize::tells(r[0], numbers::decimal(v.len()))
            &&& r[i + 1] == "  "@ + v[i].key@ + " = "@ + v[i].value@
        }),
{
    let n = numbers::decimal(v.len());
    let r = agent_tools::data_lines(agent, v);
    summarize::tells_inside("Agent '"@, agent, "' has "@ + n + " data entries"@);
    assert("Agent '"@ + agent + ("' has "@ + n + " data entries"@) =~= r[0]);
    summarize::tells_inside("Agent '"@ + agent + "' has "@, n, " data entries"@);
}

/// A list of tasks has a line for each, in order, with its number, its name and its type, and says
/// whether it is enabled; one of tasks that are due says when they were.
pub proof fn tasks_are_shown(v: Seq<TaskRow>, i: int)
    requires
        0 <= i < v.len(),
    ensures
        ({
            let r = agent_tools::task_lines(v);
            let p = agent_tools::pending_lines(v);
            let t = v[i];
            let head = "  ["@ + numbers::decimal_int(t.id as int) + "] "@ + t.name@ + " - "@
                + t.task_type@ + " ("@;
            &&& r.len() == v.len() + 1 && p.len() == v.len() + 1
            &&& t.enabled ==> r[i + 1] == head + "enabled"@ + ")"@
            &&& !t.enabled ==> r[i + 1] == head + "disabled"@ + ")"@
            &&& t.next_run_at matches Some(n) ==> p[i + 1] == head + "next: "@ + n@ + ")"@
            &&& t.next_run_at is None ==> p[i + 1] == head + "next: "@ + "N/A"@ + ")"@
            &&& summarize::tells(r[0], numbers::decimal(v.len()))
            &&& summarize::tells(p[0], numbers::decimal(v.len()))
        }),
{
    summarize::tells_inside("Found "@, numbers::decimal(v.len()), " task(s)"@);
    summarize::tells_inside("Found "@, numbers::decimal(v.len()), " pending task(s)"@);
}

/// What a sub-agent answers is handed back as it is; an error is marked, and a lack is said.
pub proof fn subagents_answer(t: String, e: String)
    ensures
        agent_tools::subagent_response(SubagentEnd::Answered(Some(t))) == t@,
        agent_tools::subagent_response(SubagentEnd::Refused(e)) == "Error: "@ + e@,
        agent_tools::subagent_response(SubagentEnd::Failed(e)) == "Error: "@ + e@,
        agent_tools::subagent_response(SubagentEnd::Answered(None)) == "(no response)"@,
        agent_tools::subagent_response(SubagentEnd::Empty) == "(empty response)"@,
{
}

/// Collected agents are told by their names, one to a line, and their number before them.
pub proof fn collected_agents_are_told(removed: Seq<Seq<char>>, i: int)
    requires
        0 <= i < removed.len(),
    ensures
        ({
            let r = store::gc_lines(removed);
            &&& r.len() == removed.len() + 1
            &&& r[i + 1] == "  "@ + removed[i]
            &&& summarize::tells(r[0], numbers::decimal(removed.len()))
        }),
{
    summarize::tells_inside("Removed "@, numbers::decimal(removed.len()), " agent(s):"@);
}

/// A model is listed by its identifier, its name, its length, its prices as they are shown, else as
/// they are given, and the parameters that it takes.
pub proof fn models_are_listed(m: ModelInfo, shown: ShownPrices)
    ensures
        ({
            let r = listing::model_row(m, shown);
            &&& r.len() == 6 && r[0] == m.id@
            &&& m.name matches Some(n) ==> r[1] == n@
            &&& m.name is None ==> r[1].len() == 0
            &&& m.context_length matches Some(n) ==> r[2] == numbers::decimal(n as nat)
            &&& m.context_length is None ==> r[2] == seq!['0']
            &&& shown.prompt matches Some(p) ==> r[3] == p@
            &&& shown.completion matches Some(p) ==> r[4] == p@
            &&& shown.prompt is None && m.pricing is Some ==> r[3] == m.pricing->0.prompt@
            &&& shown.completion is None && m.pricing is Some ==> r[4] == m.pricing->0.completion@
            &&& m.supported_parameters matches Some(p) ==> r[5] == words::joined(
                words::views(p@),
                seq![','],
            )
            &&& m.supported_parameters is None ==> r[5].len() == 0
        }),
{
    reveal_strlit("");
    reveal_strlit(",");
    assert(","@ =~= seq![',']);
    assert(numbers::in_radix(0, 10) =~= seq!['0']);
}

/// An agent is listed by its name, its description, how many messages it has, and whether it is in
/// use.
pub proof fn agents_have_rows(
    agents: Seq<AgentRow>,
    counts: Seq<i64>,
    active: Seq<char>,
    now_ms: i64,
    i: int,
)
    requires
        0 <= i < agents.len(),
    ensures
        ({
            let r = listing::agent_rows(agents, counts, active, now_ms);
            &&& r.len() == agents.len() + 1
            &&& r[i + 1].len() == 4 && r[i + 1][0] == agents[i].name@
            &&& r[i + 1][1] == agents[i].description@
            &&& r[i + 1][2] == numbers::decimal_int(counts[i] as int)
            &&& agents[i].name@ == active ==> r[i + 1][3] == "* (this session)"@
            &&& agents[i].name@ != active && agents[i].session_id is None ==> r[i + 1][3].len() == 0
            &&& agents[i].name@ != active && agents[i].heartbeat_at is None ==> r[i + 1][3].len()
                == 0
        }),
{
    reveal_strlit("");
}

/// Every built-in tool is listed, indented, and just those that have to be asked for are marked.
pub proof fn builtin_tools_are_listed(kind: ToolKind)
    ensures
        ({
            let r = tools::builtin_listing();
            let name = tools::kind_name(kind);
            let safe = tools::has_tool(
                tools::allowed_tools(tools::offered_kinds(false), None),
                name,
            );
            &&& safe ==> r.contains("  "@ + name)
            &&& !safe ==> r.contains("  "@ + name + " [unsafe]"@)
            &&& kind != ToolKind::FetchWebContent && kind != ToolKind::RunCommand ==> safe
        }),
{
    reveal_strlit("");
    let all = tools::allowed_tools(tools::offered_kinds(true), None);
    let few = tools::allowed_tools(tools::offered_kinds(false), None);
    let name = tools::kind_name(kind);
    let t = tools::Tool { name, kind, schema: tools::kind_schema(kind) };
    tools::every_tool_is_offered(kind, true, None);
    tools::every_tool_is_offered(kind, false, None);
    let v = tools::names_of(all);
    let i = choose|i: int| 0 <= i < all.len() && all[i] == t;
    assert(v[i] == name);
    order::in_order_sorts(v);
    let w = order::in_order(v);
    broadcast use vstd::seq_lib::group_to_multiset_ensures;

    assert(v.contains(name));
    assert(w.to_multiset().count(name) > 0);
    assert(w.contains(name));
    let k = choose|k: int| 0 <= k < w.len() && w[k] == name;
    let r = tools::builtin_listing();
    assert(r[k] == tools::listing_line(name, tools::has_tool(few, name)));
    assert("  "@ + name + ""@ =~= "  "@ + name);
    if kind != ToolKind::FetchWebContent && kind != ToolKind::RunCommand {
        let j = choose|j: int| 0 <= j < few.len() && few[j] == t;
        assert(few[j].name == name);
    }
}

// ---------------------------------------------------------------------------
// Files
// ---------------------------------------------------------------------------

/// A report tells what was done: a file that was not there was created, one that was there was
/// overwritten, and one that was edited was patched.
pub proof fn writes_are_reported(path: Seq<char>, kind: WriteKind, created: bool)
    ensures
        ({
            let m = write_file::report_message(path, kind, created);
            let op = write_file::reported_operation(kind, created);
            &&& kind != WriteKind::Whole ==> m == "File '"@ + path + "' patched successfully"@
            &&& kind == WriteKind::Whole && created ==> m == "File '"@ + path
                + "' created successfully"@ && op == "create"@
            &&& kind == WriteKind::Whole && !created ==> m == "File '"@ + path
                + "' overwritten successfully"@ && op == "overwrite"@
            &&& kind == WriteKind::Search ==> op == "patch_search_replace"@
            &&& kind == WriteKind::Offset ==> op == "patch_offset"@
            &&& kind == WriteKind::Lines ==> op == "patch_lines"@
        }),
{
}

/// A report has the path, the bytes, the mode in octal and the operation.
pub proof fn write_reports_are_complete(
    path: Seq<char>,
    kind: WriteKind,
    created: bool,
    mode: nat,
    bytes: nat,
)
    ensures
        ({
            let r = write_file::report_lines(path, kind, created, mode, bytes);
            &&& r.len() == 5
            &&& r[1] == "   Path: "@ + path
            &&& r[2] == "   Bytes written: "@ + numbers::decimal(bytes)
            &&& r[3] == "   File mode: "@ + numbers::in_radix(mode, 8)
        }),
{
}

/// A request is planned where its mode can be read and it asks for one way to write; else the mode
/// is complained of first.
pub proof fn writes_are_planned(p: WriteFileParams)
    ensures
        write_file::write_plan(p) is Ok <==> write_file::mode_value(p.mode@) is Some
            && write_file::write_kind(p) is Ok,
        write_file::write_plan(p) matches Ok((m, k)) ==> write_file::mode_value(p.mode@) == Some(m)
            && write_file::write_kind(p) == Ok::<WriteKind, Seq<char>>(k),
        write_file::mode_value(p.mode@) is Some ==> (write_file::write_kind(p) matches Err(e)
            ==> write_file::write_plan(p) == Err::<(nat, WriteKind), Seq<char>>(e)),
        write_file::mode_value(p.mode@) is None ==> (write_file::write_plan(p) matches Err(e)
            && summarize::tells(e, p.mode@)),
{
    summarize::tells_inside(
        "Invalid file mode format: '"@,
        p.mode@,
        "'. Expected octal (0644, 0o644), hex (0x1a4), or decimal"@,
    );
}

/// An edit is shown where its text has come to stand: right after it, the new text stands at the
/// place that is taken for it.
pub proof fn edits_are_shown_where_they_stand(
    path: Seq<char>,
    s: Seq<char>,
    edits: Seq<Edit>,
    k: int,
)
    requires
        0 <= k < edits.len(),
        patch_file::after_edits(path, s, edits, k + 1) is Ok,
    ensures
        replacing::stands(
            patch_file::text_after(path, s, edits, k + 1),
            edits[k].new_content@,
            patch_file::landing(path, s, edits, k, k + 1),
        ),
{
    let t = patch_file::text_after(path, s, edits, k);
    let p = edits[k].old_content@;
    let r = edits[k].new_content@;
    let i = patch_file::landing(path, s, edits, k, k + 1);
    text::find_is_first(t, p, 0);
    assert(text::occurs_at(t, p, i));
    let u = patch_file::text_after(path, s, edits, k + 1);
    if edits[k].replace_all {
        let rest = text::replaced_from(t, p, r, i + p.len(), i + text::stride(p));
        assert(u =~= t.subrange(0, i) + r + rest);
    } else {
        assert(u =~= t.take(i) + r + t.skip(i + p.len()));
    }
    assert forall|j: int| 0 <= j < r.len() implies u[i + j] == #[trigger] r[j] by {}
}

/// A patch is reported with its edits and replacements, and the bytes before and after it.
pub proof fn patches_are_reported(
    path: Seq<char>,
    edits: nat,
    replacements: nat,
    before: nat,
    after: nat,
    written: nat,
)
    ensures
        ({
            let r = patch_file::patch_lines(path, edits, replacements, before, after, written);
            &&& r.len() == 4
            &&& summarize::tells(r[0], path) && summarize::tells(r[1], path)
            &&& r[2] == "   Edits: "@ + numbers::decimal(edits) + " ("@ + numbers::decimal(
                replacements,
            ) + " replacements)"@
            &&& r[3] == "   Bytes: "@ + numbers::decimal(before) + " -> "@ + numbers::decimal(after)
                + " ("@ + numbers::decimal(written) + " written)"@
        }),
{
    let r = patch_file::patch_lines(path, edits, replacements, before, after, written);
    let a = "\u{1f4dd} "@ + "File '"@;
    let b = "' patched successfully"@;
    summarize::tells_inside(a, path, b);
    assert(a + path + b =~= r[0]);
    let none = Seq::<char>::empty();
    summarize::tells_inside("   Path: "@, path, none);
    assert("   Path: "@ + path + none =~= r[1]);
}

/// A fetch is announced by its address, its time, and how much it may take.
pub proof fn fetches_are_announced(url: Seq<char>, plan: FetchPlan)
    ensures
        ({
            let r = file_tools::fetch_lines(url, plan);
            &&& r.len() == 4
            &&& summarize::tells(r[0], url)
            &&& summarize::tells(r[1], numbers::decimal(plan.timeout_seconds as nat))
            &&& plan.follow_redirects ==> r[2] == "   Follow redirects: "@ + "true"@
            &&& !plan.follow_redirects ==> r[2] == "   Follow redirects: "@ + "false"@
            &&& summarize::tells(r[3], numbers::decimal(plan.max_content_length as nat))
        }),
{
    let r = file_tools::fetch_lines(url, plan);
    let none = Seq::<char>::empty();
    summarize::tells_inside("🌐 Fetching content from: "@, url, none);
    assert("🌐 Fetching content from: "@ + url + none =~= r[0]);
    summarize::tells_inside("   Timeout: "@, numbers::decimal(plan.timeout_seconds as nat), "s"@);
    summarize::tells_inside(
        "   Max content length: "@,
        numbers::decimal(plan.max_content_length as nat),
        " bytes"@,
    );
}

/// A search tells what was looked for, and whether anything was found.
pub proof fn searches_tell_what_was_looked_for(pattern: Seq<char>, found: Seq<char>)
    ensures
        ({
            let r = file_tools::grep_lines(pattern, found);
            &&& r.len() > 1 && summarize::tells(r[0], pattern)
            &&& found.len() == 0 ==> r == seq![r[0], "(no matches found)"@]
            &&& found.len() > 0 ==> r.skip(1) == file_tools::match_lines(found)
        }),
{
    let r = file_tools::grep_lines(pattern, found);
    summarize::tells_inside("🔍 Grep results for pattern '"@, pattern, "':"@);
    if found.len() == 0 {
        assert(r =~= seq![r[0], "(no matches found)"@]);
    } else {
        assert(r.skip(1) =~= file_tools::match_lines(found));
    }
}

// ---------------------------------------------------------------------------
// The loop of a session
// ---------------------------------------------------------------------------

/// An answer to a message that nobody typed is shown under the name of the agent, whole; one that
/// was cut off by its length is warned of before it.
pub proof fn answers_are_shown(
    name: Seq<char>,
    reason: Option<Seq<char>>,
    content: Seq<char>,
)
    ensures
        ({
            let shown = chat_loop::response_output(name, reason, Some(content), true);
            let typed = chat_loop::response_output(name, reason, Some(content), false);
            let none = chat_loop::response_output(name, reason, None, true);
            let cut = reason == Some("length"@);
            &&& shown.last() == Out::FromAgent(name, content)
            &&& shown.drop_last() == typed && typed == none
            &&& typed.len() == if cut {
                1nat
            } else {
                0
            }
            &&& cut ==> typed[0] is Line
        }),
{
    let shown = chat_loop::response_output(name, reason, Some(content), true);
    let typed = chat_loop::response_output(name, reason, Some(content), false);
    assert(shown.drop_last() =~= typed);
}

/// A task that fires is told to its agent with its command, and then what it gave, if anything. A
/// task of nobody is the default agent's.
pub proof fn fired_tasks_are_told(target: Seq<char>, command: Seq<char>, content: Seq<char>)
    ensures
        ({
            let quiet = chat_loop::task_output(target, command, None);
            let r = chat_loop::task_output(target, command, Some(content));
            &&& quiet == seq![Out::FromAgent(target, "Scheduled task fired: "@ + command)]
            &&& r.len() == 2 && r[0] == quiet[0]
            &&& r[1] matches Out::FromAgent(n, _) && n == target
        }),
        chat_loop::task_target(Some(target)) == target,
        chat_loop::task_target(None) == "default"@,
{
}

/// The nearest entry that is looked for is hit: from the start on the way forward, and on the way
/// back, and no other.
pub proof fn the_nearest_entry_is_hit(
    v: Seq<HistoryEntry>,
    q: Query<'_>,
    from: int,
    dir: SearchDirection,
    i: int,
    j: int,
)
    requires
        history::is_hit(v, q, from, dir, i),
        0 <= j < v.len(),
        history::wanted(q, v[j].entry@),
    ensures
        0 <= i < v.len() && history::wanted(q, v[i].entry@),
        dir == SearchDirection::Forward ==> v[i].id >= from && (v[j].id >= from ==> i <= j),
        dir == SearchDirection::Reverse ==> v[i].id <= from && (v[j].id <= from ==> j <= i),
{
}

// ---------------------------------------------------------------------------
// The model that answers by itself
// ---------------------------------------------------------------------------

/// A conversation is as long as its messages together, and a message as its content and the
/// arguments of its calls, in bytes.
pub proof fn sizes_add_up(v: Seq<Msg>, m: Msg, c: Seq<char>, call: messages::Call)
    requires
        m.content == Some(c),
        m.calls == Some(seq![call]),
    ensures
        dummy_llm::conversation_size(Seq::empty()) == 0,
        dummy_llm::conversation_size(v.push(m)) == dummy_llm::conversation_size(v)
            + vstd::utf8::encode_utf8(c).len() + vstd::utf8::encode_utf8(call.arguments).len(),
{
    assert(v.push(m).drop_last() =~= v);
    let none = Seq::<messages::Call>::empty();
    assert(seq![call].drop_last() =~= none);
    assert(dummy_llm::calls_size(none) == 0);
}

/// Whatever the turn, an answer has all four sections, and tells the turn and how many messages
/// there are.
pub proof fn answers_have_every_section(turn: nat, count: nat, k: int)
    requires
        0 <= k < 4,
    ensures
        summarize::tells(dummy_llm::normal_text(turn, count), dummy_llm::section(k)),
        summarize::tells(dummy_llm::normal_text(turn, count), numbers::decimal(turn)),
        summarize::tells(dummy_llm::normal_text(turn, count), numbers::decimal(count)),
{
    let r = (turn % 4) as int;
    let t = numbers::decimal(turn);
    let c = numbers::decimal(count);
    let s0 = dummy_llm::section(r);
    let s1 = dummy_llm::section((r + 1) % 4);
    let s2 = dummy_llm::section((r + 2) % 4);
    let s3 = dummy_llm::section((r + 3) % 4);
    four_parts(t, c, s0, s1, s2, s3);
    assert(k == r || k == (r + 1) % 4 || k == (r + 2) % 4 || k == (r + 3) % 4);
}

proof fn four_parts(
    t: Seq<char>,
    c: Seq<char>,
    s0: Seq<char>,
    s1: Seq<char>,
    s2: Seq<char>,
    s3: Seq<char>,
)
    ensures
        ({
            let all = "Dummy response #"@ + t + " (conversation has "@ + c + " messages).\n\n"@ + s0
                + s1 + s2 + s3 + "This was turn "@ + t + " of the conversation. "@ + c
                + " messages have been exchanged so far."@;
            &&& summarize::tells(all, s0) && summarize::tells(all, s1)
            &&& summarize::tells(all, s2) && summarize::tells(all, s3)
            &&& summarize::tells(all, t) && summarize::tells(all, c)
        }),
{
    let a = "Dummy response #"@;
    let b = " (conversation has "@;
    let d = " messages).\n\n"@;
    let v = a + t + b + c + d;
    let z = "This was turn "@ + t + " of the conversation. "@ + c
        + " messages have been exchanged so far."@;
    let all = v + s0 + s1 + s2 + s3 + "This was turn "@ + t + " of the conversation. "@ + c
        + " messages have been exchanged so far."@;
    assert(all =~= v + s0 + s1 + s2 + s3 + z);
    summarize::tells_inside(v + s0 + s1 + s2, s3, z);
    assert(all =~= v + s0 + s1 + s2 + (s3 + z));
    summarize::tells_inside(v + s0 + s1, s2, s3 + z);
    assert(all =~= v + s0 + s1 + (s2 + s3 + z));
    summarize::tells_inside(v + s0, s1, s2 + s3 + z);
    assert(all =~= v + s0 + (s1 + s2 + s3 + z));
    summarize::tells_inside(v, s0, s1 + s2 + s3 + z);
    let rest = s0 + s1 + s2 + s3 + z;
    assert(all =~= v + rest);
    head_parts(a, t, b, c, d, rest);
}

proof fn head_parts(
    a: Seq<char>,
    t: Seq<char>,
    b: Seq<char>,
    c: Seq<char>,
    d: Seq<char>,
    rest: Seq<char>,
)
    ensures
        summarize::tells(a + t + b + c + d + rest, t),
        summarize::tells(a + t + b + c + d + rest, c),
{
    let all = a + t + b + c + d + rest;
    assert(all =~= a + t + (b + c + d + rest));
    summarize::tells_inside(a, t, b + c + d + rest);
    assert(all =~= a + t + b + c + (d + rest));
    summarize::tells_inside(a + t + b, c, d + rest);
}

/// A call of a tool has one call, under the number of the turn, and no content.
pub proof fn calls_are_numbered(turn: nat)
    ensures
        ({
            let m = dummy_llm::turn_call(turn);
            &&& m.role == "assistant"@ && m.content is None
            &&& m.calls matches Some(c) && c.len() == 1 && c[0].id == "call_dummy_"@
                + numbers::decimal(turn) && c[0].tool_type == "function"@
        }),
        dummy_llm::turn_call(turn + 10).calls->0[0].name == dummy_llm::turn_call(turn).calls->0[0].name,
{
    let a = (turn / 2) as int;
    assert((turn + 10) / 2 == a + 5);
    assert((a + 5) % 5 == a % 5);
}

/// A delay is as long as it says, up to the greatest signed number.
pub proof fn delays_are_as_long_as_they_say(now: i64, secs: u64)
    requires
        0 <= now <= schedule::LAST_SECOND,
    ensures
        secs <= i64::MAX ==> schedule::delay_of(secs) == secs,
        schedule::delay_of(secs) % 0x1_0000_0000_0000_0000 == secs as int,
        i64::MIN <= schedule::delay_of(secs) <= i64::MAX,
        schedule::delay_fits(now, secs) ==> schedule::FIRST_SECOND <= now + schedule::delay_of(secs)
            <= schedule::LAST_SECOND,
        now + secs <= schedule::LAST_SECOND ==> schedule::delay_fits(now, secs),
{
}

/// A file of a thousand lines or more that is read whole comes with the hint to read a part of it;
/// a shorter one, and a part, come without.
pub proof fn large_files_come_with_a_hint(
    contents: Seq<char>,
    start: usize,
    end: usize,
    total: usize,
)
    ensures
        ({
            let n = words::lines(contents).len();
            let all = file_tools::read_report(contents, None, None, total);
            &&& all.note is Some <==> n >= 1000
            &&& all.note matches Some(t) ==> summarize::tells(t, numbers::decimal(n))
            &&& all.total_lines == Some(total) && all.error is None
            &&& file_tools::read_report(contents, Some(start), Some(end), total).note is None
        }),
{
    let n = words::lines(contents).len();
    summarize::tells_inside(
        "This file has "@,
        numbers::decimal(n),
        " lines; use start_line and end_line to read just a range."@,
    );
}

/// The tools that are called take turns: a file is read, written, edited, a command is run, and
/// files are looked for.
pub proof fn called_tools_take_turns(turn: nat)
    ensures
        ({
            let name = dummy_llm::turn_call(turn).calls->0[0].name;
            let k = (turn / 2) % 5;
            &&& k == 0 ==> name == "read_file"@
            &&& k == 1 || k == 2 ==> name == "write_file"@
            &&& k == 3 ==> name == "run_command"@
            &&& k == 4 ==> name == "glob"@
        }),
{
}

/// A tool is called in every other turn, where there are tools, the user asked for nothing else,
/// and no result is waiting for an answer.
pub proof fn tools_are_called_in_turn(v: Seq<Msg>, turn: nat, has_tools: bool)
    ensures
        dummy_llm::calls_tool(v, turn, has_tools) <==> has_tools && turn % 2 == 1 && !(v.len() > 0
            && v.last().role == "tool"@) && dummy_llm::dummy_command(dummy_llm::last_user_text(v))
            is Normal,
{
}

} // verus!
