//! What holds of a session: its commands, its history and what it shows.

use vstd::prelude::*;
use crate::chat_loop;
use crate::commands::Command;
use crate::json::Member;
use crate::messages;
use crate::messages::Msg;
use crate::numbers;
use crate::options;
use crate::order;
use crate::session;
use crate::session::{Act, Scene};
use crate::summarize;
use crate::text_laws;

verus! {

/// A command that may change the conversation.
pub open spec fn edits_history(c: Command) -> bool {
    c is Clear || c is Limit || c is Backtrace || c is System || c is Message
}

/// Commands leave the conversation as it is, but for those that are there to change it.
pub proof fn other_commands_keep_the_conversation(s: Scene, c: Command)
    requires
        !edits_history(c),
    ensures
        session::handled(s, c).0 == s.messages,
{
}

/// What the user says comes last in the conversation, under the name of the user, and is sent. A
/// system message comes last under that of the system, and is not sent.
pub proof fn messages_come_last(s: Scene, t: Seq<char>)
    ensures
        ({
            let (v, r) = session::handled(s, Command::Message(t));
            &&& v.drop_last() == s.messages
            &&& v.last().role == "user"@ && v.last().content == Some(t)
            &&& v.last().calls is None && v.last().tool_call_id is None
            &&& r.lines.len() == 0 && r.action == Act::Request
        }),
        ({
            let (v, r) = session::handled(s, Command::System(t));
            &&& v.drop_last() == s.messages
            &&& v.last().role == "system"@ && v.last().content == Some(t)
            &&& v.last().calls is None && v.last().tool_call_id is None
            &&& r.action == Act::Continue
        }),
{
    assert(session::handled(s, Command::Message(t)).0.drop_last() =~= s.messages);
    assert(session::handled(s, Command::System(t)).0.drop_last() =~= s.messages);
}

/// Nothing is left of a conversation that is cleared: whatever was said before, it begins as a new
/// one does, and what is stored of it goes too. Limiting it to nothing and going back too far clear
/// it as well.
pub proof fn clearing_forgets(s: Scene, other: Seq<Msg>, n: nat)
    requires
        n > s.messages.len(),
    ensures
        ({
            let cleared = session::handled(s, Command::Clear);
            let limited = session::handled(s, Command::Limit(0));
            let back = session::handled(s, Command::Backtrace(n));
            &&& cleared.0 == session::handled(Scene { messages: other, ..s }, Command::Clear).0
            &&& cleared.0 == options::agent_prompts(s.tool_names.len() > 0, None)
            &&& limited.0 == cleared.0 && back.0 == cleared.0
            &&& cleared.1.action is ClearStored <==> s.has_db
            &&& limited.1.action is ClearStored <==> s.has_db
            &&& back.1.action is ClearStored <==> s.has_db
        }),
{
}

/// The session ends just where that is asked for, and the model is asked just for a message.
pub proof fn sessions_end_when_asked(s: Scene, c: Command)
    ensures
        session::handled(s, c).1.action == Act::Quit <==> c == Command::Quit,
        session::handled(s, c).1.action == Act::Request <==> c is Message,
        session::handled(s, c).1.action == Act::Summarize <==> c == Command::Summarize,
{
}

/// Agents are listed, created, found and deleted under the name that is given, where there is a
/// database. The agent that is active is not switched to.
pub proof fn agents_are_handled_by_name(s: Scene, name: Seq<char>)
    ensures
        ({
            let list = session::handled(s, Command::Agents).1.action;
            let create = session::handled(s, Command::CreateAgent(name)).1.action;
            let select = session::handled(s, Command::SelectAgent(name)).1.action;
            let delete = session::handled(s, Command::DeleteAgent(name)).1.action;
            &&& !s.has_db ==> list == Act::Continue && create == Act::Continue && select
                == Act::Continue && delete == Act::Continue
            &&& s.has_db ==> list == Act::ListAgents && create == Act::CreateAgent(name)
            &&& s.has_db && name != s.name ==> select == Act::FindAgent(name)
            &&& s.has_db && name != s.name && name != "default"@ ==> delete == Act::DeleteAgent(
                name,
            )
            &&& name == s.name ==> select == Act::Continue
        }),
{
}

// ---------------------------------------------------------------------------
// What is shown
// ---------------------------------------------------------------------------

proof fn calls_are_shown(number: nat, calls: Seq<messages::Call>, k: int, j: int)
    requires
        0 <= j < k <= calls.len(),
    ensures
        session::shown_calls(number, calls, k).contains(
            "    "@ + numbers::decimal(number) + "."@ + numbers::decimal((j + 1) as nat) + ": "@
                + calls[j].name + " ("@ + calls[j].id + ")"@,
        ),
        session::shown_calls(number, calls, k).contains("      Args: "@ + calls[j].arguments),
    decreases k,
{
    let v = session::shown_calls(number, calls, k);
    let w = session::shown_calls(number, calls, k - 1);
    let a = "    "@ + numbers::decimal(number) + "."@ + numbers::decimal((j + 1) as nat) + ": "@
        + calls[j].name + " ("@ + calls[j].id + ")"@;
    let b = "      Args: "@ + calls[j].arguments;
    if j == k - 1 {
        assert(v[w.len() as int] == a);
        assert(v[w.len() as int + 1] == b);
    } else {
        calls_are_shown(number, calls, k - 1, j);
        let x = choose|x: int| 0 <= x < w.len() && w[x] == a;
        let y = choose|y: int| 0 <= y < w.len() && w[y] == b;
        assert(v[x] == a && v[y] == b);
    }
}

proof fn parts_of_history(v: Seq<Msg>, k: int, i: int, line: Seq<char>)
    requires
        0 <= i < k <= v.len(),
        session::shown_message((i + 1) as nat, v[i]).contains(line),
    ensures
        session::shown_messages(v, k).contains(line),
    decreases k,
{
    let a = session::shown_messages(v, k - 1);
    let b = session::shown_message(k as nat, v[k - 1]);
    if i == k - 1 {
        let x = choose|x: int| 0 <= x < b.len() && b[x] == line;
        assert((a + b)[a.len() + x] == line);
    } else {
        parts_of_history(v, k - 1, i, line);
        let x = choose|x: int| 0 <= x < a.len() && a[x] == line;
        assert((a + b)[x] == line);
    }
}

/// The history shows every message with its number, its role and its content, and each of its
/// calls with its name, its identifier and its arguments.
pub proof fn histories_show_every_message(v: Seq<Msg>, i: int)
    requires
        0 <= i < v.len(),
    ensures
        ({
            let all = session::shown_history(v);
            let n = numbers::decimal((i + 1) as nat);
            let head = n + ": ["@ + v[i].role + "] "@;
            &&& v[i].content matches Some(c) ==> all.contains(head + c)
            &&& v[i].content is None ==> all.contains(head + "<no content>"@)
            &&& v[i].calls matches Some(calls) ==> forall|j: int|
                0 <= j < calls.len() ==> {
                    &&& all.contains(
                        "    "@ + n + "."@ + numbers::decimal((j + 1) as nat) + ": "@ + (
                        #[trigger] calls[j]).name + " ("@ + calls[j].id + ")"@,
                    )
                    &&& all.contains("      Args: "@ + calls[j].arguments)
                }
        }),
{
    let all = session::shown_history(v);
    let rest = session::shown_messages(v, v.len() as int);
    let n = numbers::decimal((i + 1) as nat);
    let m = v[i];
    let shown = session::shown_message((i + 1) as nat, m);
    let c = match m.content {
        Some(c) => c,
        None => "<no content>"@,
    };
    let first = n + ": ["@ + m.role + "] "@ + c;
    assert(shown[0] == first);
    parts_of_history(v, v.len() as int, i, first);
    let x = choose|x: int| 0 <= x < rest.len() && rest[x] == first;
    assert(all[x + 1] == first);
    if let Some(calls) = m.calls {
        assert forall|j: int| 0 <= j < calls.len() implies {
            &&& all.contains(
                "    "@ + n + "."@ + numbers::decimal((j + 1) as nat) + ": "@ + (
                #[trigger] calls[j]).name + " ("@ + calls[j].id + ")"@,
            )
            &&& all.contains("      Args: "@ + calls[j].arguments)
        } by {
            let a = "    "@ + n + "."@ + numbers::decimal((j + 1) as nat) + ": "@ + calls[j].name
                + " ("@ + calls[j].id + ")"@;
            let b = "      Args: "@ + calls[j].arguments;
            calls_are_shown((i + 1) as nat, calls, calls.len() as int, j);
            let w = session::shown_calls((i + 1) as nat, calls, calls.len() as int);
            let p = choose|p: int| 0 <= p < w.len() && w[p] == a;
            let q = choose|q: int| 0 <= q < w.len() && w[q] == b;
            assert(shown[p + 2] == a && shown[q + 2] == b);
            parts_of_history(v, v.len() as int, i, a);
            parts_of_history(v, v.len() as int, i, b);
            let x = choose|x: int| 0 <= x < rest.len() && rest[x] == a;
            let y = choose|y: int| 0 <= y < rest.len() && rest[y] == b;
            assert(all[x + 1] == a && all[y + 1] == b);
        }
    }
}

/// A message without calls takes one line of the history, and one with calls two more for each and
/// one for their heading; a further message comes behind the others, which are shown as before.
pub proof fn histories_grow_at_the_end(v: Seq<Msg>, m: Msg)
    requires
        v.len() > 0,
    ensures
        ({
            let before = session::shown_history(v);
            let after = session::shown_history(v.push(m));
            &&& before.len() <= after.len() && after.take(before.len() as int) == before
            &&& m.calls is None ==> after.len() == before.len() + 1
            &&& m.calls matches Some(c) ==> (c.len() > 0 ==> after.len() == before.len() + 2 + 2
                * c.len())
        }),
{
    let w = v.push(m);
    shown_prefix(v, m, v.len() as int);
    let before = session::shown_history(v);
    let after = session::shown_history(w);
    assert(w[v.len() as int] == m);
    let a = session::shown_messages(v, v.len() as int);
    assert(after =~= before + session::shown_message(w.len(), m));
    assert(after.take(before.len() as int) =~= before);
    if let Some(c) = m.calls {
        lines_of_calls(w.len(), c, c.len() as int);
    }
}

proof fn shown_prefix(v: Seq<Msg>, m: Msg, k: int)
    requires
        0 <= k <= v.len(),
    ensures
        session::shown_messages(v.push(m), k) == session::shown_messages(v, k),
    decreases k,
{
    if k > 0 {
        shown_prefix(v, m, k - 1);
    }
}

proof fn lines_of_calls(number: nat, calls: Seq<messages::Call>, k: int)
    requires
        0 <= k,
    ensures
        session::shown_calls(number, calls, k).len() == 2 * k,
    decreases k,
{
    if k > 0 {
        lines_of_calls(number, calls, k - 1);
    }
}

/// Every tool of a session is listed, indented, among those of its kind and in the order of the
/// names.
pub proof fn tools_are_listed(names: Seq<Seq<char>>, mcp: Seq<Seq<char>>, i: int)
    ensures
        0 <= i < names.len() ==> session::tools_listing(names, mcp).contains("  "@ + names[i]),
        0 <= i < mcp.len() ==> session::tools_listing(names, mcp).contains("  "@ + mcp[i]),
        session::tools_listing(names, mcp).len() == if names.len() + mcp.len() == 0 {
            1
        } else {
            names.len() + mcp.len() + (if names.len() > 0 {
                1nat
            } else {
                0
            }) + (if mcp.len() > 0 {
                1nat
            } else {
                0
            })
        },
{
    let a = session::named_section("Built-in tools:"@, names);
    let b = session::named_section("MCP tools:"@, mcp);
    let all = session::tools_listing(names, mcp);
    sorted_names(names);
    sorted_names(mcp);
    if 0 <= i < names.len() {
        section_lists("Built-in tools:"@, names, i);
        let x = choose|x: int| 0 <= x < a.len() && a[x] == "  "@ + names[i];
        assert(all[x] == "  "@ + names[i]);
    }
    if 0 <= i < mcp.len() {
        section_lists("MCP tools:"@, mcp, i);
        let x = choose|x: int| 0 <= x < b.len() && b[x] == "  "@ + mcp[i];
        assert(all[a.len() + x] == "  "@ + mcp[i]);
    }
}

proof fn sorted_names(v: Seq<Seq<char>>)
    ensures
        order::in_order(v).len() == v.len(),
        order::ascending(order::in_order(v)),
        forall|i: int| 0 <= i < v.len() ==> order::in_order(v).contains(#[trigger] v[i]),
{
    order::in_order_sorts(v);
    let w = order::in_order(v);
    broadcast use vstd::seq_lib::group_to_multiset_ensures;

    assert(w.to_multiset().len() == w.len() && v.to_multiset().len() == v.len());
    assert forall|i: int| 0 <= i < v.len() implies w.contains(#[trigger] v[i]) by {
        assert(v.contains(v[i]));
        assert(v.to_multiset().count(v[i]) > 0);
    }
}

proof fn section_lists(heading: Seq<char>, names: Seq<Seq<char>>, i: int)
    requires
        0 <= i < names.len(),
    ensures
        session::named_section(heading, names).contains("  "@ + names[i]),
{
    sorted_names(names);
    let w = order::in_order(names);
    let x = choose|x: int| 0 <= x < w.len() && w[x] == names[i];
    assert(session::named_section(heading, names)[x + 1] == "  "@ + names[i]);
}

// ---------------------------------------------------------------------------
// The loop of a session
// ---------------------------------------------------------------------------

/// What an agent says is shown line by line, each indented, with an empty line behind it.
pub proof fn answers_are_indented(v: Seq<Seq<char>>, ended: bool)
    requires
        text_laws::all_lines(v),
        v.len() > 0,
        ended || v.last().len() > 0,
    ensures
        ({
            let body = chat_loop::agent_body(text_laws::as_text(v, ended));
            &&& body.len() == v.len() + 1
            &&& body.last().len() == 0
            &&& forall|i: int| 0 <= i < v.len() ==> #[trigger] body[i] == seq![' ', ' '] + v[i]
        }),
{
    text_laws::lines_come_back(v, ended);
    reveal_strlit("  ");
    reveal_strlit("");
    assert("  "@ =~= seq![' ', ' ']);
}

/// A stored conversation goes on as it was stored; without one, a conversation begins with the
/// prompts.
pub proof fn conversations_are_resumed(
    loaded: Seq<Msg>,
    use_tools: bool,
    prompt: Option<Seq<char>>,
)
    ensures
        loaded.len() > 0 ==> chat_loop::resumed(loaded, use_tools, prompt) == loaded,
        loaded.len() == 0 ==> chat_loop::resumed(loaded, use_tools, prompt)
            == options::agent_prompts(use_tools, prompt),
{
}

/// A name that is added is there once, and one that is removed is gone; the others stay in order.
pub proof fn names_are_kept_once(names: Seq<Seq<char>>, name: Seq<char>, other: Seq<char>)
    requires
        names.no_duplicates(),
    ensures
        ({
            let with = chat_loop::with_name(names, name);
            let without = chat_loop::without_name(names, name);
            &&& with.contains(name) && with.no_duplicates()
            &&& names.is_prefix_of(with)
            &&& !names.contains(name) ==> with == names.push(name)
            &&& !without.contains(name)
            &&& chat_loop::without_name(names.push(name), name) == without
            &&& other != name ==> chat_loop::without_name(names.push(other), name) == without.push(
                other,
            )
        }),
{
    let with = chat_loop::with_name(names, name);
    let without = chat_loop::without_name(names, name);
    if !names.contains(name) {
        assert(with[names.len() as int] == name);
        assert forall|i: int, j: int|
            0 <= i < with.len() && 0 <= j < with.len() && i != j implies with[i] != with[j] by {
            if i < names.len() {
                assert(names.contains(names[i]));
            }
            if j < names.len() {
                assert(names.contains(names[j]));
            }
        }
    }
    assert(names =~= with.subrange(0, names.len() as int));
    filtered_out(names, name);
    reveal(Seq::filter);
    assert(names.push(name).drop_last() =~= names);
    assert(names.push(other).drop_last() =~= names);
}

proof fn filtered_out(names: Seq<Seq<char>>, name: Seq<char>)
    ensures
        !names.filter(|n: Seq<char>| n != name).contains(name),
    decreases names.len(),
{
    reveal(Seq::filter);
    if names.len() > 0 {
        let p = |n: Seq<char>| n != name;
        filtered_out(names.drop_last(), name);
        let w = names.drop_last().filter(p);
        let v = names.filter(p);
        if v.contains(name) {
            let i = choose|i: int| 0 <= i < v.len() && v[i] == name;
            if i < w.len() {
                assert(w[i] == name);
            }
        }
    }
}

/// A scheduled command that names a tool runs it with the arguments that it gives, or with none; a
/// command that names no tool runs none.
pub proof fn scheduled_tools_have_arguments(tool: Member, arguments: Member)
    ensures
        chat_loop::scheduled(tool, arguments) is Some <==> (tool matches Member::Text(t) && t.len()
            > 0),
        chat_loop::scheduled(tool, arguments) matches Some((t, a)) ==> {
            &&& tool == Member::Text(t)
            &&& arguments matches Member::Text(x) ==> a == x
            &&& arguments matches Member::Other(x) ==> a == x
            &&& !(arguments is Text) && !(arguments is Other) ==> a == seq!['{', '}']
        },
{
    reveal_strlit("{}");
    assert("{}"@ =~= seq!['{', '}']);
}

/// A message from an agent is told whole and under the name of its sender. The result of a
/// sub-agent is shown as its response, and tells which sub-agent has finished; anything else is
/// shown as it is.
pub proof fn agents_are_heard(
    from: Seq<char>,
    message: Seq<char>,
    kind: Member,
    agent: Member,
    response: Member,
)
    ensures
        ({
            let h = chat_loop::heard(from, message, kind, agent, response);
            let result = kind == Member::Text("subagent_result"@);
            &&& h.injection == "[Message from agent '"@ + from + "']: "@ + message
            &&& !result || !(response is Text) ==> h.shown == message
            &&& result && response is Text ==> Member::Text(h.shown) == response
            &&& h.finished is Some <==> result && agent is Text
            &&& h.finished matches Some(a) ==> agent == Member::Text(a)
        }),
{
}

/// The summary that is shown is the first message of the conversation that carries one.
pub proof fn the_first_summary_is_shown(v: Seq<Msg>, i: int)
    requires
        0 <= i < v.len(),
        summarize::carries_summary(v[i]),
        forall|j: int| 0 <= j < i ==> !summarize::carries_summary(#[trigger] v[j]),
    ensures
        chat_loop::first_summary(v, 0) == Some(v[i]),
{
    first_from(v, 0, i);
}

proof fn first_from(v: Seq<Msg>, k: int, i: int)
    requires
        0 <= k <= i < v.len(),
        summarize::carries_summary(v[i]),
        forall|j: int| 0 <= j < i ==> !summarize::carries_summary(#[trigger] v[j]),
    ensures
        chat_loop::first_summary(v, k) == Some(v[i]),
    decreases i - k,
{
    summarize::prefix_stands(v[k]);
    if k < i {
        assert(!summarize::carries_summary(v[k]));
        first_from(v, k + 1, i);
    }
}

/// Without a summary in the conversation none is shown, and with one it is shown whole behind the
/// counts.
pub proof fn summaries_are_shown(before: nat, v: Seq<Msg>)
    ensures
        ({
            let r = chat_loop::summary_lines(before, v);
            let some = exists|i: int| 0 <= i < v.len() && summarize::carries_summary(#[trigger] v[i]);
            &&& summarize::tells(r[0], numbers::decimal(before))
            &&& summarize::tells(r[0], numbers::decimal(v.len()))
            &&& !some ==> r.len() == 1
            &&& some ==> r.len() == 2 && exists|i: int|
                0 <= i < v.len() && summarize::carries_summary(#[trigger] v[i]) && v[i].content
                    == Some(r[1])
        }),
{
    let a = numbers::decimal(before);
    let b = numbers::decimal(v.len());
    let r = chat_loop::summary_lines(before, v);
    summarize::tells_inside("Conversation summarized: "@, a, " messages -> "@ + b + "."@);
    assert("Conversation summarized: "@ + a + (" messages -> "@ + b + "."@) =~= r[0]);
    summarize::tells_inside("Conversation summarized: "@ + a + " messages -> "@, b, "."@);
    summary_from(v, 0);
    if exists|i: int| 0 <= i < v.len() && summarize::carries_summary(#[trigger] v[i]) {
        let m = chat_loop::first_summary(v, 0)->0;
        let i = choose|i: int|
            0 <= i < v.len() && summarize::carries_summary(#[trigger] v[i]) && v[i] == m;
        assert(v[i].content == Some(r[1]));
    }
}

proof fn summary_from(v: Seq<Msg>, k: int)
    requires
        0 <= k <= v.len(),
    ensures
        match chat_loop::first_summary(v, k) {
            Some(m) => exists|i: int|
                k <= i < v.len() && summarize::carries_summary(#[trigger] v[i]) && v[i] == m,
            None => forall|i: int| k <= i < v.len() ==> !summarize::carries_summary(#[trigger] v[i]),
        },
    decreases v.len() - k,
{
    if k < v.len() {
        summarize::prefix_stands(v[k]);
        if !summarize::summary_msg(v[k]) {
            summary_from(v, k + 1);
        }
    }
}

} // verus!
