//! The tools that work on agents, their data, their tasks and their messages.

use vstd::prelude::*;
use crate::database::DataRow;
use crate::chat_loop;
use crate::context::ToolContext;
use crate::json;
use crate::json::{
    array_text, field, object1, object2, object3, object4, opt_field, text_field, Datum,
    JsonValue,
};
use crate::messages;
use crate::messages::{make_message, Message, Msg};
use crate::numbers;
use crate::numbers::{signed_text, usize_text};
use crate::options::{AgentConfig, RequestOpts};
use crate::session::push_line;
use crate::store::{AgentRow, TaskRow};
use crate::text::{text2, text3, text4, text5};
use crate::words;

verus! {

/// The lines of a context after some more were printed, with all else unchanged.
pub open spec fn printed(before: ToolContext, after: ToolContext, lines: Seq<Seq<char>>) -> bool {
    &&& words::views(after.lines@) == words::views(before.lines@) + lines
    &&& after.has_db == before.has_db
    &&& after.agent_name == before.agent_name
}

fn print(ctx: &mut ToolContext, line: String)
    ensures
        printed(*old(ctx), *final(ctx), seq![line@]),
{
    ctx.println(line.as_str());
    assert(words::views(ctx.lines@) =~= words::views(old(ctx).lines@) + seq![line@]);
}

/// No line where the condition fails.
pub open spec fn only_if(b: bool, line: Seq<char>) -> Seq<Seq<char>> {
    if b {
        seq![line]
    } else {
        Seq::empty()
    }
}

fn print_if(ctx: &mut ToolContext, b: bool, line: String)
    ensures
        printed(*old(ctx), *final(ctx), only_if(b, line@)),
{
    if b {
        print(ctx, line);
    } else {
        assert(words::views(ctx.lines@) =~= words::views(old(ctx).lines@) + only_if(b, line@));
    }
}

// ---------------------------------------------------------------------------
// Agents
// ---------------------------------------------------------------------------

/// Reports a new agent.
pub fn agent_created(ctx: &mut ToolContext, name: &str) -> (r: String)
    ensures
        r@ == json::json_object_of(
            seq![("status"@, Datum::Text("created"@)), ("name"@, Datum::Text(name@))],
        ),
        printed(
            *old(ctx),
            *final(ctx),
            seq!["Agent '"@ + name@ + "' created successfully"@],
        ),
{
    print(ctx, text3("Agent '", name, "' created successfully"));
    object2(text_field("status", "created"), text_field("name", name))
}

/// Reports whether an agent was deleted.
pub fn agent_deleted(ctx: &mut ToolContext, name: &str, deleted: bool) -> (r: String)
    ensures
        r@ == json::json_object_of(
            seq![
                (
                    "status"@,
                    Datum::Text(
                        if deleted {
                            "deleted"@
                        } else {
                            "not_found"@
                        },
                    ),
                ),
                ("name"@, Datum::Text(name@)),
            ],
        ),
        printed(
            *old(ctx),
            *final(ctx),
            only_if(deleted, "Agent '"@ + name@ + "' deleted"@),
        ),
{
    print_if(ctx, deleted, text3("Agent '", name, "' deleted"));
    let status: &str = if deleted {
        "deleted"
    } else {
        "not_found"
    };
    object2(text_field("status", status), text_field("name", name))
}

/// The lines that list agents.
pub open spec fn agent_lines(v: Seq<AgentRow>) -> Seq<Seq<char>> {
    seq!["Found "@ + numbers::decimal(v.len()) + " agent(s)"@] + Seq::new(
        v.len(),
        |i: int| "  - "@ + v[i].name@ + " ("@ + v[i].description@ + ")"@,
    )
}

/// Lists agents.
pub fn agents_listed(ctx: &mut ToolContext, agents: &[AgentRow])
    ensures
        printed(*old(ctx), *final(ctx), agent_lines(agents@)),
{
    let ghost before = words::views(ctx.lines@);
    let n = usize_text(agents.len());
    print(ctx, text3("Found ", n.as_str(), " agent(s)"));
    let ghost all = agent_lines(agents@);
    let mut i: usize = 0;
    assert(words::views(ctx.lines@) =~= before + all.take(1));
    while i < agents.len()
        invariant
            i <= agents@.len(),
            all == agent_lines(agents@),
            words::views(ctx.lines@) == before + all.take(i + 1),
            ctx.has_db == old(ctx).has_db,
            ctx.agent_name == old(ctx).agent_name,
        decreases agents@.len() - i,
    {
        print(
            ctx,
            text5(
                "  - ",
                agents[i].name.as_str(),
                " (",
                agents[i].description.as_str(),
                ")",
            ),
        );
        assert(words::views(ctx.lines@) =~= before + all.take(i + 2));
        i += 1;
    }
    assert(all.take(all.len() as int) =~= all);
}

/// Shows an agent that was found; else returns what is reported instead.
pub fn agent_shown(ctx: &mut ToolContext, name: &str, agent: Option<&AgentRow>) -> (r: Option<
    String,
>)
    ensures
        match agent {
            Some(a) => r is None && printed(
                *old(ctx),
                *final(ctx),
                seq!["Agent '"@ + a.name@ + "': "@ + a.description@],
            ),
            None => {
                &&& json::opt_view(r) == Some(
                    json::json_object_of(
                        seq![("error"@, Datum::Text("Agent '"@ + name@ + "' not found"@))],
                    ),
                )
                &&& printed(*old(ctx), *final(ctx), Seq::empty())
            },
        },
{
    match agent {
        Some(a) => {
            print(ctx, text4("Agent '", a.name.as_str(), "': ", a.description.as_str()));
            None
        },
        None => {
            assert(words::views(ctx.lines@) =~= words::views(old(ctx).lines@) + Seq::<
                Seq<char>,
            >::empty());
            let e = text3("Agent '", name, "' not found");
            Some(object1(text_field("error", e.as_str())))
        },
    }
}

// ---------------------------------------------------------------------------
// Data of agents
// ---------------------------------------------------------------------------

/// Reports a value that was stored.
pub fn data_set(ctx: &mut ToolContext, agent: &str, key: &str, value: &str) -> (r: String)
    ensures
        r@ == json::json_object_of(
            seq![
                ("status"@, Datum::Text("ok"@)),
                ("agent"@, Datum::Text(agent@)),
                ("key"@, Datum::Text(key@)),
            ],
        ),
        printed(
            *old(ctx),
            *final(ctx),
            seq!["Set data for agent '"@ + agent@ + "': "@ + key@ + " = "@ + value@],
        ),
{
    let mut line = text5("Set data for agent '", agent, "': ", key, " = ");
    line.append(value);
    print(ctx, line);
    object3(text_field("status", "ok"), text_field("agent", agent), text_field("key", key))
}

/// The line that shows a stored value.
pub open spec fn data_line(agent: Seq<char>, key: Seq<char>, value: Option<Seq<char>>) -> Seq<
    Seq<char>,
> {
    match value {
        Some(v) => seq!["Agent '"@ + agent + "' data: "@ + key + " = "@ + v],
        None => Seq::empty(),
    }
}

/// Reports a value that was looked up.
pub fn data_got(ctx: &mut ToolContext, agent: &str, key: &str, value: Option<String>) -> (r: String)
    ensures
        r@ == json::json_object_of(
            seq![
                ("agent"@, Datum::Text(agent@)),
                ("key"@, Datum::Text(key@)),
                ("value"@, json::text_or_null(json::opt_view(value))),
            ],
        ),
        printed(*old(ctx), *final(ctx), data_line(agent@, key@, json::opt_view(value))),
{
    match &value {
        Some(v) => {
            let mut line = text5("Agent '", agent, "' data: ", key, " = ");
            line.append(v.as_str());
            print(ctx, line);
            object3(text_field("agent", agent), text_field("key", key), opt_field("value", Some(v.as_str())))
        },
        None => {
            assert(words::views(ctx.lines@) =~= words::views(old(ctx).lines@) + data_line(
                agent@,
                key@,
                None,
            ));
            object3(text_field("agent", agent), text_field("key", key), opt_field("value", None))
        },
    }
}

/// Reports whether a value was deleted.
pub fn data_deleted(ctx: &mut ToolContext, agent: &str, key: &str, deleted: bool) -> (r: String)
    ensures
        r@ == json::json_object_of(
            seq![
                ("deleted"@, Datum::Flag(deleted)),
                ("agent"@, Datum::Text(agent@)),
                ("key"@, Datum::Text(key@)),
            ],
        ),
        printed(
            *old(ctx),
            *final(ctx),
            only_if(deleted, "Deleted key '"@ + key@ + "' for agent '"@ + agent@ + "'"@),
        ),
{
    print_if(ctx, deleted, text5("Deleted key '", key, "' for agent '", agent, "'"));
    object3(
        field("deleted", JsonValue::Flag(deleted)),
        text_field("agent", agent),
        text_field("key", key),
    )
}

/// The lines that list the data of an agent.
pub open spec fn data_lines(agent: Seq<char>, v: Seq<DataRow>) -> Seq<Seq<char>> {
    seq!["Agent '"@ + agent + "' has "@ + numbers::decimal(v.len()) + " data entries"@] + Seq::new(
        v.len(),
        |i: int| "  "@ + v[i].key@ + " = "@ + v[i].value@,
    )
}

/// A stored key and its value as JSON.
pub open spec fn data_json(e: DataRow) -> Seq<char> {
    json::json_object_of(seq![("key"@, Datum::Text(e.key@)), ("value"@, Datum::Text(e.value@))])
}

/// Lists the data of an agent.
pub fn data_listed(ctx: &mut ToolContext, agent: &str, data: &[DataRow]) -> (r: String)
    ensures
        r@ == json::json_array(Seq::new(data@.len(), |i: int| data_json(data@[i]))),
        printed(*old(ctx), *final(ctx), data_lines(agent@, data@)),
{
    let ghost before = words::views(ctx.lines@);
    let n = usize_text(data.len());
    print(ctx, text5("Agent '", agent, "' has ", n.as_str(), " data entries"));
    let ghost all = data_lines(agent@, data@);
    let ghost texts = Seq::new(data@.len(), |i: int| data_json(data@[i]));
    let mut entries: Vec<String> = Vec::new();
    let mut i: usize = 0;
    assert(words::views(ctx.lines@) =~= before + all.take(1));
    assert(words::views(entries@) =~= texts.take(0));
    while i < data.len()
        invariant
            i <= data@.len(),
            all == data_lines(agent@, data@),
            texts == Seq::new(data@.len(), |i: int| data_json(data@[i])),
            words::views(ctx.lines@) == before + all.take(i + 1),
            words::views(entries@) == texts.take(i as int),
            ctx.has_db == old(ctx).has_db,
            ctx.agent_name == old(ctx).agent_name,
        decreases data@.len() - i,
    {
        print(ctx, text4("  ", data[i].key.as_str(), " = ", data[i].value.as_str()));
        assert(words::views(ctx.lines@) =~= before + all.take(i + 2));
        let e = object2(
            text_field("key", data[i].key.as_str()),
            text_field("value", data[i].value.as_str()),
        );
        push_line(&mut entries, e);
        assert(texts.take(i + 1) =~= texts.take(i as int).push(texts[i as int]));
        i += 1;
    }
    assert(all.take(all.len() as int) =~= all);
    assert(texts.take(texts.len() as int) =~= texts);
    array_text(entries.as_slice())
}

// ---------------------------------------------------------------------------
// Tasks
// ---------------------------------------------------------------------------

/// The agent that a new task belongs to: the one that is named, else the one that asks.
pub fn task_agent(named: &Option<String>, ctx: &ToolContext) -> (r: Option<String>)
    ensures
        json::opt_view(r) == (match *named {
            Some(n) => Some(n@),
            None => json::opt_view(ctx.agent_name),
        }),
{
    match named {
        Some(n) => Some(n.clone()),
        None => messages::copy_opt(&ctx.agent_name),
    }
}

/// Reports a new task with a cron expression.
pub fn cron_task_created(ctx: &mut ToolContext, name: &str, id: i64, expression: &str) -> (r:
    String)
    ensures
        r@ == json::json_object_of(
            seq![
                ("status"@, Datum::Text("created"@)),
                ("id"@, Datum::Number(id as int)),
                ("name"@, Datum::Text(name@)),
            ],
        ),
        printed(
            *old(ctx),
            *final(ctx),
            seq![
                "Created cron task '"@ + name@ + "' (id="@ + numbers::decimal_int(id as int)
                    + ") with schedule '"@ + expression@ + "'"@,
            ],
        ),
{
    let n = signed_text(id);
    let mut line = text5(
        "Created cron task '",
        name,
        "' (id=",
        n.as_str(),
        ") with schedule '",
    );
    line.append(expression);
    line.append("'");
    print(ctx, line);
    object3(
        text_field("status", "created"),
        field("id", JsonValue::Number(id)),
        text_field("name", name),
    )
}

/// Reports a new task that runs once.
pub fn oneshot_task_created(ctx: &mut ToolContext, name: &str, id: i64, run_at: &str) -> (r: String)
    ensures
        r@ == json::json_object_of(
            seq![
                ("status"@, Datum::Text("created"@)),
                ("id"@, Datum::Number(id as int)),
                ("name"@, Datum::Text(name@)),
                ("run_at"@, Datum::Text(run_at@)),
            ],
        ),
        printed(
            *old(ctx),
            *final(ctx),
            seq![
                "Created one-shot task '"@ + name@ + "' (id="@ + numbers::decimal_int(id as int)
                    + ") scheduled at '"@ + run_at@ + "'"@,
            ],
        ),
{
    let n = signed_text(id);
    let mut line = text5(
        "Created one-shot task '",
        name,
        "' (id=",
        n.as_str(),
        ") scheduled at '",
    );
    line.append(run_at);
    line.append("'");
    print(ctx, line);
    object4(
        text_field("status", "created"),
        field("id", JsonValue::Number(id)),
        text_field("name", name),
        text_field("run_at", run_at),
    )
}

/// Reports whether a task was deleted.
pub fn task_deleted(ctx: &mut ToolContext, id: i64, deleted: bool) -> (r: String)
    ensures
        r@ == json::json_object_of(
            seq![("deleted"@, Datum::Flag(deleted)), ("id"@, Datum::Number(id as int))],
        ),
        printed(
            *old(ctx),
            *final(ctx),
            only_if(deleted, "Deleted task id="@ + numbers::decimal_int(id as int)),
        ),
{
    let n = signed_text(id);
    print_if(ctx, deleted, text2("Deleted task id=", n.as_str()));
    object2(field("deleted", JsonValue::Flag(deleted)), field("id", JsonValue::Number(id)))
}

/// Whether a task is enabled, as a word.
pub open spec fn enabled_word(enabled: bool) -> Seq<char> {
    if enabled {
        "enabled"@
    } else {
        "disabled"@
    }
}

fn enabled_text(enabled: bool) -> (r: &'static str)
    ensures
        r@ == enabled_word(enabled),
{
    if enabled {
        "enabled"
    } else {
        "disabled"
    }
}

/// A task in a listing, up to the brackets at its end.
pub open spec fn task_head(t: TaskRow) -> Seq<char> {
    "  ["@ + numbers::decimal_int(t.id as int) + "] "@ + t.name@ + " - "@ + t.task_type@ + " ("@
}

fn task_head_text(t: &TaskRow) -> (r: String)
    ensures
        r@ == task_head(*t),
{
    let n = signed_text(t.id);
    let mut s = text5("  [", n.as_str(), "] ", t.name.as_str(), " - ");
    s.append(t.task_type.as_str());
    s.append(" (");
    s
}

/// The lines that list tasks.
pub open spec fn task_lines(v: Seq<TaskRow>) -> Seq<Seq<char>> {
    seq!["Found "@ + numbers::decimal(v.len()) + " task(s)"@] + Seq::new(
        v.len(),
        |i: int| task_head(v[i]) + enabled_word(v[i].enabled) + ")"@,
    )
}

/// Lists tasks.
pub fn tasks_listed(ctx: &mut ToolContext, tasks: &[TaskRow])
    ensures
        printed(*old(ctx), *final(ctx), task_lines(tasks@)),
{
    let ghost before = words::views(ctx.lines@);
    let n = usize_text(tasks.len());
    print(ctx, text3("Found ", n.as_str(), " task(s)"));
    let ghost all = task_lines(tasks@);
    let mut i: usize = 0;
    assert(words::views(ctx.lines@) =~= before + all.take(1));
    while i < tasks.len()
        invariant
            i <= tasks@.len(),
            all == task_lines(tasks@),
            words::views(ctx.lines@) == before + all.take(i + 1),
            ctx.has_db == old(ctx).has_db,
            ctx.agent_name == old(ctx).agent_name,
        decreases tasks@.len() - i,
    {
        let head = task_head_text(&tasks[i]);
        print(ctx, text3(head.as_str(), enabled_text(tasks[i].enabled), ")"));
        assert(words::views(ctx.lines@) =~= before + all.take(i + 2));
        i += 1;
    }
    assert(all.take(all.len() as int) =~= all);
}

/// Shows a task that was found; else returns what is reported instead.
pub fn task_shown(ctx: &mut ToolContext, id: i64, task: Option<&TaskRow>) -> (r: Option<String>)
    ensures
        match task {
            Some(t) => r is None && printed(
                *old(ctx),
                *final(ctx),
                seq![
                    "Task ["@ + numbers::decimal_int(t.id as int) + "]: "@ + t.name@ + " ("@
                        + t.task_type@ + ")"@,
                ],
            ),
            None => {
                &&& json::opt_view(r) == Some(
                    json::json_object_of(
                        seq![
                            (
                                "error"@,
                                Datum::Text(
                                    "Task id="@ + numbers::decimal_int(id as int) + " not found"@,
                                ),
                            ),
                        ],
                    ),
                )
                &&& printed(*old(ctx), *final(ctx), Seq::empty())
            },
        },
{
    match task {
        Some(t) => {
            let n = signed_text(t.id);
            let mut line = text5("Task [", n.as_str(), "]: ", t.name.as_str(), " (");
            line.append(t.task_type.as_str());
            line.append(")");
            print(ctx, line);
            None
        },
        None => {
            assert(words::views(ctx.lines@) =~= words::views(old(ctx).lines@) + Seq::<
                Seq<char>,
            >::empty());
            let n = signed_text(id);
            let e = text3("Task id=", n.as_str(), " not found");
            Some(object1(text_field("error", e.as_str())))
        },
    }
}

/// Reports whether a task was enabled or disabled.
pub fn task_enabled_set(ctx: &mut ToolContext, id: i64, enabled: bool, updated: bool) -> (r: String)
    ensures
        r@ == json::json_object_of(
            seq![
                ("updated"@, Datum::Flag(updated)),
                ("id"@, Datum::Number(id as int)),
                ("enabled"@, Datum::Flag(enabled)),
            ],
        ),
        printed(
            *old(ctx),
            *final(ctx),
            only_if(
                updated,
                "Task id="@ + numbers::decimal_int(id as int) + " "@ + enabled_word(enabled),
            ),
        ),
{
    let n = signed_text(id);
    print_if(ctx, updated, text4("Task id=", n.as_str(), " ", enabled_text(enabled)));
    object3(
        field("updated", JsonValue::Flag(updated)),
        field("id", JsonValue::Number(id)),
        field("enabled", JsonValue::Flag(enabled)),
    )
}

/// When a task runs next, in a listing.
pub open spec fn next_or_none(t: TaskRow) -> Seq<char> {
    match t.next_run_at {
        Some(n) => n@,
        None => "N/A"@,
    }
}

/// The lines that list tasks that are to run.
pub open spec fn pending_lines(v: Seq<TaskRow>) -> Seq<Seq<char>> {
    seq!["Found "@ + numbers::decimal(v.len()) + " pending task(s)"@] + Seq::new(
        v.len(),
        |i: int| task_head(v[i]) + "next: "@ + next_or_none(v[i]) + ")"@,
    )
}

/// Lists tasks that are to run.
pub fn pending_tasks_listed(ctx: &mut ToolContext, tasks: &[TaskRow])
    ensures
        printed(*old(ctx), *final(ctx), pending_lines(tasks@)),
{
    let ghost before = words::views(ctx.lines@);
    let n = usize_text(tasks.len());
    print(ctx, text3("Found ", n.as_str(), " pending task(s)"));
    let ghost all = pending_lines(tasks@);
    let mut i: usize = 0;
    assert(words::views(ctx.lines@) =~= before + all.take(1));
    while i < tasks.len()
        invariant
            i <= tasks@.len(),
            all == pending_lines(tasks@),
            words::views(ctx.lines@) == before + all.take(i + 1),
            ctx.has_db == old(ctx).has_db,
            ctx.agent_name == old(ctx).agent_name,
        decreases tasks@.len() - i,
    {
        let head = task_head_text(&tasks[i]);
        let next: &str = match &tasks[i].next_run_at {
            Some(t) => t.as_str(),
            None => "N/A",
        };
        print(ctx, text4(head.as_str(), "next: ", next, ")"));
        assert(words::views(ctx.lines@) =~= before + all.take(i + 2));
        i += 1;
    }
    assert(all.take(all.len() as int) =~= all);
}

// ---------------------------------------------------------------------------
// Messages
// ---------------------------------------------------------------------------

/// The agent that a tool runs for; the default agent where there is none.
pub open spec fn caller(ctx: ToolContext) -> Seq<char> {
    match ctx.agent_name {
        Some(n) => n@,
        None => "default"@,
    }
}

/// The agent that a tool runs for.
pub fn calling_agent(ctx: &ToolContext) -> (r: String)
    ensures
        r@ == caller(*ctx),
{
    match &ctx.agent_name {
        Some(n) => n.clone(),
        None => "default".to_owned(),
    }
}

/// Reports a message that was sent to another agent.
pub fn message_sent(ctx: &mut ToolContext, to: &str, id: i64) -> (r: String)
    ensures
        r@ == json::json_object_of(
            seq![
                ("status"@, Datum::Text("sent"@)),
                ("id"@, Datum::Number(id as int)),
                ("from"@, Datum::Text(caller(*old(ctx)))),
                ("to"@, Datum::Text(to@)),
            ],
        ),
        printed(
            *old(ctx),
            *final(ctx),
            seq![
                "Message sent to agent '"@ + to@ + "' (notification #"@ + numbers::decimal_int(
                    id as int,
                ) + ")"@,
            ],
        ),
{
    let from = calling_agent(ctx);
    let n = signed_text(id);
    print(ctx, text5("Message sent to agent '", to, "' (notification #", n.as_str(), ")"));
    object4(
        text_field("status", "sent"),
        field("id", JsonValue::Number(id)),
        text_field("from", from.as_str()),
        text_field("to", to),
    )
}

// ---------------------------------------------------------------------------
// Sub-agents
// ---------------------------------------------------------------------------

/// Whether a sub-agent can be spawned: the session must allow it, and a database must be there.
pub fn check_spawn(has_context: bool, ctx: &ToolContext) -> (r: Result<(), String>)
    ensures
        r is Ok <==> has_context && ctx.has_db,
        r matches Err(e) ==> e@ == (if !has_context {
            "Sub-agent context not configured"@
        } else {
            "Database required for sub-agents"@
        }),
{
    if !has_context {
        Err("Sub-agent context not configured".to_owned())
    } else if !ctx.has_db {
        Err("Database required for sub-agents".to_owned())
    } else {
        Ok(())
    }
}

/// The description of a new sub-agent.
pub fn subagent_description(name: &str) -> (r: String)
    ensures
        r@ == "Sub-agent: "@ + name@,
{
    text2("Sub-agent: ", name)
}

/// The messages that a sub-agent begins with.
pub open spec fn subagent_prompts(
    name: Seq<char>,
    system_prompt: Option<Seq<char>>,
    prompt: Seq<char>,
) -> Seq<Msg> {
    let head = seq![
        messages::plain_msg(
            "system"@,
            "You are a sub-agent named '"@ + name
                + "'. Complete the task and return a concise result."@,
        ),
    ];
    let own = match system_prompt {
        Some(p) => head.push(messages::plain_msg("system"@, p)),
        None => head,
    };
    own.push(messages::plain_msg("user"@, prompt))
}

fn push_message(list: &mut Vec<Message>, role: &str, content: String)
    ensures
        messages::msg_views(final(list)@) == messages::msg_views(old(list)@).push(
            messages::plain_msg(role@, content@),
        ),
{
    let m = make_message(role, content);
    proof {
        messages::msg_views_push(list@, m);
    }
    list.push(m);
}

/// Prepares a sub-agent: announces it, and returns the messages that it begins with.
pub fn prepare_subagent(ctx: &mut ToolContext, name: &str, config: &AgentConfig, prompt: &str) -> (r:
    Vec<Message>)
    ensures
        messages::msg_views(r@) == subagent_prompts(
            name@,
            json::opt_view(config.system_prompt),
            prompt@,
        ),
        printed(*old(ctx), *final(ctx), seq!["Spawning sub-agent '"@ + name@ + "'..."@]),
{
    let mut list: Vec<Message> = Vec::new();
    push_message(
        &mut list,
        "system",
        text3(
            "You are a sub-agent named '",
            name,
            "'. Complete the task and return a concise result.",
        ),
    );
    match &config.system_prompt {
        Some(p) => {
            push_message(&mut list, "system", p.clone());
        },
        None => {},
    }
    push_message(&mut list, "user", prompt.to_owned());
    assert(messages::msg_views(list@) =~= subagent_prompts(
        name@,
        json::opt_view(config.system_prompt),
        prompt@,
    ));
    print(ctx, text3("Spawning sub-agent '", name, "'..."));
    list
}

/// The options of the requests of a sub-agent: those of its parent, but for its own model and
/// endpoint.
pub fn subagent_opts(opts: RequestOpts, config: &AgentConfig) -> (r: RequestOpts)
    ensures
        r.model@ == (match config.model {
            Some(m) => m@,
            None => opts.model@,
        }),
        r.endpoint@ == (match config.endpoint {
            Some(e) => e@,
            None => opts.endpoint@,
        }),
        r.max_tokens == opts.max_tokens,
        r.tool_choice == opts.tool_choice,
        r.api_key == opts.api_key,
{
    let mut r = opts;
    match &config.model {
        Some(m) => {
            r.model = m.clone();
        },
        None => {},
    }
    match &config.endpoint {
        Some(e) => {
            r.endpoint = e.clone();
        },
        None => {},
    }
    r
}

/// How the request of a sub-agent ended.
pub enum SubagentEnd {
    /// There are choices; the first one may have a content.
    Answered(Option<String>),
    /// The model reported an error.
    Refused(String),
    /// There is neither.
    Empty,
    /// The request failed.
    Failed(String),
}

/// The response of a sub-agent as a text.
pub open spec fn subagent_response(end: SubagentEnd) -> Seq<char> {
    match end {
        SubagentEnd::Answered(c) => match c {
            Some(t) => t@,
            None => "(no response)"@,
        },
        SubagentEnd::Refused(e) => "Error: "@ + e@,
        SubagentEnd::Empty => "(empty response)"@,
        SubagentEnd::Failed(e) => "Error: "@ + e@,
    }
}

/// The response of a sub-agent as a text.
pub fn subagent_text(end: SubagentEnd) -> (r: String)
    ensures
        r@ == subagent_response(end),
{
    match end {
        SubagentEnd::Answered(c) => match c {
            Some(t) => t,
            None => "(no response)".to_owned(),
        },
        SubagentEnd::Refused(e) => text2("Error: ", e.as_str()),
        SubagentEnd::Empty => "(empty response)".to_owned(),
        SubagentEnd::Failed(e) => text2("Error: ", e.as_str()),
    }
}

/// The fields of the result of a sub-agent.
pub open spec fn result_fields(name: Seq<char>, prompt: Seq<char>, response: Seq<char>) -> Seq<
    (Seq<char>, Datum),
> {
    seq![
        ("type"@, Datum::Text("subagent_result"@)),
        ("agent"@, Datum::Text(name)),
        ("prompt"@, Datum::Text(prompt)),
        ("response"@, Datum::Text(response)),
    ]
}

/// The message that tells the parent the result of a sub-agent. The parent that reads it shows the
/// response, and knows that the sub-agent has finished.
pub fn subagent_result(name: &str, prompt: &str, response: &str) -> (r: String)
    ensures
        r@ == json::json_object_of(result_fields(name@, prompt@, response@)),
        forall|from: Seq<char>|
            #![trigger chat_loop::heard(
                from,
                r@,
                json::json_member_of(r@, "type"@),
                json::json_member_of(r@, "agent"@),
                json::json_member_of(r@, "response"@),
            )]
            {
                let h = chat_loop::heard(
                    from,
                    r@,
                    json::json_member_of(r@, "type"@),
                    json::json_member_of(r@, "agent"@),
                    json::json_member_of(r@, "response"@),
                );
                h.shown == response@ && h.finished == Some(name@)
            },
{
    let r = object4(
        text_field("type", "subagent_result"),
        text_field("agent", name),
        text_field("prompt", prompt),
        text_field("response", response),
    );
    proof {
        let f = result_fields(name@, prompt@, response@);
        reveal_strlit("type");
        reveal_strlit("agent");
        reveal_strlit("prompt");
        reveal_strlit("response");
        assert("type"@.len() == 4 && "agent"@.len() == 5 && "prompt"@.len() == 6
            && "response"@.len() == 8);
        assert(json::readable(f));
        assert(json::object_reads_back(f, r@));
        assert(f[0].0 == "type"@ && f[1].0 == "agent"@ && f[3].0 == "response"@);
        assert(json::reads_back(f[0].1, json::json_member_of(r@, "type"@)));
        assert(json::reads_back(f[1].1, json::json_member_of(r@, "agent"@)));
        assert(json::reads_back(f[3].1, json::json_member_of(r@, "response"@)));
    }
    r
}

/// Reports a sub-agent that was spawned.
pub fn subagent_spawned(name: &str, prompt: &str) -> (r: String)
    ensures
        r@ == json::json_object_of(
            seq![
                ("status"@, Datum::Text("spawned"@)),
                ("agent"@, Datum::Text(name@)),
                ("prompt"@, Datum::Text(prompt@)),
            ],
        ),
{
    object3(text_field("status", "spawned"), text_field("agent", name), text_field("prompt", prompt))
}

} // verus!
