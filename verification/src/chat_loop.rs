//! The turns of a chat session: its agents, its input, its requests, and what arrives from
//! elsewhere.

use vstd::prelude::*;
use crate::json;
use crate::json::{json_member, JsonMember, Member};
use crate::messages;
use crate::messages::{copy_messages, FunctionCall, Message, Msg, ToolCall};
use crate::numbers;
use crate::numbers::{signed_text, usize_text};
use crate::options;
use crate::options::{initialize_agent_messages, AgentConfig};
use crate::session;
use crate::session::{push_line, Act, AgentState, ChatAction, ChatReply, Reply};
use crate::summarize;
use crate::summarize::{is_summary, summarize_conversation, Job, SummaryJob};
use crate::text::{same, text2, text3, text4, text5};
use crate::tool_args;
use crate::tool_args::format_tool_output;
use crate::tools::ToolsCollection;
use crate::words;
use crate::words::{join, text_lines, trim_text};

verus! {

// ---------------------------------------------------------------------------
// What is printed
// ---------------------------------------------------------------------------

/// Something that a session prints.
#[derive(Debug, PartialEq, Eq)]
pub enum Output {
    /// A line.
    Line(String),
    /// A text that comes from an agent.
    FromAgent(String, String),
}

/// Something that a session prints.
pub ghost enum Out {
    Line(Seq<char>),
    FromAgent(Seq<char>, Seq<char>),
}

impl View for Output {
    type V = Out;

    open spec fn view(&self) -> Out {
        match self {
            Output::Line(t) => Out::Line(t@),
            Output::FromAgent(a, t) => Out::FromAgent(a@, t@),
        }
    }
}

/// What a list of outputs holds.
pub open spec fn out_views(v: Seq<Output>) -> Seq<Out> {
    Seq::new(v.len(), |i: int| v[i]@)
}

fn push_out(list: &mut Vec<Output>, o: Output)
    ensures
        out_views(final(list)@) == out_views(old(list)@).push(o@),
{
    let ghost before = list@;
    list.push(o);
    assert(out_views(list@) =~= out_views(before).push(o@));
}

fn no_out() -> (r: Vec<Output>)
    ensures
        out_views(r@) == Seq::<Out>::empty(),
{
    let r: Vec<Output> = Vec::new();
    assert(out_views(r@) =~= Seq::<Out>::empty());
    r
}

/// The heading of a text that comes from an agent.
pub fn agent_header(name: &str) -> (r: String)
    ensures
        r@ == "── "@ + name@ + " ──"@,
{
    text3("── ", name, " ──")
}

/// The lines under the heading of a text that comes from an agent: each line indented, and an
/// empty line.
pub open spec fn agent_body(msg: Seq<char>) -> Seq<Seq<char>> {
    let l = words::lines(msg);
    Seq::new(l.len(), |i: int| "  "@ + l[i]).push(""@)
}

/// The lines under the heading of a text that comes from an agent.
pub fn agent_lines(msg: &str) -> (r: Vec<String>)
    ensures
        words::views(r@) == agent_body(msg@),
{
    let l = text_lines(msg);
    let ghost v = words::views(l@);
    let ghost all = Seq::new(v.len(), |i: int| "  "@ + v[i]);
    let mut r: Vec<String> = Vec::new();
    let mut i: usize = 0;
    assert(words::views(r@) =~= all.take(0));
    while i < l.len()
        invariant
            i <= l@.len(),
            v == words::views(l@),
            all == Seq::new(v.len(), |i: int| "  "@ + v[i]),
            words::views(r@) == all.take(i as int),
        decreases l@.len() - i,
    {
        assert(v[i as int] == l@[i as int]@);
        push_line(&mut r, text2("  ", l[i].as_str()));
        assert(all.take(i + 1) =~= all.take(i as int).push(all[i as int]));
        i += 1;
    }
    assert(all.take(v.len() as int) =~= all);
    push_line(&mut r, "".to_owned());
    r
}

// ---------------------------------------------------------------------------
// Starting
// ---------------------------------------------------------------------------

/// The agent that a session starts with.
pub fn starting_agent(agent: &Option<String>) -> (r: String)
    ensures
        r@ == (match *agent {
            Some(a) => a@,
            None => "default"@,
        }),
{
    match agent {
        Some(a) => a.clone(),
        None => "default".to_owned(),
    }
}

/// Whether the agent that a session starts with is yet to be created. The default agent is always
/// there.
pub fn must_create(name: &str, exists: bool) -> (r: bool)
    ensures
        r == (name@ != "default"@ && !exists),
{
    !same(name, "default") && !exists
}

/// Refuses to start with an agent that could not be claimed.
pub fn check_claim(name: &str, claimed: bool) -> (r: Result<(), String>)
    ensures
        r is Ok <==> claimed,
        r matches Err(e) ==> e@ == "Agent '"@ + name@
            + "' is already claimed by another session."@,
{
    if claimed {
        Ok(())
    } else {
        Err(text3("Agent '", name, "' is already claimed by another session."))
    }
}

/// The conversation that an agent goes on with: the stored one, or a new one.
pub open spec fn resumed(loaded: Seq<Msg>, use_tools: bool, prompt: Option<Seq<char>>) -> Seq<Msg> {
    if loaded.len() == 0 {
        options::agent_prompts(use_tools, prompt)
    } else {
        loaded
    }
}

/// The conversation that an agent goes on with: the stored one, or a new one.
pub fn resume_messages(
    loaded: Vec<Message>,
    tools: &ToolsCollection,
    config: &AgentConfig,
) -> (r: Vec<Message>)
    ensures
        messages::msg_views(r@) == resumed(
            messages::msg_views(loaded@),
            tools.list().len() > 0,
            options::opt_str(config.system_prompt),
        ),
{
    assert(messages::msg_views(loaded@).len() == loaded@.len());
    if loaded.len() == 0 {
        initialize_agent_messages(tools, config)
    } else {
        loaded
    }
}

// ---------------------------------------------------------------------------
// Agents
// ---------------------------------------------------------------------------

fn reply(line: String, action: ChatAction) -> (r: ChatReply)
    ensures
        r@ == (Reply { lines: seq![line@], action: action@ }),
{
    let mut lines: Vec<String> = Vec::new();
    push_line(&mut lines, line);
    assert(words::views(lines@) =~= seq![line@]);
    ChatReply { lines, action }
}

fn quiet(action: ChatAction) -> (r: ChatReply)
    ensures
        r@ == session::silent(action@),
{
    let r = ChatReply { lines: Vec::new(), action };
    assert(words::views(r.lines@) =~= Seq::<Seq<char>>::empty());
    r
}

/// What is said of a new agent.
pub open spec fn created_line(name: Seq<char>, error: Option<Seq<char>>) -> Seq<char> {
    match error {
        None => "Agent '"@ + name + "' created. Use /select-agent "@ + name + " to switch."@,
        Some(e) => "Failed to create agent: "@ + e,
    }
}

/// The names of the agents with one more, where it is not there yet.
pub open spec fn with_name(names: Seq<Seq<char>>, name: Seq<char>) -> Seq<Seq<char>> {
    if names.contains(name) {
        names
    } else {
        names.push(name)
    }
}

fn knows(names: &[String], name: &str) -> (r: bool)
    ensures
        r == words::views(names@).contains(name@),
{
    let mut i: usize = 0;
    while i < names.len()
        invariant
            i <= names@.len(),
            forall|j: int| 0 <= j < i ==> #[trigger] words::views(names@)[j] != name@,
        decreases names@.len() - i,
    {
        if same(names[i].as_str(), name) {
            assert(words::views(names@)[i as int] == name@);
            return true;
        }
        i += 1;
    }
    false
}

/// Answers a creation of an agent, which failed with the error or was done.
pub fn agent_created(name: &str, error: Option<String>, names: &mut Vec<String>) -> (r: ChatReply)
    ensures
        r@ == session::said(created_line(name@, json::opt_view(error))),
        words::views(final(names)@) == (if error is None {
            with_name(words::views(old(names)@), name@)
        } else {
            words::views(old(names)@)
        }),
{
    match error {
        None => {
            if !knows(names.as_slice(), name) {
                push_line(names, name.to_owned());
            }
            reply(
                text5("Agent '", name, "' created. Use /select-agent ", name, " to switch."),
                ChatAction::Continue,
            )
        },
        Some(e) => reply(text2("Failed to create agent: ", e.as_str()), ChatAction::Continue),
    }
}

/// Answers whether the agent to switch to was found: then it is to be claimed.
pub fn agent_found(name: String, found: bool) -> (r: ChatReply)
    ensures
        r@ == (if found {
            session::silent(Act::ClaimAgent(name@))
        } else {
            session::said(
                "Agent '"@ + name@ + "' not found. Use /create-agent "@ + name@ + " first."@,
            )
        }),
{
    if found {
        quiet(ChatAction::ClaimAgent(name))
    } else {
        let n = name.as_str();
        let line = text5("Agent '", n, "' not found. Use /create-agent ", n, " first.");
        reply(line, ChatAction::Continue)
    }
}

/// Answers whether the agent to switch to was claimed: then the session switches to it.
pub fn agent_claimed(name: String, claimed: bool) -> (r: ChatReply)
    ensures
        r@ == (if claimed {
            session::silent(Act::SwitchAgent(name@))
        } else {
            session::said("Agent '"@ + name@ + "' is already claimed by another session."@)
        }),
{
    if claimed {
        quiet(ChatAction::SwitchAgent(name))
    } else {
        let line = text3("Agent '", name.as_str(), "' is already claimed by another session.");
        reply(line, ChatAction::Continue)
    }
}

/// Switches to an agent, with its stored conversation and its configuration.
pub fn agent_switched(
    agent: &mut AgentState,
    name: String,
    config: &AgentConfig,
    loaded: Vec<Message>,
    tools: &ToolsCollection,
) -> (r: ChatReply)
    ensures
        final(agent).name == name,
        messages::msg_views(final(agent).messages@) == resumed(
            messages::msg_views(loaded@),
            tools.list().len() > 0,
            options::opt_str(config.system_prompt),
        ),
        r@ == session::said("Switched to agent '"@ + name@ + "'.\n"@),
{
    let line = text3("Switched to agent '", name.as_str(), "'.\n");
    agent.messages = resume_messages(loaded, tools, config);
    agent.name = name;
    reply(line, ChatAction::Continue)
}

/// The names without one.
pub open spec fn without_name(names: Seq<Seq<char>>, name: Seq<char>) -> Seq<Seq<char>> {
    names.filter(|n: Seq<char>| n != name)
}

/// Takes a name out of the names of the agents.
pub fn forget_agent(names: &mut Vec<String>, name: &str)
    ensures
        words::views(final(names)@) == without_name(words::views(old(names)@), name@),
{
    let ghost v = words::views(names@);
    let ghost keep = |n: Seq<char>| n != name@;
    let mut kept: Vec<String> = Vec::new();
    let mut i: usize = 0;
    proof {
        reveal(Seq::filter);
        assert(words::views(kept@) =~= v.take(0).filter(keep));
    }
    while i < names.len()
        invariant
            i <= names@.len(),
            v == words::views(names@),
            names@ == old(names)@,
            keep == (|n: Seq<char>| n != name@),
            words::views(kept@) == v.take(i as int).filter(keep),
        decreases names@.len() - i,
    {
        proof {
            reveal(Seq::filter);
            assert(v.take(i + 1).drop_last() =~= v.take(i as int));
            assert(v.take(i + 1).last() == names@[i as int]@);
        }
        if !same(names[i].as_str(), name) {
            push_line(&mut kept, names[i].clone());
        }
        i += 1;
    }
    assert(v.take(v.len() as int) =~= v);
    *names = kept;
}

/// Answers a deletion of an agent.
pub fn agent_deleted(name: &str, deleted: bool, names: &mut Vec<String>) -> (r: ChatReply)
    ensures
        r@ == session::said(
            if deleted {
                "Agent '"@ + name@ + "' deleted."@
            } else {
                "Agent '"@ + name@ + "' not found."@
            },
        ),
        words::views(final(names)@) == (if deleted {
            without_name(words::views(old(names)@), name@)
        } else {
            words::views(old(names)@)
        }),
{
    if deleted {
        forget_agent(names, name);
        reply(text3("Agent '", name, "' deleted."), ChatAction::Continue)
    } else {
        reply(text3("Agent '", name, "' not found."), ChatAction::Continue)
    }
}

/// Answers that the tools of the servers were listed anew, or why not.
pub fn mcp_refreshed(result: Result<usize, String>) -> (r: ChatReply)
    ensures
        r@ == session::said(
            match result {
                Ok(n) => "MCP tools refreshed: "@ + numbers::decimal(n as nat)
                    + " tools available"@,
                Err(e) => "MCP refresh failed: "@ + e@,
            },
        ),
{
    match result {
        Ok(n) => {
            let count = usize_text(n);
            reply(
                text3("MCP tools refreshed: ", count.as_str(), " tools available"),
                ChatAction::Continue,
            )
        },
        Err(e) => reply(text2("MCP refresh failed: ", e.as_str()), ChatAction::Continue),
    }
}

// ---------------------------------------------------------------------------
// Input
// ---------------------------------------------------------------------------

/// How a session waits for input: whether the prompt is shown, whether output goes straight to the
/// terminal, and whether the status line is paused.
#[derive(Clone, Copy, Debug, PartialEq, Eq, Structural)]
pub struct InputState {
    pub prompt_shown: bool,
    pub direct: bool,
    pub paused: bool,
}

/// What comes of waiting for a line.
#[derive(Debug, PartialEq, Eq)]
pub enum InputEvent {
    Line(String),
    Interrupted,
    Eof,
    Failed(String),
    Timeout,
    Disconnected,
}

/// What follows.
#[derive(Debug, PartialEq, Eq)]
pub enum InputStep {
    /// The line is to be carried out.
    Process(String),
    /// The session goes on waiting.
    Wait,
    /// The session ends, and its agents are given up.
    Leave,
    /// The session ends with an error.
    Fail(String),
}

/// What follows.
pub ghost enum Next {
    Process(Seq<char>),
    Wait,
    Leave,
    Fail(Seq<char>),
}

impl View for InputStep {
    type V = Next;

    open spec fn view(&self) -> Next {
        match self {
            InputStep::Process(t) => Next::Process(t@),
            InputStep::Wait => Next::Wait,
            InputStep::Leave => Next::Leave,
            InputStep::Fail(t) => Next::Fail(t@),
        }
    }
}

impl InputState {
    /// A session that has not asked for input yet.
    pub fn new() -> (r: Self)
        ensures
            r == (InputState { prompt_shown: false, direct: true, paused: false }),
    {
        InputState { prompt_shown: false, direct: true, paused: false }
    }

    /// Shows the prompt, where it is not shown yet. Says whether a line is to be asked for, and
    /// what is printed before.
    pub fn ask(&mut self, subagents: usize) -> (r: (bool, Option<String>))
        ensures
            *final(self) == (if old(self).prompt_shown {
                *old(self)
            } else {
                InputState { prompt_shown: true, direct: false, paused: true }
            }),
            r.0 == !old(self).prompt_shown,
            json::opt_view(r.1) == (if r.0 && subagents > 0 {
                Some(
                    "  "@ + numbers::decimal(subagents as nat)
                        + " subagent(s) running in background..."@,
                )
            } else {
                None
            }),
    {
        if self.prompt_shown {
            return (false, None);
        }
        self.prompt_shown = true;
        self.direct = false;
        self.paused = true;
        if subagents > 0 {
            let n = usize_text(subagents);
            (true, Some(text3("  ", n.as_str(), " subagent(s) running in background...")))
        } else {
            (true, None)
        }
    }

    /// Takes what came of waiting for a line.
    pub fn take(&mut self, event: InputEvent) -> (r: InputStep)
        ensures
            r@ == (match event {
                InputEvent::Line(l) => Next::Process(words::trimmed(l@)),
                InputEvent::Interrupted => Next::Wait,
                InputEvent::Eof => Next::Leave,
                InputEvent::Failed(e) => Next::Fail(e@),
                InputEvent::Timeout => Next::Wait,
                InputEvent::Disconnected => Next::Leave,
            }),
            *final(self) == (match event {
                InputEvent::Timeout => *old(self),
                InputEvent::Disconnected => InputState { paused: false, ..*old(self) },
                InputEvent::Line(_) => InputState {
                    prompt_shown: false,
                    direct: true,
                    paused: false,
                },
                InputEvent::Interrupted => InputState {
                    prompt_shown: false,
                    direct: true,
                    paused: false,
                },
                _ => InputState { direct: true, paused: false, ..*old(self) },
            }),
    {
        match event {
            InputEvent::Line(l) => {
                self.prompt_shown = false;
                self.direct = true;
                self.paused = false;
                InputStep::Process(trim_text(l.as_str()))
            },
            InputEvent::Interrupted => {
                self.prompt_shown = false;
                self.direct = true;
                self.paused = false;
                InputStep::Wait
            },
            InputEvent::Eof => {
                self.direct = true;
                self.paused = false;
                InputStep::Leave
            },
            InputEvent::Failed(e) => {
                self.direct = true;
                self.paused = false;
                InputStep::Fail(e)
            },
            InputEvent::Timeout => InputStep::Wait,
            InputEvent::Disconnected => {
                self.paused = false;
                InputStep::Leave
            },
        }
    }
}

// ---------------------------------------------------------------------------
// Scheduled tasks
// ---------------------------------------------------------------------------

/// The call that a scheduled command stands for: the name of a tool and its arguments.
pub open spec fn scheduled(tool: Member, arguments: Member) -> Option<(Seq<char>, Seq<char>)> {
    match tool {
        Member::Text(name) => if name.len() == 0 {
            None
        } else {
            Some(
                (
                    name,
                    match arguments {
                        Member::Text(a) => a,
                        Member::Other(a) => a,
                        _ => "{}"@,
                    },
                ),
            )
        },
        _ => None,
    }
}

/// The identifier of a scheduled call.
pub open spec fn scheduled_id(now_ms: i64) -> Seq<char> {
    "scheduled-task-"@ + numbers::decimal_int(now_ms as int)
}

/// The call that a scheduled command stands for, given what the command holds as JSON.
pub fn scheduled_call(tool: JsonMember, arguments: JsonMember, now_ms: i64) -> (r: Option<ToolCall>)
    ensures
        match r {
            Some(c) => match scheduled(tool@, arguments@) {
                Some((name, args)) => c@ == (messages::Call {
                    index: None,
                    id: scheduled_id(now_ms),
                    tool_type: "function"@,
                    name,
                    arguments: args,
                }),
                None => false,
            },
            None => scheduled(tool@, arguments@) is None,
        },
{
    match tool {
        JsonMember::Text(name) => {
            if name.as_str().is_empty() {
                return None;
            }
            let arguments = match arguments {
                JsonMember::Text(a) => a,
                JsonMember::Other(a) => a,
                _ => "{}".to_owned(),
            };
            let id = text2("scheduled-task-", signed_text(now_ms).as_str());
            Some(
                ToolCall {
                    index: None,
                    id,
                    tool_type: "function".to_owned(),
                    function: FunctionCall { name, arguments },
                },
            )
        },
        _ => None,
    }
}

/// The call that a scheduled command stands for: a JSON object with the name of a tool under
/// `tool` and its arguments under `arguments`.
pub fn execute_scheduled_command(command: &str, now_ms: i64) -> (r: Option<ToolCall>)
    ensures
        match r {
            Some(c) => match scheduled(
                json::json_member_of(command@, "tool"@),
                json::json_member_of(command@, "arguments"@),
            ) {
                Some((name, args)) => c@ == (messages::Call {
                    index: None,
                    id: scheduled_id(now_ms),
                    tool_type: "function"@,
                    name,
                    arguments: args,
                }),
                None => false,
            },
            None => scheduled(
                json::json_member_of(command@, "tool"@),
                json::json_member_of(command@, "arguments"@),
            ) is None,
        },
{
    let tool = json_member(command, "tool");
    let arguments = json_member(command, "arguments");
    scheduled_call(tool, arguments, now_ms)
}

/// The messages that record a scheduled call and what came of it.
pub fn scheduled_messages(call: ToolCall, result: Result<Message, String>) -> (r: (
    Message,
    Message,
))
    ensures
        r.0@ == (Msg {
            role: "assistant"@,
            content: None,
            tool_call_id: None,
            name: None,
            calls: Some(seq![call@]),
        }),
        match result {
            Ok(m) => r.1 == m,
            Err(e) => r.1@ == (Msg {
                role: "tool"@,
                content: Some("error: "@ + e@),
                tool_call_id: Some(call@.id),
                name: Some(call@.name),
                calls: None,
            }),
        },
{
    let tool = match result {
        Ok(m) => m,
        Err(e) => Message {
            role: "tool".to_owned(),
            content: Some(text2("error: ", e.as_str())),
            tool_call_id: Some(call.id.clone()),
            name: Some(call.function.name.clone()),
            tool_calls: None,
        },
    };
    let calls = vec![call];
    assert(messages::call_views(calls@) =~= seq![call@]);
    let assistant = Message {
        role: "assistant".to_owned(),
        content: None,
        tool_call_id: None,
        name: None,
        tool_calls: Some(calls),
    };
    (assistant, tool)
}

/// What a session does when a scheduled task has run: what it prints, and the messages that are to
/// be stored for another agent.
pub struct TaskReport {
    pub target: String,
    pub output: Vec<Output>,
    pub stored: Vec<Message>,
}

/// The agent that a task belongs to.
pub open spec fn task_target(agent: Option<Seq<char>>) -> Seq<char> {
    match agent {
        Some(a) => a,
        None => "default"@,
    }
}

/// What is printed of a task.
pub open spec fn task_output(
    target: Seq<char>,
    command: Seq<char>,
    content: Option<Seq<char>>,
) -> Seq<Out> {
    let fired = seq![Out::FromAgent(target, "Scheduled task fired: "@ + command)];
    match content {
        Some(c) => fired.push(
            Out::FromAgent(
                target,
                tool_args::shown_output(
                    c,
                    tool_args::member_text(json::json_member_of(c, "stdout"@)),
                    tool_args::member_text(json::json_member_of(c, "stderr"@)),
                ),
            ),
        ),
        None => fired,
    }
}

/// Takes note of a task that has run. Its messages join the conversation of the active agent, or
/// are stored for the agent that it belongs to.
pub fn task_fired(
    active: &mut AgentState,
    agent: Option<String>,
    command: &str,
    assistant: Message,
    tool: Message,
    has_db: bool,
) -> (r: TaskReport)
    ensures
        r.target@ == task_target(json::opt_view(agent)),
        out_views(r.output@) == task_output(r.target@, command@, tool@.content),
        final(active).name == old(active).name,
        ({
            let before = messages::msg_views(old(active).messages@);
            let after = messages::msg_views(final(active).messages@);
            let pair = seq![assistant@, tool@];
            if r.target@ == old(active).name@ {
                after == before + pair && r.stored@.len() == 0
            } else {
                after == before && messages::msg_views(r.stored@) == (if has_db {
                    pair
                } else {
                    Seq::empty()
                })
            }
        }),
{
    let target = match agent {
        Some(a) => a,
        None => "default".to_owned(),
    };
    let mut output = no_out();
    push_out(
        &mut output,
        Output::FromAgent(target.clone(), text2("Scheduled task fired: ", command)),
    );
    match &tool.content {
        Some(c) => {
            push_out(
                &mut output,
                Output::FromAgent(target.clone(), format_tool_output(c.as_str())),
            );
        },
        None => {},
    }
    assert(out_views(output@) =~= task_output(target@, command@, tool@.content));
    let ghost pair = seq![assistant@, tool@];
    let ghost before = messages::msg_views(active.messages@);
    let mut stored: Vec<Message> = Vec::new();
    assert(messages::msg_views(stored@) =~= Seq::<Msg>::empty());
    if same(target.as_str(), active.name.as_str()) {
        active.messages.push(assistant);
        active.messages.push(tool);
        assert(messages::msg_views(active.messages@) =~= before + pair);
    } else if has_db {
        stored.push(assistant);
        stored.push(tool);
        assert(messages::msg_views(stored@) =~= pair);
    }
    TaskReport { target, output, stored }
}

// ---------------------------------------------------------------------------
// Notifications
// ---------------------------------------------------------------------------

/// A message from another agent.
pub struct Notice {
    /// What is shown of it.
    pub shown: String,
    /// The sub-agent that has finished, which is then deleted.
    pub finished: Option<String>,
    /// What the active agent is told.
    pub injection: String,
}

/// A message from another agent.
pub ghost struct Heard {
    pub shown: Seq<char>,
    pub finished: Option<Seq<char>>,
    pub injection: Seq<char>,
}

impl View for Notice {
    type V = Heard;

    open spec fn view(&self) -> Heard {
        Heard {
            shown: self.shown@,
            finished: json::opt_view(self.finished),
            injection: self.injection@,
        }
    }
}

/// What a message from another agent amounts to, given what it holds as JSON: of the result of a
/// sub-agent the response is shown, of any other message the whole text.
pub open spec fn heard(
    from: Seq<char>,
    message: Seq<char>,
    kind: Member,
    agent: Member,
    response: Member,
) -> Heard {
    let injection = "[Message from agent '"@ + from + "']: "@ + message;
    if kind == Member::Text("subagent_result"@) {
        Heard {
            shown: match response {
                Member::Text(t) => t,
                _ => message,
            },
            finished: match agent {
                Member::Text(t) => Some(t),
                _ => None,
            },
            injection,
        }
    } else {
        Heard { shown: message, finished: None, injection }
    }
}

/// What a message from another agent amounts to, given what it holds as JSON.
pub fn notice_of(
    from: &str,
    message: &str,
    kind: JsonMember,
    agent: JsonMember,
    response: JsonMember,
) -> (r: Notice)
    ensures
        r@ == heard(from@, message@, kind@, agent@, response@),
{
    let injection = text4("[Message from agent '", from, "']: ", message);
    let is_result = match &kind {
        JsonMember::Text(t) => same(t.as_str(), "subagent_result"),
        _ => false,
    };
    if is_result {
        let shown = match response {
            JsonMember::Text(t) => t,
            _ => message.to_owned(),
        };
        let finished = match agent {
            JsonMember::Text(t) => Some(t),
            _ => None,
        };
        Notice { shown, finished, injection }
    } else {
        Notice { shown: message.to_owned(), finished: None, injection }
    }
}

/// Reads a message from another agent.
pub fn read_notification(from: &str, message: &str) -> (r: Notice)
    ensures
        r@ == heard(
            from@,
            message@,
            json::json_member_of(message@, "type"@),
            json::json_member_of(message@, "agent"@),
            json::json_member_of(message@, "response"@),
        ),
{
    let kind = json_member(message, "type");
    let agent = json_member(message, "agent");
    let response = json_member(message, "response");
    notice_of(from, message, kind, agent, response)
}

/// What the active agent is told of all messages that came in, or nothing where none did.
pub fn join_injections(injections: &[String]) -> (r: Option<String>)
    ensures
        json::opt_view(r) == (if injections@.len() == 0 {
            None
        } else {
            Some(words::joined(words::views(injections@), "\n"@))
        }),
{
    if injections.len() == 0 {
        None
    } else {
        Some(join(injections, "\n"))
    }
}

// ---------------------------------------------------------------------------
// Requests
// ---------------------------------------------------------------------------

/// How a request ended.
#[derive(Debug, PartialEq, Eq)]
pub enum RequestEnd<T> {
    Answered(T),
    /// The conversation does not fit into the context window. It comes back as it was then, with
    /// the work done since it was sent.
    Overflowed(String, Vec<Message>),
    Interrupted(String),
    Failed(String),
}

/// How a request ended.
pub ghost enum End<T> {
    Answered(T),
    Overflowed(Seq<char>, Seq<Msg>),
    Interrupted(Seq<char>),
    Failed(Seq<char>),
}

impl<T> View for RequestEnd<T> {
    type V = End<T>;

    open spec fn view(&self) -> End<T> {
        match self {
            RequestEnd::Answered(t) => End::Answered(*t),
            RequestEnd::Overflowed(e, h) => End::Overflowed(e@, messages::msg_views(h@)),
            RequestEnd::Interrupted(e) => End::Interrupted(e@),
            RequestEnd::Failed(e) => End::Failed(e@),
        }
    }
}

/// Why a request did not succeed.
#[derive(Debug, PartialEq, Eq)]
pub enum RequestError {
    Interrupted(String),
    Failed(String),
}

/// Why a request did not succeed.
pub ghost enum Fault {
    Interrupted(Seq<char>),
    Failed(Seq<char>),
}

impl View for RequestError {
    type V = Fault;

    open spec fn view(&self) -> Fault {
        match self {
            RequestError::Interrupted(e) => Fault::Interrupted(e@),
            RequestError::Failed(e) => Fault::Failed(e@),
        }
    }
}

/// A request that is to be repeated: why it failed, and how many messages are summarized before.
#[derive(Debug, PartialEq, Eq)]
pub struct Retry {
    pub error: String,
    pub count: usize,
}

/// What follows the first attempt at a request.
pub enum FirstStep<T> {
    Done(T),
    /// The conversation is to be summarized, and the request repeated.
    Summarize(SummaryJob, Retry),
    Fail(RequestError),
}

/// What follows the first attempt at a request; before a repetition, what is summarized, why the
/// attempt failed, and how many messages there were.
pub ghost enum First<T> {
    Done(T),
    Summarize(Job, Seq<char>, nat),
    Fail(Fault),
}

impl<T> View for FirstStep<T> {
    type V = First<T>;

    open spec fn view(&self) -> First<T> {
        match self {
            FirstStep::Done(t) => First::Done(*t),
            FirstStep::Summarize(job, retry) => First::Summarize(
                job@,
                retry.error@,
                retry.count as nat,
            ),
            FirstStep::Fail(e) => First::Fail(e@),
        }
    }
}

/// The error where a request fails, and then the summary.
pub open spec fn both_errors(error: Seq<char>, summary: Seq<char>) -> Seq<char> {
    error + " (summarization failed: "@ + summary + ")"@
}

/// What follows the first attempt at a request. A conversation that does not fit is summarized as
/// it came back, and its last user message is kept.
pub open spec fn first_step<T>(end: End<T>) -> First<T> {
    match end {
        End::Answered(t) => First::Done(t),
        End::Overflowed(e, h) => if summarize::summaries_of(h).len() + summarize::talk_of(h).len()
            > 0 {
            First::Summarize(summarize::job_of(h, true), e, h.len())
        } else {
            First::Fail(Fault::Failed(both_errors(e, "Nothing to summarize."@)))
        },
        End::Interrupted(e) => First::Fail(Fault::Interrupted(e)),
        End::Failed(e) => First::Fail(Fault::Failed(e)),
    }
}

/// What the first attempt at a request sends: the conversation.
pub fn first_request(agent: &AgentState) -> (r: Vec<Message>)
    ensures
        messages::msg_views(r@) == messages::msg_views(agent.messages@),
{
    let r = copy_messages(agent.messages.as_slice(), 0, agent.messages.len());
    proof {
        let v = messages::msg_views(agent.messages@);
        assert(v.subrange(0, v.len() as int) =~= v);
    }
    r
}

/// What follows the first attempt at a request, and what is said of it.
pub fn after_first<T>(end: RequestEnd<T>) -> (r: (FirstStep<T>, Option<String>))
    ensures
        r.0@ == first_step(end@),
        json::opt_view(r.1) == (if end is Overflowed {
            Some("Context length exceeded, summarizing the conversation and retrying..."@)
        } else {
            None
        }),
{
    match end {
        RequestEnd::Answered(t) => (FirstStep::Done(t), None),
        RequestEnd::Overflowed(error, history) => {
            let line =
                "Context length exceeded, summarizing the conversation and retrying...".to_owned();
            let step = match summarize_conversation(history.as_slice(), true) {
                Ok(job) => FirstStep::Summarize(job, Retry { error, count: history.len() }),
                Err(t) => FirstStep::Fail(
                    RequestError::Failed(
                        text4(error.as_str(), " (summarization failed: ", t.as_str(), ")"),
                    ),
                ),
            };
            (step, Some(line))
        },
        RequestEnd::Interrupted(e) => (FirstStep::Fail(RequestError::Interrupted(e)), None),
        RequestEnd::Failed(e) => (FirstStep::Fail(RequestError::Failed(e)), None),
    }
}

/// What the second attempt at a request sends, and what is printed before.
#[derive(Debug, PartialEq, Eq)]
pub struct SecondRequest {
    pub messages: Vec<Message>,
    pub lines: Vec<String>,
}

/// What a request fails with where the summary does.
pub open spec fn summary_fault(error: Seq<char>, fault: Fault) -> Fault {
    match fault {
        Fault::Interrupted(t) => Fault::Interrupted(t),
        Fault::Failed(t) => Fault::Failed(both_errors(error, t)),
    }
}

/// What follows the summary. The agent goes on with the summary, which the second attempt sends; or
/// the agent keeps its conversation, and the request fails with both errors.
pub fn after_summary(
    agent: &mut AgentState,
    retry: Retry,
    summary: Result<Vec<Message>, RequestError>,
) -> (r: Result<SecondRequest, RequestError>)
    ensures
        match summary {
            Ok(s) => match r {
                Ok(second) => {
                    &&& final(agent).messages == s
                    &&& final(agent).name == old(agent).name
                    &&& messages::msg_views(second.messages@) == messages::msg_views(s@)
                    &&& words::views(second.lines@) == summary_lines(
                        retry.count as nat,
                        messages::msg_views(s@),
                    )
                },
                Err(_) => false,
            },
            Err(f) => match r {
                Ok(_) => false,
                Err(e) => *final(agent) == *old(agent) && e@ == summary_fault(retry.error@, f@),
            },
        },
{
    match summary {
        Ok(s) => {
            let lines = history_summarized(agent, retry.count, s);
            Ok(SecondRequest { messages: first_request(agent), lines })
        },
        Err(RequestError::Interrupted(t)) => Err(RequestError::Interrupted(t)),
        Err(RequestError::Failed(t)) => Err(
            RequestError::Failed(
                text4(retry.error.as_str(), " (summarization failed: ", t.as_str(), ")"),
            ),
        ),
    }
}

/// What the second attempt at a request gives.
pub open spec fn second_result<T>(end: End<T>) -> Result<T, Fault> {
    match end {
        End::Answered(t) => Ok(t),
        End::Overflowed(e, _) => Err(Fault::Failed(e)),
        End::Interrupted(e) => Err(Fault::Interrupted(e)),
        End::Failed(e) => Err(Fault::Failed(e)),
    }
}

/// What follows the second attempt at a request: its result counts, and it is not repeated again.
pub fn after_second<T>(end: RequestEnd<T>) -> (r: Result<T, RequestError>)
    ensures
        match r {
            Ok(t) => second_result(end@) == Ok::<T, Fault>(t),
            Err(e) => second_result(end@) == Err::<T, Fault>(e@),
        },
{
    match end {
        RequestEnd::Answered(t) => Ok(t),
        RequestEnd::Overflowed(e, _) => Err(RequestError::Failed(e)),
        RequestEnd::Interrupted(e) => Err(RequestError::Interrupted(e)),
        RequestEnd::Failed(e) => Err(RequestError::Failed(e)),
    }
}

/// What a request gives, and the conversation that the agent is left with. `first` and `second` say
/// how the two attempts end for the conversation that they send, and `summary` what comes of a
/// summary.
pub open spec fn requested<T>(
    sent: Seq<Msg>,
    first: spec_fn(Seq<Msg>) -> End<T>,
    summary: spec_fn(Job) -> Result<Seq<Msg>, Fault>,
    second: spec_fn(Seq<Msg>) -> End<T>,
) -> (Result<T, Fault>, Seq<Msg>) {
    match first_step(first(sent)) {
        First::Done(t) => (Ok(t), sent),
        First::Fail(f) => (Err(f), sent),
        First::Summarize(job, error, _) => match summary(job) {
            Ok(s) => (second_result(second(s)), s),
            Err(f) => (Err(summary_fault(error, f)), sent),
        },
    }
}

/// A request that ends otherwise than for want of room is not repeated, and leaves the conversation
/// as it is. For want of room the conversation is summarized as it came back, with the work of the
/// failed turn; the summary takes its place and is sent, once, and what comes of that counts.
/// Where there is no summary, nothing is sent again and the conversation stays.
pub proof fn what_does_not_fit_is_summarized_once<T>(
    sent: Seq<Msg>,
    first: spec_fn(Seq<Msg>) -> End<T>,
    summary: spec_fn(Job) -> Result<Seq<Msg>, Fault>,
    second: spec_fn(Seq<Msg>) -> End<T>,
)
    ensures
        ({
            let (result, left) = requested(sent, first, summary, second);
            match first(sent) {
                End::Answered(t) => result == Ok::<T, Fault>(t) && left == sent,
                End::Interrupted(e) => result == Err::<T, Fault>(Fault::Interrupted(e)) && left
                    == sent,
                End::Failed(e) => result == Err::<T, Fault>(Fault::Failed(e)) && left == sent,
                End::Overflowed(_, h) => if summarize::summaries_of(h).len() + summarize::talk_of(
                    h,
                ).len() == 0 {
                    result is Err && left == sent
                } else {
                    match summary(summarize::job_of(h, true)) {
                        Ok(s) => result == second_result(second(s)) && left == s,
                        Err(_) => result is Err && left == sent,
                    }
                },
            }
        }),
{
}

/// What is said when an operation is interrupted.
pub const INTERRUPTED_LINE: &'static str = "Operation interrupted. Type your next message or /quit to exit.";

/// What is said when a response was cut off.
pub const TRUNCATED_LINE: &'static str = "Warning: the response was cut off (finish reason: length).  The token limit or the context window was reached; try /summarize, /clear or fewer tools.";

/// A warning where the model stopped because it ran out of tokens.
pub fn warn_if_truncated(finish_reason: Option<&str>) -> (r: Option<String>)
    ensures
        json::opt_view(r) == (if finish_reason is Some && finish_reason->0@ == "length"@ {
            Some(TRUNCATED_LINE@)
        } else {
            None
        }),
{
    match finish_reason {
        Some(f) => {
            if same(f, "length") {
                Some(TRUNCATED_LINE.to_owned())
            } else {
                None
            }
        },
        None => None,
    }
}

/// What is printed of a response.
pub open spec fn response_output(
    name: Seq<char>,
    finish_reason: Option<Seq<char>>,
    content: Option<Seq<char>>,
    injected: bool,
) -> Seq<Out> {
    let warning = if finish_reason == Some("length"@) {
        seq![Out::Line(TRUNCATED_LINE@)]
    } else {
        Seq::empty()
    };
    match content {
        Some(c) => if injected {
            warning.push(Out::FromAgent(name, c))
        } else {
            warning
        },
        None => warning,
    }
}

/// Takes the response to a request: the conversation goes on with its history. The answer itself is
/// printed only where the request was not typed by the user; otherwise it was printed as it came
/// in.
pub fn response_received(
    agent: &mut AgentState,
    history: Vec<Message>,
    finish_reason: Option<&str>,
    content: Option<&str>,
    injected: bool,
) -> (r: Vec<Output>)
    ensures
        final(agent).messages == history,
        final(agent).name == old(agent).name,
        out_views(r@) == response_output(
            old(agent).name@,
            match finish_reason {
                Some(f) => Some(f@),
                None => None,
            },
            match content {
                Some(c) => Some(c@),
                None => None,
            },
            injected,
        ),
{
    let mut output = no_out();
    match warn_if_truncated(finish_reason) {
        Some(line) => {
            push_out(&mut output, Output::Line(line));
        },
        None => {},
    }
    match content {
        Some(c) => {
            if injected {
                push_out(&mut output, Output::FromAgent(agent.name.clone(), c.to_owned()));
            }
        },
        None => {},
    }
    agent.messages = history;
    assert(out_views(output@) =~= response_output(
        agent.name@,
        match finish_reason {
            Some(f) => Some(f@),
            None => None,
        },
        match content {
            Some(c) => Some(c@),
            None => None,
        },
        injected,
    ));
    output
}

/// What is printed when a request fails. Of an interruption nothing more is said.
pub fn request_failed(error: RequestError, injected: bool) -> (r: Option<String>)
    ensures
        json::opt_view(r) == (match error {
            RequestError::Interrupted(_) => None,
            RequestError::Failed(e) => Some(
                (if injected {
                    "Error processing notification: "@
                } else {
                    "Error: "@
                }) + e@,
            ),
        }),
{
    match error {
        RequestError::Interrupted(_) => None,
        RequestError::Failed(e) => {
            if injected {
                Some(text2("Error processing notification: ", e.as_str()))
            } else {
                Some(text2("Error: ", e.as_str()))
            }
        },
    }
}

/// The first summary of a conversation.
pub open spec fn first_summary(v: Seq<Msg>, i: int) -> Option<Msg>
    decreases v.len() - i,
{
    if 0 <= i < v.len() {
        if summarize::summary_msg(v[i]) {
            Some(v[i])
        } else {
            first_summary(v, i + 1)
        }
    } else {
        None
    }
}

/// What is printed when a conversation was summarized.
pub open spec fn summary_lines(before: nat, v: Seq<Msg>) -> Seq<Seq<char>> {
    let counts = seq![
        "Conversation summarized: "@ + numbers::decimal(before) + " messages -> "@
            + numbers::decimal(v.len()) + "."@,
    ];
    match first_summary(v, 0) {
        Some(m) => counts.push(summarize::content_or_empty(m)),
        None => counts,
    }
}

/// Goes on with a summary in place of the conversation.
pub fn history_summarized(agent: &mut AgentState, before: usize, summarized: Vec<Message>) -> (r:
    Vec<String>)
    ensures
        final(agent).messages == summarized,
        final(agent).name == old(agent).name,
        words::views(r@) == summary_lines(before as nat, messages::msg_views(summarized@)),
{
    let ghost v = messages::msg_views(summarized@);
    let mut lines: Vec<String> = Vec::new();
    let a = usize_text(before);
    let b = usize_text(summarized.len());
    push_line(
        &mut lines,
        text5("Conversation summarized: ", a.as_str(), " messages -> ", b.as_str(), "."),
    );
    let ghost counts = words::views(lines@);
    let mut i: usize = 0;
    while i < summarized.len() && !is_summary(&summarized[i])
        invariant
            i <= summarized@.len(),
            v == messages::msg_views(summarized@),
            first_summary(v, 0) == first_summary(v, i as int),
        decreases summarized@.len() - i,
    {
        assert(v[i as int] == summarized@[i as int]@);
        i += 1;
    }
    if i < summarized.len() {
        assert(v[i as int] == summarized@[i as int]@);
        let content = match &summarized[i].content {
            Some(c) => c.clone(),
            None => "".to_owned(),
        };
        push_line(&mut lines, content);
    }
    assert(words::views(lines@) =~= summary_lines(before as nat, v));
    agent.messages = summarized;
    lines
}

} // verus!
