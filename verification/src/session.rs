//! What a chat session does with what the user types.

use vstd::prelude::*;
use crate::commands::{ChatCommand, Command};
use crate::messages;
use crate::messages::{copy_messages, make_message, Message, Msg};
use crate::numbers;
use crate::numbers::usize_text;
use crate::options;
use crate::options::initialize_chat_messages;
use crate::order;
use crate::order::sorted;
use crate::text::{same, text2, text3, text5};
use crate::tools;
use crate::tools::{list_tools_lines, ToolsCollection};
use crate::words;

verus! {

/// An agent: its name and its conversation.
pub struct AgentState {
    pub name: String,
    pub messages: Vec<Message>,
}

/// What is to be done next for a command.
#[derive(Debug, PartialEq, Eq)]
pub enum ChatAction {
    /// The command is done.
    Continue,
    /// The session ends.
    Quit,
    /// The conversation is to be summarized.
    Summarize,
    /// The conversation is to be sent to the model.
    Request,
    /// The stored messages of the active agent are to be cleared; the lines are printed when that
    /// is done.
    ClearStored(Vec<String>),
    /// The agents are to be listed.
    ListAgents,
    /// The agent is to be created.
    CreateAgent(String),
    /// The agent is to be looked up.
    FindAgent(String),
    /// The agent is to be claimed for this session.
    ClaimAgent(String),
    /// The active agent is to be saved and released, and the agent to be loaded.
    SwitchAgent(String),
    /// The agent is to be deleted.
    DeleteAgent(String),
    /// The tools of the servers are to be listed anew.
    RefreshMcp,
}

/// What is to be done next for a command.
pub ghost enum Act {
    Continue,
    Quit,
    Summarize,
    Request,
    ClearStored(Seq<Seq<char>>),
    ListAgents,
    CreateAgent(Seq<char>),
    FindAgent(Seq<char>),
    ClaimAgent(Seq<char>),
    SwitchAgent(Seq<char>),
    DeleteAgent(Seq<char>),
    RefreshMcp,
}

impl View for ChatAction {
    type V = Act;

    open spec fn view(&self) -> Act {
        match self {
            ChatAction::Continue => Act::Continue,
            ChatAction::Quit => Act::Quit,
            ChatAction::Summarize => Act::Summarize,
            ChatAction::Request => Act::Request,
            ChatAction::ClearStored(l) => Act::ClearStored(words::views(l@)),
            ChatAction::ListAgents => Act::ListAgents,
            ChatAction::CreateAgent(n) => Act::CreateAgent(n@),
            ChatAction::FindAgent(n) => Act::FindAgent(n@),
            ChatAction::ClaimAgent(n) => Act::ClaimAgent(n@),
            ChatAction::SwitchAgent(n) => Act::SwitchAgent(n@),
            ChatAction::DeleteAgent(n) => Act::DeleteAgent(n@),
            ChatAction::RefreshMcp => Act::RefreshMcp,
        }
    }
}

/// The lines that a command prints, and what is to be done next.
#[derive(Debug, PartialEq, Eq)]
pub struct ChatReply {
    pub lines: Vec<String>,
    pub action: ChatAction,
}

/// The lines that a command prints, and what is to be done next.
pub ghost struct Reply {
    pub lines: Seq<Seq<char>>,
    pub action: Act,
}

impl View for ChatReply {
    type V = Reply;

    open spec fn view(&self) -> Reply {
        Reply { lines: words::views(self.lines@), action: self.action@ }
    }
}

/// A reply of one line.
pub open spec fn said(line: Seq<char>) -> Reply {
    Reply { lines: seq![line], action: Act::Continue }
}

/// A reply that prints nothing.
pub open spec fn silent(action: Act) -> Reply {
    Reply { lines: Seq::empty(), action }
}

pub(crate) fn push_line(lines: &mut Vec<String>, line: String)
    ensures
        words::views(final(lines)@) == words::views(old(lines)@).push(line@),
{
    proof {
        words::views_push(lines@, line);
    }
    lines.push(line);
}

fn one_line(line: String) -> (r: Vec<String>)
    ensures
        words::views(r@) == seq![line@],
{
    let mut lines: Vec<String> = Vec::new();
    push_line(&mut lines, line);
    assert(words::views(lines@) =~= seq![line@]);
    lines
}

fn say(line: String) -> (r: ChatReply)
    ensures
        r@ == said(line@),
{
    ChatReply { lines: one_line(line), action: ChatAction::Continue }
}

fn act(action: ChatAction) -> (r: ChatReply)
    ensures
        r@ == silent(action@),
{
    let r = ChatReply { lines: Vec::new(), action };
    assert(words::views(r.lines@) =~= Seq::<Seq<char>>::empty());
    r
}

// ---------------------------------------------------------------------------
// Listings
// ---------------------------------------------------------------------------

/// The lines of the help.
pub const HELP_LINES: [&'static str; 15] = [
    "Available commands:",
    "  /help                  Show this help message",
    "  /quit                  Exit the chat session",
    "  /clear                 Clear chat history and restore system prompts",
    "  /show                  Show current chat history",
    "  /limit <n>             Keep only the last n messages",
    "  /backtrace <n>         Remove the last n messages",
    "  /summarize             Replace the chat history with a summary",
    "  /system <message>      Add a system message to the conversation",
    "  /agents                List all agents",
    "  /create-agent <name>   Create a new agent",
    "  /select-agent <name>   Switch to an existing agent",
    "  /delete-agent <name>   Delete an agent",
    "  /mcp-refresh           Refresh MCP tool definitions",
    "  /tools                 List all available tools",
];

/// The lines of the help.
pub open spec fn help_text() -> Seq<Seq<char>> {
    Seq::new(15, |i: int| HELP_LINES@[i]@)
}

fn help() -> (r: Vec<String>)
    ensures
        words::views(r@) == help_text(),
{
    let mut lines: Vec<String> = Vec::new();
    let mut i: usize = 0;
    assert(words::views(lines@) =~= help_text().take(0));
    while i < 15
        invariant
            i <= 15,
            words::views(lines@) == help_text().take(i as int),
        decreases 15 - i,
    {
        push_line(&mut lines, HELP_LINES[i].to_owned());
        assert(help_text().take(i + 1) =~= help_text().take(i as int).push(help_text()[i as int]));
        i += 1;
    }
    assert(help_text().take(15) =~= help_text());
    lines
}

/// The lines that show the first `k` tool calls of the message numbered `number`.
pub open spec fn shown_calls(number: nat, calls: Seq<messages::Call>, k: int) -> Seq<Seq<char>>
    decreases k,
{
    if k <= 0 {
        Seq::empty()
    } else {
        let c = calls[k - 1];
        shown_calls(number, calls, k - 1).push(
            "    "@ + numbers::decimal(number) + "."@ + numbers::decimal(k as nat) + ": "@ + c.name
                + " ("@ + c.id + ")"@,
        ).push("      Args: "@ + c.arguments)
    }
}

/// The lines that show the message numbered `number`.
pub open spec fn shown_message(number: nat, m: Msg) -> Seq<Seq<char>> {
    let head = seq![
        numbers::decimal(number) + ": ["@ + m.role + "] "@ + (match m.content {
            Some(c) => c,
            None => "<no content>"@,
        }),
    ];
    match m.calls {
        Some(calls) => if calls.len() > 0 {
            head.push("  Tool Calls:"@) + shown_calls(number, calls, calls.len() as int)
        } else {
            head
        },
        None => head,
    }
}

/// The lines that show the first `k` messages.
pub open spec fn shown_messages(v: Seq<Msg>, k: int) -> Seq<Seq<char>>
    decreases k,
{
    if k <= 0 {
        Seq::empty()
    } else {
        shown_messages(v, k - 1) + shown_message(k as nat, v[k - 1])
    }
}

/// The lines that show a conversation.
pub open spec fn shown_history(v: Seq<Msg>) -> Seq<Seq<char>> {
    if v.len() == 0 {
        seq!["Chat history is empty."@]
    } else {
        seq!["Current chat history:"@] + shown_messages(v, v.len() as int)
    }
}

fn show_calls(lines: &mut Vec<String>, number: usize, calls: &[messages::ToolCall])
    ensures
        words::views(final(lines)@) == words::views(old(lines)@) + shown_calls(
            number as nat,
            messages::call_views(calls@),
            calls@.len() as int,
        ),
{
    let ghost v = messages::call_views(calls@);
    let mut j: usize = 0;
    assert(words::views(lines@) =~= words::views(old(lines)@) + shown_calls(number as nat, v, 0));
    while j < calls.len()
        invariant
            j <= calls@.len(),
            v == messages::call_views(calls@),
            words::views(lines@) == words::views(old(lines)@) + shown_calls(
                number as nat,
                v,
                j as int,
            ),
        decreases calls@.len() - j,
    {
        assert(v[j as int] == calls@[j as int]@);
        let mut s = text5(
            "    ",
            usize_text(number).as_str(),
            ".",
            usize_text(j + 1).as_str(),
            ": ",
        );
        s.append(calls[j].function.name.as_str());
        s.append(" (");
        s.append(calls[j].id.as_str());
        s.append(")");
        push_line(lines, s);
        push_line(lines, text2("      Args: ", calls[j].function.arguments.as_str()));
        assert(words::views(lines@) =~= words::views(old(lines)@) + shown_calls(
            number as nat,
            v,
            j + 1,
        ));
        j += 1;
    }
}

fn show_message(lines: &mut Vec<String>, number: usize, m: &Message)
    ensures
        words::views(final(lines)@) == words::views(old(lines)@) + shown_message(
            number as nat,
            m@,
        ),
{
    let content: &str = match &m.content {
        Some(c) => c.as_str(),
        None => "<no content>",
    };
    let n = usize_text(number);
    let line = text5(n.as_str(), ": [", m.role.as_str(), "] ", content);
    push_line(lines, line);
    match &m.tool_calls {
        Some(calls) => {
            if calls.len() > 0 {
                push_line(lines, "  Tool Calls:".to_owned());
                show_calls(lines, number, calls.as_slice());
            }
        },
        None => {},
    }
    assert(words::views(lines@) =~= words::views(old(lines)@) + shown_message(number as nat, m@));
}

/// The lines that show a conversation.
pub fn show_history(list: &[Message]) -> (r: Vec<String>)
    ensures
        words::views(r@) == shown_history(messages::msg_views(list@)),
{
    if list.len() == 0 {
        return one_line("Chat history is empty.".to_owned());
    }
    let ghost v = messages::msg_views(list@);
    let mut lines = one_line("Current chat history:".to_owned());
    let ghost head = words::views(lines@);
    let mut i: usize = 0;
    assert(words::views(lines@) =~= head + shown_messages(v, 0));
    while i < list.len()
        invariant
            i <= list@.len(),
            v == messages::msg_views(list@),
            words::views(lines@) == head + shown_messages(v, i as int),
        decreases list@.len() - i,
    {
        assert(v[i as int] == list@[i as int]@);
        show_message(&mut lines, i + 1, &list[i]);
        assert(words::views(lines@) =~= head + shown_messages(v, i + 1));
        i += 1;
    }
    lines
}

/// Each name on a line of its own, indented.
pub open spec fn name_lines(names: Seq<Seq<char>>) -> Seq<Seq<char>> {
    Seq::new(names.len(), |i: int| "  "@ + names[i])
}

pub(crate) fn push_names(lines: &mut Vec<String>, names: &[String])
    ensures
        words::views(final(lines)@) == words::views(old(lines)@) + name_lines(
            words::views(names@),
        ),
{
    let ghost v = words::views(names@);
    let ghost all = name_lines(v);
    let mut i: usize = 0;
    assert(words::views(lines@) =~= words::views(old(lines)@) + all.take(0));
    while i < names.len()
        invariant
            i <= names@.len(),
            v == words::views(names@),
            all == name_lines(v),
            words::views(lines@) == words::views(old(lines)@) + all.take(i as int),
        decreases names@.len() - i,
    {
        assert(v[i as int] == names@[i as int]@);
        push_line(lines, text2("  ", names[i].as_str()));
        assert(words::views(lines@) =~= words::views(old(lines)@) + all.take(i + 1));
        i += 1;
    }
    assert(all.take(v.len() as int) =~= all);
}

/// A heading and the names under it in ascending order, or nothing where there are none.
pub open spec fn named_section(heading: Seq<char>, names: Seq<Seq<char>>) -> Seq<Seq<char>> {
    if names.len() == 0 {
        Seq::empty()
    } else {
        seq![heading] + name_lines(order::in_order(names))
    }
}

/// The listing of the tools of a session: the built-in ones, and those of the servers.
pub open spec fn tools_listing(names: Seq<Seq<char>>, mcp: Seq<Seq<char>>) -> Seq<Seq<char>> {
    if names.len() == 0 && mcp.len() == 0 {
        seq!["No tools available."@]
    } else {
        named_section("Built-in tools:"@, names) + named_section("MCP tools:"@, mcp)
    }
}

fn push_section(lines: &mut Vec<String>, heading: &str, names: &[String])
    ensures
        words::views(final(lines)@) == words::views(old(lines)@) + named_section(
            heading@,
            words::views(names@),
        ),
{
    if names.len() > 0 {
        let s = sorted(names);
        push_line(lines, heading.to_owned());
        push_names(lines, s.as_slice());
        assert(words::views(lines@) =~= words::views(old(lines)@) + named_section(
            heading@,
            words::views(names@),
        ));
    } else {
        assert(words::views(lines@) =~= words::views(old(lines)@) + named_section(
            heading@,
            words::views(names@),
        ));
    }
}

/// The names of the tools of a session, in the order in which they were added.
pub fn tool_names(tools: &ToolsCollection) -> (r: Vec<String>)
    ensures
        words::views(r@) == tools::names_of(tools.list()),
{
    let mut names: Vec<String> = Vec::new();
    let mut i: usize = 0;
    assert(words::views(names@) =~= tools::names_of(tools.list()).take(0));
    while i < tools.items.len()
        invariant
            i <= tools.items@.len(),
            words::views(names@) == tools::names_of(tools.list()).take(i as int),
        decreases tools.items@.len() - i,
    {
        let n = tools.items[i].name.clone();
        push_line(&mut names, n);
        assert(tools::names_of(tools.list()).take(i + 1) =~= tools::names_of(tools.list()).take(
            i as int,
        ).push(tools.items@[i as int]@.name));
        i += 1;
    }
    assert(tools::names_of(tools.list()).take(tools.items@.len() as int) =~= tools::names_of(
        tools.list(),
    ));
    names
}

/// Lists the tools of a session: the built-in ones, and those of the servers.
pub fn list_session_tools(tools: &ToolsCollection, mcp_names: &[String]) -> (r: Vec<String>)
    ensures
        words::views(r@) == tools_listing(tools::names_of(tools.list()), words::views(mcp_names@)),
{
    let names = tool_names(tools);
    assert(words::views(names@).len() == names@.len());
    assert(words::views(mcp_names@).len() == mcp_names@.len());
    if names.len() == 0 && mcp_names.len() == 0 {
        return one_line("No tools available.".to_owned());
    }
    let mut lines: Vec<String> = Vec::new();
    assert(words::views(lines@) =~= Seq::<Seq<char>>::empty());
    push_section(&mut lines, "Built-in tools:", names.as_slice());
    push_section(&mut lines, "MCP tools:", mcp_names);
    assert(words::views(lines@) =~= tools_listing(
        tools::names_of(tools.list()),
        words::views(mcp_names@),
    ));
    lines
}

/// Lists all built-in tools, with a mark on the unsafe ones, and the tools of the servers.
pub fn list_all_tools(mcp_names: &[String]) -> (r: Vec<String>)
    ensures
        words::views(r@) == tools::builtin_listing() + named_section(
            "MCP tools:"@,
            words::views(mcp_names@),
        ),
{
    let mut lines = list_tools_lines();
    push_section(&mut lines, "MCP tools:", mcp_names);
    lines
}

// ---------------------------------------------------------------------------
// Commands
// ---------------------------------------------------------------------------

/// What a session says where it needs a database and has none.
pub open spec fn no_database() -> Seq<char> {
    "Database not configured."@
}

/// The state in which a command finds the session.
pub ghost struct Scene {
    pub name: Seq<char>,
    pub messages: Seq<Msg>,
    pub tool_names: Seq<Seq<char>>,
    pub mcp: Option<Seq<Seq<char>>>,
    pub has_db: bool,
}

/// The messages that a session begins with.
pub open spec fn fresh(s: Scene) -> Seq<Msg> {
    options::tools_prompts(s.tool_names.len() > 0)
}

/// Clearing: the stored messages go too, where there are any.
pub open spec fn cleared(s: Scene, before: Seq<Seq<char>>, after: Seq<Seq<char>>) -> Reply {
    if s.has_db {
        Reply { lines: before, action: Act::ClearStored(after) }
    } else {
        Reply { lines: before + after, action: Act::Continue }
    }
}

/// The conversation after a command, and the reply.
pub open spec fn handled(s: Scene, command: Command) -> (Seq<Msg>, Reply) {
    let m = s.messages;
    match command {
        Command::Help => (m, Reply { lines: help_text(), action: Act::Continue }),
        Command::Quit => (m, silent(Act::Quit)),
        Command::Clear => (
            fresh(s),
            cleared(
                s,
                Seq::empty(),
                seq!["Chat history cleared and system prompts restored."@],
            ),
        ),
        Command::Show => (m, Reply { lines: shown_history(m), action: Act::Continue }),
        Command::Limit(n) => if n == 0 {
            (
                fresh(s),
                cleared(
                    s,
                    seq!["Limit cannot be zero. Clearing history instead."@],
                    Seq::empty(),
                ),
            )
        } else if m.len() > n {
            (
                m.skip(m.len() - n),
                said(
                    "Chat history limited to the last "@ + numbers::decimal(n) + " messages."@,
                ),
            )
        } else {
            (
                m,
                said("Chat history is already within the limit of "@ + numbers::decimal(n) + "."@),
            )
        },
        Command::Backtrace(n) => if n == 0 {
            (m, said("Backtrace steps must be a positive number."@))
        } else if n > m.len() {
            (
                fresh(s),
                cleared(
                    s,
                    seq![
                        "Cannot go back "@ + numbers::decimal(n) + " steps, history has only "@
                            + numbers::decimal(m.len()) + " messages. Clearing history."@,
                    ],
                    Seq::empty(),
                ),
            )
        } else {
            (
                m.take(m.len() - n),
                said("Went back "@ + numbers::decimal(n) + " steps in chat history."@),
            )
        },
        Command::Summarize => (m, silent(Act::Summarize)),
        Command::System(t) => (
            m.push(messages::plain_msg("system"@, t)),
            said("System message added to conversation."@),
        ),
        Command::Agents => (
            m,
            if s.has_db {
                silent(Act::ListAgents)
            } else {
                said(no_database())
            },
        ),
        Command::CreateAgent(n) => (
            m,
            if s.has_db {
                silent(Act::CreateAgent(n))
            } else {
                said(no_database())
            },
        ),
        Command::SelectAgent(n) => (
            m,
            if n == s.name {
                said("Already on agent '"@ + n + "'."@)
            } else if s.has_db {
                silent(Act::FindAgent(n))
            } else {
                said(no_database())
            },
        ),
        Command::DeleteAgent(n) => (
            m,
            if n == "default"@ {
                said("Cannot delete the default agent."@)
            } else if n == s.name {
                said("Cannot delete the active agent. Switch first with /select-agent."@)
            } else if s.has_db {
                silent(Act::DeleteAgent(n))
            } else {
                said(no_database())
            },
        ),
        Command::McpRefresh => (
            m,
            match s.mcp {
                Some(_) => silent(Act::RefreshMcp),
                None => said("No MCP servers configured."@),
            },
        ),
        Command::Tools => (
            m,
            Reply {
                lines: tools_listing(
                    s.tool_names,
                    match s.mcp {
                        Some(names) => names,
                        None => Seq::empty(),
                    },
                ),
                action: Act::Continue,
            },
        ),
        Command::Message(t) => (
            m.push(messages::plain_msg("user"@, t)),
            silent(Act::Request),
        ),
        Command::Empty => (m, silent(Act::Continue)),
        Command::Invalid(t) => (m, said(t)),
    }
}

/// The state in which a command finds the session.
pub open spec fn scene(
    agent: AgentState,
    tools: ToolsCollection,
    mcp_names: Option<&[String]>,
    has_db: bool,
) -> Scene {
    Scene {
        name: agent.name@,
        messages: messages::msg_views(agent.messages@),
        tool_names: tools::names_of(tools.list()),
        mcp: match mcp_names {
            Some(v) => Some(words::views(v@)),
            None => None,
        },
        has_db,
    }
}

fn clear_reply(before: Vec<String>, after: Vec<String>, has_db: bool) -> (r: ChatReply)
    ensures
        forall|s: Scene|
            s.has_db == has_db ==> r@ == #[trigger] cleared(
                s,
                words::views(before@),
                words::views(after@),
            ),
{
    if has_db {
        ChatReply { lines: before, action: ChatAction::ClearStored(after) }
    } else {
        let mut lines = before;
        let mut i: usize = 0;
        let ghost a = words::views(before@);
        let ghost b = words::views(after@);
        assert(words::views(lines@) =~= a + b.take(0));
        while i < after.len()
            invariant
                i <= after@.len(),
                b == words::views(after@),
                words::views(lines@) == a + b.take(i as int),
            decreases after@.len() - i,
        {
            push_line(&mut lines, after[i].clone());
            assert(words::views(lines@) =~= a + b.take(i + 1));
            i += 1;
        }
        assert(b.take(after@.len() as int) =~= b);
        ChatReply { lines, action: ChatAction::Continue }
    }
}

fn need_db(action: ChatAction, has_db: bool) -> (r: ChatReply)
    ensures
        r@ == (if has_db {
            silent(action@)
        } else {
            said(no_database())
        }),
{
    if has_db {
        act(action)
    } else {
        say("Database not configured.".to_owned())
    }
}

fn no_lines() -> (r: Vec<String>)
    ensures
        words::views(r@) == Seq::<Seq<char>>::empty(),
{
    let r: Vec<String> = Vec::new();
    assert(words::views(r@) =~= Seq::<Seq<char>>::empty());
    r
}

fn handle_limit(
    n: usize,
    agent: &mut AgentState,
    tools: &ToolsCollection,
    mcp_names: Option<&[String]>,
    has_db: bool,
) -> (r: ChatReply)
    ensures
        (messages::msg_views(final(agent).messages@), r@) == handled(
            scene(*old(agent), *tools, mcp_names, has_db),
            Command::Limit(n as nat),
        ),
        final(agent).name == old(agent).name,
{
    let ghost m = messages::msg_views(agent.messages@);
    let len = agent.messages.len();
    assert(m.len() == len);
    if n == 0 {
        agent.messages = initialize_chat_messages(tools);
        let before = one_line("Limit cannot be zero. Clearing history instead.".to_owned());
        clear_reply(before, no_lines(), has_db)
    } else if len > n {
        agent.messages = copy_messages(agent.messages.as_slice(), len - n, len);
        assert(m.subrange(len - n, len as int) =~= m.skip(len - n));
        let count = usize_text(n);
        say(text3("Chat history limited to the last ", count.as_str(), " messages."))
    } else {
        let count = usize_text(n);
        say(text3("Chat history is already within the limit of ", count.as_str(), "."))
    }
}

fn handle_backtrace(
    n: usize,
    agent: &mut AgentState,
    tools: &ToolsCollection,
    mcp_names: Option<&[String]>,
    has_db: bool,
) -> (r: ChatReply)
    ensures
        (messages::msg_views(final(agent).messages@), r@) == handled(
            scene(*old(agent), *tools, mcp_names, has_db),
            Command::Backtrace(n as nat),
        ),
        final(agent).name == old(agent).name,
{
    let ghost m = messages::msg_views(agent.messages@);
    let len = agent.messages.len();
    assert(m.len() == len);
    let count = usize_text(n);
    if n == 0 {
        say("Backtrace steps must be a positive number.".to_owned())
    } else if n > len {
        agent.messages = initialize_chat_messages(tools);
        let total = usize_text(len);
        let before = one_line(
            text5(
                "Cannot go back ",
                count.as_str(),
                " steps, history has only ",
                total.as_str(),
                " messages. Clearing history.",
            ),
        );
        clear_reply(before, no_lines(), has_db)
    } else {
        agent.messages = copy_messages(agent.messages.as_slice(), 0, len - n);
        assert(m.subrange(0, len - n) =~= m.take(len - n));
        say(text3("Went back ", count.as_str(), " steps in chat history."))
    }
}

/// Carries out a command: prints, changes the conversation of the active agent, and says what is
/// to be done outside the session.
pub fn handle_chat_command(
    command: ChatCommand,
    agent: &mut AgentState,
    tools: &ToolsCollection,
    mcp_names: Option<&[String]>,
    has_db: bool,
) -> (r: ChatReply)
    ensures
        (messages::msg_views(final(agent).messages@), r@) == handled(
            scene(*old(agent), *tools, mcp_names, has_db),
            command@,
        ),
        final(agent).name == old(agent).name,
{
    match command {
        ChatCommand::Help => ChatReply { lines: help(), action: ChatAction::Continue },
        ChatCommand::Quit => act(ChatAction::Quit),
        ChatCommand::Clear => {
            agent.messages = initialize_chat_messages(tools);
            let after = one_line("Chat history cleared and system prompts restored.".to_owned());
            clear_reply(no_lines(), after, has_db)
        },
        ChatCommand::Show => ChatReply {
            lines: show_history(agent.messages.as_slice()),
            action: ChatAction::Continue,
        },
        ChatCommand::Limit(n) => handle_limit(n, agent, tools, mcp_names, has_db),
        ChatCommand::Backtrace(n) => handle_backtrace(n, agent, tools, mcp_names, has_db),
        ChatCommand::Summarize => act(ChatAction::Summarize),
        ChatCommand::System(t) => {
            let m = make_message("system", t);
            proof {
                messages::msg_views_push(agent.messages@, m);
            }
            agent.messages.push(m);
            say("System message added to conversation.".to_owned())
        },
        ChatCommand::Agents => need_db(ChatAction::ListAgents, has_db),
        ChatCommand::CreateAgent(n) => need_db(ChatAction::CreateAgent(n), has_db),
        ChatCommand::SelectAgent(n) => {
            if same(n.as_str(), agent.name.as_str()) {
                say(text3("Already on agent '", n.as_str(), "'."))
            } else {
                need_db(ChatAction::FindAgent(n), has_db)
            }
        },
        ChatCommand::DeleteAgent(n) => {
            if same(n.as_str(), "default") {
                say("Cannot delete the default agent.".to_owned())
            } else if same(n.as_str(), agent.name.as_str()) {
                say(
                    "Cannot delete the active agent. Switch first with /select-agent.".to_owned(),
                )
            } else {
                need_db(ChatAction::DeleteAgent(n), has_db)
            }
        },
        ChatCommand::McpRefresh => match mcp_names {
            Some(_) => act(ChatAction::RefreshMcp),
            None => say("No MCP servers configured.".to_owned()),
        },
        ChatCommand::Tools => {
            let none = no_lines();
            let lines = match mcp_names {
                Some(names) => list_session_tools(tools, names),
                None => list_session_tools(tools, none.as_slice()),
            };
            ChatReply { lines, action: ChatAction::Continue }
        },
        ChatCommand::Message(t) => {
            let m = make_message("user", t);
            proof {
                messages::msg_views_push(agent.messages@, m);
            }
            agent.messages.push(m);
            act(ChatAction::Request)
        },
        ChatCommand::Empty => act(ChatAction::Continue),
        ChatCommand::Invalid(t) => say(t),
    }
}

/// Going back by as many messages as were added leaves the conversation as it was.
pub proof fn backtrace_undoes(s: Scene, before: Seq<Msg>, added: Seq<Msg>)
    requires
        s.messages == before + added,
        added.len() > 0,
    ensures
        handled(s, Command::Backtrace(added.len())).0 == before,
{
    assert((before + added).take(before.len() as int) =~= before);
}

/// Limiting a conversation keeps its end, and limiting it again changes nothing.
pub proof fn limit_keeps_the_end(s: Scene, n: nat)
    requires
        n > 0,
    ensures
        ({
            let kept = handled(s, Command::Limit(n)).0;
            &&& kept.len() == if s.messages.len() > n {
                n
            } else {
                s.messages.len()
            }
            &&& kept == s.messages.skip(s.messages.len() - kept.len())
            &&& handled(Scene { messages: kept, ..s }, Command::Limit(n)).0 == kept
        }),
{
    assert(s.messages.skip(0) =~= s.messages);
}

/// The default agent and the active agent are never deleted.
pub proof fn protected_agents(s: Scene, name: Seq<char>)
    requires
        name == "default"@ || name == s.name,
    ensures
        handled(s, Command::DeleteAgent(name)).1.action == Act::Continue,
{
}

} // verus!
