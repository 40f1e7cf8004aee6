//! The commands of a chat session.

use vstd::prelude::*;
use crate::numbers;
use crate::numbers::parse_usize;
use crate::text;
use crate::text::{from_chars, piece, same, starts_with, str_starts_with, to_chars};
use crate::words;
use crate::words::{split_words, trim};

verus! {

/// A line that the user typed.
#[derive(Debug, PartialEq, Eq)]
pub enum ChatCommand {
    Help,
    Quit,
    Clear,
    Show,
    Limit(usize),
    Backtrace(usize),
    Summarize,
    System(String),
    Agents,
    CreateAgent(String),
    SelectAgent(String),
    DeleteAgent(String),
    McpRefresh,
    Tools,
    Message(String),
    Empty,
    Invalid(String),
}

/// What a command holds.
pub ghost enum Command {
    Help,
    Quit,
    Clear,
    Show,
    Limit(nat),
    Backtrace(nat),
    Summarize,
    System(Seq<char>),
    Agents,
    CreateAgent(Seq<char>),
    SelectAgent(Seq<char>),
    DeleteAgent(Seq<char>),
    McpRefresh,
    Tools,
    Message(Seq<char>),
    Empty,
    Invalid(Seq<char>),
}

impl View for ChatCommand {
    type V = Command;

    open spec fn view(&self) -> Command {
        match self {
            ChatCommand::Help => Command::Help,
            ChatCommand::Quit => Command::Quit,
            ChatCommand::Clear => Command::Clear,
            ChatCommand::Show => Command::Show,
            ChatCommand::Limit(n) => Command::Limit(*n as nat),
            ChatCommand::Backtrace(n) => Command::Backtrace(*n as nat),
            ChatCommand::Summarize => Command::Summarize,
            ChatCommand::System(t) => Command::System(t@),
            ChatCommand::Agents => Command::Agents,
            ChatCommand::CreateAgent(t) => Command::CreateAgent(t@),
            ChatCommand::SelectAgent(t) => Command::SelectAgent(t@),
            ChatCommand::DeleteAgent(t) => Command::DeleteAgent(t@),
            ChatCommand::McpRefresh => Command::McpRefresh,
            ChatCommand::Tools => Command::Tools,
            ChatCommand::Message(t) => Command::Message(t@),
            ChatCommand::Empty => Command::Empty,
            ChatCommand::Invalid(t) => Command::Invalid(t@),
        }
    }
}

/// A line with a leading backslash read as a slash.
pub open spec fn normalized(line: Seq<char>) -> Seq<char> {
    if line.len() > 0 && line[0] == '\\' {
        "/"@ + line.skip(1)
    } else {
        line
    }
}

/// The number that is the only argument of a command line.
pub open spec fn only_number(line: Seq<char>) -> Option<nat> {
    let w = words::words_from(line, 0);
    if w.len() == 2 {
        numbers::read_unsigned(w[1], 10, usize::MAX as nat)
    } else {
        None
    }
}

/// The command that a line gives.
pub open spec fn command_of(line: Seq<char>) -> Command {
    let n = normalized(line);
    if line.len() == 0 {
        Command::Empty
    } else if n == "/help"@ {
        Command::Help
    } else if n == "/quit"@ {
        Command::Quit
    } else if n == "/clear"@ {
        Command::Clear
    } else if n == "/show"@ {
        Command::Show
    } else if text::begins(n, "/limit "@) {
        match only_number(n) {
            Some(k) => Command::Limit(k),
            None => Command::Invalid("Usage: /limit <number_of_messages>"@),
        }
    } else if text::begins(n, "/backtrace "@) {
        match only_number(n) {
            Some(k) => Command::Backtrace(k),
            None => Command::Invalid("Usage: /backtrace <number_of_messages>"@),
        }
    } else if n == "/summarize"@ {
        Command::Summarize
    } else if text::begins(n, "/system "@) {
        let rest = n.skip("/system "@.len() as int);
        if rest.len() > 0 {
            Command::System(rest)
        } else {
            Command::Invalid("Usage: /system <message>"@)
        }
    } else if n == "/agents"@ {
        Command::Agents
    } else if text::begins(n, "/create-agent "@) {
        let name = words::trimmed(n.skip("/create-agent "@.len() as int));
        if name.len() > 0 {
            Command::CreateAgent(name)
        } else {
            Command::Invalid("Usage: /create-agent <name>"@)
        }
    } else if text::begins(n, "/select-agent "@) {
        let name = words::trimmed(n.skip("/select-agent "@.len() as int));
        if name.len() > 0 {
            Command::SelectAgent(name)
        } else {
            Command::Invalid("Usage: /select-agent <name>"@)
        }
    } else if text::begins(n, "/delete-agent "@) {
        let name = words::trimmed(n.skip("/delete-agent "@.len() as int));
        if name.len() > 0 {
            Command::DeleteAgent(name)
        } else {
            Command::Invalid("Usage: /delete-agent <name>"@)
        }
    } else if n == "/mcp-refresh"@ {
        Command::McpRefresh
    } else if n == "/tools"@ {
        Command::Tools
    } else if text::begins(n, seq!['/']) {
        Command::Invalid("Unknown command: "@ + n)
    } else {
        Command::Message(line)
    }
}

fn argument(line: &str, prefix: &str) -> (r: Option<Vec<char>>)
    ensures
        match r {
            Some(a) => text::begins(line@, prefix@) && a@ == line@.skip(prefix@.len() as int),
            None => !text::begins(line@, prefix@),
        },
{
    let s = to_chars(line);
    let p = to_chars(prefix);
    if starts_with(s.as_slice(), p.as_slice()) {
        let a = piece(s.as_slice(), p.len(), s.len());
        assert(a@ =~= line@.skip(prefix@.len() as int));
        Some(a)
    } else {
        None
    }
}

fn number_argument(line: &str) -> (r: Option<usize>)
    ensures
        match r {
            Some(n) => only_number(line@) == Some(n as nat),
            None => only_number(line@) is None,
        },
{
    let s = to_chars(line);
    let w = split_words(s.as_slice());
    assert(words::views(w@).len() == w@.len());
    if w.len() == 2 {
        let d = to_chars(w[1].as_str());
        assert(words::views(w@)[1] == w@[1]@);
        parse_usize(d.as_slice())
    } else {
        None
    }
}

fn name_argument(line: &str, prefix: &str) -> (r: Option<String>)
    ensures
        match r {
            Some(n) => text::begins(line@, prefix@) && n@ == words::trimmed(
                line@.skip(prefix@.len() as int),
            ),
            None => !text::begins(line@, prefix@),
        },
{
    match argument(line, prefix) {
        Some(a) => {
            let t = trim(a.as_slice());
            Some(from_chars(t.as_slice()))
        },
        None => None,
    }
}

fn normalize(line: &str) -> (r: String)
    ensures
        r@ == normalized(line@),
{
    let s = to_chars(line);
    if s.len() > 0 && s[0] == '\\' {
        let rest = piece(s.as_slice(), 1, s.len());
        assert(rest@ =~= line@.skip(1));
        let mut out = "/".to_owned();
        out.append(from_chars(rest.as_slice()).as_str());
        out
    } else {
        line.to_owned()
    }
}

/// Reads a line that the user typed. Commands begin with a slash or a backslash; everything else is
/// a message.
pub fn parse_chat_command(line: &str) -> (r: ChatCommand)
    ensures
        r@ == command_of(line@),
{
    if line.is_empty() {
        return ChatCommand::Empty;
    }
    let owned = normalize(line);
    let n = owned.as_str();
    if same(n, "/help") {
        return ChatCommand::Help;
    }
    if same(n, "/quit") {
        return ChatCommand::Quit;
    }
    if same(n, "/clear") {
        return ChatCommand::Clear;
    }
    if same(n, "/show") {
        return ChatCommand::Show;
    }
    if str_starts_with(n, "/limit ") {
        return match number_argument(n) {
            Some(k) => ChatCommand::Limit(k),
            None => ChatCommand::Invalid("Usage: /limit <number_of_messages>".to_owned()),
        };
    }
    if str_starts_with(n, "/backtrace ") {
        return match number_argument(n) {
            Some(k) => ChatCommand::Backtrace(k),
            None => ChatCommand::Invalid("Usage: /backtrace <number_of_messages>".to_owned()),
        };
    }
    if same(n, "/summarize") {
        return ChatCommand::Summarize;
    }
    if let Some(rest) = argument(n, "/system ") {
        if rest.len() > 0 {
            return ChatCommand::System(from_chars(rest.as_slice()));
        }
        return ChatCommand::Invalid("Usage: /system <message>".to_owned());
    }
    if same(n, "/agents") {
        return ChatCommand::Agents;
    }
    if let Some(name) = name_argument(n, "/create-agent ") {
        if name.as_str().is_empty() {
            return ChatCommand::Invalid("Usage: /create-agent <name>".to_owned());
        }
        return ChatCommand::CreateAgent(name);
    }
    if let Some(name) = name_argument(n, "/select-agent ") {
        if name.as_str().is_empty() {
            return ChatCommand::Invalid("Usage: /select-agent <name>".to_owned());
        }
        return ChatCommand::SelectAgent(name);
    }
    if let Some(name) = name_argument(n, "/delete-agent ") {
        if name.as_str().is_empty() {
            return ChatCommand::Invalid("Usage: /delete-agent <name>".to_owned());
        }
        return ChatCommand::DeleteAgent(name);
    }
    if same(n, "/mcp-refresh") {
        return ChatCommand::McpRefresh;
    }
    if same(n, "/tools") {
        return ChatCommand::Tools;
    }
    let chars = to_chars(n);
    if chars.len() > 0 && chars[0] == '/' {
        assert(n@.take(1) =~= seq!['/']);
        let mut e = "Unknown command: ".to_owned();
        e.append(n);
        return ChatCommand::Invalid(e);
    }
    assert(text::begins(n@, seq!['/']) ==> n@.take(1)[0] == seq!['/'][0]);
    ChatCommand::Message(line.to_owned())
}

/// A backslash serves as well as a slash to begin a command.
pub proof fn backslash_begins_commands(rest: Seq<char>)
    requires
        !(command_of(seq!['/'] + rest) is Message),
    ensures
        command_of(seq!['\\'] + rest) == command_of(seq!['/'] + rest),
{
    reveal_strlit("/");
    assert((seq!['\\'] + rest).skip(1) =~= rest);
    assert(normalized(seq!['\\'] + rest) =~= seq!['/'] + rest);
    assert(normalized(seq!['/'] + rest) =~= seq!['/'] + rest);
}

/// A line that begins with a slash is never sent to the model as a message.
pub proof fn slash_lines_are_commands(line: Seq<char>)
    requires
        line.len() > 0,
        line[0] == '/' || line[0] == '\\',
    ensures
        !(command_of(line) is Message),
{
    reveal_strlit("/");
    let n = normalized(line);
    assert(n[0] == '/');
    assert(n.take(1) =~= seq!['/']);
}

// ---------------------------------------------------------------------------
// Completion
// ---------------------------------------------------------------------------

/// The commands that can be completed.
pub open spec fn command_names() -> Seq<Seq<char>> {
    seq![
        "/help"@,
        "/quit"@,
        "/clear"@,
        "/show"@,
        "/limit"@,
        "/backtrace"@,
        "/summarize"@,
        "/system"@,
        "/agents"@,
        "/create-agent"@,
        "/select-agent"@,
        "/delete-agent"@,
        "/mcp-refresh"@,
        "/tools"@,
    ]
}

fn push_name(out: &mut Vec<String>, name: &str)
    ensures
        words::views(final(out)@) == words::views(old(out)@).push(name@),
{
    let s = name.to_owned();
    proof {
        words::views_push(out@, s);
    }
    out.push(s);
}

fn command_list() -> (r: Vec<String>)
    ensures
        words::views(r@) == command_names(),
{
    let mut r: Vec<String> = Vec::new();
    push_name(&mut r, "/help");
    push_name(&mut r, "/quit");
    push_name(&mut r, "/clear");
    push_name(&mut r, "/show");
    push_name(&mut r, "/limit");
    push_name(&mut r, "/backtrace");
    push_name(&mut r, "/summarize");
    push_name(&mut r, "/system");
    push_name(&mut r, "/agents");
    push_name(&mut r, "/create-agent");
    push_name(&mut r, "/select-agent");
    push_name(&mut r, "/delete-agent");
    push_name(&mut r, "/mcp-refresh");
    push_name(&mut r, "/tools");
    assert(words::views(r@) =~= command_names());
    r
}

/// The texts that begin with `prefix`.
pub open spec fn beginning_with(v: Seq<Seq<char>>, prefix: Seq<char>) -> Seq<Seq<char>>
    decreases v.len(),
{
    if v.len() == 0 {
        Seq::empty()
    } else if text::begins(v.last(), prefix) {
        beginning_with(v.drop_last(), prefix).push(v.last())
    } else {
        beginning_with(v.drop_last(), prefix)
    }
}

fn filter_beginning(v: &[String], prefix: &[char]) -> (r: Vec<String>)
    ensures
        words::views(r@) == beginning_with(words::views(v@), prefix@),
{
    let mut r: Vec<String> = Vec::new();
    let ghost w = words::views(v@);
    let mut i: usize = 0;
    assert(words::views(r@) =~= beginning_with(w.take(0), prefix@));
    while i < v.len()
        invariant
            i <= v@.len(),
            w == words::views(v@),
            words::views(r@) == beginning_with(w.take(i as int), prefix@),
        decreases v@.len() - i,
    {
        assert(w.take(i + 1).drop_last() =~= w.take(i as int));
        assert(w.take(i + 1).last() == v@[i as int]@);
        let c = to_chars(v[i].as_str());
        if starts_with(c.as_slice(), prefix) {
            push_name(&mut r, v[i].as_str());
        }
        i += 1;
    }
    assert(w.take(w.len() as int) =~= w);
    r
}

/// What completes a line up to the cursor: where the completed word begins, and the candidates.
/// Agent names complete the commands that take one; else commands complete the line.
pub open spec fn completions(line: Seq<char>, pos: int, agents: Seq<Seq<char>>) -> (
    int,
    Seq<Seq<char>>,
) {
    let input = line.take(pos);
    if !(line.len() > 0 && line[0] == '/') {
        (0, Seq::empty())
    } else if text::begins(input, "/select-agent "@) {
        (
            "/select-agent "@.len() as int,
            beginning_with(agents, input.skip("/select-agent "@.len() as int)),
        )
    } else if text::begins(input, "/delete-agent "@) {
        (
            "/delete-agent "@.len() as int,
            beginning_with(agents, input.skip("/delete-agent "@.len() as int)),
        )
    } else {
        (0, beginning_with(command_names(), input))
    }
}

/// Completes a line at a cursor position, counted in characters.
pub fn complete(line: &str, pos: usize, agents: &[String]) -> (r: (usize, Vec<String>))
    requires
        pos <= line@.len(),
    ensures
        (r.0 as int, words::views(r.1@)) == completions(line@, pos as int, words::views(agents@)),
{
    let s = to_chars(line);
    if s.len() == 0 || s[0] != '/' {
        let none: Vec<String> = Vec::new();
        assert(words::views(none@) =~= Seq::<Seq<char>>::empty());
        return (0, none);
    }
    let input = piece(s.as_slice(), 0, pos);
    assert(input@ =~= line@.take(pos as int));
    let select = to_chars("/select-agent ");
    let delete = to_chars("/delete-agent ");
    if starts_with(input.as_slice(), select.as_slice()) {
        let name = piece(input.as_slice(), select.len(), pos);
        assert(name@ =~= input@.skip(select@.len() as int));
        return (select.len(), filter_beginning(agents, name.as_slice()));
    }
    if starts_with(input.as_slice(), delete.as_slice()) {
        let name = piece(input.as_slice(), delete.len(), pos);
        assert(name@ =~= input@.skip(delete@.len() as int));
        return (delete.len(), filter_beginning(agents, name.as_slice()));
    }
    let list = command_list();
    (0, filter_beginning(list.as_slice(), input.as_slice()))
}

} // verus!
