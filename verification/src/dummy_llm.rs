//! A model that answers without a network, for trying things out.

use vstd::prelude::*;
use vstd::utf8::*;
use crate::messages;
use crate::messages::{FunctionCall, Message, Msg, ToolCall, Usage};
use crate::numbers;
use crate::numbers::{parse_usize, usize_text};
use crate::summarize;
use crate::text;
use crate::text::{piece, same, starts_with, to_chars};
use crate::text_laws;
use crate::words;
use crate::words::{index_of, split_words, trim};

verus! {

/// The most lines of a long answer.
pub const MAX_LINES: usize = 10_000;

/// Requests that carry more text than this are rejected.
pub const CONTEXT_LIMIT_CHARS: usize = 15_000;

/// Whether a model name stands for the built-in model.
pub fn is_dummy_model(model: &str) -> (r: bool)
    ensures
        r == (model@ == "dummy"@ || model@ == "test"@),
{
    same(model, "dummy") || same(model, "test")
}

/// What a user message asks of the built-in model.
#[derive(Clone, Copy, PartialEq, Eq, Structural, Debug)]
pub enum DummyCommand {
    /// A text of so many lines.
    Long(usize),
    /// The same, slowly.
    Slow(usize),
    /// The usual text.
    Normal,
}

impl DummyCommand {
    /// Milliseconds between two words.
    pub fn word_delay_ms(&self) -> (r: u64)
        ensures
            r == (if *self is Slow {
                200u64
            } else {
                15u64
            }),
    {
        match self {
            DummyCommand::Slow(_) => 200,
            _ => 15,
        }
    }

    /// Whether the answer is a text, whatever the turn.
    pub fn forces_text(&self) -> (r: bool)
        ensures
            r == !(*self is Normal),
    {
        match self {
            DummyCommand::Normal => false,
            _ => true,
        }
    }
}

/// The number of lines that a command word asks for: its default alone, or the number after it.
pub open spec fn lines_asked(t: Seq<char>, word: Seq<char>, default: nat) -> Option<nat> {
    if t == word {
        Some(default)
    } else if text::begins(t, word) && text::begins(t.skip(word.len() as int), seq![' ']) {
        numbers::read_unsigned(
            words::trimmed(t.skip(word.len() as int).skip(1)),
            10,
            usize::MAX as nat,
        )
    } else {
        None
    }
}

/// What a user message asks for.
pub open spec fn dummy_command(msg: Seq<char>) -> DummyCommand {
    let t = words::trimmed(msg);
    match lines_asked(t, "long"@, 50) {
        Some(n) => DummyCommand::Long(n as usize),
        None => match lines_asked(t, "slow"@, 20) {
            Some(n) => DummyCommand::Slow(n as usize),
            None => DummyCommand::Normal,
        },
    }
}

fn count_asked(t: &[char], word: &str, default: usize) -> (r: Option<usize>)
    ensures
        match r {
            Some(n) => lines_asked(t@, word@, default as nat) == Some(n as nat),
            None => lines_asked(t@, word@, default as nat) is None,
        },
{
    let w = to_chars(word);
    let n: usize = t.len();
    let m: usize = w.len();
    if !starts_with(t, w.as_slice()) {
        assert(t@ == word@ ==> t@.take(m as int) =~= word@);
        return None;
    }
    if n == m {
        assert(t@.take(m as int) =~= t@);
        return Some(default);
    }
    if t[m] != ' ' {
        assert(t@.skip(m as int).take(1)[0] != seq![' '][0]);
        return None;
    }
    assert(t@.skip(m as int).take(1) =~= seq![' ']);
    let rest = piece(t, m + 1, n);
    assert(rest@ =~= t@.skip(m as int).skip(1));
    let number = trim(rest.as_slice());
    parse_usize(number.as_slice())
}

/// Reads what a user message asks for: `long`, `slow`, or one of them with a number of lines.
pub fn parse_dummy_command(msg: &str) -> (r: DummyCommand)
    ensures
        r == dummy_command(msg@),
{
    let c = to_chars(msg);
    let t = trim(c.as_slice());
    match count_asked(t.as_slice(), "long", 50) {
        Some(n) => DummyCommand::Long(n),
        None => match count_asked(t.as_slice(), "slow", 20) {
            Some(n) => DummyCommand::Slow(n),
            None => DummyCommand::Normal,
        },
    }
}

/// The text of the last user message, or nothing.
pub open spec fn last_user_text(v: Seq<Msg>) -> Seq<char> {
    match summarize::last_user(v) {
        Some(m) => match m.content {
            Some(c) => c,
            None => ""@,
        },
        None => ""@,
    }
}

/// The text of the last user message, or nothing.
pub fn last_user_message<'a>(list: &'a [Message]) -> (r: &'a str)
    ensures
        r@ == last_user_text(messages::msg_views(list@)),
{
    let ghost v = messages::msg_views(list@);
    let mut i: usize = list.len();
    assert(v.take(v.len() as int) =~= v);
    while i > 0
        invariant
            i <= list@.len(),
            v == messages::msg_views(list@),
            summarize::last_user(v) == summarize::last_user(v.take(i as int)),
        decreases i,
    {
        assert(v.take(i as int).drop_last() =~= v.take(i - 1));
        assert(v.take(i as int).last() == list@[i - 1]@);
        if same(list[i - 1].role.as_str(), "user") {
            return match &list[i - 1].content {
                Some(c) => c.as_str(),
                None => "",
            };
        }
        i -= 1;
    }
    ""
}

/// The bytes of the arguments of tool calls.
pub open spec fn calls_size(v: Seq<messages::Call>) -> nat
    decreases v.len(),
{
    if v.len() == 0 {
        0
    } else {
        calls_size(v.drop_last()) + encode_utf8(v.last().arguments).len()
    }
}

/// The bytes of a message: its content and the arguments of its tool calls.
pub open spec fn message_size(m: Msg) -> nat {
    (match m.content {
        Some(c) => encode_utf8(c).len(),
        None => 0,
    }) + (match m.calls {
        Some(c) => calls_size(c),
        None => 0,
    })
}

/// The bytes of a conversation.
pub open spec fn conversation_size(v: Seq<Msg>) -> nat
    decreases v.len(),
{
    if v.len() == 0 {
        0
    } else {
        conversation_size(v.drop_last()) + message_size(v.last())
    }
}

proof fn conversation_grows(v: Seq<Msg>, k: int)
    requires
        0 <= k <= v.len(),
    ensures
        conversation_size(v.take(k)) <= conversation_size(v),
    decreases v.len() - k,
{
    if k == v.len() {
        assert(v.take(k) =~= v);
    } else {
        conversation_grows(v, k + 1);
        assert(v.take(k + 1).drop_last() =~= v.take(k));
    }
}

proof fn calls_grow(v: Seq<messages::Call>, k: int)
    requires
        0 <= k <= v.len(),
    ensures
        calls_size(v.take(k)) <= calls_size(v),
    decreases v.len() - k,
{
    if k == v.len() {
        assert(v.take(k) =~= v);
    } else {
        calls_grow(v, k + 1);
        assert(v.take(k + 1).drop_last() =~= v.take(k));
    }
}

fn calls_bytes(list: &[ToolCall]) -> (r: usize)
    requires
        calls_size(messages::call_views(list@)) <= usize::MAX,
    ensures
        r == calls_size(messages::call_views(list@)),
{
    let ghost v = messages::call_views(list@);
    let mut n: usize = 0;
    let mut i: usize = 0;
    while i < list.len()
        invariant
            i <= list@.len(),
            v == messages::call_views(list@),
            calls_size(v) <= usize::MAX,
            n == calls_size(v.take(i as int)),
        decreases list@.len() - i,
    {
        proof {
            calls_grow(v, i + 1);
            assert(v.take(i + 1).drop_last() =~= v.take(i as int));
            assert(v.take(i + 1).last() == list@[i as int]@);
        }
        n += list[i].function.arguments.as_str().as_bytes().len();
        i += 1;
    }
    assert(v.take(v.len() as int) =~= v);
    n
}

/// The bytes of a conversation.
pub fn conversation_chars(list: &[Message]) -> (r: usize)
    requires
        conversation_size(messages::msg_views(list@)) <= usize::MAX,
    ensures
        r == conversation_size(messages::msg_views(list@)),
{
    let ghost v = messages::msg_views(list@);
    let mut n: usize = 0;
    let mut i: usize = 0;
    while i < list.len()
        invariant
            i <= list@.len(),
            v == messages::msg_views(list@),
            conversation_size(v) <= usize::MAX,
            n == conversation_size(v.take(i as int)),
        decreases list@.len() - i,
    {
        proof {
            conversation_grows(v, i + 1);
            assert(v.take(i + 1).drop_last() =~= v.take(i as int));
            assert(v.take(i + 1).last() == list@[i as int]@);
        }
        let m = &list[i];
        let a: usize = match &m.content {
            Some(c) => c.as_str().as_bytes().len(),
            None => 0,
        };
        let b: usize = match &m.tool_calls {
            Some(c) => calls_bytes(c.as_slice()),
            None => 0,
        };
        n = n + a + b;
        i += 1;
    }
    assert(v.take(v.len() as int) =~= v);
    n
}

// ---------------------------------------------------------------------------
// Answers
// ---------------------------------------------------------------------------

/// A text right-aligned in three columns.
pub open spec fn padded(t: Seq<char>) -> Seq<char> {
    if t.len() == 0 {
        "   "@ + t
    } else if t.len() == 1 {
        "  "@ + t
    } else if t.len() == 2 {
        " "@ + t
    } else {
        t
    }
}

/// One line of a long answer.
pub open spec fn long_line(i: nat) -> Seq<char> {
    "Line "@ + padded(numbers::decimal(i))
        + ": The quick brown fox jumps over the lazy dog. Pack my box with five dozen liquor jugs. How vexingly quick daft zebras jump.\n"@
}

/// The first `n` lines of a long answer.
pub open spec fn long_lines(n: nat) -> Seq<char>
    decreases n,
{
    if n == 0 {
        Seq::empty()
    } else {
        long_lines((n - 1) as nat) + long_line(n)
    }
}

/// The number of lines that a long answer has.
pub open spec fn limited_lines(n: nat) -> nat {
    if n < MAX_LINES {
        n
    } else {
        MAX_LINES as nat
    }
}

fn pad(t: &str) -> (r: String)
    ensures
        r@ == padded(t@),
{
    let n: usize = to_chars(t).len();
    let mut s = if n == 0 {
        "   ".to_owned()
    } else if n == 1 {
        "  ".to_owned()
    } else if n == 2 {
        " ".to_owned()
    } else {
        return t.to_owned();
    };
    s.append(t);
    s
}

/// A text of so many lines, up to a limit.
pub fn make_long_text(num_lines: usize) -> (r: String)
    ensures
        r@ == long_lines(limited_lines(num_lines as nat)),
{
    let n: usize = if num_lines < MAX_LINES { num_lines } else { MAX_LINES };
    let mut out = String::new();
    let mut i: usize = 0;
    while i < n
        invariant
            i <= n <= MAX_LINES,
            out@ == long_lines(i as nat),
        decreases n - i,
    {
        i += 1;
        let mut line = "Line ".to_owned();
        line.append(pad(usize_text(i).as_str()).as_str());
        line.append(
            ": The quick brown fox jumps over the lazy dog. Pack my box with five dozen liquor jugs. How vexingly quick daft zebras jump.\n",
        );
        out.append(line.as_str());
    }
    out
}

/// The sections of the usual answer.
pub open spec fn section(k: int) -> Seq<char> {
    if k == 0 {
        "## Analysis\n\n- The current implementation follows a standard request-response pattern.\n- Each component is loosely coupled through well-defined interfaces.\n- Error handling propagates through the Result type consistently.\n- The module structure separates concerns between I/O and business logic.\n- Thread safety is maintained via Arc and Mutex where shared state is needed.\n\n"@
    } else if k == 1 {
        "## Observations\n\n- Memory usage remains stable across long-running sessions.\n- The streaming path handles backpressure through bounded channels.\n- Configuration is loaded once at startup and shared immutably.\n- Tool execution is sandboxed to the working directory.\n- Signal handling cooperates with the main event loop via channels.\n\n"@
    } else if k == 2 {
        "## Recommendations\n\n- Consider adding retry logic for transient network failures.\n- The status bar refresh rate could be adaptive based on terminal speed.\n- Batch database writes when processing multiple tool results.\n- Add structured logging with span context for debugging agent chains.\n- Profile the JSON serialization path if message history grows large.\n\n"@
    } else {
        "## Next steps\n\n- Run the test suite to verify no regressions were introduced.\n- Review the diff for any unintended changes to public interfaces.\n- Update documentation if the configuration format changed.\n- Check that the CI pipeline passes with the new dependencies.\n- Tag a release candidate once everyone has approved.\n\n"@
    }
}

fn section_text(k: usize) -> (r: &'static str)
    ensures
        r@ == section(k as int),
{
    if k == 0 {
        "## Analysis\n\n- The current implementation follows a standard request-response pattern.\n- Each component is loosely coupled through well-defined interfaces.\n- Error handling propagates through the Result type consistently.\n- The module structure separates concerns between I/O and business logic.\n- Thread safety is maintained via Arc and Mutex where shared state is needed.\n\n"
    } else if k == 1 {
        "## Observations\n\n- Memory usage remains stable across long-running sessions.\n- The streaming path handles backpressure through bounded channels.\n- Configuration is loaded once at startup and shared immutably.\n- Tool execution is sandboxed to the working directory.\n- Signal handling cooperates with the main event loop via channels.\n\n"
    } else if k == 2 {
        "## Recommendations\n\n- Consider adding retry logic for transient network failures.\n- The status bar refresh rate could be adaptive based on terminal speed.\n- Batch database writes when processing multiple tool results.\n- Add structured logging with span context for debugging agent chains.\n- Profile the JSON serialization path if message history grows large.\n\n"
    } else {
        "## Next steps\n\n- Run the test suite to verify no regressions were introduced.\n- Review the diff for any unintended changes to public interfaces.\n- Update documentation if the configuration format changed.\n- Check that the CI pipeline passes with the new dependencies.\n- Tag a release candidate once everyone has approved.\n\n"
    }
}

/// The usual answer: four sections, beginning with one that the turn picks.
pub open spec fn normal_text(turn: nat, message_count: nat) -> Seq<char> {
    let k = turn % 4;
    "Dummy response #"@ + numbers::decimal(turn) + " (conversation has "@ + numbers::decimal(
        message_count,
    ) + " messages).\n\n"@ + section(k as int) + section((k + 1) as int % 4) + section(
        (k + 2) as int % 4,
    ) + section((k + 3) as int % 4) + "This was turn "@ + numbers::decimal(turn)
        + " of the conversation. "@ + numbers::decimal(message_count)
        + " messages have been exchanged so far."@
}

/// The usual answer.
pub fn make_normal_text(turn: usize, message_count: usize) -> (r: String)
    ensures
        r@ == normal_text(turn as nat, message_count as nat),
{
    let k: usize = turn % 4;
    let mut s = "Dummy response #".to_owned();
    s.append(usize_text(turn).as_str());
    s.append(" (conversation has ");
    s.append(usize_text(message_count).as_str());
    s.append(" messages).\n\n");
    s.append(section_text(k));
    s.append(section_text((k + 1) % 4));
    s.append(section_text((k + 2) % 4));
    s.append(section_text((k + 3) % 4));
    s.append("This was turn ");
    s.append(usize_text(turn).as_str());
    s.append(" of the conversation. ");
    s.append(usize_text(message_count).as_str());
    s.append(" messages have been exchanged so far.");
    s
}

/// The text of an answer in a turn.
pub open spec fn answer_text(turn: nat, v: Seq<Msg>) -> Seq<char> {
    match dummy_command(last_user_text(v)) {
        DummyCommand::Long(n) => long_lines(limited_lines(n as nat)),
        DummyCommand::Slow(n) => long_lines(limited_lines(n as nat)),
        DummyCommand::Normal => normal_text(turn, v.len()),
    }
}

/// An answer: the message, why it ended, and the tokens it took.
pub struct DummyAnswer {
    pub message: Message,
    pub finish_reason: String,
    pub usage: Usage,
}

/// The answer with a text, for a turn.
pub fn make_text_response(turn: usize, list: &[Message]) -> (r: DummyAnswer)
    ensures
        r.message@ == messages::plain_msg(
            "assistant"@,
            answer_text(turn as nat, messages::msg_views(list@)),
        ),
        r.finish_reason@ == "stop"@,
        r.usage == (Usage {
            prompt_tokens: Some(10),
            completion_tokens: Some(20),
            total_tokens: Some(30),
        }),
{
    assert(messages::msg_views(list@).len() == list@.len());
    let content = match parse_dummy_command(last_user_message(list)) {
        DummyCommand::Long(n) => make_long_text(n),
        DummyCommand::Slow(n) => make_long_text(n),
        DummyCommand::Normal => make_normal_text(turn, list.len()),
    };
    DummyAnswer {
        message: messages::make_message("assistant", content),
        finish_reason: "stop".to_owned(),
        usage: Usage {
            prompt_tokens: Some(10),
            completion_tokens: Some(20),
            total_tokens: Some(30),
        },
    }
}

/// The tools that are called in turn, with their arguments.
pub open spec fn cycle_tool(k: int) -> (Seq<char>, Seq<char>) {
    if k == 0 {
        ("read_file"@, "{\"path\": \"src/main.rs\"}"@)
    } else if k == 1 {
        (
            "write_file"@,
            "{\"path\": \"dummy_test.tmp\", \"content\": \"test content line 1\\ntest content line 2\\n\"}"@,
        )
    } else if k == 2 {
        (
            "write_file"@,
            "{\"path\": \"dummy_test.tmp\", \"content\": \"replaced\", \"old_content\": \"test content line 1\"}"@,
        )
    } else if k == 3 {
        ("run_command"@, "{\"command\": \"echo hello from dummy\"}"@)
    } else {
        ("glob"@, "{\"pattern\": \"*.rs\"}"@)
    }
}

/// The tool call of a turn.
pub open spec fn turn_call(turn: nat) -> Msg {
    let (name, arguments) = cycle_tool((turn / 2) as int % 5);
    Msg {
        role: "assistant"@,
        content: None,
        tool_call_id: None,
        name: None,
        calls: Some(
            seq![
                messages::Call {
                    index: Some(0),
                    id: "call_dummy_"@ + numbers::decimal(turn),
                    tool_type: "function"@,
                    name,
                    arguments,
                },
            ],
        ),
    }
}

/// The answer that calls a tool, for a turn.
pub fn make_tool_call_response(turn: usize) -> (r: DummyAnswer)
    ensures
        r.message@ == turn_call(turn as nat),
        r.finish_reason@ == "tool_calls"@,
        r.usage == (Usage {
            prompt_tokens: Some(10),
            completion_tokens: Some(5),
            total_tokens: Some(15),
        }),
{
    let k: usize = (turn / 2) % 5;
    let (name, arguments): (&str, &str) = if k == 0 {
        ("read_file", "{\"path\": \"src/main.rs\"}")
    } else if k == 1 {
        (
            "write_file",
            "{\"path\": \"dummy_test.tmp\", \"content\": \"test content line 1\\ntest content line 2\\n\"}",
        )
    } else if k == 2 {
        (
            "write_file",
            "{\"path\": \"dummy_test.tmp\", \"content\": \"replaced\", \"old_content\": \"test content line 1\"}",
        )
    } else if k == 3 {
        ("run_command", "{\"command\": \"echo hello from dummy\"}")
    } else {
        ("glob", "{\"pattern\": \"*.rs\"}")
    };
    let mut id = "call_dummy_".to_owned();
    id.append(usize_text(turn).as_str());
    let mut calls: Vec<ToolCall> = Vec::new();
    calls.push(
        ToolCall {
            index: Some(0),
            id,
            tool_type: "function".to_owned(),
            function: FunctionCall { name: name.to_owned(), arguments: arguments.to_owned() },
        },
    );
    let message = Message {
        role: "assistant".to_owned(),
        content: None,
        tool_call_id: None,
        name: None,
        tool_calls: Some(calls),
    };
    assert(message@.calls->0 =~= turn_call(turn as nat).calls->0);
    DummyAnswer {
        message,
        finish_reason: "tool_calls".to_owned(),
        usage: Usage {
            prompt_tokens: Some(10),
            completion_tokens: Some(5),
            total_tokens: Some(15),
        },
    }
}

// ---------------------------------------------------------------------------
// Turns
// ---------------------------------------------------------------------------

/// What a turn comes to.
pub enum DummyTurn {
    /// The user interrupted it.
    Interrupted(String),
    /// The conversation does not fit.
    TooLong(String),
    /// A tool is to be called; its result goes to the conversation, and another turn follows.
    CallTool(DummyAnswer),
    /// The answer, which ends the request.
    Finished(DummyAnswer),
}

/// The error where a conversation does not fit.
pub open spec fn too_long_text(size: nat) -> Seq<char> {
    "got API error code: 400: This model's maximum context length is "@ + numbers::decimal(
        CONTEXT_LIMIT_CHARS as nat,
    ) + " characters, however the request has "@ + numbers::decimal(size)
        + " characters (context_length_exceeded)"@
}

/// Whether a turn calls a tool: every other one, where there are tools, the last message is no tool
/// result, and the user did not ask for a text.
pub open spec fn calls_tool(v: Seq<Msg>, turn: nat, has_tools: bool) -> bool {
    &&& turn % 2 == 1
    &&& dummy_command(last_user_text(v)) is Normal
    &&& has_tools
    &&& !(v.len() > 0 && v.last().role == "tool"@)
}

/// Takes one turn of the built-in model on a conversation.
pub fn post_request_dummy(
    list: &mut Vec<Message>,
    turn: usize,
    has_tools: bool,
    interrupted: bool,
) -> (r: DummyTurn)
    requires
        conversation_size(messages::msg_views(old(list)@)) <= usize::MAX,
    ensures
        ({
            let v = messages::msg_views(old(list)@);
            let size = conversation_size(v);
            match r {
                DummyTurn::Interrupted(e) => {
                    &&& interrupted
                    &&& e@ == "Interrupted by user"@
                    &&& messages::msg_views(final(list)@) == v
                },
                DummyTurn::TooLong(e) => {
                    &&& !interrupted
                    &&& size > CONTEXT_LIMIT_CHARS
                    &&& e@ == too_long_text(size)
                    &&& messages::msg_views(final(list)@) == v
                },
                DummyTurn::CallTool(a) => {
                    &&& !interrupted
                    &&& size <= CONTEXT_LIMIT_CHARS
                    &&& calls_tool(v, turn as nat, has_tools)
                    &&& a.message@ == turn_call(turn as nat)
                    &&& a.finish_reason@ == "tool_calls"@
                    &&& a.usage == (Usage {
                        prompt_tokens: Some(10),
                        completion_tokens: Some(5),
                        total_tokens: Some(15),
                    })
                    &&& messages::msg_views(final(list)@) == v.push(a.message@)
                },
                DummyTurn::Finished(a) => {
                    &&& !interrupted
                    &&& size <= CONTEXT_LIMIT_CHARS
                    &&& !calls_tool(v, turn as nat, has_tools)
                    &&& a.message@ == messages::plain_msg(
                        "assistant"@,
                        answer_text(turn as nat, v),
                    )
                    &&& a.finish_reason@ == "stop"@
                    &&& a.usage == (Usage {
                        prompt_tokens: Some(10),
                        completion_tokens: Some(20),
                        total_tokens: Some(30),
                    })
                    &&& messages::msg_views(final(list)@) == v.push(a.message@)
                },
            }
        }),
{
    let ghost v = messages::msg_views(list@);
    if interrupted {
        return DummyTurn::Interrupted("Interrupted by user".to_owned());
    }
    let size = conversation_chars(list.as_slice());
    if size > CONTEXT_LIMIT_CHARS {
        let mut e =
            "got API error code: 400: This model's maximum context length is ".to_owned();
        e.append(usize_text(CONTEXT_LIMIT_CHARS).as_str());
        e.append(" characters, however the request has ");
        e.append(usize_text(size).as_str());
        e.append(" characters (context_length_exceeded)");
        return DummyTurn::TooLong(e);
    }
    let n: usize = list.len();
    assert(v.len() == n);
    let is_tool_result = n > 0 && same(list[n - 1].role.as_str(), "tool");
    let cmd = parse_dummy_command(last_user_message(list.as_slice()));
    let is_tool_turn = turn % 2 == 1 && !cmd.forces_text();
    if is_tool_turn && has_tools && !is_tool_result {
        let a = make_tool_call_response(turn);
        let m = a.message.clone();
        proof {
            messages::msg_views_push(list@, m);
        }
        list.push(m);
        DummyTurn::CallTool(a)
    } else {
        let a = make_text_response(turn, list.as_slice());
        let m = a.message.clone();
        proof {
            messages::msg_views_push(list@, m);
        }
        list.push(m);
        DummyTurn::Finished(a)
    }
}

/// A tool result is never followed by another tool call at once: the model answers it.
pub proof fn tool_results_are_answered(v: Seq<Msg>, turn: nat, has_tools: bool)
    requires
        v.len() > 0,
        v.last().role == "tool"@,
    ensures
        !calls_tool(v, turn, has_tools),
{
}

/// The words of a line as chunks: each with a space behind it.
pub open spec fn word_chunks(w: Seq<Seq<char>>) -> Seq<Seq<char>> {
    Seq::new(w.len(), |i: int| w[i] + " "@)
}

/// The chunks in which a text is streamed from `i` on: word by word, with each line break on its
/// own, and an empty one at the end.
pub open spec fn chunks_from(s: Seq<char>, i: int) -> Seq<Seq<char>>
    decreases s.len() - i,
{
    if 0 <= i <= s.len() {
        let e = words::next_char(s, '\n', i);
        let here = word_chunks(words::words_from(s.subrange(i, e), 0)).push("\n"@);
        if i <= e < s.len() {
            here + chunks_from(s, e + 1)
        } else {
            here.push(""@)
        }
    } else {
        Seq::empty()
    }
}

/// The chunks in which a text is streamed.
pub fn stream_chunks(content: &str) -> (r: Vec<String>)
    ensures
        words::views(r@) == chunks_from(content@, 0),
{
    let s = to_chars(content);
    let mut out: Vec<String> = Vec::new();
    let mut i: usize = 0;
    let n: usize = s.len();
    assert(words::views(out@) + chunks_from(s@, 0) =~= chunks_from(s@, 0));
    loop
        invariant_except_break
            words::views(out@) + chunks_from(s@, i as int) == chunks_from(s@, 0),
        invariant
            i <= n,
            n == s@.len(),
        ensures
            words::views(out@) == chunks_from(s@, 0),
        decreases n - i,
    {
        let ghost before = words::views(out@);
        let e = index_of(s.as_slice(), '\n', i);
        let line = piece(s.as_slice(), i, e);
        let list = split_words(line.as_slice());
        let ghost w = words::words_from(line@, 0);
        let ghost here = word_chunks(w);
        assert(list@.len() == w.len()) by {
            assert(words::views(list@).len() == list@.len());
        }
        let mut k: usize = 0;
        assert(words::views(out@) =~= before + here.take(0));
        while k < list.len()
            invariant
                k <= list@.len(),
                words::views(list@) == w,
                here == word_chunks(w),
                list@.len() == w.len(),
                words::views(out@) == before + here.take(k as int),
            decreases list@.len() - k,
        {
            let mut chunk = list[k].clone();
            chunk.append(" ");
            proof {
                assert(words::views(list@)[k as int] == list@[k as int]@);
                words::views_push(out@, chunk);
                assert(before + here.take(k + 1) =~= (before + here.take(k as int)).push(
                    here[k as int],
                ));
            }
            out.push(chunk);
            k += 1;
        }
        assert(here.take(here.len() as int) =~= here);
        let newline = "\n".to_owned();
        proof {
            words::views_push(out@, newline);
            assert((before + here).push("\n"@) =~= before + here.push("\n"@));
        }
        out.push(newline);
        if e < n {
            assert(before + (here.push("\n"@) + chunks_from(s@, e + 1)) =~= words::views(out@)
                + chunks_from(s@, e + 1));
            i = e + 1;
        } else {
            let last = "".to_owned();
            proof {
                words::views_push(out@, last);
                assert((before + here.push("\n"@)).push(""@) =~= before + here.push("\n"@).push(
                    ""@,
                ));
            }
            out.push(last);
            break;
        }
    }
    out
}

/// The text that is asked for has as many lines as are asked for, up to a bound, each with its
/// number; without a number it has fifty, or twenty where it is to come slowly. White space around
/// the command does not count.
pub proof fn long_texts_are_asked_for(n: usize)
    ensures
        lines_asked("long"@, "long"@, 50) == Some(50nat),
        lines_asked("slow"@, "slow"@, 20) == Some(20nat),
        lines_asked("long "@ + numbers::decimal(n as nat), "long"@, 50) == Some(n as nat),
        lines_asked("slow "@ + numbers::decimal(n as nat), "slow"@, 20) == Some(n as nat),
        lines_asked("slow "@ + numbers::decimal(n as nat), "long"@, 50) is None,
{
    let d = numbers::decimal(n as nat);
    reveal_strlit("long");
    reveal_strlit("slow");
    reveal_strlit("long ");
    reveal_strlit("slow ");
    numbers::decimal_reads_back(n as nat, usize::MAX as nat);
    digits_stand_alone(n as nat);
    let a = "long "@ + d;
    let b = "slow "@ + d;
    assert(a.take(4) =~= "long"@);
    assert(b.take(4) =~= "slow"@);
    assert(a.skip(4) =~= seq![' '] + d);
    assert(b.skip(4) =~= seq![' '] + d);
    assert((seq![' '] + d).take(1) =~= seq![' ']);
    assert((seq![' '] + d).skip(1) =~= d);
    assert(b[0] == 's' && "long"@[0] == 'l');
    assert(b.take(4)[0] == 's');
}

proof fn digits_stand_alone(n: nat)
    ensures
        words::trimmed(numbers::decimal(n)) == numbers::decimal(n),
        numbers::decimal(n).len() > 0,
        '0' <= numbers::decimal(n)[0] <= '9',
        '0' <= numbers::decimal(n).last() <= '9',
    decreases n,
{
    if n >= 10 {
        digits_stand_alone(n / 10);
        let s = numbers::decimal(n);
        assert(s =~= numbers::decimal(n / 10).push(numbers::digit_char(n % 10)));
        assert(s[0] == numbers::decimal(n / 10)[0]);
    }
}

/// One more line is asked for: it comes behind the others and has the next number.
pub proof fn long_texts_are_numbered(n: nat)
    ensures
        long_lines(0).len() == 0,
        ({
            let line = long_lines(n + 1).skip(long_lines(n).len() as int);
            &&& long_lines(n + 1).take(long_lines(n).len() as int) == long_lines(n)
            &&& ("Line "@ + padded(numbers::decimal(n + 1)) + ": "@).is_prefix_of(line)
            &&& line.last() == '\n'
        }),
{
    let t = ": The quick brown fox jumps over the lazy dog. Pack my box with five dozen liquor jugs. How vexingly quick daft zebras jump.\n"@;
    reveal_strlit(
        ": The quick brown fox jumps over the lazy dog. Pack my box with five dozen liquor jugs. How vexingly quick daft zebras jump.\n",
    );
    reveal_strlit(": ");
    let line = long_line(n + 1);
    let all = long_lines(n + 1);
    assert(all =~= long_lines(n) + line);
    assert(all.take(long_lines(n).len() as int) =~= long_lines(n));
    assert(all.skip(long_lines(n).len() as int) =~= line);
    let head = "Line "@ + padded(numbers::decimal(n + 1));
    assert(line =~= head + t);
    assert((head + ": "@) =~= line.subrange(0, head.len() as int + 2));
    assert(line.last() == t.last());
}

/// A number is brought to three columns, and one with more digits is left as it is.
pub proof fn numbers_are_padded(t: Seq<char>)
    ensures
        padded(t).len() == if t.len() < 3 {
            3
        } else {
            t.len()
        },
        padded(t).skip(padded(t).len() - t.len()) == t,
        forall|i: int| 0 <= i < padded(t).len() - t.len() ==> #[trigger] padded(t)[i] == ' ',
{
    reveal_strlit("   ");
    reveal_strlit("  ");
    reveal_strlit(" ");
    assert(padded(t).skip(padded(t).len() - t.len()) =~= t);
}

/// What is asked for is answered: a text of as many lines as were asked for, but of no more than
/// ten thousand, and else the usual text, with the turn and the length of the conversation.
pub proof fn questions_are_answered(turn: nat, v: Seq<Msg>)
    ensures
        ({
            let t = answer_text(turn, v);
            match dummy_command(last_user_text(v)) {
                DummyCommand::Long(n) | DummyCommand::Slow(n) => if n <= 10_000 {
                    t == long_lines(n as nat)
                } else {
                    t == long_lines(10_000)
                },
                DummyCommand::Normal => t == normal_text(turn, v.len()),
            }
        }),
{
}

/// A text is streamed word by word and line by line: the words of a line, each with a blank behind
/// it, then the line break, then the lines that follow.
pub proof fn texts_are_streamed_in_order(a: Seq<char>, b: Seq<char>)
    requires
        text_laws::one_line(a),
    ensures
        chunks_from(a + seq!['\n'] + b, 0) == words::words_from(a, 0).map(
            |k: int, w: Seq<char>| w + seq![' '],
        ) + seq![seq!['\n']] + chunks_from(b, 0),
        chunks_from(a, 0) == words::words_from(a, 0).map(|k: int, w: Seq<char>| w + seq![' '])
            + seq![seq!['\n'], Seq::empty()],
{
    reveal_strlit(" ");
    reveal_strlit("\n");
    reveal_strlit("");
    assert(" "@ =~= seq![' ']);
    assert("\n"@ =~= seq!['\n']);
    assert(""@ =~= Seq::<char>::empty());
    let s = a + seq!['\n'] + b;
    let n = a.len() as int;
    words::next_char_is_first(s, '\n', 0);
    let e = words::next_char(s, '\n', 0);
    assert(s[n] == '\n');
    assert(e == n) by {
        if e < n {
            assert(s[e] == a[e]);
        }
    }
    assert(s.subrange(0, n) =~= a);
    chunks_shift(s, n + 1, 0);
    assert(s.skip(n + 1) =~= b);
    let w = words::words_from(a, 0);
    assert(word_chunks(w) =~= w.map(|k: int, x: Seq<char>| x + seq![' ']));
    assert(chunks_from(s, 0) =~= word_chunks(w) + seq![seq!['\n']] + chunks_from(b, 0));
    words::next_char_is_first(a, '\n', 0);
    let f = words::next_char(a, '\n', 0);
    assert(f == n);
    assert(a.subrange(0, n) =~= a);
    assert(chunks_from(a, 0) =~= word_chunks(w) + seq![seq!['\n'], Seq::empty()]);
}

proof fn chunks_shift(s: Seq<char>, k: int, i: int)
    requires
        0 <= k,
        0 <= i,
        k + i <= s.len(),
    ensures
        chunks_from(s, k + i) == chunks_from(s.skip(k), i),
    decreases s.len() - i,
{
    let t = s.skip(k);
    breaks_shift(s, k, i);
    words::next_char_is_first(t, '\n', i);
    let e = words::next_char(t, '\n', i);
    assert(s.subrange(k + i, k + e) =~= t.subrange(i, e));
    if e < t.len() {
        chunks_shift(s, k, e + 1);
    }
}

proof fn breaks_shift(s: Seq<char>, k: int, i: int)
    requires
        0 <= k,
        0 <= i,
        k + i <= s.len(),
    ensures
        words::next_char(s, '\n', k + i) == k + words::next_char(s.skip(k), '\n', i),
    decreases s.len() - i,
{
    if k + i < s.len() {
        assert(s.skip(k)[i] == s[k + i]);
        if s[k + i] != '\n' {
            breaks_shift(s, k, i + 1);
        }
    }
}

} // verus!
