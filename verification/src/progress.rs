//! A response as it comes in: its text, and what the status line says meanwhile.

use vstd::prelude::*;
use vstd::utf8::*;
use crate::messages::Usage;
use crate::numbers;
use crate::numbers::{decimal_text, usize_text};
use crate::session::push_line;
use crate::text::{from_chars, piece, text2, text3, text5, to_chars};
use crate::tool_args;
use crate::tool_args::{format_tool_arguments, preview_partial_tool_arguments};
use crate::text_laws;
use crate::words;
use crate::words::{index_of, join};

verus! {

// ---------------------------------------------------------------------------
// Lines
// ---------------------------------------------------------------------------

/// The complete lines of a text from `i` on.
pub open spec fn complete_lines(s: Seq<char>, i: int) -> Seq<Seq<char>>
    decreases s.len() - i + 1,
{
    if 0 <= i <= s.len() {
        let e = words::next_char(s, '\n', i);
        if i <= e < s.len() {
            seq![s.subrange(i, e)] + complete_lines(s, e + 1)
        } else {
            Seq::empty()
        }
    } else {
        Seq::empty()
    }
}

/// What follows the last complete line of a text from `i` on.
pub open spec fn open_line(s: Seq<char>, i: int) -> Seq<char>
    decreases s.len() - i + 1,
{
    if 0 <= i <= s.len() {
        let e = words::next_char(s, '\n', i);
        if i <= e < s.len() {
            open_line(s, e + 1)
        } else {
            s.skip(i)
        }
    } else {
        Seq::empty()
    }
}

/// Lines, each with its line break.
pub open spec fn broken(lines: Seq<Seq<char>>) -> Seq<char>
    decreases lines.len(),
{
    if lines.len() == 0 {
        Seq::empty()
    } else {
        lines[0] + seq!['\n'] + broken(lines.skip(1))
    }
}

/// Text that comes in and is printed line by line.
pub struct LineStreamer {
    pub buffer: String,
}

/// The lines to print when a chunk comes in, and what is kept back.
pub open spec fn streamed(buffer: Seq<char>, chunk: Seq<char>) -> (Seq<Seq<char>>, Seq<char>) {
    if chunk.len() == 0 {
        if buffer.len() == 0 {
            (Seq::empty(), buffer)
        } else {
            (seq![buffer], Seq::empty())
        }
    } else {
        (complete_lines(buffer + chunk, 0), open_line(buffer + chunk, 0))
    }
}

impl LineStreamer {
    /// Nothing has come in yet.
    pub fn new() -> (r: Self)
        ensures
            r.buffer@ == Seq::<char>::empty(),
    {
        let r = LineStreamer { buffer: "".to_owned() };
        proof {
            reveal_strlit("");
            assert(r.buffer@ =~= Seq::<char>::empty());
        }
        r
    }

    /// Takes a chunk; returns the lines that are complete. An empty chunk completes the line.
    pub fn push(&mut self, chunk: &str) -> (r: Vec<String>)
        ensures
            (words::views(r@), final(self).buffer@) == streamed(old(self).buffer@, chunk@),
    {
        let mut lines: Vec<String> = Vec::new();
        proof {
            reveal_strlit("");
            assert(words::views(lines@) =~= Seq::<Seq<char>>::empty());
            assert(""@ =~= Seq::<char>::empty());
        }
        if chunk.is_empty() {
            if !self.buffer.as_str().is_empty() {
                let line = self.buffer.clone();
                push_line(&mut lines, line);
                self.buffer = "".to_owned();
                assert(words::views(lines@) =~= seq![old(self).buffer@]);
            }
            return lines;
        }
        let whole = text2(self.buffer.as_str(), chunk);
        let s = to_chars(whole.as_str());
        let ghost full = s@;
        let mut i: usize = 0;
        let mut e: usize = index_of(s.as_slice(), '\n', 0);
        assert(words::views(lines@) + complete_lines(full, 0) =~= complete_lines(full, 0));
        while e < s.len()
            invariant
                s@ == full,
                i <= e <= s@.len(),
                e == words::next_char(full, '\n', i as int),
                words::views(lines@) + complete_lines(full, i as int) == complete_lines(full, 0),
                open_line(full, i as int) == open_line(full, 0),
            decreases s@.len() - e,
        {
            let part = piece(s.as_slice(), i, e);
            let ghost before = words::views(lines@);
            push_line(&mut lines, from_chars(part.as_slice()));
            proof {
                assert(part@ =~= full.subrange(i as int, e as int));
                assert(complete_lines(full, i as int) == seq![full.subrange(i as int, e as int)]
                    + complete_lines(full, e + 1));
                assert(words::views(lines@) + complete_lines(full, e + 1) =~= before
                    + complete_lines(full, i as int));
            }
            i = e + 1;
            e = index_of(s.as_slice(), '\n', i);
        }
        assert(complete_lines(full, i as int) =~= Seq::<Seq<char>>::empty());
        assert(words::views(lines@) =~= complete_lines(full, 0));
        let rest = piece(s.as_slice(), i, s.len());
        assert(rest@ =~= full.skip(i as int));
        self.buffer = from_chars(rest.as_slice());
        lines
    }
}

proof fn lines_make_up(s: Seq<char>, i: int)
    requires
        0 <= i <= s.len(),
    ensures
        broken(complete_lines(s, i)) + open_line(s, i) == s.skip(i),
    decreases s.len() - i,
{
    let e = words::next_char(s, '\n', i);
    words::next_char_is_first(s, '\n', i);
    if i <= e < s.len() {
        lines_make_up(s, e + 1);
        let l = complete_lines(s, i);
        assert(l.skip(1) =~= complete_lines(s, e + 1));
        assert(l[0] == s.subrange(i, e));
        assert(s[e] == '\n');
        assert(broken(l) + open_line(s, i) =~= s.subrange(i, e) + seq!['\n'] + (broken(
            complete_lines(s, e + 1),
        ) + open_line(s, e + 1)));
        assert(s.subrange(i, e) + seq!['\n'] + s.skip(e + 1) =~= s.skip(i));
    } else {
        assert(broken(complete_lines(s, i)) + open_line(s, i) =~= s.skip(i));
    }
}

/// What is printed, with what is kept back, is what came in.
pub proof fn streaming_loses_nothing(buffer: Seq<char>, chunk: Seq<char>)
    requires
        chunk.len() > 0,
    ensures
        broken(streamed(buffer, chunk).0) + streamed(buffer, chunk).1 == buffer + chunk,
{
    lines_make_up(buffer + chunk, 0);
    assert((buffer + chunk).skip(0) =~= buffer + chunk);
}

// ---------------------------------------------------------------------------
// Text in real time
// ---------------------------------------------------------------------------

/// What is done to the terminal line for text that comes in.
#[derive(Debug, PartialEq, Eq)]
pub enum StreamOp {
    /// Appends to the line.
    Text(String),
    /// Breaks the line.
    Break,
    /// Closes the line, where something stands on it.
    Close,
}

/// What is done to the terminal line for text that comes in.
pub ghost enum Stroke {
    Text(Seq<char>),
    Break,
    Close,
}

impl View for StreamOp {
    type V = Stroke;

    open spec fn view(&self) -> Stroke {
        match self {
            StreamOp::Text(t) => Stroke::Text(t@),
            StreamOp::Break => Stroke::Break,
            StreamOp::Close => Stroke::Close,
        }
    }
}

/// What a list of operations holds.
pub open spec fn stroke_views(v: Seq<StreamOp>) -> Seq<Stroke> {
    Seq::new(v.len(), |i: int| v[i]@)
}

/// The operations for a text from `i` on.
pub open spec fn strokes(s: Seq<char>, i: int) -> Seq<Stroke>
    decreases s.len() - i + 1,
{
    if 0 <= i <= s.len() {
        let e = words::next_char(s, '\n', i);
        if i <= e < s.len() {
            seq![Stroke::Text(s.subrange(i, e)), Stroke::Break] + strokes(s, e + 1)
        } else {
            seq![Stroke::Text(s.skip(i))]
        }
    } else {
        Seq::empty()
    }
}

/// The operations for a chunk. An empty chunk ends the text.
pub open spec fn chunk_strokes(chunk: Seq<char>) -> Seq<Stroke> {
    if chunk.len() == 0 {
        seq![Stroke::Close]
    } else {
        strokes(chunk, 0)
    }
}

fn push_op(list: &mut Vec<StreamOp>, op: StreamOp)
    ensures
        stroke_views(final(list)@) == stroke_views(old(list)@).push(op@),
{
    let ghost before = list@;
    list.push(op);
    assert(stroke_views(list@) =~= stroke_views(before).push(op@));
}

/// What is done to the terminal line for a chunk of text: all of it is shown at once.
pub fn stream_ops(chunk: &str) -> (r: Vec<StreamOp>)
    ensures
        stroke_views(r@) == chunk_strokes(chunk@),
{
    let mut ops: Vec<StreamOp> = Vec::new();
    assert(stroke_views(ops@) =~= Seq::<Stroke>::empty());
    if chunk.is_empty() {
        push_op(&mut ops, StreamOp::Close);
        assert(stroke_views(ops@) =~= chunk_strokes(chunk@));
        return ops;
    }
    let s = to_chars(chunk);
    let ghost full = s@;
    let mut i: usize = 0;
    let mut e: usize = index_of(s.as_slice(), '\n', 0);
    assert(stroke_views(ops@) + strokes(full, 0) =~= strokes(full, 0));
    while e < s.len()
        invariant
            s@ == full,
            i <= e <= s@.len(),
            e == words::next_char(full, '\n', i as int),
            stroke_views(ops@) + strokes(full, i as int) == strokes(full, 0),
        decreases s@.len() - e,
    {
        let part = piece(s.as_slice(), i, e);
        let ghost before = stroke_views(ops@);
        push_op(&mut ops, StreamOp::Text(from_chars(part.as_slice())));
        push_op(&mut ops, StreamOp::Break);
        proof {
            assert(part@ =~= full.subrange(i as int, e as int));
            assert(strokes(full, i as int) == seq![
                Stroke::Text(full.subrange(i as int, e as int)),
                Stroke::Break,
            ] + strokes(full, e + 1));
            assert(stroke_views(ops@) + strokes(full, e + 1) =~= before + strokes(full, i as int));
        }
        i = e + 1;
        e = index_of(s.as_slice(), '\n', i);
    }
    let rest = piece(s.as_slice(), i, s.len());
    let ghost before = stroke_views(ops@);
    push_op(&mut ops, StreamOp::Text(from_chars(rest.as_slice())));
    proof {
        assert(rest@ =~= full.skip(i as int));
        assert(strokes(full, i as int) =~= seq![Stroke::Text(full.skip(i as int))]);
        assert(stroke_views(ops@) =~= before + strokes(full, i as int));
    }
    ops
}

/// The text that operations write on a fresh line.
pub open spec fn written(v: Seq<Stroke>) -> Seq<char>
    decreases v.len(),
{
    if v.len() == 0 {
        Seq::empty()
    } else {
        written(v.drop_last()) + (match v.last() {
            Stroke::Text(t) => t,
            Stroke::Break => seq!['\n'],
            Stroke::Close => Seq::empty(),
        })
    }
}

proof fn written_adds(a: Seq<Stroke>, b: Seq<Stroke>)
    ensures
        written(a + b) == written(a) + written(b),
    decreases b.len(),
{
    if b.len() == 0 {
        assert(a + b =~= a);
        assert(written(a) + written(b) =~= written(a));
    } else {
        written_adds(a, b.drop_last());
        assert((a + b).drop_last() =~= a + b.drop_last());
        assert((a + b).last() == b.last());
        assert(written(a + b) =~= written(a) + written(b));
    }
}

proof fn strokes_write(s: Seq<char>, i: int)
    requires
        0 <= i <= s.len(),
    ensures
        written(strokes(s, i)) == s.skip(i),
    decreases s.len() - i,
{
    let e = words::next_char(s, '\n', i);
    words::next_char_is_first(s, '\n', i);
    if i <= e < s.len() {
        let head = seq![Stroke::Text(s.subrange(i, e)), Stroke::Break];
        strokes_write(s, e + 1);
        written_adds(head, strokes(s, e + 1));
        reveal_with_fuel(written, 3);
        assert(head.drop_last() =~= seq![Stroke::Text(s.subrange(i, e))]);
        assert(head.drop_last().drop_last() =~= Seq::<Stroke>::empty());
        assert(written(head) =~= s.subrange(i, e) + seq!['\n']);
        assert(s.subrange(i, e) + seq!['\n'] + s.skip(e + 1) =~= s.skip(i));
    } else {
        let only = seq![Stroke::Text(s.skip(i))];
        reveal_with_fuel(written, 2);
        assert(only.drop_last() =~= Seq::<Stroke>::empty());
        assert(written(only) =~= s.skip(i));
    }
}

/// All of a chunk is shown as soon as it comes in, whether or not it has line breaks.
pub proof fn chunks_are_shown_at_once(chunk: Seq<char>)
    ensures
        written(chunk_strokes(chunk)) == chunk,
{
    if chunk.len() == 0 {
        reveal_with_fuel(written, 2);
        assert(chunk_strokes(chunk).drop_last() =~= Seq::<Stroke>::empty());
        assert(written(chunk_strokes(chunk)) =~= chunk);
    } else {
        strokes_write(chunk, 0);
        assert(chunk.skip(0) =~= chunk);
    }
}

// ---------------------------------------------------------------------------
// Progress
// ---------------------------------------------------------------------------

/// What happens to a request. Durations are texts in seconds.
#[derive(Debug)]
pub enum StatusUpdate {
    Thinking,
    ToolAccumulating { name: String, arguments: String },
    ToolStart { name: String, arguments: String },
    ToolComplete { name: String, secs: String },
    StreamProcessing { bytes_read: u64, chunks_processed: u64 },
    Continuing { sent: u64 },
    Complete { usage: Option<Usage>, secs: String },
}

/// What is done about it.
#[derive(Debug, PartialEq, Eq)]
pub enum ProgressAction {
    /// Sets the status of the agent; the flag says whether its timer starts anew.
    Status(String, bool),
    /// Clears the status of the agent.
    Clear,
    /// Prints a line.
    Print(String),
}

/// What is done about an update.
pub ghost enum Deed {
    Status(Seq<char>, bool),
    Clear,
    Print(Seq<char>),
}

impl View for ProgressAction {
    type V = Deed;

    open spec fn view(&self) -> Deed {
        match self {
            ProgressAction::Status(t, b) => Deed::Status(t@, *b),
            ProgressAction::Clear => Deed::Clear,
            ProgressAction::Print(t) => Deed::Print(t@),
        }
    }
}

/// What a list of actions holds.
pub open spec fn deed_views(v: Seq<ProgressAction>) -> Seq<Deed> {
    Seq::new(v.len(), |i: int| v[i]@)
}

/// Whether a tool runs, and whether the request is over.
#[derive(Clone, Copy, Debug, PartialEq, Eq, Structural)]
pub struct ResponseState {
    pub tool_active: bool,
    pub completed: bool,
}

/// The status while the arguments of a tool call come in: the arguments that are complete, or how
/// many bytes there are.
pub open spec fn preparing(name: Seq<char>, arguments: Seq<char>) -> Seq<char> {
    match tool_args::preview(arguments) {
        Some(p) => "Preparing "@ + name + "("@ + tool_args::shown_arguments(p) + ")"@,
        None => "Preparing "@ + name + " ("@ + numbers::decimal(encode_utf8(arguments).len())
            + " chars)"@,
    }
}

/// The status while an answer is waited for, with the size of the request.
pub open spec fn waiting(sent: nat) -> Seq<char> {
    "Waiting for response ("@ + numbers::decimal(sent) + " sent)"@
}

/// The token counts that are known.
pub open spec fn usage_parts(usage: Usage) -> Seq<Seq<char>> {
    count_part("Input: "@, usage.prompt_tokens) + count_part("Output: "@, usage.completion_tokens)
        + count_part("Total: "@, usage.total_tokens)
}

/// A token count with its label, where it is known.
pub open spec fn count_part(label: Seq<char>, n: Option<u32>) -> Seq<Seq<char>> {
    match n {
        Some(k) => seq![label + numbers::decimal(k as nat)],
        None => Seq::empty(),
    }
}

/// The line at the end of a request.
pub open spec fn completion_line(usage: Option<Usage>, secs: Seq<char>) -> Seq<char> {
    match usage {
        Some(u) => if usage_parts(u).len() > 0 {
            "Complete | "@ + words::joined(usage_parts(u), " > "@) + " | "@ + secs + "s"@
        } else {
            "Complete | "@ + secs + "s"@
        },
        None => "Complete | "@ + secs + "s"@,
    }
}

/// The frame above the output of a tool.
pub open spec fn frame_top(name: Seq<char>, arguments: Seq<char>) -> Seq<char> {
    "── "@ + name + "("@ + tool_args::shown_arguments(arguments) + ") ──"@
}

/// The frame below the output of a tool.
pub open spec fn frame_bottom(name: Seq<char>, secs: Seq<char>) -> Seq<char> {
    "── "@ + name + " done in "@ + secs + "s ──"@
}

/// A line of the output of a tool.
pub fn framed_line(line: &str) -> (r: String)
    ensures
        r@ == "│ "@ + line@,
{
    text2("│ ", line)
}

/// What is done about an update, and the state then. Once a request is over, nothing more is done.
pub open spec fn updated(s: ResponseState, u: StatusUpdate) -> (Seq<Deed>, ResponseState) {
    if s.completed {
        (Seq::empty(), s)
    } else {
        match u {
            StatusUpdate::Thinking => (seq![Deed::Status("Thinking"@, true)], s),
            StatusUpdate::ToolAccumulating { name, arguments } => (
                seq![Deed::Status(preparing(name@, arguments@), false)],
                s,
            ),
            StatusUpdate::ToolStart { name, arguments } => (
                seq![
                    Deed::Status(
                        "Running "@ + name@ + "("@ + tool_args::shown_arguments(arguments@) + ")"@,
                        true,
                    ),
                    Deed::Print(frame_top(name@, arguments@)),
                ],
                ResponseState { tool_active: true, ..s },
            ),
            StatusUpdate::ToolComplete { name, secs } => (
                seq![Deed::Print(frame_bottom(name@, secs@))],
                ResponseState { tool_active: false, ..s },
            ),
            StatusUpdate::StreamProcessing { bytes_read, chunks_processed } => (
                seq![
                    Deed::Status(
                        "Streaming ("@ + numbers::decimal(bytes_read as nat) + " bytes, "@
                            + numbers::decimal(chunks_processed as nat) + " chunks)"@,
                        false,
                    ),
                ],
                s,
            ),
            StatusUpdate::Continuing { sent } => (
                seq![Deed::Status(waiting(sent as nat), true)],
                s,
            ),
            StatusUpdate::Complete { usage, secs } => (
                seq![Deed::Clear, Deed::Print(completion_line(usage, secs@))],
                ResponseState { completed: true, ..s },
            ),
        }
    }
}

fn one(a: ProgressAction) -> (r: Vec<ProgressAction>)
    ensures
        deed_views(r@) == seq![a@],
{
    let r = vec![a];
    assert(deed_views(r@) =~= seq![a@]);
    r
}

fn two(a: ProgressAction, b: ProgressAction) -> (r: Vec<ProgressAction>)
    ensures
        deed_views(r@) == seq![a@, b@],
{
    let r = vec![a, b];
    assert(deed_views(r@) =~= seq![a@, b@]);
    r
}

fn push_count(parts: &mut Vec<String>, label: &str, n: Option<u32>)
    ensures
        words::views(final(parts)@) == words::views(old(parts)@) + count_part(label@, n),
{
    match n {
        Some(k) => {
            let count = decimal_text(k as u64);
            push_line(parts, text2(label, count.as_str()));
        },
        None => {},
    }
    assert(words::views(parts@) =~= words::views(old(parts)@) + count_part(label@, n));
}

/// The line at the end of a request.
pub fn complete_text(usage: Option<Usage>, secs: &str) -> (r: String)
    ensures
        r@ == completion_line(usage, secs@),
{
    let mut parts: Vec<String> = Vec::new();
    assert(words::views(parts@) =~= Seq::<Seq<char>>::empty());
    match usage {
        Some(u) => {
            push_count(&mut parts, "Input: ", u.prompt_tokens);
            push_count(&mut parts, "Output: ", u.completion_tokens);
            push_count(&mut parts, "Total: ", u.total_tokens);
            assert(words::views(parts@) =~= usage_parts(u));
        },
        None => {},
    }
    assert(words::views(parts@).len() == parts@.len());
    if parts.len() > 0 {
        let counts = join(parts.as_slice(), " > ");
        text5("Complete | ", counts.as_str(), " | ", secs, "s")
    } else {
        text3("Complete | ", secs, "s")
    }
}

impl ResponseState {
    /// A request that has begun.
    pub fn new() -> (r: Self)
        ensures
            r == (ResponseState { tool_active: false, completed: false }),
    {
        ResponseState { tool_active: false, completed: false }
    }

    /// Whether a chunk of the answer is shown: not while a tool runs. The end of the answer always
    /// is.
    pub fn shows(&self, chunk: &str) -> (r: bool)
        ensures
            r == (chunk@.len() == 0 || !self.tool_active),
    {
        chunk.is_empty() || !self.tool_active
    }

    /// Takes an update.
    pub fn update(&mut self, u: StatusUpdate) -> (r: Vec<ProgressAction>)
        ensures
            (deed_views(r@), *final(self)) == updated(*old(self), u),
    {
        if self.completed {
            let none: Vec<ProgressAction> = Vec::new();
            assert(deed_views(none@) =~= Seq::<Deed>::empty());
            return none;
        }
        match u {
            StatusUpdate::Thinking => one(ProgressAction::Status("Thinking".to_owned(), true)),
            StatusUpdate::ToolAccumulating { name, arguments } => {
                let status = match preview_partial_tool_arguments(arguments.as_str()) {
                    Some(p) => {
                        let shown = format_tool_arguments(p.as_str());
                        text5("Preparing ", name.as_str(), "(", shown.as_str(), ")")
                    },
                    None => {
                        let size = usize_text(arguments.as_str().as_bytes().len());
                        text5("Preparing ", name.as_str(), " (", size.as_str(), " chars)")
                    },
                };
                one(ProgressAction::Status(status, false))
            },
            StatusUpdate::ToolStart { name, arguments } => {
                self.tool_active = true;
                let shown = format_tool_arguments(arguments.as_str());
                two(
                    ProgressAction::Status(
                        text5("Running ", name.as_str(), "(", shown.as_str(), ")"),
                        true,
                    ),
                    ProgressAction::Print(
                        text5("── ", name.as_str(), "(", shown.as_str(), ") ──"),
                    ),
                )
            },
            StatusUpdate::ToolComplete { name, secs } => {
                self.tool_active = false;
                one(
                    ProgressAction::Print(
                        text5("── ", name.as_str(), " done in ", secs.as_str(), "s ──"),
                    ),
                )
            },
            StatusUpdate::StreamProcessing { bytes_read, chunks_processed } => {
                let bytes = decimal_text(bytes_read);
                let chunks = decimal_text(chunks_processed);
                one(
                    ProgressAction::Status(
                        text5("Streaming (", bytes.as_str(), " bytes, ", chunks.as_str(), " chunks)"),
                        false,
                    ),
                )
            },
            StatusUpdate::Continuing { sent } => {
                let size = decimal_text(sent);
                one(
                    ProgressAction::Status(
                        text3("Waiting for response (", size.as_str(), " sent)"),
                        true,
                    ),
                )
            },
            StatusUpdate::Complete { usage, secs } => {
                self.completed = true;
                two(
                    ProgressAction::Clear,
                    ProgressAction::Print(complete_text(usage, secs.as_str())),
                )
            },
        }
    }
}

/// Once a request is over, its updates change nothing.
pub proof fn completion_is_final(s: ResponseState, usage: Option<Usage>, secs: String, u: StatusUpdate)
    ensures
        ({
            let done = updated(s, StatusUpdate::Complete { usage, secs }).1;
            &&& done.completed
            &&& updated(done, u) == (Seq::<Deed>::empty(), done)
        }),
{
}

proof fn whole_lines(s: Seq<char>, i: int)
    requires
        0 <= i <= s.len(),
    ensures
        forall|k: int|
            0 <= k < complete_lines(s, i).len() ==> text_laws::one_line(
                #[trigger] complete_lines(s, i)[k],
            ),
        text_laws::one_line(open_line(s, i)),
    decreases s.len() - i + 1,
{
    words::next_char_is_first(s, '\n', i);
    let e = words::next_char(s, '\n', i);
    if e < s.len() {
        whole_lines(s, e + 1);
        let l = complete_lines(s, i);
        let rest = complete_lines(s, e + 1);
        assert forall|k: int| 0 <= k < l.len() implies text_laws::one_line(#[trigger] l[k]) by {
            if k == 0 {
                assert(l[0] =~= s.subrange(i, e));
            } else {
                assert(l[k] == rest[k - 1]);
            }
        }
    }
}

/// Lines are printed whole, each once its end came in: no printed line holds the end of a line, nor
/// does what is kept back. At the end what was kept back is printed, and nothing is kept.
pub proof fn lines_are_printed_whole(buffer: Seq<char>, chunk: Seq<char>)
    ensures
        chunk.len() > 0 ==> forall|k: int|
            0 <= k < streamed(buffer, chunk).0.len() ==> text_laws::one_line(
                #[trigger] streamed(buffer, chunk).0[k],
            ),
        chunk.len() > 0 ==> text_laws::one_line(streamed(buffer, chunk).1),
        chunk.len() == 0 ==> streamed(buffer, chunk).1.len() == 0,
        chunk.len() == 0 && buffer.len() > 0 ==> streamed(buffer, chunk).0 == seq![buffer],
        chunk.len() == 0 && buffer.len() == 0 ==> streamed(buffer, chunk).0.len() == 0,
{
    whole_lines(buffer + chunk, 0);
}

/// A response is counted as far as it was: what went in, what came out and both, in that order, and
/// how long it took.
pub proof fn usage_is_told(a: u32, b: u32, c: u32, secs: Seq<char>)
    ensures
        completion_line(
            Some(
                Usage {
                    prompt_tokens: Some(a),
                    completion_tokens: Some(b),
                    total_tokens: Some(c),
                },
            ),
            secs,
        ) == "Complete | "@ + ("Input: "@ + numbers::decimal(a as nat) + " > "@ + "Output: "@
            + numbers::decimal(b as nat) + " > "@ + "Total: "@ + numbers::decimal(c as nat))
            + " | "@ + secs + "s"@,
        completion_line(None, secs) == "Complete | "@ + secs + "s"@,
{
    let u = Usage { prompt_tokens: Some(a), completion_tokens: Some(b), total_tokens: Some(c) };
    let x = "Input: "@ + numbers::decimal(a as nat);
    let y = "Output: "@ + numbers::decimal(b as nat);
    let z = "Total: "@ + numbers::decimal(c as nat);
    let v = seq![x, y, z];
    assert(usage_parts(u) =~= v);
    assert(v.drop_last() =~= seq![x, y]);
    assert(seq![x, y].drop_last() =~= seq![x]);
    assert(words::joined(seq![x], " > "@) == x);
    assert(words::joined(seq![x, y], " > "@) == x + " > "@ + y);
    assert(words::joined(v, " > "@) =~= "Input: "@ + numbers::decimal(a as nat) + " > "@
        + "Output: "@ + numbers::decimal(b as nat) + " > "@ + "Total: "@ + numbers::decimal(
        c as nat,
    ));
}

/// What a tool is about to do is told before it does it, and its end when it is done; in between
/// the tool counts as active.
pub proof fn tools_are_announced(s: ResponseState, name: String, arguments: String, secs: String)
    requires
        !s.completed,
    ensures
        ({
            let (deeds, next) = updated(s, StatusUpdate::ToolStart { name, arguments });
            let call = name@ + "("@ + tool_args::shown_arguments(arguments@) + ")"@;
            &&& next.tool_active && !next.completed
            &&& deeds == seq![
                Deed::Status("Running "@ + call, true),
                Deed::Print("── "@ + call + " ──"@),
            ]
        }),
        ({
            let (deeds, next) = updated(s, StatusUpdate::ToolComplete { name, secs });
            &&& !next.tool_active && !next.completed
            &&& deeds == seq![Deed::Print("── "@ + name@ + " done in "@ + secs@ + "s ──"@)]
        }),
{
    let call = name@ + "("@ + tool_args::shown_arguments(arguments@) + ")"@;
    reveal_strlit(") ──");
    reveal_strlit(")");
    reveal_strlit(" ──");
    assert(") ──"@ =~= ")"@ + " ──"@);
    assert("Running "@ + name@ + "("@ + tool_args::shown_arguments(arguments@) + ")"@ =~= "Running "@
        + call);
    assert(frame_top(name@, arguments@) =~= "── "@ + call + " ──"@);
}

/// Counts that are missing are left out, and where all are, only the time is told.
pub proof fn missing_counts_are_left_out(b: u32, secs: Seq<char>)
    ensures
        completion_line(
            Some(
                Usage { prompt_tokens: None, completion_tokens: None, total_tokens: None },
            ),
            secs,
        ) == completion_line(None, secs),
        completion_line(
            Some(
                Usage { prompt_tokens: None, completion_tokens: Some(b), total_tokens: None },
            ),
            secs,
        ) == "Complete | "@ + ("Output: "@ + numbers::decimal(b as nat)) + " | "@ + secs + "s"@,
{
    let none = Usage { prompt_tokens: None, completion_tokens: None, total_tokens: None };
    let one = Usage { prompt_tokens: None, completion_tokens: Some(b), total_tokens: None };
    let y = "Output: "@ + numbers::decimal(b as nat);
    assert(usage_parts(none) =~= Seq::<Seq<char>>::empty());
    assert(usage_parts(one) =~= seq![y]);
    assert(words::joined(seq![y], " > "@) == y);
}

} // verus!
