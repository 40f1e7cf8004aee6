//! The status spinner and the line it shares with normal output.

use vstd::prelude::*;
use crate::numbers;
use crate::numbers::{decimal_text, usize_text};
use crate::text::{from_chars, piece, same, text3, to_chars};

verus! {

/// Milliseconds between two frames of the spinner.
pub const TICK_INTERVAL_MS: u64 = 200;

/// The number of frames for which one agent is shown before the next.
pub const CYCLE_TICKS: u64 = 10;

/// The number of spinner characters.
pub const SPINNER_COUNT: u64 = 8;

/// What is on the current line of the terminal.
#[derive(PartialEq, Eq, Clone, Copy, Debug, Structural)]
pub enum LineState {
    /// Nothing.
    Empty,
    /// A frame of the spinner.
    Spinner,
    /// Output without a line break yet.
    Partial,
}

/// One thing that can happen to the current line.
pub enum LineOp<'a> {
    /// A complete chunk of output, with its own line break: never a continuation of the line.
    CompleteLine(&'a str),
    /// Text that is appended to the line.
    Partial(&'a str),
    /// A line break in the output.
    Newline,
    /// Closes the line if output is open on it.
    Finish,
    /// Draws a frame of the spinner.
    DrawSpinner(&'a str),
    /// Erases the spinner if it is shown.
    ClearSpinner,
}

/// The control sequence that erases the current line.
pub open spec fn erase_line() -> Seq<char> {
    "\r\x1b[2K"@
}

/// What is written before new output, so that it does not run into the spinner.
pub open spec fn erasure(state: LineState) -> Seq<char> {
    if state == LineState::Spinner {
        erase_line()
    } else {
        ""@
    }
}

/// What is written for an operation, and what is on the line then.
pub open spec fn applied(state: LineState, op: LineOp<'_>) -> (Seq<char>, LineState) {
    match op {
        LineOp::CompleteLine(s) => (
            (match state {
                LineState::Spinner => erase_line(),
                LineState::Partial => "\n"@,
                LineState::Empty => ""@,
            }) + s@,
            LineState::Empty,
        ),
        LineOp::Partial(s) => if s@.len() == 0 {
            (""@, state)
        } else {
            (erasure(state) + s@, LineState::Partial)
        },
        LineOp::Newline => (erasure(state) + "\n"@, LineState::Empty),
        LineOp::Finish => if state == LineState::Partial {
            ("\n"@, LineState::Empty)
        } else {
            (""@, state)
        },
        LineOp::DrawSpinner(s) => (erasure(state) + s@, LineState::Spinner),
        LineOp::ClearSpinner => if state == LineState::Spinner {
            (erase_line(), LineState::Empty)
        } else {
            (""@, state)
        },
    }
}

/// Decides what to write to the terminal for an operation, and what is on the line then.
pub fn apply(state: LineState, op: LineOp<'_>) -> (r: (String, LineState))
    ensures
        (r.0@, r.1) == applied(state, op),
{
    let erase: &str = if state == LineState::Spinner {
        "\r\x1b[2K"
    } else {
        ""
    };
    match op {
        LineOp::CompleteLine(s) => {
            let prefix: &str = match state {
                LineState::Spinner => "\r\x1b[2K",
                LineState::Partial => "\n",
                LineState::Empty => "",
            };
            let mut out = prefix.to_owned();
            out.append(s);
            (out, LineState::Empty)
        },
        LineOp::Partial(s) => {
            if s.is_empty() {
                ("".to_owned(), state)
            } else {
                let mut out = erase.to_owned();
                out.append(s);
                (out, LineState::Partial)
            }
        },
        LineOp::Newline => {
            let mut out = erase.to_owned();
            out.append("\n");
            (out, LineState::Empty)
        },
        LineOp::Finish => {
            if state == LineState::Partial {
                ("\n".to_owned(), LineState::Empty)
            } else {
                ("".to_owned(), state)
            }
        },
        LineOp::DrawSpinner(s) => {
            let mut out = erase.to_owned();
            out.append(s);
            (out, LineState::Spinner)
        },
        LineOp::ClearSpinner => {
            if state == LineState::Spinner {
                ("\r\x1b[2K".to_owned(), LineState::Empty)
            } else {
                ("".to_owned(), state)
            }
        },
    }
}

/// Closing a line a second time writes nothing and changes nothing.
pub proof fn finishing_twice_is_finishing_once(state: LineState)
    ensures
        applied(applied(state, LineOp::Finish).1, LineOp::Finish) == (
            ""@,
            applied(state, LineOp::Finish).1,
        ),
{
}

/// Where the spinner is on the line, whatever is written next erases it first; output on the line
/// is never erased.
pub proof fn only_the_spinner_is_erased(state: LineState, op: LineOp<'_>)
    ensures
        state == LineState::Spinner && applied(state, op).0 != ""@ ==> exists|rest: Seq<char>|
            applied(state, op).0 == #[trigger] (erase_line() + rest),
        state == LineState::Partial ==> match op {
            LineOp::CompleteLine(s) => applied(state, op).0 == "\n"@ + s@,
            LineOp::Partial(s) => s@.len() > 0 ==> applied(state, op) == (
                ""@ + s@,
                LineState::Partial,
            ),
            LineOp::ClearSpinner => applied(state, op) == (""@, LineState::Partial),
            _ => true,
        },
{
    if state == LineState::Spinner {
        match op {
            LineOp::CompleteLine(s) => {
                assert(applied(state, op).0 == erase_line() + s@);
            },
            LineOp::Partial(s) => {
                if s@.len() > 0 {
                    assert(applied(state, op).0 == erase_line() + s@);
                }
            },
            LineOp::Newline => {
                assert(applied(state, op).0 == erase_line() + "\n"@);
            },
            LineOp::Finish => {},
            LineOp::DrawSpinner(s) => {
                assert(applied(state, op).0 == erase_line() + s@);
            },
            LineOp::ClearSpinner => {
                assert(erase_line() =~= erase_line() + Seq::<char>::empty());
            },
        }
    }
}

// ---------------------------------------------------------------------------
// Frames
// ---------------------------------------------------------------------------

/// The text of a frame, without colors.
pub open spec fn plain_status(
    spinner: Seq<char>,
    agent: Seq<char>,
    message: Seq<char>,
    secs: Seq<char>,
    suffix: Seq<char>,
) -> Seq<char> {
    status_head(spinner, agent, message) + status_tail(secs, suffix)
}

/// The part of a frame in the color of the status: the spinner, the agent, and its message.
pub open spec fn status_head(spinner: Seq<char>, agent: Seq<char>, message: Seq<char>) -> Seq<
    char,
> {
    " "@ + spinner + " "@ + agent + ": "@ + message + " "@
}

/// The part of a frame in grey: the seconds and the suffix.
pub open spec fn status_tail(secs: Seq<char>, suffix: Seq<char>) -> Seq<char> {
    "│ "@ + secs + "s"@ + suffix
}

/// The columns that a frame may take up: all but one, and at least one.
pub open spec fn frame_width(cols: int) -> int {
    if cols - 1 > 1 {
        cols - 1
    } else {
        1
    }
}

/// The control sequence for a color.
pub open spec fn color_on(color: u8) -> Seq<char> {
    "\x1b["@ + numbers::decimal(color as nat) + "m"@
}

/// The color of the spinner and of the status: cyan, whatever the color of the agent is.
pub const STATUS_COLOR: u8 = 36;

/// The part of a frame in the color of the status, with the name of the agent in its own color.
pub open spec fn painted_head(
    color: u8,
    spinner: Seq<char>,
    agent: Seq<char>,
    message: Seq<char>,
) -> Seq<char> {
    if color == STATUS_COLOR {
        status_head(spinner, agent, message)
    } else {
        (" "@ + spinner + " "@) + color_on(color) + agent + color_on(STATUS_COLOR) + (": "@
            + message + " "@)
    }
}

/// A frame in colors, cut and marked with an ellipsis where it is too wide. A frame that is cut has
/// the color of the status throughout.
pub open spec fn status_line(
    color: u8,
    spinner: Seq<char>,
    agent: Seq<char>,
    message: Seq<char>,
    secs: Seq<char>,
    suffix: Seq<char>,
    cols: int,
) -> Seq<char> {
    let plain = plain_status(spinner, agent, message, secs, suffix);
    let width = frame_width(cols);
    if plain.len() <= width {
        color_on(STATUS_COLOR) + painted_head(color, spinner, agent, message)
            + "\x1b[0m\x1b[90m"@ + status_tail(secs, suffix) + "\x1b[0m"@
    } else {
        color_on(STATUS_COLOR) + plain.take(width - 1) + "…"@ + "\x1b[0m"@
    }
}

fn color_text(color: u8) -> (r: String)
    ensures
        r@ == color_on(color),
{
    let n = decimal_text(color as u64);
    text3("\x1b[", n.as_str(), "m")
}

fn paint_head(color: u8, spinner: &str, agent: &str, message: &str) -> (r: String)
    ensures
        r@ == painted_head(color, spinner@, agent@, message@),
{
    if color == STATUS_COLOR {
        let mut head = " ".to_owned();
        head.append(spinner);
        head.append(" ");
        head.append(agent);
        head.append(": ");
        head.append(message);
        head.append(" ");
        head
    } else {
        let mut head = text3(" ", spinner, " ");
        head.append(color_text(color).as_str());
        head.append(agent);
        head.append(color_text(STATUS_COLOR).as_str());
        head.append(text3(": ", message, " ").as_str());
        head
    }
}

/// Builds one frame of the spinner. `secs` is the elapsed time in seconds, with one decimal.
pub fn build_status_line(
    color: u8,
    spinner: &str,
    agent: &str,
    message: &str,
    secs: &str,
    suffix: &str,
    cols: usize,
) -> (r: String)
    ensures
        r@ == status_line(color, spinner@, agent@, message@, secs@, suffix@, cols as int),
{
    let mut head = " ".to_owned();
    head.append(spinner);
    head.append(" ");
    head.append(agent);
    head.append(": ");
    head.append(message);
    head.append(" ");
    let mut tail = "│ ".to_owned();
    tail.append(secs);
    tail.append("s");
    tail.append(suffix);
    let mut plain = head.clone();
    plain.append(tail.as_str());
    let chars = to_chars(plain.as_str());
    let width: usize = if cols > 2 { cols - 1 } else { 1 };
    let mut out = color_text(STATUS_COLOR);
    if chars.len() <= width {
        out.append(paint_head(color, spinner, agent, message).as_str());
        out.append("\x1b[0m\x1b[90m");
        out.append(tail.as_str());
        out.append("\x1b[0m");
    } else {
        let cut = piece(chars.as_slice(), 0, width - 1);
        assert(cut@ =~= plain@.take(width - 1));
        out.append(from_chars(cut.as_slice()).as_str());
        out.append("…");
        out.append("\x1b[0m");
    }
    out
}

/// The number of columns that a text takes up, from inside a control sequence or not: a sequence
/// from ESC to `m` takes up none.
pub open spec fn columns(s: Seq<char>, hidden: bool) -> nat
    decreases s.len(),
{
    if s.len() == 0 {
        0
    } else if hidden {
        columns(s.skip(1), s[0] != 'm')
    } else if s[0] == '\x1b' {
        columns(s.skip(1), true)
    } else {
        1 + columns(s.skip(1), false)
    }
}

/// Whether a control sequence is open at the end of a text.
pub open spec fn left_hidden(s: Seq<char>, hidden: bool) -> bool
    decreases s.len(),
{
    if s.len() == 0 {
        hidden
    } else if hidden {
        left_hidden(s.skip(1), s[0] != 'm')
    } else {
        left_hidden(s.skip(1), s[0] == '\x1b')
    }
}

proof fn columns_add(a: Seq<char>, b: Seq<char>, hidden: bool)
    ensures
        columns(a + b, hidden) == columns(a, hidden) + columns(b, left_hidden(a, hidden)),
        left_hidden(a + b, hidden) == left_hidden(b, left_hidden(a, hidden)),
    decreases a.len(),
{
    if a.len() == 0 {
        assert(a + b =~= b);
    } else {
        assert((a + b).skip(1) =~= a.skip(1) + b);
        if hidden {
            columns_add(a.skip(1), b, a[0] != 'm');
        } else {
            columns_add(a.skip(1), b, a[0] == '\x1b');
        }
    }
}

proof fn columns_at_most(s: Seq<char>, hidden: bool)
    ensures
        columns(s, hidden) <= s.len(),
    decreases s.len(),
{
    if s.len() > 0 {
        if hidden {
            columns_at_most(s.skip(1), s[0] != 'm');
        } else {
            columns_at_most(s.skip(1), s[0] == '\x1b');
        }
    }
}

proof fn hidden_run(s: Seq<char>)
    requires
        forall|i: int| 0 <= i < s.len() ==> s[i] != 'm',
    ensures
        columns(s, true) == 0,
        left_hidden(s, true),
    decreases s.len(),
{
    if s.len() > 0 {
        hidden_run(s.skip(1));
    }
}

proof fn decimal_has_no_m(n: nat)
    ensures
        forall|i: int| 0 <= i < numbers::decimal(n).len() ==> numbers::decimal(n)[i] != 'm',
    decreases n,
{
    if n >= 10 {
        decimal_has_no_m(n / 10);
        let d = numbers::decimal(n / 10);
        assert(numbers::decimal(n) == d.push(numbers::digit_char(n % 10)));
        assert forall|i: int| 0 <= i < numbers::decimal(n).len() implies numbers::decimal(n)[i]
            != 'm' by {
            if i < d.len() {
                assert(numbers::decimal(n)[i] == d[i]);
            }
        }
    }
}

/// A control sequence: ESC, characters other than `m`, and `m`. It takes up no columns and closes
/// any sequence that was open.
proof fn sequence_takes_no_columns(s: Seq<char>, hidden: bool)
    requires
        s.len() >= 2,
        s[0] == '\x1b',
        s.last() == 'm',
        forall|i: int| 0 <= i < s.len() - 1 ==> s[i] != 'm',
    ensures
        columns(s, hidden) == 0,
        !left_hidden(s, hidden),
{
    let body = s.subrange(1, s.len() - 1);
    assert(s.skip(1) =~= body + seq!['m']);
    hidden_run(body);
    columns_add(body, seq!['m'], true);
    assert(seq!['m'].skip(1) =~= Seq::<char>::empty());
    assert(columns(Seq::<char>::empty(), false) == 0);
    assert(!left_hidden(Seq::<char>::empty(), false));
    assert(columns(seq!['m'], true) == 0);
    assert(!left_hidden(seq!['m'], true));
}

proof fn color_takes_no_columns(color: u8, hidden: bool)
    ensures
        columns(color_on(color), hidden) == 0,
        !left_hidden(color_on(color), hidden),
{
    reveal_strlit("\x1b[");
    reveal_strlit("m");
    decimal_has_no_m(color as nat);
    let s = color_on(color);
    assert(forall|i: int| 0 <= i < s.len() - 1 ==> s[i] != 'm');
    sequence_takes_no_columns(s, hidden);
}

proof fn resets_take_no_columns(hidden: bool)
    ensures
        columns("\x1b[0m"@, hidden) == 0,
        !left_hidden("\x1b[0m"@, hidden),
        columns("\x1b[0m\x1b[90m"@, hidden) == 0,
        !left_hidden("\x1b[0m\x1b[90m"@, hidden),
{
    reveal_strlit("\x1b[0m");
    reveal_strlit("\x1b[0m\x1b[90m");
    sequence_takes_no_columns("\x1b[0m"@, hidden);
    let both = "\x1b[0m\x1b[90m"@;
    let second = both.skip(4);
    assert(both =~= "\x1b[0m"@ + second);
    sequence_takes_no_columns(second, false);
    columns_add("\x1b[0m"@, second, hidden);
}

proof fn painting_adds_no_columns(
    color: u8,
    spinner: Seq<char>,
    agent: Seq<char>,
    message: Seq<char>,
)
    ensures
        columns(painted_head(color, spinner, agent, message), false) <= status_head(
            spinner,
            agent,
            message,
        ).len(),
{
    if color == STATUS_COLOR {
        columns_at_most(status_head(spinner, agent, message), false);
    } else {
        let a = " "@ + spinner + " "@;
        let on = color_on(color);
        let off = color_on(STATUS_COLOR);
        let b = ": "@ + message + " "@;
        columns_add(a + on + agent + off, b, false);
        columns_add(a + on + agent, off, false);
        columns_add(a + on, agent, false);
        columns_add(a, on, false);
        columns_at_most(a, false);
        color_takes_no_columns(color, left_hidden(a, false));
        columns_at_most(agent, false);
        color_takes_no_columns(STATUS_COLOR, left_hidden(agent, false));
        columns_at_most(b, false);
    }
}

/// A frame never takes up more columns than it may: the terminal does not wrap it.
pub proof fn frames_fit(
    color: u8,
    spinner: Seq<char>,
    agent: Seq<char>,
    message: Seq<char>,
    secs: Seq<char>,
    suffix: Seq<char>,
    cols: int,
)
    ensures
        columns(status_line(color, spinner, agent, message, secs, suffix, cols), false)
            <= frame_width(cols),
{
    let plain = plain_status(spinner, agent, message, secs, suffix);
    let width = frame_width(cols);
    let on = color_on(STATUS_COLOR);
    color_takes_no_columns(STATUS_COLOR, false);
    if plain.len() <= width {
        let a = painted_head(color, spinner, agent, message);
        let b = status_tail(secs, suffix);
        let mid = "\x1b[0m\x1b[90m"@;
        columns_add(on + a + mid + b, "\x1b[0m"@, false);
        columns_add(on + a + mid, b, false);
        columns_add(on + a, mid, false);
        columns_add(on, a, false);
        painting_adds_no_columns(color, spinner, agent, message);
        resets_take_no_columns(left_hidden(a, false));
        columns_at_most(b, false);
        resets_take_no_columns(left_hidden(b, false));
        assert(plain.len() == status_head(spinner, agent, message).len() + b.len());
    } else {
        let a = plain.take(width - 1);
        let dots = "…"@;
        reveal_strlit("…");
        columns_add(on + a + dots, "\x1b[0m"@, false);
        columns_add(on + a, dots, false);
        columns_add(on, a, false);
        columns_at_most(a, false);
        columns_at_most(dots, left_hidden(a, false));
        resets_take_no_columns(left_hidden(dots, left_hidden(a, false)));
    }
}

// ---------------------------------------------------------------------------
// Agents and ticks
// ---------------------------------------------------------------------------

/// What an agent is doing, since when, and the color it is shown in.
pub struct AgentEntry {
    pub name: String,
    pub message: String,
    pub started_ms: u64,
    pub color: u8,
}

/// What an entry holds.
pub ghost struct Entry {
    pub name: Seq<char>,
    pub message: Seq<char>,
    pub started_ms: u64,
    pub color: u8,
}

impl View for AgentEntry {
    type V = Entry;

    open spec fn view(&self) -> Entry {
        Entry {
            name: self.name@,
            message: self.message@,
            started_ms: self.started_ms,
            color: self.color,
        }
    }
}

/// What a list of entries holds.
pub open spec fn entry_views(v: Seq<AgentEntry>) -> Seq<Entry> {
    Seq::new(v.len(), |i: int| v[i]@)
}

/// No agent is listed twice.
pub open spec fn distinct_names(v: Seq<Entry>) -> bool {
    forall|i: int, j: int| 0 <= i < j < v.len() ==> (#[trigger] v[i]).name != (#[trigger] v[j]).name
}

/// The position of an agent, or the length of the list.
pub open spec fn entry_position(v: Seq<Entry>, name: Seq<char>, i: int) -> int
    decreases v.len() - i,
{
    if 0 <= i < v.len() && v[i].name != name {
        entry_position(v, name, i + 1)
    } else {
        i
    }
}

/// The entries of other agents.
pub open spec fn without_agent(v: Seq<Entry>, name: Seq<char>) -> Seq<Entry>
    decreases v.len(),
{
    if v.len() == 0 {
        Seq::empty()
    } else if v.last().name == name {
        without_agent(v.drop_last(), name)
    } else {
        without_agent(v.drop_last(), name).push(v.last())
    }
}

/// What the status bar shows of the agents at work.
pub struct StatusEntries {
    pub enabled: bool,
    pub default_color: u8,
    pub entries: Vec<AgentEntry>,
}

/// The color of agents that have none of their own: cyan.
pub const DEFAULT_COLOR: u8 = 36;

impl StatusEntries {
    /// The entries.
    pub open spec fn list(self) -> Seq<Entry> {
        entry_views(self.entries@)
    }

    /// No agent is listed twice.
    pub open spec fn wf(self) -> bool {
        distinct_names(self.list())
    }

    /// A status bar without entries. It takes none while it is disabled.
    pub fn new(enabled: bool) -> (r: Self)
        ensures
            r.wf(),
            r.enabled == enabled,
            r.default_color == DEFAULT_COLOR,
            r.list() == Seq::<Entry>::empty(),
    {
        let r = StatusEntries { enabled, default_color: DEFAULT_COLOR, entries: Vec::new() };
        assert(r.list() =~= Seq::<Entry>::empty());
        r
    }

    /// Sets the color that new entries get.
    pub fn set_color(&mut self, ansi_code: u8)
        ensures
            final(self).default_color == ansi_code,
            final(self).enabled == old(self).enabled,
            final(self).list() == old(self).list(),
    {
        self.default_color = ansi_code;
    }

    fn position(&self, agent: &str) -> (r: usize)
        ensures
            r == entry_position(self.list(), agent@, 0),
            r <= self.entries@.len(),
            r < self.entries@.len() ==> self.list()[r as int].name == agent@,
            forall|j: int| 0 <= j < r ==> (#[trigger] self.list()[j]).name != agent@,
    {
        let mut i: usize = 0;
        while i < self.entries.len() && !same(self.entries[i].name.as_str(), agent)
            invariant
                i <= self.entries@.len(),
                entry_position(self.list(), agent@, 0) == entry_position(
                    self.list(),
                    agent@,
                    i as int,
                ),
                forall|j: int| 0 <= j < i ==> (#[trigger] self.list()[j]).name != agent@,
            decreases self.entries@.len() - i,
        {
            i += 1;
        }
        i
    }

    /// Says what an agent is doing. An agent that is not listed yet is added at the end.
    pub fn set_agent_status(&mut self, agent: &str, msg: &str, reset_timer: bool, now_ms: u64)
        requires
            old(self).wf(),
        ensures
            final(self).wf(),
            final(self).enabled == old(self).enabled,
            final(self).default_color == old(self).default_color,
            final(self).list() == ({
                let v = old(self).list();
                let p = entry_position(v, agent@, 0);
                if !old(self).enabled {
                    v
                } else if p < v.len() {
                    v.update(
                        p,
                        Entry {
                            message: msg@,
                            started_ms: if reset_timer {
                                now_ms
                            } else {
                                v[p].started_ms
                            },
                            ..v[p]
                        },
                    )
                } else {
                    v.push(
                        Entry {
                            name: agent@,
                            message: msg@,
                            started_ms: now_ms,
                            color: old(self).default_color,
                        },
                    )
                }
            }),
    {
        if !self.enabled {
            return;
        }
        let p = self.position(agent);
        let ghost v = self.list();
        if p < self.entries.len() {
            let old_entry = &self.entries[p];
            let entry = AgentEntry {
                name: old_entry.name.clone(),
                message: msg.to_owned(),
                started_ms: if reset_timer { now_ms } else { old_entry.started_ms },
                color: old_entry.color,
            };
            let ghost e = entry@;
            self.entries.set(p, entry);
            assert(self.list() =~= v.update(p as int, e));
        } else {
            let entry = AgentEntry {
                name: agent.to_owned(),
                message: msg.to_owned(),
                started_ms: now_ms,
                color: self.default_color,
            };
            let ghost e = entry@;
            self.entries.push(entry);
            assert(self.list() =~= v.push(e));
        }
    }

    /// Sets the color of an agent, where it is listed.
    pub fn set_agent_color(&mut self, agent: &str, ansi_code: u8)
        requires
            old(self).wf(),
        ensures
            final(self).wf(),
            final(self).enabled == old(self).enabled,
            final(self).default_color == old(self).default_color,
            final(self).list() == ({
                let v = old(self).list();
                let p = entry_position(v, agent@, 0);
                if p < v.len() {
                    v.update(p, Entry { color: ansi_code, ..v[p] })
                } else {
                    v
                }
            }),
    {
        let p = self.position(agent);
        let ghost v = self.list();
        if p < self.entries.len() {
            let old_entry = &self.entries[p];
            let entry = AgentEntry {
                name: old_entry.name.clone(),
                message: old_entry.message.clone(),
                started_ms: old_entry.started_ms,
                color: ansi_code,
            };
            let ghost e = entry@;
            self.entries.set(p, entry);
            assert(self.list() =~= v.update(p as int, e));
        }
    }

    /// Removes an agent.
    pub fn clear_agent_status(&mut self, agent: &str)
        requires
            old(self).wf(),
        ensures
            final(self).wf(),
            final(self).enabled == old(self).enabled,
            final(self).default_color == old(self).default_color,
            final(self).list() == (if old(self).enabled {
                without_agent(old(self).list(), agent@)
            } else {
                old(self).list()
            }),
    {
        if !self.enabled {
            return;
        }
        let p = self.position(agent);
        let ghost v = self.list();
        proof {
            without_agent_is_removal(v, agent@, p as int);
        }
        if p < self.entries.len() {
            self.entries.remove(p);
            assert(self.list() =~= v.remove(p as int));
        }
    }
}

proof fn without_agent_is_removal(v: Seq<Entry>, name: Seq<char>, p: int)
    requires
        distinct_names(v),
        0 <= p <= v.len(),
        p < v.len() ==> v[p].name == name,
        forall|j: int| 0 <= j < p ==> (#[trigger] v[j]).name != name,
    ensures
        without_agent(v, name) == (if p < v.len() {
            v.remove(p)
        } else {
            v
        }),
    decreases v.len(),
{
    if v.len() > 0 {
        let w = v.drop_last();
        if p == v.len() {
            without_agent_is_removal(w, name, w.len() as int);
            assert(w.push(v.last()) =~= v);
        } else if p == v.len() - 1 {
            without_agent_is_removal(w, name, w.len() as int);
            assert(v.remove(p) =~= w);
        } else {
            without_agent_is_removal(w, name, p);
            assert(v[p].name != v.last().name);
            assert(w.remove(p).push(v.last()) =~= v.remove(p));
        }
    } else {
        assert(without_agent(v, name) =~= v);
    }
}

/// The entry that is shown at a tick: each one for a while, in turn.
pub open spec fn shown_at(tick: u64, count: int) -> int {
    if count > 1 {
        (tick / CYCLE_TICKS) as int % count
    } else {
        0
    }
}

/// The entry to show at a tick; none while the spinner is paused or nothing is listed.
pub fn shown_entry(tick: u64, count: usize, paused: bool) -> (r: Option<usize>)
    ensures
        match r {
            Some(i) => !paused && count > 0 && i == shown_at(tick, count as int) && i < count,
            None => paused || count == 0,
        },
{
    if paused || count == 0 {
        None
    } else if count > 1 {
        Some(((tick / CYCLE_TICKS) % (count as u64)) as usize)
    } else {
        Some(0)
    }
}

/// The spinner character of a tick.
pub open spec fn spinner_at(tick: u64) -> Seq<char> {
    let i = tick % SPINNER_COUNT;
    if i == 0 {
        "⣾"@
    } else if i == 1 {
        "⣽"@
    } else if i == 2 {
        "⣻"@
    } else if i == 3 {
        "⢿"@
    } else if i == 4 {
        "⡿"@
    } else if i == 5 {
        "⣟"@
    } else if i == 6 {
        "⣯"@
    } else {
        "⣷"@
    }
}

/// The spinner character of a tick.
pub fn spinner_char(tick: u64) -> (r: &'static str)
    ensures
        r@ == spinner_at(tick),
{
    let i: u64 = tick % SPINNER_COUNT;
    if i == 0 {
        "⣾"
    } else if i == 1 {
        "⣽"
    } else if i == 2 {
        "⣻"
    } else if i == 3 {
        "⢿"
    } else if i == 4 {
        "⡿"
    } else if i == 5 {
        "⣟"
    } else if i == 6 {
        "⣯"
    } else {
        "⣷"
    }
}

/// The note about the agents that are not shown.
pub fn more_suffix(count: usize) -> (r: String)
    ensures
        r@ == (if count > 1 {
            " (+"@ + numbers::decimal((count - 1) as nat) + " more)"@
        } else {
            ""@
        }),
{
    if count > 1 {
        let mut s = " (+".to_owned();
        s.append(usize_text(count - 1).as_str());
        s.append(" more)");
        s
    } else {
        "".to_owned()
    }
}

/// What a tick writes, and what is on the line then: output that is open on the line is left alone;
/// else the frame is drawn, or the last one erased.
pub open spec fn ticked(state: LineState, text: Option<&str>, was_active: bool) -> (
    Seq<char>,
    LineState,
) {
    if state == LineState::Partial {
        (""@, state)
    } else {
        match text {
            Some(t) => applied(state, LineOp::DrawSpinner(t)),
            None => if was_active {
                applied(state, LineOp::ClearSpinner)
            } else {
                (""@, state)
            },
        }
    }
}

/// Decides what a tick of the spinner writes.
pub fn tick(state: LineState, text: Option<&str>, was_active: bool) -> (r: (String, LineState))
    ensures
        (r.0@, r.1) == ticked(state, text, was_active),
{
    if state == LineState::Partial {
        return ("".to_owned(), state);
    }
    match text {
        Some(t) => apply(state, LineOp::DrawSpinner(t)),
        None => {
            if was_active {
                apply(state, LineOp::ClearSpinner)
            } else {
                ("".to_owned(), state)
            }
        },
    }
}

/// What a terminal shows of a text: everything but escape sequences.
pub open spec fn visible(s: Seq<char>, hidden: bool) -> Seq<char>
    decreases s.len(),
{
    if s.len() == 0 {
        Seq::empty()
    } else if hidden {
        visible(s.skip(1), s[0] != 'm')
    } else if s[0] == '\x1b' {
        visible(s.skip(1), true)
    } else {
        seq![s[0]] + visible(s.skip(1), false)
    }
}

proof fn visible_fills_columns(s: Seq<char>, hidden: bool)
    ensures
        visible(s, hidden).len() == columns(s, hidden),
    decreases s.len(),
{
    if s.len() > 0 {
        if hidden {
            visible_fills_columns(s.skip(1), s[0] != 'm');
        } else if s[0] == '\x1b' {
            visible_fills_columns(s.skip(1), true);
        } else {
            visible_fills_columns(s.skip(1), false);
        }
    }
}

proof fn visible_adds(a: Seq<char>, b: Seq<char>, hidden: bool)
    ensures
        visible(a + b, hidden) == visible(a, hidden) + visible(b, left_hidden(a, hidden)),
    decreases a.len(),
{
    if a.len() == 0 {
        assert(a + b =~= b);
        assert(visible(a, hidden) + visible(b, hidden) =~= visible(b, hidden));
    } else {
        let t = a.skip(1);
        assert((a + b).skip(1) =~= t + b);
        assert((a + b)[0] == a[0]);
        let next = if hidden {
            a[0] != 'm'
        } else {
            a[0] == '\x1b'
        };
        visible_adds(t, b, next);
        assert(visible(a + b, hidden) =~= visible(a, hidden) + visible(b, left_hidden(a, hidden)));
    }
}

/// A text without escape sequences.
pub open spec fn bare(s: Seq<char>) -> bool {
    forall|i: int| 0 <= i < s.len() ==> #[trigger] s[i] != '\x1b'
}

proof fn bare_is_visible(s: Seq<char>)
    requires
        bare(s),
    ensures
        visible(s, false) == s,
        !left_hidden(s, false),
    decreases s.len(),
{
    if s.len() > 0 {
        let t = s.skip(1);
        assert forall|i: int| 0 <= i < t.len() implies #[trigger] t[i] != '\x1b' by {
            assert(t[i] == s[i + 1]);
        }
        bare_is_visible(t);
        assert(seq![s[0]] + t =~= s);
    } else {
        assert(visible(s, false) =~= s);
    }
}

proof fn nothing_visible(s: Seq<char>, hidden: bool)
    requires
        columns(s, hidden) == 0,
    ensures
        visible(s, hidden) == Seq::<char>::empty(),
{
    visible_fills_columns(s, hidden);
    assert(visible(s, hidden) =~= Seq::<char>::empty());
}

/// A status as it is meant: the spinner, who is at work and at what, how long, and what else there
/// is to say.
pub open spec fn meant(
    spinner: Seq<char>,
    agent: Seq<char>,
    message: Seq<char>,
    secs: Seq<char>,
    suffix: Seq<char>,
) -> Seq<char> {
    " "@ + spinner + " "@ + agent + ": "@ + message + " "@ + "│ "@ + secs + "s"@ + suffix
}

/// A frame shows the whole status where it fits into a line, one column less than the terminal has,
/// and else its start with a mark that it is cut; colors change nothing of what is read.
pub proof fn frames_show_the_status(
    color: u8,
    spinner: Seq<char>,
    agent: Seq<char>,
    message: Seq<char>,
    secs: Seq<char>,
    suffix: Seq<char>,
    cols: int,
)
    requires
        bare(spinner),
        bare(agent),
        bare(message),
        bare(secs),
        bare(suffix),
        cols >= 2,
    ensures
        ({
            let all = meant(spinner, agent, message, secs, suffix);
            let seen = visible(
                status_line(color, spinner, agent, message, secs, suffix, cols),
                false,
            );
            &&& all.len() <= cols - 1 ==> seen == all
            &&& all.len() > cols - 1 ==> seen == all.take(cols - 2) + "…"@
        }),
{
    let all = meant(spinner, agent, message, secs, suffix);
    let plain = plain_status(spinner, agent, message, secs, suffix);
    assert(plain =~= all);
    assert(frame_width(cols) == cols - 1);
    reveal_strlit(" ");
    reveal_strlit(": ");
    reveal_strlit("│ ");
    reveal_strlit("s");
    reveal_strlit("…");
    let on = color_on(STATUS_COLOR);
    let off = "\x1b[0m"@;
    let mid = "\x1b[0m\x1b[90m"@;
    color_takes_no_columns(STATUS_COLOR, false);
    nothing_visible(on, false);
    let head = status_head(spinner, agent, message);
    let tail = status_tail(secs, suffix);
    assert(bare(head));
    assert(bare(tail));
    bare_is_visible(head);
    bare_is_visible(tail);
    resets_take_no_columns(false);
    nothing_visible(off, false);
    nothing_visible(mid, false);
    if plain.len() <= cols - 1 {
        let a = painted_head(color, spinner, agent, message);
        painting_shows_the_same(color, spinner, agent, message);
        visible_adds(on + a + mid + tail, off, false);
        visible_adds(on + a + mid, tail, false);
        visible_adds(on + a, mid, false);
        visible_adds(on, a, false);
        columns_add(on + a + mid, tail, false);
        columns_add(on + a, mid, false);
        columns_add(on, a, false);
        assert(visible(on + a + mid + tail + off, false) =~= head + tail);
        assert(head + tail =~= all);
    } else {
        let t = plain.take(cols - 2);
        assert(bare(plain));
        assert forall|i: int| 0 <= i < t.len() implies #[trigger] t[i] != '\x1b' by {
            assert(t[i] == plain[i]);
        }
        bare_is_visible(t);
        assert(bare("…"@));
        bare_is_visible("…"@);
        visible_adds(on + t + "…"@, off, false);
        visible_adds(on + t, "…"@, false);
        visible_adds(on, t, false);
        columns_add(on + t, "…"@, false);
        columns_add(on, t, false);
        assert(visible(on + t + "…"@ + off, false) =~= t + "…"@);
    }
}

proof fn painting_shows_the_same(
    color: u8,
    spinner: Seq<char>,
    agent: Seq<char>,
    message: Seq<char>,
)
    requires
        bare(spinner),
        bare(agent),
        bare(message),
    ensures
        visible(painted_head(color, spinner, agent, message), false) == status_head(
            spinner,
            agent,
            message,
        ),
        !left_hidden(painted_head(color, spinner, agent, message), false),
{
    reveal_strlit(" ");
    reveal_strlit(": ");
    let head = status_head(spinner, agent, message);
    assert(bare(head));
    bare_is_visible(head);
    if color != STATUS_COLOR {
        let a = " "@ + spinner + " "@;
        let on = color_on(color);
        let off = color_on(STATUS_COLOR);
        let b = ": "@ + message + " "@;
        assert(bare(a));
        assert(bare(b));
        bare_is_visible(a);
        bare_is_visible(b);
        bare_is_visible(agent);
        color_takes_no_columns(color, false);
        color_takes_no_columns(STATUS_COLOR, false);
        nothing_visible(on, false);
        nothing_visible(off, false);
        visible_adds(a + on + agent + off, b, false);
        visible_adds(a + on + agent, off, false);
        visible_adds(a + on, agent, false);
        visible_adds(a, on, false);
        columns_add(a + on + agent + off, b, false);
        columns_add(a + on + agent, off, false);
        columns_add(a + on, agent, false);
        columns_add(a, on, false);
        assert(visible(a + on + agent + off + b, false) =~= head);
    }
}

/// What is written to the terminal is written whole, behind what clears the line before it: a
/// spinner is erased, and an open line is ended before a complete one is written.
pub proof fn lines_are_kept_apart(state: LineState, s: &str)
    ensures
        ({
            let (out, next) = applied(state, LineOp::CompleteLine(s));
            &&& next == LineState::Empty
            &&& state == LineState::Empty ==> out == s@
            &&& state == LineState::Partial ==> out == seq!['\n'] + s@
            &&& state == LineState::Spinner ==> out == erase_line() + s@
        }),
        ({
            let (out, next) = applied(state, LineOp::Partial(s));
            &&& s@.len() == 0 ==> out.len() == 0 && next == state
            &&& s@.len() > 0 ==> next == LineState::Partial
            &&& s@.len() > 0 && state != LineState::Spinner ==> out == s@
            &&& s@.len() > 0 && state == LineState::Spinner ==> out == erase_line() + s@
        }),
        ({
            let (out, next) = applied(state, LineOp::Newline);
            &&& next == LineState::Empty
            &&& state != LineState::Spinner ==> out == seq!['\n']
            &&& state == LineState::Spinner ==> out == erase_line() + seq!['\n']
        }),
        ({
            let (out, next) = applied(state, LineOp::Finish);
            &&& state == LineState::Partial ==> out == seq!['\n'] && next == LineState::Empty
            &&& state != LineState::Partial ==> out.len() == 0 && next == state
        }),
{
    reveal_strlit("");
    reveal_strlit("\n");
    assert("\n"@ =~= seq!['\n']);
    assert(""@ + s@ =~= s@);
    assert(""@ + "\n"@ =~= seq!['\n']);
}

/// An agent that is removed is gone from the list, and the others stay in order.
pub proof fn removed_agents_are_gone(v: Seq<Entry>, name: Seq<char>)
    ensures
        without_agent(v, name) == v.filter(|e: Entry| e.name != name),
    decreases v.len(),
{
    reveal(Seq::filter);
    let p = |e: Entry| e.name != name;
    if v.len() > 0 {
        removed_agents_are_gone(v.drop_last(), name);
    } else {
        assert(without_agent(v, name) =~= v.filter(p));
    }
}

/// An agent is found by its name, in its first place.
pub proof fn agents_are_found(v: Seq<Entry>, name: Seq<char>, i: int)
    requires
        0 <= i <= v.len(),
    ensures
        i <= entry_position(v, name, i) <= v.len(),
        entry_position(v, name, i) < v.len() ==> v[entry_position(v, name, i)].name == name,
        forall|j: int| i <= j < entry_position(v, name, i) ==> (#[trigger] v[j]).name != name,
    decreases v.len() - i,
{
    if i < v.len() && v[i].name != name {
        agents_are_found(v, name, i + 1);
    }
}

/// Every agent gets its turn to be shown, each for ten ticks, and then the next.
pub proof fn agents_take_turns(tick: u64, count: int)
    requires
        count > 0,
    ensures
        0 <= shown_at(tick, count) < count,
        tick + 10 <= u64::MAX ==> shown_at((tick + 10) as u64, count) == if shown_at(tick, count)
            + 1 == count {
            0
        } else {
            shown_at(tick, count) + 1
        },
        tick % 10 != 9 && tick < u64::MAX ==> shown_at((tick + 1) as u64, count) == shown_at(
            tick,
            count,
        ),
{
    let a = (tick / 10) as int;
    vstd::arithmetic::div_mod::lemma_mod_bound(a, count);
    if tick + 10 <= u64::MAX {
        let b = ((tick + 10) as u64 / 10) as int;
        assert(b == a + 1);
        vstd::arithmetic::div_mod::lemma_fundamental_div_mod(a, count);
        let q = a / count;
        let r = a % count;
        if r + 1 == count {
            assert(a + 1 == count * (q + 1)) by (nonlinear_arith)
                requires
                    a == count * q + r,
                    r + 1 == count,
            ;
            vstd::arithmetic::div_mod::lemma_fundamental_div_mod_converse(
                a + 1,
                count,
                q + 1,
                0,
            );
        } else {
            assert(a + 1 == q * count + (r + 1)) by (nonlinear_arith)
                requires
                    a == count * q + r,
            ;
            vstd::arithmetic::div_mod::lemma_fundamental_div_mod_converse(
                a + 1,
                count,
                q,
                r + 1,
            );
        }
    }
}

/// A tick leaves an open line alone. Else it draws what there is to draw, in place of the last
/// frame, or erases that once there is nothing more to draw.
pub proof fn ticks_leave_open_lines_alone(state: LineState, t: &str, was_active: bool)
    ensures
        ticked(LineState::Partial, Some(t), was_active).0.len() == 0,
        ticked(LineState::Partial, None, was_active).0.len() == 0,
        ticked(LineState::Partial, Some(t), was_active).1 == LineState::Partial,
        ticked(LineState::Partial, None, was_active).1 == LineState::Partial,
        ticked(LineState::Empty, Some(t), was_active) == (t@, LineState::Spinner),
        ticked(LineState::Spinner, Some(t), was_active) == (
            erase_line() + t@,
            LineState::Spinner,
        ),
        ticked(LineState::Spinner, None, true) == (erase_line(), LineState::Empty),
        ticked(LineState::Spinner, None, false).0.len() == 0,
        ticked(LineState::Empty, None, was_active).0.len() == 0,
        ticked(LineState::Empty, None, was_active).1 == LineState::Empty,
{
    reveal_strlit("");
    assert(""@ + t@ =~= t@);
}

/// The spinner turns: it is the same after eight ticks, and another one after each.
pub proof fn the_spinner_turns(tick: u64)
    requires
        tick + 8 <= u64::MAX,
    ensures
        spinner_at((tick + 8) as u64) == spinner_at(tick),
        spinner_at((tick + 1) as u64) != spinner_at(tick),
{
    reveal_strlit("⣾");
    reveal_strlit("⣽");
    reveal_strlit("⣻");
    reveal_strlit("⢿");
    reveal_strlit("⡿");
    reveal_strlit("⣟");
    reveal_strlit("⣯");
    reveal_strlit("⣷");
    assert((tick + 8) as u64 % 8 == tick % 8);
    assert((tick + 1) as u64 % 8 == if tick % 8 == 7 {
        0
    } else {
        tick % 8 + 1
    });
    let a = spinner_at(tick);
    let b = spinner_at((tick + 1) as u64);
    assert(a.len() == 1 && b.len() == 1);
    assert(a[0] != b[0]);
}

/// An agent that has a color of its own is shown in it, and the color of the status is set again
/// behind its name; an agent in that color needs neither.
pub proof fn agents_are_shown_in_their_color(
    color: u8,
    spinner: Seq<char>,
    agent: Seq<char>,
    message: Seq<char>,
)
    ensures
        ({
            let head = painted_head(color, spinner, agent, message);
            &&& color == 36 ==> head == " "@ + spinner + " "@ + agent + ": "@ + message + " "@
            &&& color != 36 ==> head == " "@ + spinner + " "@ + ("\x1b["@ + numbers::decimal(
                color as nat,
            ) + "m"@) + agent + ("\x1b["@ + numbers::decimal(36) + "m"@) + ": "@ + message + " "@
        }),
{
    let a = " "@ + spinner + " "@ + color_on(color) + agent + color_on(STATUS_COLOR);
    assert(a + (": "@ + message + " "@) =~= a + ": "@ + message + " "@);
}

} // verus!
