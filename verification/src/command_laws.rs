//! What holds of the lines that the user types and of the options of a session.

use vstd::prelude::*;
use crate::commands;
use crate::commands::Command;
use crate::numbers;
use crate::options;
use crate::options::{NumberReading, Opts, Param};
use crate::replacing;
use crate::text;
use crate::text_laws;
use crate::tools;
use crate::words;

verus! {

/// A line that does not begin with a slash or a backslash is a message, as it is.
pub proof fn other_lines_are_messages(line: Seq<char>)
    requires
        line.len() > 0,
        line[0] != '/',
        line[0] != '\\',
    ensures
        commands::command_of(line) == Command::Message(line),
{
    command_texts();
    let n = commands::normalized(line);
    assert(n == line);
    assert(text::begins(n, seq!['/']) ==> n.take(1)[0] == '/');
    assert(text::begins(n, "/limit "@) ==> n.take(7)[0] == '/');
    assert(text::begins(n, "/backtrace "@) ==> n.take(11)[0] == '/');
    assert(text::begins(n, "/system "@) ==> n.take(8)[0] == '/');
    assert(text::begins(n, "/create-agent "@) ==> n.take(14)[0] == '/');
    assert(text::begins(n, "/select-agent "@) ==> n.take(14)[0] == '/');
    assert(text::begins(n, "/delete-agent "@) ==> n.take(14)[0] == '/');
}

proof fn command_texts()
    ensures
        "/help"@.len() == 5 && "/help"@[0] == '/' && "/help"@[1] == 'h',
        "/quit"@.len() == 5 && "/quit"@[0] == '/' && "/quit"@[1] == 'q',
        "/clear"@.len() == 6 && "/clear"@[0] == '/' && "/clear"@[1] == 'c' && "/clear"@[2] == 'l',
        "/show"@.len() == 5 && "/show"@[0] == '/' && "/show"@[1] == 's' && "/show"@[2] == 'h',
        "/limit "@.len() == 7 && "/limit "@[0] == '/' && "/limit "@[1] == 'l',
        "/backtrace "@.len() == 11 && "/backtrace "@[0] == '/' && "/backtrace "@[1] == 'b',
        "/summarize"@.len() == 10 && "/summarize"@[0] == '/' && "/summarize"@[1] == 's'
            && "/summarize"@[2] == 'u',
        "/system "@.len() == 8 && "/system "@[0] == '/' && "/system "@[1] == 's' && "/system "@[2]
            == 'y',
        "/agents"@.len() == 7 && "/agents"@[0] == '/' && "/agents"@[1] == 'a',
        "/create-agent "@.len() == 14 && "/create-agent "@[0] == '/' && "/create-agent "@[1] == 'c'
            && "/create-agent "@[2] == 'r',
        "/select-agent "@.len() == 14 && "/select-agent "@[0] == '/' && "/select-agent "@[1] == 's'
            && "/select-agent "@[2] == 'e',
        "/delete-agent "@.len() == 14 && "/delete-agent "@[0] == '/' && "/delete-agent "@[1] == 'd',
        "/mcp-refresh"@[0] == '/' && "/mcp-refresh"@[1] == 'm' && "/mcp-refresh"@.len() == 12,
        "/tools"@[0] == '/' && "/tools"@[1] == 't' && "/tools"@.len() == 6,
{
    reveal_strlit("/help");
    reveal_strlit("/quit");
    reveal_strlit("/clear");
    reveal_strlit("/show");
    reveal_strlit("/limit ");
    reveal_strlit("/backtrace ");
    reveal_strlit("/summarize");
    reveal_strlit("/system ");
    reveal_strlit("/agents");
    reveal_strlit("/create-agent ");
    reveal_strlit("/select-agent ");
    reveal_strlit("/delete-agent ");
    reveal_strlit("/mcp-refresh");
    reveal_strlit("/tools");
}

proof fn line_of(prefix: Seq<char>, rest: Seq<char>)
    requires
        prefix.len() >= 3,
        prefix[0] == '/',
    ensures
        ({
            let n = prefix + rest;
            &&& commands::normalized(n) == n
            &&& text::begins(n, prefix)
            &&& n.skip(prefix.len() as int) == rest
            &&& n.len() > 0
            &&& n[0] == '/' && n[1] == prefix[1] && n[2] == prefix[2]
            &&& text::begins(n, "/limit "@) ==> prefix[1] == 'l'
            &&& text::begins(n, "/backtrace "@) ==> prefix[1] == 'b'
            &&& text::begins(n, "/system "@) ==> prefix[1] == 's' && prefix[2] == 'y'
            &&& text::begins(n, "/create-agent "@) ==> prefix[1] == 'c' && prefix[2] == 'r'
            &&& text::begins(n, "/select-agent "@) ==> prefix[1] == 's' && prefix[2] == 'e'
            &&& text::begins(n, "/delete-agent "@) ==> prefix[1] == 'd'
        }),
{
    command_texts();
    let n = prefix + rest;
    assert(n.take(prefix.len() as int) =~= prefix);
    assert(n.skip(prefix.len() as int) =~= rest);
    assert(text::begins(n, "/limit "@) ==> n.take(7)[1] == n[1]);
    assert(text::begins(n, "/backtrace "@) ==> n.take(11)[1] == n[1]);
    assert(text::begins(n, "/system "@) ==> n.take(8)[1] == n[1] && n.take(8)[2] == n[2]);
    assert(text::begins(n, "/create-agent "@) ==> n.take(14)[1] == n[1] && n.take(14)[2] == n[2]);
    assert(text::begins(n, "/select-agent "@) ==> n.take(14)[1] == n[1] && n.take(14)[2] == n[2]);
    assert(text::begins(n, "/delete-agent "@) ==> n.take(14)[1] == n[1]);
}

/// A system message is what follows the command, to the letter.
pub proof fn system_messages_are_kept(message: Seq<char>)
    requires
        message.len() > 0,
    ensures
        commands::command_of("/system "@ + message) == Command::System(message),
{
    command_texts();
    line_of("/system "@, message);
}

/// The name of an agent is what follows the command, without white space around it.
pub proof fn agent_names_are_trimmed(name: Seq<char>)
    requires
        words::trimmed(name).len() > 0,
    ensures
        commands::command_of("/create-agent "@ + name) == Command::CreateAgent(
            words::trimmed(name),
        ),
        commands::command_of("/select-agent "@ + name) == Command::SelectAgent(
            words::trimmed(name),
        ),
        commands::command_of("/delete-agent "@ + name) == Command::DeleteAgent(
            words::trimmed(name),
        ),
{
    command_texts();
    line_of("/create-agent "@, name);
    line_of("/select-agent "@, name);
    line_of("/delete-agent "@, name);
}

/// A number that follows a command that takes one is read.
pub proof fn command_numbers_are_read(n: usize)
    ensures
        commands::command_of("/limit "@ + numbers::decimal(n as nat)) == Command::Limit(n as nat),
        commands::command_of("/backtrace "@ + numbers::decimal(n as nat)) == Command::Backtrace(
            n as nat,
        ),
{
    command_texts();
    let d = numbers::decimal(n as nat);
    line_of("/limit "@, d);
    line_of("/backtrace "@, d);
    digits_are_dark(n as nat);
    numbers::decimal_reads_back(n as nat, usize::MAX as nat);
    names_are_dark();
    reveal_strlit("/limit ");
    reveal_strlit("/limit");
    reveal_strlit("/backtrace ");
    reveal_strlit("/backtrace");
    two_words("/limit"@, d);
    two_words("/backtrace"@, d);
    assert("/limit "@ + d =~= "/limit"@ + seq![' '] + d);
    assert("/backtrace "@ + d =~= "/backtrace"@ + seq![' '] + d);
}

proof fn digits_are_dark(n: nat)
    ensures
        numbers::decimal(n).len() > 0,
        forall|k: int|
            0 <= k < numbers::decimal(n).len() ==> !words::is_white(
                #[trigger] numbers::decimal(n)[k],
            ),
    decreases n,
{
    if n >= 10 {
        digits_are_dark(n / 10);
        let s = numbers::decimal(n);
        let t = numbers::decimal(n / 10);
        assert(s =~= t.push(numbers::digit_char(n % 10)));
        assert forall|k: int| 0 <= k < s.len() implies !words::is_white(#[trigger] s[k]) by {
            if k < t.len() {
                assert(s[k] == t[k]);
            }
        }
    }
}

proof fn names_are_dark()
    ensures
        forall|k: int| 0 <= k < "/limit"@.len() ==> !words::is_white(#[trigger] "/limit"@[k]),
        forall|k: int|
            0 <= k < "/backtrace"@.len() ==> !words::is_white(#[trigger] "/backtrace"@[k]),
{
    reveal_strlit("/limit");
    reveal_strlit("/backtrace");
    assert forall|k: int| 0 <= k < "/limit"@.len() implies !words::is_white(
        #[trigger] "/limit"@[k],
    ) by {
        assert(k == 0 || k == 1 || k == 2 || k == 3 || k == 4 || k == 5);
    }
    assert forall|k: int| 0 <= k < "/backtrace"@.len() implies !words::is_white(
        #[trigger] "/backtrace"@[k],
    ) by {
        assert(k == 0 || k == 1 || k == 2 || k == 3 || k == 4 || k == 5 || k == 6 || k == 7 || k
            == 8 || k == 9);
    }
}

#[verifier::spinoff_prover]
proof fn two_words(name: Seq<char>, d: Seq<char>)
    requires
        name.len() > 0,
        forall|k: int| 0 <= k < name.len() ==> !words::is_white(#[trigger] name[k]),
        d.len() > 0,
        forall|k: int| 0 <= k < d.len() ==> !words::is_white(#[trigger] d[k]),
    ensures
        words::words_from(name + seq![' '] + d, 0) == seq![name, d],
{
    assert(words::words_from(d, 0) == seq![d]) by {
        text_laws::words_are_runs(d, ' ', d);
    }
    assert(words::words_from(name + seq![' '] + d, 0) == seq![name] + words::words_from(d, 0)) by {
        text_laws::words_are_runs(name, ' ', d);
    }
    assert(seq![name] + seq![d] =~= seq![name, d]);
}

/// What completes a line begins with what was typed: every candidate that does is offered, in
/// order, and no other is.
pub proof fn completions_begin_with_what_was_typed(v: Seq<Seq<char>>, typed: Seq<char>)
    ensures
        commands::beginning_with(v, typed) == v.filter(|t: Seq<char>| typed.is_prefix_of(t)),
    decreases v.len(),
{
    reveal(Seq::filter);
    let p = |t: Seq<char>| typed.is_prefix_of(t);
    if v.len() > 0 {
        completions_begin_with_what_was_typed(v.drop_last(), typed);
        let t = v.last();
        if typed.len() <= t.len() {
            assert(t.take(typed.len() as int) =~= t.subrange(0, typed.len() as int));
        }
        assert(p(t) == text::begins(t, typed));
    } else {
        assert(commands::beginning_with(v, typed) =~= v.filter(p));
    }
}

/// The commands that take the name of an agent are completed by the names of the agents.
pub proof fn agent_names_are_completed(typed: Seq<char>, more: Seq<char>, agents: Seq<Seq<char>>)
    ensures
        ({
            let a = "/select-agent "@ + typed;
            let b = "/delete-agent "@ + typed;
            let names = agents.filter(|t: Seq<char>| typed.is_prefix_of(t));
            &&& commands::completions(a + more, a.len() as int, agents) == (14int, names)
            &&& commands::completions(b + more, b.len() as int, agents) == (14int, names)
        }),
{
    command_texts();
    completions_begin_with_what_was_typed(agents, typed);
    let a = "/select-agent "@ + typed;
    let b = "/delete-agent "@ + typed;
    line_of("/select-agent "@, typed);
    line_of("/delete-agent "@, typed);
    assert((a + more).take(a.len() as int) =~= a);
    assert((b + more).take(b.len() as int) =~= b);
    assert((a + more)[0] == '/' && (b + more)[0] == '/');
}

// ---------------------------------------------------------------------------
// Options
// ---------------------------------------------------------------------------

proof fn first_place(a: Seq<char>, c: char, b: Seq<char>, i: int)
    requires
        0 <= i <= a.len(),
        forall|k: int| 0 <= k < a.len() ==> #[trigger] a[k] != c,
        b.len() > 0 ==> b[0] == c,
    ensures
        words::next_char(a + b, c, i) == a.len(),
    decreases a.len() - i,
{
    if i < a.len() {
        assert((a + b)[i] == a[i]);
        first_place(a, c, b, i + 1);
    } else if b.len() > 0 {
        assert((a + b)[i] == b[0]);
    }
}

/// A parameter is split at its first equals sign, whatever the value holds; without one it is
/// refused.
pub proof fn parameters_are_split_once(name: Seq<char>, value: Seq<char>)
    requires
        forall|k: int| 0 <= k < name.len() ==> #[trigger] name[k] != '=',
    ensures
        options::split_at_equals(name + seq!['='] + value) == Some(
            (words::trimmed(name), words::trimmed(value)),
        ),
        options::split_at_equals(name) is None,
{
    let t = seq!['='] + value;
    let s = name + seq!['='] + value;
    assert(s =~= name + t);
    first_place(name, '=', t, 0);
    assert(s.take(name.len() as int) =~= name);
    assert(s.skip(name.len() as int + 1) =~= value);
    let e = Seq::<char>::empty();
    first_place(name, '=', e, 0);
    assert(name + e =~= name);
}

/// A value is a number where it reads as a finite one, a truth value or null where it spells one,
/// and else a text, to the letter.
pub proof fn values_have_their_type(value: Seq<char>, reading: NumberReading)
    ensures
        ({
            let v = options::typed_value(value, reading);
            let number = reading == NumberReading::Finite;
            let plain = reading == NumberReading::NotANumber;
            &&& number <==> v == Param::Number(value)
            &&& plain && value == "true"@ <==> v == Param::Bool(true)
            &&& plain && value == "false"@ <==> v == Param::Bool(false)
            &&& plain && value == "null"@ <==> v == Param::Null
            &&& v is Text ==> v == Param::Text(value)
        }),
{
    reveal_strlit("true");
    reveal_strlit("false");
    reveal_strlit("null");
    assert("true"@[0] == 't' && "false"@[0] == 'f' && "null"@[0] == 'n');
}

/// A key that is given is used; else the first line of the file is the key.
pub proof fn keys_are_chosen(key: Seq<char>, line: Seq<char>, rest: Seq<char>)
    requires
        text_laws::one_line(line),
        line.len() > 0 ==> line.last() != '\r',
    ensures
        options::chosen_key(Some(key), None) == Some(key),
        options::chosen_key(Some(key), Some(rest)) == Some(key),
        options::chosen_key(None, None) is None,
        options::chosen_key(None, Some(line + seq!['\n'] + rest)) == Some(line),
        line.len() > 0 ==> options::chosen_key(None, Some(line)) == Some(line),
{
    text_laws::lines_end_with_line_feeds(line, rest);
}

/// What is given first counts.
pub proof fn the_first_given_counts(a: Seq<char>, b: Option<Seq<char>>, default: Seq<char>)
    ensures
        options::first_given(Some(a), b, default) == a,
        options::first_given(None, Some(a), default) == a,
        options::first_given(None, None, default) == default,
{
}

/// A session begins with what is said of tools, then the files, in order, and ends with what the
/// user asks.
pub proof fn sessions_begin_with_prompts(use_tools: bool, files: Seq<Seq<char>>, prompt: Seq<char>)
    ensures
        ({
            let v = options::prompt_messages(use_tools, files, prompt);
            let n = v.len() as int;
            &&& n == files.len() + if use_tools {
                3int
            } else {
                2
            }
            &&& v[n - 1].role == "user"@ && v[n - 1].content == Some(prompt)
            &&& forall|i: int|
                0 <= i < files.len() ==> (#[trigger] v[n - 1 - files.len() + i]).role == "system"@
                    && v[n - 1 - files.len() + i].content == Some(files[i])
            &&& forall|i: int| 0 <= i < n - 1 ==> (#[trigger] v[i]).role == "system"@
            &&& forall|i: int|
                0 <= i < n ==> (#[trigger] v[i]).calls is None && v[i].tool_call_id is None
                    && v[i].name is None
        }),
{
}

/// The prompt of an agent comes last among its prompts.
pub proof fn agent_prompts_come_last(use_tools: bool, p: Seq<char>)
    ensures
        options::agent_prompts(use_tools, None) == options::tools_prompts(use_tools),
        ({
            let v = options::agent_prompts(use_tools, Some(p));
            &&& v.drop_last() == options::tools_prompts(use_tools)
            &&& v.last().role == "system"@ && v.last().content == Some(p)
        }),
{
    let v = options::agent_prompts(use_tools, Some(p));
    assert(v.drop_last() =~= options::tools_prompts(use_tools));
}

/// The models are found beside the completions: in place of the end of their address, where that
/// end stands in it nowhere else; else behind the address, with one slash between.
pub proof fn models_are_beside_the_completions(base: Seq<char>)
    ensures
        replacing::stands_first(
            base + "/chat/completions"@,
            "/chat/completions"@,
            base.len() as int,
        ) ==> options::models_endpoint(base + "/chat/completions"@) == base + "/models"@,
        !"/chat/completions"@.is_suffix_of(base) && base.len() > 0 && base.last() == '/'
            ==> options::models_endpoint(base) == base + "models"@,
        !"/chat/completions"@.is_suffix_of(base) && (base.len() == 0 || base.last() != '/')
            ==> options::models_endpoint(base) == base + "/models"@,
{
    let p = "/chat/completions"@;
    reveal_strlit("/chat/completions");
    reveal_strlit("/");
    let s = base + p;
    if replacing::stands_first(s, p, base.len() as int) {
        let e = Seq::<char>::empty();
        let parts = seq![base, e];
        assert(parts.drop_last() =~= seq![base]);
        assert(words::joined(seq![base], p) == base);
        assert(words::joined(parts, p) =~= s);
        assert(replacing::is_cut(s, p, parts)) by {
            assert forall|k: int| 0 <= k < parts.len() - 1 implies replacing::stands_first(
                #[trigger] parts[k] + p,
                p,
                parts[k].len() as int,
            ) by {
                assert(parts[k] == base);
            }
        }
        replacing::replacing_fills_the_cuts(s, p, "/models"@, parts);
        assert(words::joined(seq![base], "/models"@) == base);
        assert(words::joined(parts, "/models"@) =~= base + "/models"@);
        assert(s.skip(s.len() - p.len()) =~= p);
    }
    if p.len() <= base.len() {
        assert(base.skip(base.len() - p.len()) =~= base.subrange(
            base.len() - p.len(),
            base.len() as int,
        ));
    }
    if base.len() > 0 {
        assert(base.skip(base.len() - 1) =~= seq![base.last()]);
        if base.last() == '/' {
            assert(base.skip(base.len() - 1) =~= "/"@);
        } else if base.skip(base.len() - 1) == "/"@ {
            assert(base.skip(base.len() - 1)[0] == '/');
        }
    }
}

/// Every command without an argument is known by its name.
pub proof fn commands_are_known_by_name(line: Seq<char>)
    ensures
        line.len() == 0 ==> commands::command_of(line) == Command::Empty,
        line == "/help"@ ==> commands::command_of(line) == Command::Help,
        line == "/quit"@ ==> commands::command_of(line) == Command::Quit,
        line == "/clear"@ ==> commands::command_of(line) == Command::Clear,
        line == "/show"@ ==> commands::command_of(line) == Command::Show,
        line == "/summarize"@ ==> commands::command_of(line) == Command::Summarize,
        line == "/agents"@ ==> commands::command_of(line) == Command::Agents,
        line == "/mcp-refresh"@ ==> commands::command_of(line) == Command::McpRefresh,
        line == "/tools"@ ==> commands::command_of(line) == Command::Tools,
{
    command_texts();
    if line.len() > 3 && line[0] == '/' {
        let p = line.take(3);
        let q = line.skip(3);
        assert(p + q =~= line);
        line_of(p, q);
    }
}

/// A line that begins with a slash and no command is refused, and the refusal tells the line.
pub proof fn unknown_commands_are_told(line: Seq<char>)
    requires
        line.len() > 2,
        line[0] == '/',
        line[1] != 'h' && line[1] != 'q' && line[1] != 'c' && line[1] != 's' && line[1] != 'l',
        line[1] != 'b' && line[1] != 'a' && line[1] != 'd' && line[1] != 'm' && line[1] != 't',
    ensures
        commands::command_of(line) == Command::Invalid("Unknown command: "@ + line),
{
    command_texts();
    let p = line.take(3);
    let q = line.skip(3);
    assert(p + q =~= line);
    line_of(p, q);
    assert(line.take(1) =~= seq!['/']);
}

/// Without tools none is offered; else those that are named, or all.
pub proof fn sessions_have_their_tools(opts: Opts)
    ensures
        opts.no_tools ==> options::session_tools(opts).len() == 0,
        !opts.no_tools && opts.tools@.len() == 0 ==> options::session_tools(opts)
            == tools::allowed_tools(tools::offered_kinds(opts.unsafe_tools), None),
        !opts.no_tools && opts.tools@.len() > 0 ==> options::session_tools(opts)
            == tools::allowed_tools(
            tools::offered_kinds(opts.unsafe_tools),
            Some(words::views(opts.tools@)),
        ),
{
}

/// What the command line gives counts before what the file gives.
pub proof fn given_options_win<T>(a: T, b: Option<T>)
    ensures
        options::or_else(Some(a), b) == Some(a),
        options::or_else(None, b) == b,
{
}

} // verus!
