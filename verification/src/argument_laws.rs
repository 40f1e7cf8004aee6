//! What holds of the arguments of a tool while they arrive.

use vstd::prelude::*;
use vstd::utf8::*;
use crate::json;
use crate::numbers;
use crate::order;
use crate::text;
use crate::tool_args;
use crate::tool_args::RawPair;
use crate::words;

verus! {

proof fn white_shift(s: Seq<char>, k: int, i: int)
    requires
        0 <= k,
        0 <= i,
        k + i <= s.len(),
    ensures
        tool_args::skip_white(s, k + i) == k + tool_args::skip_white(s.skip(k), i),
        i <= tool_args::skip_white(s.skip(k), i) <= s.skip(k).len(),
    decreases s.len() - i,
{
    if k + i < s.len() {
        assert(s.skip(k)[i] == s[k + i]);
        if tool_args::json_white(s[k + i]) {
            white_shift(s, k, i + 1);
        }
    }
}

proof fn string_shift(s: Seq<char>, k: int, i: int, escaped: bool)
    requires
        0 <= k,
        0 <= i,
        k <= s.len(),
    ensures
        match tool_args::string_end(s.skip(k), i, escaped) {
            Some(e) => tool_args::string_end(s, k + i, escaped) == Some(k + e) && i < e
                <= s.len() - k,
            None => tool_args::string_end(s, k + i, escaped) is None,
        },
    decreases s.len() - i,
{
    if k + i < s.len() {
        assert(s.skip(k)[i] == s[k + i]);
        let c = s[k + i];
        if c == '\\' && !escaped {
            string_shift(s, k, i + 1, true);
        } else if !(c == '"' && !escaped) {
            string_shift(s, k, i + 1, false);
        }
    }
}

proof fn nested_shift(s: Seq<char>, k: int, i: int, depth: int, in_string: bool, escaped: bool)
    requires
        0 <= k,
        0 <= i,
        k <= s.len(),
    ensures
        match tool_args::nested_end(s.skip(k), i, depth, in_string, escaped) {
            Some(e) => tool_args::nested_end(s, k + i, depth, in_string, escaped) == Some(k + e)
                && i < e <= s.len() - k,
            None => tool_args::nested_end(s, k + i, depth, in_string, escaped) is None,
        },
    decreases s.len() - i,
{
    if k + i < s.len() {
        assert(s.skip(k)[i] == s[k + i]);
        let c = s[k + i];
        if in_string {
            if c == '\\' && !escaped {
                nested_shift(s, k, i + 1, depth, true, true);
            } else if c == '"' && !escaped {
                nested_shift(s, k, i + 1, depth, false, false);
            } else {
                nested_shift(s, k, i + 1, depth, true, false);
            }
        } else if c == '"' {
            nested_shift(s, k, i + 1, depth, true, escaped);
        } else if c == '{' || c == '[' {
            nested_shift(s, k, i + 1, depth + 1, false, escaped);
        } else if c == '}' || c == ']' {
            nested_shift(s, k, i + 1, depth - 1, false, escaped);
        } else {
            nested_shift(s, k, i + 1, depth, false, escaped);
        }
    }
}

proof fn scalar_shift(s: Seq<char>, k: int, i: int)
    requires
        0 <= k,
        0 <= i,
        k + i <= s.len(),
    ensures
        tool_args::scalar_end(s, k + i) == k + tool_args::scalar_end(s.skip(k), i),
        i <= tool_args::scalar_end(s.skip(k), i) <= s.skip(k).len(),
    decreases s.len() - i,
{
    if k + i < s.len() {
        assert(s.skip(k)[i] == s[k + i]);
        if !tool_args::ends_scalar(s[k + i]) {
            scalar_shift(s, k, i + 1);
        }
    }
}

proof fn pair_shift(s: Seq<char>, k: int, i: int)
    requires
        0 <= k,
        0 <= i,
        k <= s.len(),
    ensures
        match tool_args::pair_at(s.skip(k), i) {
            Some((p, e)) => tool_args::pair_at(s, k + i) == Some((p, k + e)) && i < e <= s.len()
                - k,
            None => tool_args::pair_at(s, k + i) is None,
        },
{
    let t = s.skip(k);
    if k + i < s.len() {
        assert(t[i] == s[k + i]);
        if t[i] == '"' {
            string_shift(s, k, i + 1, false);
            if let Some(key_end) = tool_args::string_end(t, i + 1, false) {
                white_shift(s, k, key_end);
                let colon = tool_args::skip_white(t, key_end);
                if colon < t.len() {
                    assert(t[colon] == s[k + colon]);
                    white_shift(s, k, colon + 1);
                    let at = tool_args::skip_white(t, colon + 1);
                    string_shift(s, k, at + 1, false);
                    nested_shift(s, k, at, 0, false, false);
                    scalar_shift(s, k, at);
                    if at < t.len() {
                        assert(t[at] == s[k + at]);
                    }
                    if let Some(end) = tool_args::value_end(t, at) {
                        assert(t.subrange(i + 1, key_end - 1) =~= s.subrange(
                            k + i + 1,
                            k + key_end - 1,
                        ));
                        assert(t.subrange(at, end) =~= s.subrange(k + at, k + end));
                    }
                }
            }
        }
    }
}

proof fn pairs_shift(s: Seq<char>, k: int, i: int)
    requires
        0 <= k,
        0 <= i,
        k <= s.len(),
    ensures
        tool_args::pairs_from(s, k + i) == tool_args::pairs_from(s.skip(k), i),
    decreases s.len() - i,
{
    let t = s.skip(k);
    pair_shift(s, k, i);
    if let Some((p, end)) = tool_args::pair_at(t, i) {
        white_shift(s, k, end);
        let j = tool_args::skip_white(t, end);
        if j < t.len() {
            assert(t[j] == s[k + j]);
            white_shift(s, k, j + 1);
            let next = tool_args::skip_white(t, j + 1);
            if t[j] == ',' {
                pairs_shift(s, k, next);
            }
        }
    }
}

/// A text that stands in a string as it is.
pub open spec fn plain(t: Seq<char>) -> bool {
    forall|i: int| 0 <= i < t.len() ==> #[trigger] t[i] != '"' && t[i] != '\\'
}

/// A text as a string.
pub open spec fn quoted(t: Seq<char>) -> Seq<char> {
    seq!['"'] + t + seq!['"']
}

/// A number or a word, as it stands in JSON.
pub open spec fn is_word(t: Seq<char>) -> bool {
    &&& t.len() > 0
    &&& forall|i: int|
        0 <= i < t.len() ==> {
            let c = #[trigger] t[i];
            &&& c != ',' && c != '}' && c != '"' && c != '{' && c != '['
            &&& c != ' ' && c != '\t' && c != '\n' && c != '\r' && c != '\u{c}'
        }
}

proof fn string_ends(a: Seq<char>, t: Seq<char>, b: Seq<char>, k: int)
    requires
        plain(t),
        0 <= k <= t.len(),
    ensures
        tool_args::string_end(a + t + seq!['"'] + b, a.len() + k, false) == Some(
            a.len() + t.len() as int + 1,
        ),
    decreases t.len() - k,
{
    let s = a + t + seq!['"'] + b;
    if k < t.len() {
        assert(s[a.len() + k] == t[k]);
        string_ends(a, t, b, k + 1);
    } else {
        assert(s[a.len() + k] == '"');
    }
}

proof fn word_ends(a: Seq<char>, t: Seq<char>, b: Seq<char>, k: int)
    requires
        is_word(t),
        b.len() > 0,
        b[0] == ',' || b[0] == '}',
        0 <= k <= t.len(),
    ensures
        tool_args::scalar_end(a + t + b, a.len() + k) == a.len() + t.len(),
    decreases t.len() - k,
{
    let s = a + t + b;
    if k < t.len() {
        assert(s[a.len() + k] == t[k]);
        word_ends(a, t, b, k + 1);
    } else {
        assert(s[a.len() + k] == b[0]);
    }
}

/// A value that is a string or a word.
pub open spec fn is_value(raw: Seq<char>, is_string: bool) -> bool {
    if is_string {
        raw.len() >= 2 && raw == quoted(raw.subrange(1, raw.len() - 1)) && plain(
            raw.subrange(1, raw.len() - 1),
        )
    } else {
        is_word(raw)
    }
}

proof fn one_pair(key: Seq<char>, raw: Seq<char>, is_string: bool, rest: Seq<char>)
    requires
        plain(key),
        is_value(raw, is_string),
        rest.len() > 0,
        rest[0] == ',' || rest[0] == '}',
    ensures
        ({
            let s = seq!['{'] + quoted(key) + seq![':'] + raw + rest;
            let end = key.len() + raw.len() + 4;
            &&& tool_args::skip_white(s, 1) == 1
            &&& tool_args::pair_at(s, 1) == Some((RawPair { key, raw, is_string }, end as int))
            &&& s.skip(end as int) == rest
            &&& s.len() == end + rest.len()
        }),
{
    let s = seq!['{'] + quoted(key) + seq![':'] + raw + rest;
    let end = key.len() + raw.len() + 4;
    let a = seq!['{', '"'];
    let b = seq![':'] + raw + rest;
    assert(s =~= a + key + seq!['"'] + b);
    string_ends(a, key, b, 0);
    let e1 = key.len() as int + 3;
    assert(s[0] == '{' && s[1] == '"' && s[e1] == ':');
    assert(s.subrange(2, e1 - 1) =~= key);
    assert(tool_args::skip_white(s, e1) == e1);
    let at = e1 + 1;
    assert(s[at] == raw[0]);
    assert(s.subrange(at, end as int) =~= raw);
    assert(s.skip(end as int) =~= rest);
    if is_string {
        let t = raw.subrange(1, raw.len() - 1);
        assert(raw[0] == quoted(t)[0]);
        let c = seq!['{'] + quoted(key) + seq![':', '"'];
        assert(s =~= c + t + seq!['"'] + rest);
        string_ends(c, t, rest, 0);
        assert(c.len() == at + 1);
        assert(c.len() + t.len() + 1 == end);
    } else {
        let c = seq!['{'] + quoted(key) + seq![':'];
        assert(s =~= c + raw + rest);
        word_ends(c, raw, rest, 0);
        assert(!tool_args::json_white(raw[0]));
        assert(c.len() == at);
    }
    assert(tool_args::skip_white(s, at) == at);
}

/// The pairs of arguments that have arrived are read in order: a pair that another one follows
/// comes before those of the rest.
pub proof fn pairs_are_read_in_order(
    key: Seq<char>,
    raw: Seq<char>,
    is_string: bool,
    rest: Seq<char>,
)
    requires
        plain(key),
        is_value(raw, is_string),
    ensures
        tool_args::arrived_pairs(
            seq!['{'] + quoted(key) + seq![':'] + raw + seq![','] + rest,
        ) == seq![RawPair { key, raw, is_string }] + tool_args::arrived_pairs(seq!['{'] + rest),
        tool_args::arrived_pairs(
            seq!['{'] + quoted(key) + seq![':'] + raw + seq!['}'] + rest,
        ) == seq![RawPair { key, raw, is_string }],
{
    followed_pair(key, raw, is_string, rest);
    last_pair(key, raw, is_string, rest);
    assert(seq!['{'] + quoted(key) + seq![':'] + raw + (seq![','] + rest) =~= seq!['{'] + quoted(
        key,
    ) + seq![':'] + raw + seq![','] + rest);
    assert(seq!['{'] + quoted(key) + seq![':'] + raw + (seq!['}'] + rest) =~= seq!['{'] + quoted(
        key,
    ) + seq![':'] + raw + seq!['}'] + rest);
}

proof fn followed_pair(key: Seq<char>, raw: Seq<char>, is_string: bool, rest: Seq<char>)
    requires
        plain(key),
        is_value(raw, is_string),
    ensures
        tool_args::arrived_pairs(
            seq!['{'] + quoted(key) + seq![':'] + raw + (seq![','] + rest),
        ) == seq![RawPair { key, raw, is_string }] + tool_args::arrived_pairs(seq!['{'] + rest),
{
    let end = (key.len() + raw.len() + 4) as int;
    let more = seq![','] + rest;
    let s = seq!['{'] + quoted(key) + seq![':'] + raw + more;
    one_pair(key, raw, is_string, more);
    assert(s[end] == s.skip(end)[0]);
    assert(s.skip(end + 1) =~= s.skip(end).skip(1));
    assert(more.skip(1) =~= rest);
    rest_shift(s, end, rest);
    assert(tool_args::skip_white(s, end) == end);
    assert(s[0] == '{');
}

proof fn rest_shift(s: Seq<char>, end: int, rest: Seq<char>)
    requires
        0 <= end < s.len(),
        s.skip(end + 1) == rest,
    ensures
        tool_args::pairs_from(s, tool_args::skip_white(s, end + 1)) == tool_args::arrived_pairs(
            seq!['{'] + rest,
        ),
        end < tool_args::skip_white(s, end + 1) <= s.len(),
{
    white_shift(s, end + 1, 0);
    let w = tool_args::skip_white(rest, 0);
    pairs_shift(s, end + 1, w);
    let t = seq!['{'] + rest;
    assert(t.skip(1) =~= rest);
    white_shift(t, 1, 0);
    pairs_shift(t, 1, w);
    assert(t[0] == '{');
}

proof fn last_pair(key: Seq<char>, raw: Seq<char>, is_string: bool, rest: Seq<char>)
    requires
        plain(key),
        is_value(raw, is_string),
    ensures
        tool_args::arrived_pairs(
            seq!['{'] + quoted(key) + seq![':'] + raw + (seq!['}'] + rest),
        ) == seq![RawPair { key, raw, is_string }],
{
    let end = (key.len() + raw.len() + 4) as int;
    let over = seq!['}'] + rest;
    let u = seq!['{'] + quoted(key) + seq![':'] + raw + over;
    one_pair(key, raw, is_string, over);
    assert(u[end] == u.skip(end)[0]);
    assert(tool_args::skip_white(u, end) == end);
    assert(u[0] == '{');
}

/// A value that has not arrived in full is not read.
pub proof fn open_strings_are_not_read(key: Seq<char>, part: Seq<char>)
    requires
        plain(key),
        plain(part),
    ensures
        tool_args::arrived_pairs(seq!['{'] + quoted(key) + seq![':', '"'] + part)
            == Seq::<RawPair>::empty(),
{
    let s = seq!['{'] + quoted(key) + seq![':', '"'] + part;
    let a = seq!['{', '"'];
    let b = seq![':', '"'] + part;
    assert(s =~= a + key + seq!['"'] + b);
    string_ends(a, key, b, 0);
    let e1 = key.len() as int + 3;
    assert(s[0] == '{' && s[1] == '"' && s[e1] == ':' && s[e1 + 1] == '"');
    assert(tool_args::skip_white(s, 1) == 1);
    assert(tool_args::skip_white(s, e1) == e1);
    assert(tool_args::skip_white(s, e1 + 1) == e1 + 1);
    assert(s.skip(s.len() - part.len()) =~= part);
    never_ends(s, part, 0);
    assert(tool_args::arrived_pairs(s) =~= Seq::<RawPair>::empty());
}

proof fn never_ends(s: Seq<char>, part: Seq<char>, k: int)
    requires
        plain(part),
        0 <= k <= part.len() <= s.len(),
        s.skip(s.len() - part.len()) == part,
    ensures
        tool_args::string_end(s, s.len() - part.len() + k, false) is None,
    decreases part.len() - k,
{
    if k < part.len() {
        assert(s.skip(s.len() - part.len())[k] == s[s.len() - part.len() + k]);
        assert(part[k] != '"' && part[k] != '\\');
        never_ends(s, part, k + 1);
    }
}

/// A value that is no string is shown as it stands, behind its key.
pub proof fn words_are_shown_as_they_are(p: RawPair)
    requires
        !p.is_string,
    ensures
        tool_args::shown_pair(p) == p.key + seq!['='] + p.raw,
{
    reveal_strlit("=");
    assert("="@ =~= seq!['=']);
}

/// A string is shown in its quoted form, behind its key.
pub proof fn strings_are_shown_quoted(p: RawPair, t: Seq<char>)
    requires
        p.is_string,
        json::json_string_of(p.raw) == Some(t),
    ensures
        tool_args::shown_pair(p) == p.key + seq!['='] + json::debug_form(t),
{
    reveal_strlit("=");
    assert("="@ =~= seq!['=']);
}

/// Arguments of up to fifty bytes are shown whole, on one line. Of longer ones the start is shown,
/// and how many bytes there are.
pub proof fn long_arguments_are_cut(args: Seq<char>)
    ensures
        ({
            let one = text::flattened(args);
            let n = encode_utf8(one).len();
            &&& n <= 50 ==> tool_args::shown_arguments(args) == one
            &&& n > 50 ==> tool_args::shown_arguments(args) == order::cut(one, 47) + "... ("@
                + numbers::decimal(n) + ")"@
        }),
{
}

/// What a tool wrote is shown without white space around it: first its output, then, marked, its
/// complaints. Where there is neither, its answer is shown.
pub proof fn outputs_are_shown(answer: Seq<char>, a: Seq<char>, b: Seq<char>)
    requires
        words::trimmed(a).len() > 0,
        words::trimmed(b).len() > 0,
    ensures
        tool_args::shown_output(answer, Some(a), Some(b)) == words::trimmed(a) + seq!['\n']
            + "stderr: "@ + words::trimmed(b),
        tool_args::shown_output(answer, Some(a), None) == words::trimmed(a),
        tool_args::shown_output(answer, None, Some(b)) == "stderr: "@ + words::trimmed(b),
        tool_args::shown_output(answer, None, None) == words::trimmed(answer),
{
    reveal_strlit("\n");
    assert("\n"@ =~= seq!['\n']);
    let x = words::trimmed(a);
    let y = "stderr: "@ + words::trimmed(b);
    let none = Seq::<Seq<char>>::empty();
    assert(tool_args::output_parts(Some(a), Some(b)) =~= seq![x, y]);
    assert(seq![x, y].drop_last() =~= seq![x]);
    assert(words::joined(seq![x], "\n"@) == x);
    assert(tool_args::output_parts(Some(a), None) =~= seq![x]);
    assert(tool_args::output_parts(None, Some(b)) =~= seq![y]);
    assert(tool_args::output_parts(None, None) =~= none);
    assert(x + "\n"@ + y =~= x + seq!['\n'] + "stderr: "@ + words::trimmed(b));
}

/// Blank output does not count: it is as if there were none.
pub proof fn blank_outputs_do_not_count(
    answer: Seq<char>,
    blank: Seq<char>,
    other: Option<Seq<char>>,
)
    requires
        words::trimmed(blank).len() == 0,
    ensures
        tool_args::shown_output(answer, Some(blank), other) == tool_args::shown_output(
            answer,
            None,
            other,
        ),
        tool_args::shown_output(answer, other, Some(blank)) == tool_args::shown_output(
            answer,
            other,
            None,
        ),
{
    assert(tool_args::output_parts(Some(blank), other) =~= tool_args::output_parts(None, other));
    assert(tool_args::output_parts(other, Some(blank)) =~= tool_args::output_parts(other, None));
}

} // verus!
