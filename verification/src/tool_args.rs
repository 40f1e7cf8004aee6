//! Tool arguments and tool output as they are shown to the user.

use vstd::prelude::*;
use vstd::utf8::*;
use crate::json;
use crate::json::{debug_text, json_member, json_string, JsonMember, Member};
use crate::numbers;
use crate::numbers::usize_text;
use crate::order;
use crate::order::cut_at;
use crate::text;
use crate::text::{flatten_line, from_chars, piece, to_chars};
use crate::words;
use crate::words::{join, trim_text};

verus! {

/// The most bytes of arguments that are shown whole.
pub const ARGUMENTS_SHOWN: usize = 50;

/// The bytes of longer arguments that are shown.
pub const ARGUMENTS_CUT: usize = 47;

/// Arguments on one line, cut where they are long, with their length.
pub open spec fn shown_arguments(args: Seq<char>) -> Seq<char> {
    let clean = text::flattened(args);
    let size = encode_utf8(clean).len();
    if size > ARGUMENTS_SHOWN {
        order::cut(clean, ARGUMENTS_CUT as int) + "... ("@ + numbers::decimal(size) + ")"@
    } else {
        clean
    }
}

/// Puts tool arguments on one line and cuts them where they are long.
pub fn format_tool_arguments(args_json: &str) -> (r: String)
    ensures
        r@ == shown_arguments(args_json@),
{
    let chars = to_chars(args_json);
    let flat = flatten_line(chars.as_slice());
    let clean = from_chars(flat.as_slice());
    let size: usize = clean.as_str().as_bytes().len();
    if size > ARGUMENTS_SHOWN {
        let mut s = cut_at(clean.as_str(), ARGUMENTS_CUT).to_owned();
        s.append("... (");
        s.append(usize_text(size).as_str());
        s.append(")");
        s
    } else {
        clean
    }
}

// ---------------------------------------------------------------------------
// Arguments that are still streaming in
// ---------------------------------------------------------------------------

/// The white space of JSON texts, and form feed.
pub open spec fn json_white(c: char) -> bool {
    c == ' ' || c == '\t' || c == '\n' || c == '\u{c}' || c == '\r'
}

/// The first position at or after `i` without white space.
pub open spec fn skip_white(s: Seq<char>, i: int) -> int
    decreases s.len() - i,
{
    if 0 <= i < s.len() && json_white(s[i]) {
        skip_white(s, i + 1)
    } else {
        i
    }
}

/// The position just past the quote that closes a string, from inside of it. `escaped` says that
/// the character at `i` follows a backslash.
pub open spec fn string_end(s: Seq<char>, i: int, escaped: bool) -> Option<int>
    decreases s.len() - i,
{
    if i < 0 || i >= s.len() {
        None
    } else if s[i] == '\\' && !escaped {
        string_end(s, i + 1, true)
    } else if s[i] == '"' && !escaped {
        Some(i + 1)
    } else {
        string_end(s, i + 1, false)
    }
}

/// The position just past the bracket that closes a nested value. Brackets inside strings do not
/// count.
pub open spec fn nested_end(
    s: Seq<char>,
    i: int,
    depth: int,
    in_string: bool,
    escaped: bool,
) -> Option<int>
    decreases s.len() - i,
{
    if i < 0 || i >= s.len() {
        None
    } else if in_string {
        if s[i] == '\\' && !escaped {
            nested_end(s, i + 1, depth, true, true)
        } else if s[i] == '"' && !escaped {
            nested_end(s, i + 1, depth, false, false)
        } else {
            nested_end(s, i + 1, depth, true, false)
        }
    } else if s[i] == '"' {
        nested_end(s, i + 1, depth, true, escaped)
    } else if s[i] == '{' || s[i] == '[' {
        nested_end(s, i + 1, depth + 1, false, escaped)
    } else if s[i] == '}' || s[i] == ']' {
        if depth == 1 {
            Some(i + 1)
        } else {
            nested_end(s, i + 1, depth - 1, false, escaped)
        }
    } else {
        nested_end(s, i + 1, depth, false, escaped)
    }
}

/// A character that ends a number, `true`, `false` or `null`.
pub open spec fn ends_scalar(c: char) -> bool {
    c == ',' || c == '}' || c == ' ' || c == '\t' || c == '\n'
}

/// The first position at or after `i` that ends a scalar.
pub open spec fn scalar_end(s: Seq<char>, i: int) -> int
    decreases s.len() - i,
{
    if 0 <= i < s.len() && !ends_scalar(s[i]) {
        scalar_end(s, i + 1)
    } else {
        i
    }
}

/// Where the value that begins at `i` ends, if it has arrived in full.
pub open spec fn value_end(s: Seq<char>, i: int) -> Option<int> {
    if i < 0 || i >= s.len() {
        None
    } else if s[i] == '"' {
        string_end(s, i + 1, false)
    } else if s[i] == '{' || s[i] == '[' {
        nested_end(s, i, 0, false, false)
    } else if scalar_end(s, i) < s.len() {
        Some(scalar_end(s, i))
    } else {
        None
    }
}

/// A key and its value, as they stand in the text.
pub ghost struct RawPair {
    pub key: Seq<char>,
    pub raw: Seq<char>,
    pub is_string: bool,
}

/// The pair that begins at `i` and the position past it, if it has arrived in full.
pub open spec fn pair_at(s: Seq<char>, i: int) -> Option<(RawPair, int)> {
    if 0 <= i < s.len() && s[i] == '"' {
        match string_end(s, i + 1, false) {
            None => None,
            Some(key_end) => {
                let colon = skip_white(s, key_end);
                if colon < s.len() && s[colon] == ':' {
                    let at = skip_white(s, colon + 1);
                    match value_end(s, at) {
                        None => None,
                        Some(end) => Some(
                            (
                                RawPair {
                                    key: s.subrange(i + 1, key_end - 1),
                                    raw: s.subrange(at, end),
                                    is_string: s[at] == '"',
                                },
                                end,
                            ),
                        ),
                    }
                } else {
                    None
                }
            },
        }
    } else {
        None
    }
}

/// The pairs from `i` on that have arrived in full.
pub open spec fn pairs_from(s: Seq<char>, i: int) -> Seq<RawPair>
    decreases s.len() - i,
{
    match pair_at(s, i) {
        None => Seq::empty(),
        Some((pair, end)) => {
            let j = skip_white(s, end);
            if i < j < s.len() && s[j] == ',' {
                let next = skip_white(s, j + 1);
                if j < next <= s.len() {
                    seq![pair] + pairs_from(s, next)
                } else {
                    seq![pair]
                }
            } else {
                seq![pair]
            }
        },
    }
}

/// The pairs of a partial object that have arrived in full.
pub open spec fn arrived_pairs(s: Seq<char>) -> Seq<RawPair> {
    if s.len() > 0 && s[0] == '{' {
        pairs_from(s, skip_white(s, 1))
    } else {
        Seq::empty()
    }
}

/// A key and its value, as they stand in the text.
#[derive(Debug, PartialEq, Eq)]
pub struct PartialPair {
    pub key: String,
    pub raw: String,
    pub is_string: bool,
}

impl View for PartialPair {
    type V = RawPair;

    open spec fn view(&self) -> RawPair {
        RawPair { key: self.key@, raw: self.raw@, is_string: self.is_string }
    }
}

/// What a list of pairs holds.
pub open spec fn pair_views(v: Seq<PartialPair>) -> Seq<RawPair> {
    Seq::new(v.len(), |i: int| v[i]@)
}

proof fn skip_white_bounds(s: Seq<char>, i: int)
    requires
        0 <= i <= s.len(),
    ensures
        i <= skip_white(s, i) <= s.len(),
    decreases s.len() - i,
{
    if i < s.len() && json_white(s[i]) {
        skip_white_bounds(s, i + 1);
    }
}

fn skip_ws(s: &[char], i: usize) -> (r: usize)
    requires
        i <= s@.len(),
    ensures
        r == skip_white(s@, i as int),
        i <= r <= s@.len(),
{
    let mut j: usize = i;
    while j < s.len() && (s[j] == ' ' || s[j] == '\t' || s[j] == '\n' || s[j] == '\u{c}' || s[j]
        == '\r')
        invariant
            i <= j <= s@.len(),
            skip_white(s@, i as int) == skip_white(s@, j as int),
        decreases s@.len() - j,
    {
        j += 1;
    }
    j
}

fn scan_string(s: &[char], start: usize) -> (r: Option<usize>)
    requires
        start < s@.len(),
    ensures
        match r {
            Some(e) => string_end(s@, start + 1, false) == Some(e as int) && start + 2 <= e
                <= s@.len(),
            None => string_end(s@, start + 1, false) is None,
        },
{
    let n: usize = s.len();
    let mut i: usize = start + 1;
    let mut escaped: bool = false;
    while i < n
        invariant
            start + 1 <= i <= n,
            n == s@.len(),
            string_end(s@, start + 1, false) == string_end(s@, i as int, escaped),
        decreases n - i,
    {
        if s[i] == '\\' && !escaped {
            escaped = true;
        } else if s[i] == '"' && !escaped {
            return Some(i + 1);
        } else {
            escaped = false;
        }
        i += 1;
    }
    None
}

fn scan_nested(s: &[char], start: usize) -> (r: Option<usize>)
    requires
        start < s@.len(),
        s@[start as int] == '{' || s@[start as int] == '[',
    ensures
        match r {
            Some(e) => nested_end(s@, start as int, 0, false, false) == Some(e as int) && start < e
                <= s@.len(),
            None => nested_end(s@, start as int, 0, false, false) is None,
        },
{
    let n: usize = s.len();
    let mut depth: usize = 1;
    let mut in_string: bool = false;
    let mut escaped: bool = false;
    let mut i: usize = start + 1;
    while i < n
        invariant
            start < i <= n,
            n == s@.len(),
            1 <= depth <= i,
            nested_end(s@, start as int, 0, false, false) == nested_end(
                s@,
                i as int,
                depth as int,
                in_string,
                escaped,
            ),
        decreases n - i,
    {
        let c = s[i];
        if in_string {
            if c == '\\' && !escaped {
                escaped = true;
            } else if c == '"' && !escaped {
                in_string = false;
            } else {
                escaped = false;
            }
        } else if c == '"' {
            in_string = true;
        } else if c == '{' || c == '[' {
            depth += 1;
        } else if c == '}' || c == ']' {
            if depth == 1 {
                return Some(i + 1);
            }
            depth -= 1;
        }
        i += 1;
    }
    None
}

fn scan_value(s: &[char], i: usize) -> (r: Option<usize>)
    requires
        i < s@.len(),
    ensures
        match r {
            Some(e) => value_end(s@, i as int) == Some(e as int) && i <= e <= s@.len(),
            None => value_end(s@, i as int) is None,
        },
{
    if s[i] == '"' {
        scan_string(s, i)
    } else if s[i] == '{' || s[i] == '[' {
        scan_nested(s, i)
    } else {
        let mut j: usize = i;
        while j < s.len() && !(s[j] == ',' || s[j] == '}' || s[j] == ' ' || s[j] == '\t' || s[j]
            == '\n')
            invariant
                i <= j <= s@.len(),
                scalar_end(s@, i as int) == scalar_end(s@, j as int),
            decreases s@.len() - j,
        {
            j += 1;
        }
        if j < s.len() {
            Some(j)
        } else {
            None
        }
    }
}

fn scan_pair(s: &[char], i: usize) -> (r: Option<(PartialPair, usize)>)
    requires
        i <= s@.len(),
    ensures
        match r {
            Some(v) => pair_at(s@, i as int) == Some((v.0@, v.1 as int)) && i < v.1 <= s@.len(),
            None => pair_at(s@, i as int) is None,
        },
{
    let n: usize = s.len();
    if i >= n || s[i] != '"' {
        return None;
    }
    let key_end: usize = match scan_string(s, i) {
        Some(e) => e,
        None => {
            return None;
        },
    };
    let colon = skip_ws(s, key_end);
    if colon >= n || s[colon] != ':' {
        return None;
    }
    let at = skip_ws(s, colon + 1);
    if at >= n {
        return None;
    }
    match scan_value(s, at) {
        None => None,
        Some(end) => {
            let key = piece(s, i + 1, key_end - 1);
            let raw = piece(s, at, end);
            Some(
                (
                    PartialPair {
                        key: from_chars(key.as_slice()),
                        raw: from_chars(raw.as_slice()),
                        is_string: s[at] == '"',
                    },
                    end,
                ),
            )
        },
    }
}

/// The `key: value` pairs of a partial JSON object that have arrived in full, in order. The first
/// key or value that is not complete yet ends the list.
pub fn complete_pairs(args_json: &str) -> (r: Vec<PartialPair>)
    ensures
        pair_views(r@) == arrived_pairs(args_json@),
{
    let chars = to_chars(args_json);
    let s = chars.as_slice();
    let n: usize = s.len();
    let mut out: Vec<PartialPair> = Vec::new();
    assert(pair_views(out@) =~= Seq::<RawPair>::empty());
    if n == 0 || s[0] != '{' {
        return out;
    }
    let mut i: usize = skip_ws(s, 1);
    assert(pair_views(out@) + pairs_from(s@, i as int) =~= arrived_pairs(s@));
    loop
        invariant_except_break
            pair_views(out@) + pairs_from(s@, i as int) == arrived_pairs(s@),
        invariant
            i <= s@.len(),
            n == s@.len(),
        ensures
            pair_views(out@) == arrived_pairs(s@),
        decreases n - i,
    {
        match scan_pair(s, i) {
            None => {
                assert(pair_views(out@) + pairs_from(s@, i as int) =~= pair_views(out@));
                break;
            },
            Some((pair, end)) => {
                let ghost before = out@;
                let ghost p = pair@;
                out.push(pair);
                assert(pair_views(out@) =~= pair_views(before) + seq![p]);
                let j = skip_ws(s, end);
                if j < n && s[j] == ',' {
                    let next = skip_ws(s, j + 1);
                    assert(pair_views(before) + (seq![p] + pairs_from(s@, next as int))
                        =~= pair_views(out@) + pairs_from(s@, next as int));
                    i = next;
                } else {
                    break;
                }
            },
        }
    }
    out
}

/// A pair as it is shown: strings in their `Debug` form, other values as they stand.
pub open spec fn shown_pair(p: RawPair) -> Seq<char> {
    p.key + "="@ + match json::json_string_of(p.raw) {
        Some(t) => if p.is_string {
            json::debug_form(t)
        } else {
            p.raw
        },
        None => p.raw,
    }
}

/// Pairs as they are shown.
pub open spec fn shown_pairs(v: Seq<RawPair>) -> Seq<Seq<char>> {
    Seq::new(v.len(), |i: int| shown_pair(v[i]))
}

/// The preview of partial arguments: the complete pairs on one line, if there are any.
pub open spec fn preview(args: Seq<char>) -> Option<Seq<char>> {
    let v = arrived_pairs(args);
    if v.len() == 0 {
        None
    } else {
        Some(text::flattened(words::joined(shown_pairs(v), ", "@)))
    }
}

fn show_pair(p: &PartialPair) -> (r: String)
    ensures
        r@ == shown_pair(p@),
{
    let mut s = p.key.clone();
    s.append("=");
    if p.is_string {
        match json_string(p.raw.as_str()) {
            Some(t) => {
                s.append(debug_text(t.as_str()).as_str());
            },
            None => {
                s.append(p.raw.as_str());
            },
        }
    } else {
        s.append(p.raw.as_str());
    }
    s
}

/// A live preview of tool arguments that are still streaming in: the pairs that have arrived in
/// full as `key=value, key2=value2`, on one line; nothing where none has.
pub fn preview_partial_tool_arguments(args_json: &str) -> (r: Option<String>)
    ensures
        json::opt_view(r) == preview(args_json@),
{
    let pairs = complete_pairs(args_json);
    assert(pair_views(pairs@).len() == pairs@.len());
    if pairs.len() == 0 {
        return None;
    }
    let ghost v = pair_views(pairs@);
    let mut shown: Vec<String> = Vec::new();
    let mut i: usize = 0;
    assert(words::views(shown@) =~= shown_pairs(v).take(0));
    while i < pairs.len()
        invariant
            i <= pairs.len(),
            v == pair_views(pairs@),
            words::views(shown@) == shown_pairs(v).take(i as int),
        decreases pairs.len() - i,
    {
        let t = show_pair(&pairs[i]);
        proof {
            words::views_push(shown@, t);
            assert(shown_pairs(v).take(i + 1) =~= shown_pairs(v).take(i as int).push(
                shown_pair(v[i as int]),
            ));
        }
        shown.push(t);
        i += 1;
    }
    assert(shown_pairs(v).take(v.len() as int) =~= shown_pairs(v));
    let joined = join(shown.as_slice(), ", ");
    let chars = to_chars(joined.as_str());
    let flat = flatten_line(chars.as_slice());
    Some(from_chars(flat.as_slice()))
}

proof fn skip_white_extend(s: Seq<char>, b: Seq<char>, i: int)
    requires
        0 <= i <= s.len(),
        skip_white(s, i) < s.len(),
    ensures
        skip_white(s + b, i) == skip_white(s, i),
    decreases s.len() - i,
{
    if i < s.len() && json_white(s[i]) {
        skip_white_extend(s, b, i + 1);
    }
}

proof fn string_end_extend(s: Seq<char>, b: Seq<char>, i: int, escaped: bool)
    requires
        0 <= i,
        string_end(s, i, escaped) is Some,
    ensures
        string_end(s + b, i, escaped) == string_end(s, i, escaped),
        i < string_end(s, i, escaped)->0 <= s.len(),
    decreases s.len() - i,
{
    if s[i] == '\\' && !escaped {
        string_end_extend(s, b, i + 1, true);
    } else if s[i] == '"' && !escaped {
    } else {
        string_end_extend(s, b, i + 1, false);
    }
}

proof fn nested_end_extend(
    s: Seq<char>,
    b: Seq<char>,
    i: int,
    depth: int,
    in_string: bool,
    escaped: bool,
)
    requires
        0 <= i,
        nested_end(s, i, depth, in_string, escaped) is Some,
    ensures
        nested_end(s + b, i, depth, in_string, escaped) == nested_end(
            s,
            i,
            depth,
            in_string,
            escaped,
        ),
        i < nested_end(s, i, depth, in_string, escaped)->0 <= s.len(),
    decreases s.len() - i,
{
    if in_string {
        if s[i] == '\\' && !escaped {
            nested_end_extend(s, b, i + 1, depth, true, true);
        } else if s[i] == '"' && !escaped {
            nested_end_extend(s, b, i + 1, depth, false, false);
        } else {
            nested_end_extend(s, b, i + 1, depth, true, false);
        }
    } else if s[i] == '"' {
        nested_end_extend(s, b, i + 1, depth, true, escaped);
    } else if s[i] == '{' || s[i] == '[' {
        nested_end_extend(s, b, i + 1, depth + 1, false, escaped);
    } else if s[i] == '}' || s[i] == ']' {
        if depth != 1 {
            nested_end_extend(s, b, i + 1, depth - 1, false, escaped);
        }
    } else {
        nested_end_extend(s, b, i + 1, depth, false, escaped);
    }
}

proof fn scalar_end_extend(s: Seq<char>, b: Seq<char>, i: int)
    requires
        0 <= i <= s.len(),
        scalar_end(s, i) < s.len(),
    ensures
        scalar_end(s + b, i) == scalar_end(s, i),
        i <= scalar_end(s, i),
    decreases s.len() - i,
{
    if i < s.len() && !ends_scalar(s[i]) {
        scalar_end_extend(s, b, i + 1);
    }
}

proof fn pair_extend(s: Seq<char>, b: Seq<char>, i: int)
    requires
        pair_at(s, i) is Some,
    ensures
        pair_at(s + b, i) == pair_at(s, i),
        pair_at(s, i) matches Some((_, end)) ==> i < end <= s.len(),
{
    string_end_extend(s, b, i + 1, false);
    let key_end = string_end(s, i + 1, false)->0;
    skip_white_extend(s, b, key_end);
    let colon = skip_white(s, key_end);
    skip_white_bounds(s, key_end);
    skip_white_bounds(s, colon + 1);
    skip_white_extend(s, b, colon + 1);
    let at = skip_white(s, colon + 1);
    if s[at] == '"' {
        string_end_extend(s, b, at + 1, false);
    } else if s[at] == '{' || s[at] == '[' {
        nested_end_extend(s, b, at, 0, false, false);
    } else {
        scalar_end_extend(s, b, at);
    }
    let end = value_end(s, at)->0;
    assert((s + b).subrange(i + 1, key_end - 1) =~= s.subrange(i + 1, key_end - 1));
    assert((s + b).subrange(at, end) =~= s.subrange(at, end));
}

proof fn pairs_extend(s: Seq<char>, b: Seq<char>, i: int)
    ensures
        pairs_from(s, i).is_prefix_of(pairs_from(s + b, i)),
    decreases s.len() - i,
{
    if pair_at(s, i) is Some {
        let (pair, end) = pair_at(s, i)->0;
        pair_extend(s, b, i);
        skip_white_bounds(s, end);
        skip_white_bounds(s + b, end);
        let j = skip_white(s, end);
        if j < s.len() {
            skip_white_extend(s, b, end);
            if s[j] == ',' {
                skip_white_bounds(s, j + 1);
                skip_white_bounds(s + b, j + 1);
                let next = skip_white(s, j + 1);
                if next < s.len() {
                    skip_white_extend(s, b, j + 1);
                    pairs_extend(s, b, next);
                } else {
                    assert(pairs_from(s, next) =~= Seq::<RawPair>::empty());
                }
            }
        }
    }
}

/// Arguments that keep streaming in only add pairs: those that have arrived stay as they are.
pub proof fn arrived_pairs_stay(s: Seq<char>, more: Seq<char>)
    ensures
        arrived_pairs(s).is_prefix_of(arrived_pairs(s + more)),
{
    if s.len() > 0 && s[0] == '{' {
        skip_white_bounds(s, 1);
        if skip_white(s, 1) < s.len() {
            skip_white_extend(s, more, 1);
            pairs_extend(s, more, skip_white(s, 1));
        } else {
            assert(arrived_pairs(s) =~= Seq::<RawPair>::empty());
        }
    }
}

/// A preview never holds a line break or a tab.
pub proof fn preview_is_one_line(args: Seq<char>)
    ensures
        preview(args) matches Some(t) ==> forall|i: int|
            0 <= i < t.len() ==> #[trigger] t[i] != '\n' && t[i] != '\r' && t[i] != '\t',
{
}

/// Shown arguments never hold a line break or a tab where they are shown whole.
pub proof fn short_arguments_are_one_line(args: Seq<char>)
    requires
        encode_utf8(text::flattened(args)).len() <= ARGUMENTS_SHOWN,
    ensures
        forall|i: int|
            0 <= i < shown_arguments(args).len() ==> #[trigger] shown_arguments(args)[i] != '\n'
                && shown_arguments(args)[i] != '\r' && shown_arguments(args)[i] != '\t',
{
}

// ---------------------------------------------------------------------------
// Output of scheduled commands
// ---------------------------------------------------------------------------

/// The parts of a command's output that hold more than white space.
pub open spec fn output_parts(stdout: Option<Seq<char>>, stderr: Option<Seq<char>>) -> Seq<
    Seq<char>,
> {
    let a = match stdout {
        Some(t) => if words::trimmed(t).len() > 0 {
            seq![words::trimmed(t)]
        } else {
            Seq::empty()
        },
        None => Seq::empty(),
    };
    let b = match stderr {
        Some(t) => if words::trimmed(t).len() > 0 {
            seq!["stderr: "@ + words::trimmed(t)]
        } else {
            Seq::empty()
        },
        None => Seq::empty(),
    };
    a + b
}

/// A command's output as it is shown: its standard output and error, or else the whole text.
pub open spec fn shown_output(
    output: Seq<char>,
    stdout: Option<Seq<char>>,
    stderr: Option<Seq<char>>,
) -> Seq<char> {
    let parts = output_parts(stdout, stderr);
    if parts.len() == 0 {
        words::trimmed(output)
    } else {
        words::joined(parts, "\n"@)
    }
}

/// The text of a member, where it is a string.
pub open spec fn member_text(m: Member) -> Option<Seq<char>> {
    match m {
        Member::Text(t) => Some(t),
        _ => None,
    }
}

/// Shows a command's output, given the texts found in it.
pub fn show_output(output: &str, stdout: Option<String>, stderr: Option<String>) -> (r: String)
    ensures
        r@ == shown_output(output@, json::opt_view(stdout), json::opt_view(stderr)),
{
    let mut parts: Vec<String> = Vec::new();
    let ghost a = json::opt_view(stdout);
    let ghost b = json::opt_view(stderr);
    assert(words::views(parts@) =~= Seq::<Seq<char>>::empty());
    if let Some(t) = stdout {
        let s = trim_text(t.as_str());
        if !s.as_str().is_empty() {
            proof {
                words::views_push(parts@, s);
            }
            parts.push(s);
        }
    }
    if let Some(t) = stderr {
        let s = trim_text(t.as_str());
        if !s.as_str().is_empty() {
            let mut line = "stderr: ".to_owned();
            line.append(s.as_str());
            proof {
                words::views_push(parts@, line);
            }
            parts.push(line);
        }
    }
    assert(words::views(parts@) =~= output_parts(a, b));
    assert(words::views(parts@).len() == parts@.len());
    if parts.len() == 0 {
        trim_text(output)
    } else {
        join(parts.as_slice(), "\n")
    }
}

fn text_member(m: JsonMember) -> (r: Option<String>)
    ensures
        json::opt_view(r) == member_text(m@),
{
    match m {
        JsonMember::Text(t) => Some(t),
        _ => None,
    }
}

/// Shows the output of a tool: of a JSON object its `stdout` and `stderr`, else the whole text.
pub fn format_tool_output(output: &str) -> (r: String)
    ensures
        r@ == shown_output(
            output@,
            member_text(json::json_member_of(output@, "stdout"@)),
            member_text(json::json_member_of(output@, "stderr"@)),
        ),
{
    let stdout = text_member(json_member(output, "stdout"));
    let stderr = text_member(json_member(output, "stderr"));
    show_output(output, stdout, stderr)
}

} // verus!
