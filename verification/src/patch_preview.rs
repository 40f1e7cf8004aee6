//! Where edits land in a text, and the lines around them.

use vstd::prelude::*;
use crate::numbers;
use crate::numbers::usize_text;
use crate::replacing;
use crate::session::push_line;
use crate::text;
use crate::text::{find_from, text3, to_chars};
use crate::text_laws;
use crate::words;
use crate::words::{join, split_lines};

verus! {

/// Where the position `pos` of `s` comes to stand when `r` takes the place of each match of `p` from
/// `from` on, where `from` itself comes to stand at `out`. A position inside a match comes to stand
/// at the start of what takes its place.
pub open spec fn landed(
    s: Seq<char>,
    p: Seq<char>,
    r: Seq<char>,
    from: int,
    out: int,
    pos: int,
) -> int
    decreases s.len() - from + 1,
{
    match text::find(s, p, from) {
        None => out + (pos - from),
        Some(i) => if pos <= i || p.len() == 0 || i < from || i + p.len() > s.len() {
            out + (pos - from)
        } else if pos < i + p.len() {
            out + (i - from)
        } else {
            landed(s, p, r, i + p.len(), out + (i - from) + r.len(), pos)
        },
    }
}

/// A position comes to stand within the new text.
pub proof fn landing_within(
    s: Seq<char>,
    p: Seq<char>,
    r: Seq<char>,
    from: int,
    out: int,
    pos: int,
)
    requires
        p.len() > 0,
        0 <= from <= pos <= s.len(),
    ensures
        out <= landed(s, p, r, from, out, pos) <= out + text::replaced_from(
            s,
            p,
            r,
            from,
            from,
        ).len(),
        text::find(s, p, from) matches Some(i) ==> i - from <= text::replaced_from(
            s,
            p,
            r,
            from,
            from,
        ).len(),
    decreases s.len() - from + 1,
{
    text::find_is_first(s, p, from);
    match text::find(s, p, from) {
        None => {},
        Some(i) => {
            assert(text::occurs_at(s, p, i));
            if pos >= i + p.len() {
                landing_within(s, p, r, i + p.len(), out + (i - from) + r.len(), pos);
            }
        },
    }
}

/// Where a position comes to stand when every match is replaced.
pub(crate) fn find_landing(s: &[char], p: &[char], r: &[char], pos: usize) -> (q: usize)
    requires
        p@.len() > 0,
        pos <= s@.len(),
        landed(s@, p@, r@, 0, 0, pos as int) <= usize::MAX,
    ensures
        q == landed(s@, p@, r@, 0, 0, pos as int),
{
    let n: usize = s.len();
    let mut from: usize = 0;
    let mut out: usize = 0;
    loop
        invariant
            p@.len() > 0,
            n == s@.len(),
            from <= pos <= s@.len(),
            landed(s@, p@, r@, 0, 0, pos as int) <= usize::MAX,
            landed(s@, p@, r@, from as int, out as int, pos as int) == landed(
                s@,
                p@,
                r@,
                0,
                0,
                pos as int,
            ),
        decreases s@.len() - from,
    {
        proof {
            landing_within(s@, p@, r@, from as int, out as int, pos as int);
        }
        match find_from(s, p, from) {
            None => {
                return out + (pos - from);
            },
            Some(i) => {
                if pos <= i {
                    return out + (pos - from);
                } else if pos < i + p.len() {
                    return out + (i - from);
                }
                proof {
                    landing_within(
                        s@,
                        p@,
                        r@,
                        i + p@.len(),
                        out + (i - from) + r@.len(),
                        pos as int,
                    );
                }
                out = out + (i - from) + r.len();
                from = i + p.len();
            },
        }
    }
}

/// How many line breaks a text holds.
pub open spec fn breaks(s: Seq<char>) -> nat
    decreases s.len(),
{
    if s.len() == 0 {
        0
    } else if s.last() == '\n' {
        breaks(s.drop_last()) + 1
    } else {
        breaks(s.drop_last())
    }
}

fn count_breaks(s: &[char], end: usize) -> (r: usize)
    requires
        end <= s@.len(),
    ensures
        r == breaks(s@.take(end as int)),
        r <= end,
{
    let mut n: usize = 0;
    let mut i: usize = 0;
    while i < end
        invariant
            i <= end <= s@.len(),
            n <= i,
            n == breaks(s@.take(i as int)),
        decreases end - i,
    {
        assert(s@.take(i + 1).drop_last() =~= s@.take(i as int));
        assert(s@.take(i + 1).last() == s@[i as int]);
        if s[i] == '\n' {
            n += 1;
        }
        i += 1;
    }
    n
}

/// How many lines are shown before and after the place of an edit.
pub const CONTEXT_LINES: usize = 3;

/// The first line that is shown, of those before `last`.
pub open spec fn first_shown(at: int, last: int) -> int {
    let first = if at > CONTEXT_LINES {
        at - CONTEXT_LINES
    } else {
        0
    };
    if first <= last {
        first
    } else {
        last
    }
}

/// The line after the last one that is shown.
pub open spec fn end_shown(at: int, added: int, count: int) -> int {
    if at + added + 1 + CONTEXT_LINES < count {
        at + added + 1 + CONTEXT_LINES
    } else {
        count
    }
}

/// Lines with their numbers, counted from one.
pub open spec fn numbered(lines: Seq<Seq<char>>, first: int, end: int) -> Seq<Seq<char>> {
    Seq::new(
        (end - first) as nat,
        |i: int| numbers::decimal((first + i + 1) as nat) + ": "@ + lines[first + i],
    )
}

/// The numbered lines around an edit that landed at `pos` and put `added` there.
pub open spec fn preview(s: Seq<char>, pos: int, added: Seq<char>) -> Seq<char> {
    let lines = words::lines(s);
    let at = breaks(s.take(pos)) as int;
    let end = end_shown(at, breaks(added) as int, lines.len() as int);
    words::joined(numbered(lines, first_shown(at, end), end), "\n"@)
}

/// The numbered lines around an edit that landed at `pos` and put `added` there.
pub(crate) fn preview_at(s: &[char], pos: usize, added: &str) -> (r: String)
    requires
        pos <= s@.len(),
    ensures
        r@ == preview(s@, pos as int, added@),
{
    let list = split_lines(s);
    let ghost lines = words::lines(s@);
    assert(words::views(list@).len() == list@.len());
    let at = count_breaks(s, pos);
    let a = to_chars(added);
    assert(a@.take(a@.len() as int) =~= a@);
    let extra = count_breaks(a.as_slice(), a.len());
    let count: usize = list.len();
    let end: usize = if at as u128 + extra as u128 + 1 + (CONTEXT_LINES as u128) < count as u128 {
        at + extra + 1 + CONTEXT_LINES
    } else {
        count
    };
    let mut first: usize = if at > CONTEXT_LINES { at - CONTEXT_LINES } else { 0 };
    if first > end {
        first = end;
    }
    let ghost all = numbered(lines, first as int, end as int);
    let mut out: Vec<String> = Vec::new();
    let mut i: usize = first;
    assert(words::views(out@) =~= all.take(0));
    while i < end
        invariant
            first <= i <= end <= list@.len(),
            words::views(list@) == lines,
            all == numbered(lines, first as int, end as int),
            words::views(out@) == all.take(i - first),
        decreases end - i,
    {
        assert(lines[i as int] == list@[i as int]@);
        let n = usize_text(i + 1);
        push_line(&mut out, text3(n.as_str(), ": ", list[i].as_str()));
        assert(all.take(i - first + 1) =~= all.take(i - first).push(all[i - first]));
        i += 1;
    }
    assert(all.take(end - first) =~= all);
    join(out.as_slice(), "\n")
}

proof fn unchanged_before(s: Seq<char>, p: Seq<char>, r: Seq<char>, from: int, out: int, pos: int)
    requires
        p.len() > 0,
        0 <= from <= pos < s.len(),
        forall|i: int|
            from <= i && #[trigger] text::occurs_at(s, p, i) ==> pos < i || i + p.len() <= pos,
    ensures
        ({
            let q = landed(s, p, r, from, out, pos) - out;
            let t = text::replaced_from(s, p, r, from, from);
            0 <= q < t.len() && t[q] == s[pos]
        }),
    decreases s.len() - from + 1,
{
    text::find_is_first(s, p, from);
    let t = text::replaced_from(s, p, r, from, from);
    match text::find(s, p, from) {
        None => {
            assert(t[pos - from] == s[pos]);
        },
        Some(i) => {
            assert(text::occurs_at(s, p, i));
            let n = i + p.len();
            let rest = text::replaced_from(s, p, r, n, n);
            assert(t =~= s.subrange(from, i) + r + rest);
            if pos < i {
                assert(t[pos - from] == s[pos]);
            } else {
                unchanged_before(s, p, r, n, out + (i - from) + r.len(), pos);
                let q = landed(s, p, r, n, out + (i - from) + r.len(), pos) - (out + (i - from)
                    + r.len());
                assert(t[(i - from) + r.len() + q] == rest[q]);
            }
        },
    }
}

/// What no match covers comes to stand as it was: the character at the place where it lands is the
/// one that was there before.
pub proof fn landing_keeps_the_character(s: Seq<char>, p: Seq<char>, r: Seq<char>, pos: int)
    requires
        p.len() > 0,
        0 <= pos < s.len(),
        forall|i: int|
            0 <= i && #[trigger] replacing::stands(s, p, i) ==> pos < i || i + p.len() <= pos,
    ensures
        ({
            let q = landed(s, p, r, 0, 0, pos);
            let t = text::replaced(s, p, r);
            0 <= q < t.len() && t[q] == s[pos]
        }),
{
    assert forall|i: int| 0 <= i && #[trigger] text::occurs_at(s, p, i) implies pos < i || i
        + p.len() <= pos by {
        replacing::stands_is_occurs(s, p, i);
    }
    unchanged_before(s, p, r, 0, 0, pos);
}

/// The line breaks of a text are those of its parts.
pub proof fn breaks_add_up(a: Seq<char>, b: Seq<char>)
    ensures
        breaks(a + b) == breaks(a) + breaks(b),
        breaks(Seq::empty()) == 0,
        breaks(seq!['\n']) == 1,
        text_laws::one_line(a) ==> breaks(a) == 0,
    decreases b.len(),
{
    assert(seq!['\n'].drop_last() =~= Seq::<char>::empty());
    assert(breaks(Seq::<char>::empty()) == 0);
    if b.len() > 0 {
        breaks_add_up(a, b.drop_last());
        assert((a + b).drop_last() =~= a + b.drop_last());
    } else {
        assert(a + b =~= a);
        if text_laws::one_line(a) {
            no_breaks(a);
        }
    }
}

proof fn no_breaks(a: Seq<char>)
    requires
        text_laws::one_line(a),
    ensures
        breaks(a) == 0,
    decreases a.len(),
{
    if a.len() > 0 {
        let w = a.drop_last();
        assert forall|i: int| 0 <= i < w.len() implies #[trigger] w[i] != '\n' by {
            assert(w[i] == a[i]);
        }
        no_breaks(w);
        assert(a[a.len() - 1] != '\n');
    }
}

/// A preview shows the line of the edit, the lines that it brought, and three lines on either side,
/// as far as there are any, each with its number in the file.
pub proof fn previews_show_the_lines_around(
    s: Seq<char>,
    pos: int,
    added: Seq<char>,
    i: int,
)
    requires
        0 <= pos <= s.len(),
        0 <= i < words::lines(s).len(),
        breaks(s.take(pos)) as int - 3 <= i <= breaks(s.take(pos)) + breaks(added) + 3,
        breaks(s.take(pos)) < words::lines(s).len(),
    ensures
        ({
            let v = words::lines(s);
            let at = breaks(s.take(pos)) as int;
            let first = if at > 3 {
                at - 3
            } else {
                0
            };
            let last = if at + breaks(added) + 4 < v.len() {
                at + breaks(added) + 4
            } else {
                v.len() as int
            };
            let shown = Seq::new(
                (last - first) as nat,
                |k: int| numbers::decimal((first + k + 1) as nat) + seq![':', ' '] + v[first + k],
            );
            &&& preview(s, pos, added) == words::joined(shown, "\n"@)
            &&& shown[i - first] == numbers::decimal((i + 1) as nat) + seq![':', ' '] + v[i]
        }),
{
    reveal_strlit(": ");
    assert(": "@ =~= seq![':', ' ']);
    let v = words::lines(s);
    let at = breaks(s.take(pos)) as int;
    let end = end_shown(at, breaks(added) as int, v.len() as int);
    let first = first_shown(at, end);
    let shown = Seq::new(
        (end - first) as nat,
        |k: int| numbers::decimal((first + k + 1) as nat) + seq![':', ' '] + v[first + k],
    );
    assert(numbered(v, first, end) =~= shown);
}

} // verus!
