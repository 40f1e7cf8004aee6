//! What holds of white space, words and lines.

use vstd::prelude::*;
use crate::words;

verus! {

/// The characters of ASCII that count as white space are the blank and those from tab to carriage
/// return.
pub proof fn ascii_white_space(c: char)
    requires
        (c as int) < 0x80,
    ensures
        words::is_white(c) == (c as int == 32 || 9 <= c as int <= 13),
{
}

proof fn start_of_trimmed(s: Seq<char>) -> (i: int)
    ensures
        0 <= i <= s.len(),
        words::trimmed_start(s) == s.skip(i),
        forall|k: int| 0 <= k < i ==> words::is_white(#[trigger] s[k]),
        i < s.len() ==> !words::is_white(s[i]),
    decreases s.len(),
{
    if s.len() > 0 && words::is_white(s[0]) {
        let t = s.skip(1);
        let i = start_of_trimmed(t);
        assert(t.skip(i) =~= s.skip(i + 1));
        assert forall|k: int| 0 <= k < i + 1 implies words::is_white(#[trigger] s[k]) by {
            if k > 0 {
                assert(s[k] == t[k - 1]);
            }
        }
        if i < t.len() {
            assert(s[i + 1] == t[i]);
        }
        i + 1
    } else {
        assert(s.skip(0) =~= s);
        0
    }
}

proof fn end_of_trimmed(s: Seq<char>) -> (j: int)
    ensures
        0 <= j <= s.len(),
        words::trimmed_end(s) == s.take(j),
        forall|k: int| j <= k < s.len() ==> words::is_white(#[trigger] s[k]),
        j > 0 ==> !words::is_white(s[j - 1]),
    decreases s.len(),
{
    if s.len() > 0 && words::is_white(s.last()) {
        let t = s.drop_last();
        let j = end_of_trimmed(t);
        assert(t.take(j) =~= s.take(j));
        assert forall|k: int| j <= k < s.len() implies words::is_white(#[trigger] s[k]) by {
            if k < t.len() {
                assert(s[k] == t[k]);
            }
        }
        if j > 0 {
            assert(s[j - 1] == t[j - 1]);
        }
        j
    } else {
        assert(s.take(s.len() as int) =~= s);
        s.len() as int
    }
}

/// Trimming a text gives a piece of it that neither begins nor ends with white space, and leaves
/// out nothing but white space.
pub proof fn trimming_leaves_out_white_ends(s: Seq<char>) -> (r: (int, int))
    ensures
        0 <= r.0 <= r.1 <= s.len(),
        words::trimmed(s) == s.subrange(r.0, r.1),
        forall|k: int|
            0 <= k < r.0 || r.1 <= k < s.len() ==> words::is_white(#[trigger] s[k]),
        r.0 < r.1 ==> !words::is_white(s[r.0]) && !words::is_white(s[r.1 - 1]),
{
    let i = start_of_trimmed(s);
    let t = s.skip(i);
    let j = end_of_trimmed(t);
    assert(t.take(j) =~= s.subrange(i, i + j));
    assert forall|k: int| 0 <= k < i || i + j <= k < s.len() implies words::is_white(
        #[trigger] s[k],
    ) by {
        if k >= i {
            assert(s[k] == t[k - i]);
        }
    }
    if j > 0 {
        assert(s[i] == t[0] && s[i + j - 1] == t[j - 1]);
    }
    (i, i + j)
}

// ---------------------------------------------------------------------------
// Words
// ---------------------------------------------------------------------------

proof fn dark_shift(s: Seq<char>, k: int, i: int)
    requires
        0 <= k,
        0 <= i,
        k + i <= s.len(),
    ensures
        words::next_dark(s, k + i) == k + words::next_dark(s.skip(k), i),
        i <= words::next_dark(s.skip(k), i) <= s.skip(k).len(),
    decreases s.len() - i,
{
    if k + i < s.len() && words::is_white(s[k + i]) {
        assert(s.skip(k)[i] == s[k + i]);
        dark_shift(s, k, i + 1);
    } else if k + i < s.len() {
        assert(s.skip(k)[i] == s[k + i]);
    }
}

proof fn white_shift(s: Seq<char>, k: int, i: int)
    requires
        0 <= k,
        0 <= i,
        k + i <= s.len(),
    ensures
        words::next_white(s, k + i) == k + words::next_white(s.skip(k), i),
        i <= words::next_white(s.skip(k), i) <= s.skip(k).len(),
    decreases s.len() - i,
{
    if k + i < s.len() && !words::is_white(s[k + i]) {
        assert(s.skip(k)[i] == s[k + i]);
        white_shift(s, k, i + 1);
    } else if k + i < s.len() {
        assert(s.skip(k)[i] == s[k + i]);
    }
}

proof fn words_shift(s: Seq<char>, k: int, i: int)
    requires
        0 <= k,
        0 <= i,
        k + i <= s.len(),
    ensures
        words::words_from(s, k + i) == words::words_from(s.skip(k), i),
    decreases s.len() - i,
{
    let t = s.skip(k);
    dark_shift(s, k, i);
    let a = words::next_dark(t, i);
    white_shift(s, k, a);
    let b = words::next_white(t, a);
    if a < b {
        words_shift(s, k, b);
        assert(s.subrange(k + a, k + b) =~= t.subrange(a, b));
    }
}

proof fn white_after(w: Seq<char>, b: Seq<char>, i: int)
    requires
        0 <= i <= w.len(),
        forall|k: int| 0 <= k < w.len() ==> !words::is_white(#[trigger] w[k]),
        b.len() > 0 ==> words::is_white(b[0]),
    ensures
        words::next_white(w + b, i) == w.len(),
    decreases w.len() - i,
{
    if i < w.len() {
        assert((w + b)[i] == w[i]);
        white_after(w, b, i + 1);
    } else if b.len() > 0 {
        assert((w + b)[i] == b[0]);
    }
}

/// The words of a text are its runs of characters that are not white space: white space is passed
/// over, and a run before white space or the end of the text is one word.
pub proof fn words_are_runs(w: Seq<char>, c: char, b: Seq<char>)
    requires
        words::is_white(c),
        forall|k: int| 0 <= k < w.len() ==> !words::is_white(#[trigger] w[k]),
    ensures
        words::words_from(Seq::empty(), 0) == Seq::<Seq<char>>::empty(),
        words::words_from(seq![c] + b, 0) == words::words_from(b, 0),
        w.len() > 0 ==> words::words_from(w, 0) == seq![w],
        w.len() > 0 ==> words::words_from(w + seq![c] + b, 0) == seq![w] + words::words_from(b, 0),
{
    passing_over(c, b);
    if w.len() > 0 {
        let e = Seq::<char>::empty();
        assert(w + e =~= w);
        white_after(w, e, 0);
        assert(words::next_dark(w, 0) == 0);
        assert(w.subrange(0, w.len() as int) =~= w);
        assert(words::words_from(w, w.len() as int) =~= Seq::<Seq<char>>::empty());
        assert(seq![w] + Seq::<Seq<char>>::empty() =~= seq![w]);
        let t = seq![c] + b;
        let s = w + t;
        assert(s =~= w + seq![c] + b);
        white_after(w, t, 0);
        assert(s[0] == w[0]);
        assert(words::next_dark(s, 0) == 0);
        assert(s.subrange(0, w.len() as int) =~= w);
        words_shift(s, w.len() as int, 0);
        assert(s.skip(w.len() as int) =~= t);
    }
}

proof fn passing_over(c: char, b: Seq<char>)
    requires
        words::is_white(c),
    ensures
        words::words_from(seq![c] + b, 0) == words::words_from(b, 0),
{
    let s = seq![c] + b;
    assert(s[0] == c);
    assert(s.skip(1) =~= b);
    words_shift(s, 1, 0);
    assert(words::next_dark(s, 0) == words::next_dark(s, 1));
    dark_shift(s, 1, 0);
    let a = words::next_dark(s, 1);
    if a < s.len() {
        dark_is_dark(s, 1);
        assert(words::next_white(s, a) > a) by {
            white_shift(s, a + 1, 0);
        }
    }
    white_shift(s, a, 0);
    assert(words::words_from(s, 0) =~= words::words_from(s, 1));
}

proof fn dark_is_dark(s: Seq<char>, i: int)
    requires
        0 <= i <= s.len(),
    ensures
        words::next_dark(s, i) < s.len() ==> !words::is_white(s[words::next_dark(s, i)]),
    decreases s.len() - i,
{
    if i < s.len() && words::is_white(s[i]) {
        dark_is_dark(s, i + 1);
    }
}

// ---------------------------------------------------------------------------
// Lines
// ---------------------------------------------------------------------------

proof fn char_shift(s: Seq<char>, c: char, k: int, i: int)
    requires
        0 <= k,
        0 <= i,
        k + i <= s.len(),
    ensures
        words::next_char(s, c, k + i) == k + words::next_char(s.skip(k), c, i),
        i <= words::next_char(s.skip(k), c, i) <= s.skip(k).len(),
    decreases s.len() - i,
{
    if k + i < s.len() {
        assert(s.skip(k)[i] == s[k + i]);
        if s[k + i] != c {
            char_shift(s, c, k, i + 1);
        }
    }
}

proof fn lines_shift(s: Seq<char>, k: int, i: int)
    requires
        0 <= k,
        0 <= i,
        k + i <= s.len(),
    ensures
        words::lines_from(s, k + i) == words::lines_from(s.skip(k), i),
    decreases s.len() - i,
{
    let t = s.skip(k);
    if k + i < s.len() {
        char_shift(s, '\n', k, i);
        let e = words::next_char(t, '\n', i);
        if e < t.len() {
            lines_shift(s, k, e + 1);
            assert(s.subrange(k + i, k + e) =~= t.subrange(i, e));
        } else {
            assert(s.skip(k + i) =~= t.skip(i));
        }
    }
}

/// A text without the end of a line in it.
pub open spec fn one_line(a: Seq<char>) -> bool {
    forall|i: int| 0 <= i < a.len() ==> #[trigger] a[i] != '\n'
}

proof fn end_of_line(a: Seq<char>, b: Seq<char>, i: int)
    requires
        one_line(a),
        b.len() > 0 ==> b[0] == '\n',
        0 <= i <= a.len(),
    ensures
        words::next_char(a + b, '\n', i) == a.len(),
    decreases a.len() - i,
{
    if i < a.len() {
        assert((a + b)[i] == a[i]);
        end_of_line(a, b, i + 1);
    } else if b.len() > 0 {
        assert((a + b)[i] == b[0]);
    }
}

/// A line ends with a line feed, and a carriage return before it does not count. What follows the
/// last line feed is a line where it is not empty.
pub proof fn lines_end_with_line_feeds(a: Seq<char>, b: Seq<char>)
    requires
        one_line(a),
    ensures
        words::lines(Seq::empty()) == Seq::<Seq<char>>::empty(),
        a.len() > 0 ==> words::lines(a) == seq![a],
        words::lines(a + seq!['\r', '\n'] + b) == seq![a] + words::lines(b),
        a.len() == 0 || a.last() != '\r' ==> words::lines(a + seq!['\n'] + b) == seq![a]
            + words::lines(b),
{
    if a.len() > 0 {
        let e = Seq::<char>::empty();
        assert(a + e =~= a);
        end_of_line(a, e, 0);
        assert(a.skip(0) =~= a);
    }
    let r = a.push('\r');
    line_then(r, b);
    assert(r.drop_last() =~= a);
    assert(r + seq!['\n'] + b =~= a + seq!['\r', '\n'] + b);
    line_then(a, b);
}

proof fn line_then(a: Seq<char>, b: Seq<char>)
    requires
        one_line(a),
    ensures
        words::lines(a + seq!['\n'] + b) == seq![words::without_return(a)] + words::lines(b),
{
    let t = seq!['\n'] + b;
    let s = a + t;
    assert(s =~= a + seq!['\n'] + b);
    end_of_line(a, t, 0);
    assert(s.subrange(0, a.len() as int) =~= a);
    lines_shift(s, a.len() as int + 1, 0);
    assert(s.skip(a.len() as int + 1) =~= b);
}

/// Joined texts stand one after the other with the separator between each two.
pub proof fn joining_adds_to_the_end(parts: Seq<Seq<char>>, t: Seq<char>, sep: Seq<char>)
    ensures
        words::joined(Seq::empty(), sep) == Seq::<char>::empty(),
        words::joined(seq![t], sep) == t,
        parts.len() > 0 ==> words::joined(parts.push(t), sep) == words::joined(parts, sep) + sep + t,
{
    assert(parts.push(t).drop_last() =~= parts);
}

pub(crate) proof fn joined_first(t: Seq<char>, parts: Seq<Seq<char>>, sep: Seq<char>)
    requires
        parts.len() > 0,
    ensures
        words::joined(seq![t] + parts, sep) == t + sep + words::joined(parts, sep),
    decreases parts.len(),
{
    let all = seq![t] + parts;
    if parts.len() == 1 {
        assert(all.drop_last() =~= seq![t]);
        assert(words::joined(all.drop_last(), sep) == t);
        assert(all.last() == parts[0]);
    } else {
        joined_first(t, parts.drop_last(), sep);
        assert(all.drop_last() =~= seq![t] + parts.drop_last());
        assert(all.last() == parts.last());
        assert(words::joined(all, sep) =~= t + sep + words::joined(parts, sep));
    }
}

/// Texts that are lines: none holds the end of a line, or ends with a carriage return.
pub open spec fn all_lines(v: Seq<Seq<char>>) -> bool {
    forall|i: int|
        0 <= i < v.len() ==> one_line(#[trigger] v[i]) && (v[i].len() > 0 ==> v[i].last() != '\r')
}

/// Lines, as a text: each after the end of the one before, and a last line feed where `ended`.
pub open spec fn as_text(v: Seq<Seq<char>>, ended: bool) -> Seq<char> {
    words::joined(v, seq!['\n']) + if ended {
        seq!['\n']
    } else {
        Seq::empty()
    }
}

/// The lines of a text that was put together from lines are those lines, unless the last is empty
/// and has no line feed behind it.
pub proof fn lines_come_back(v: Seq<Seq<char>>, ended: bool)
    requires
        all_lines(v),
        v.len() > 0,
        ended || v.last().len() > 0,
    ensures
        words::lines(as_text(v, ended)) == v,
    decreases v.len(),
{
    let first = v[0];
    let e = Seq::<char>::empty();
    if v.len() == 1 {
        lines_end_with_line_feeds(first, e);
        assert(v =~= seq![first]);
        assert(first + seq!['\n'] + e =~= first + seq!['\n']);
        assert(first + e =~= first);
        assert(seq![first] + Seq::<Seq<char>>::empty() =~= seq![first]);
    } else {
        let w = v.skip(1);
        assert(v =~= seq![first] + w);
        assert(w.last() == v.last());
        assert forall|i: int| 0 <= i < w.len() implies one_line(#[trigger] w[i]) && (w[i].len() > 0
            ==> w[i].last() != '\r') by {
            assert(w[i] == v[i + 1]);
        }
        joined_first(first, w, seq!['\n']);
        assert(as_text(v, ended) =~= first + seq!['\n'] + as_text(w, ended));
        lines_end_with_line_feeds(first, as_text(w, ended));
        lines_come_back(w, ended);
    }
}

} // verus!
