//! White space, words and lines.

use vstd::prelude::*;
use crate::text::{from_chars, piece, push_text, to_chars};

verus! {

/// The characters with the Unicode property `White_Space`.
pub open spec fn is_white(c: char) -> bool {
    ||| '\u{9}' <= c <= '\u{d}'
    ||| c == ' '
    ||| c == '\u{85}'
    ||| c == '\u{a0}'
    ||| c == '\u{1680}'
    ||| '\u{2000}' <= c <= '\u{200a}'
    ||| c == '\u{2028}'
    ||| c == '\u{2029}'
    ||| c == '\u{202f}'
    ||| c == '\u{205f}'
    ||| c == '\u{3000}'
}

/// Whether `c` is white space.
pub fn white(c: char) -> (r: bool)
    ensures
        r == is_white(c),
{
    ('\u{9}' <= c && c <= '\u{d}') || c == ' ' || c == '\u{85}' || c == '\u{a0}' || c == '\u{1680}'
        || ('\u{2000}' <= c && c <= '\u{200a}') || c == '\u{2028}' || c == '\u{2029}' || c
        == '\u{202f}' || c == '\u{205f}' || c == '\u{3000}'
}

/// `s` without the white space at its start.
pub open spec fn trimmed_start(s: Seq<char>) -> Seq<char>
    decreases s.len(),
{
    if s.len() > 0 && is_white(s[0]) {
        trimmed_start(s.skip(1))
    } else {
        s
    }
}

/// `s` without the white space at its end.
pub open spec fn trimmed_end(s: Seq<char>) -> Seq<char>
    decreases s.len(),
{
    if s.len() > 0 && is_white(s.last()) {
        trimmed_end(s.drop_last())
    } else {
        s
    }
}

/// `s` without the white space around it.
pub open spec fn trimmed(s: Seq<char>) -> Seq<char> {
    trimmed_end(trimmed_start(s))
}

/// Removes the white space at the start of `s`.
pub fn trim_start(s: &[char]) -> (r: Vec<char>)
    ensures
        r@ == trimmed_start(s@),
{
    let mut i: usize = 0;
    assert(s@.skip(0) =~= s@);
    while i < s.len() && white(s[i])
        invariant
            i <= s.len(),
            trimmed_start(s@) == trimmed_start(s@.skip(i as int)),
        decreases s.len() - i,
    {
        assert(s@.skip(i as int).skip(1) =~= s@.skip(i + 1));
        i += 1;
    }
    assert(s@.skip(i as int) =~= s@.subrange(i as int, s@.len() as int));
    piece(s, i, s.len())
}

/// Removes the white space at the end of `s`.
pub fn trim_end(s: &[char]) -> (r: Vec<char>)
    ensures
        r@ == trimmed_end(s@),
{
    let mut i: usize = s.len();
    assert(s@.take(s@.len() as int) =~= s@);
    while i > 0 && white(s[i - 1])
        invariant
            i <= s.len(),
            trimmed_end(s@) == trimmed_end(s@.take(i as int)),
        decreases i,
    {
        assert(s@.take(i as int).drop_last() =~= s@.take(i - 1));
        i -= 1;
    }
    assert(s@.take(i as int) =~= s@.subrange(0, i as int));
    piece(s, 0, i)
}

/// Removes the white space around `s`.
pub fn trim(s: &[char]) -> (r: Vec<char>)
    ensures
        r@ == trimmed(s@),
{
    let t = trim_start(s);
    trim_end(t.as_slice())
}

/// Removes the white space around a text.
pub fn trim_text(s: &str) -> (r: String)
    ensures
        r@ == trimmed(s@),
{
    let c = to_chars(s);
    let t = trim(c.as_slice());
    from_chars(t.as_slice())
}

/// The first position at or after `i` that holds no white space, or the length.
pub open spec fn next_dark(s: Seq<char>, i: int) -> int
    decreases s.len() - i,
{
    if 0 <= i < s.len() && is_white(s[i]) {
        next_dark(s, i + 1)
    } else {
        i
    }
}

/// The first position at or after `i` that holds white space, or the length.
pub open spec fn next_white(s: Seq<char>, i: int) -> int
    decreases s.len() - i,
{
    if 0 <= i < s.len() && !is_white(s[i]) {
        next_white(s, i + 1)
    } else {
        i
    }
}

/// The words of `s` from `i` on: its longest runs without white space.
pub open spec fn words_from(s: Seq<char>, i: int) -> Seq<Seq<char>>
    decreases s.len() - i,
{
    let a = next_dark(s, i);
    let b = next_white(s, a);
    if 0 <= i <= a < b <= s.len() {
        seq![s.subrange(a, b)] + words_from(s, b)
    } else {
        Seq::empty()
    }
}

/// The views of a list of texts.
pub open spec fn views(v: Seq<String>) -> Seq<Seq<char>> {
    Seq::new(v.len(), |i: int| v[i]@)
}

/// The views grow with the list.
pub proof fn views_push(v: Seq<String>, s: String)
    ensures
        views(v.push(s)) == views(v).push(s@),
{
    assert(views(v.push(s)) =~= views(v).push(s@));
}

/// The words of `s`.
pub fn split_words(s: &[char]) -> (r: Vec<String>)
    ensures
        views(r@) == words_from(s@, 0),
{
    let mut r: Vec<String> = Vec::new();
    let mut i: usize = 0;
    assert(views(r@) + words_from(s@, 0) =~= words_from(s@, 0));
    loop
        invariant
            i <= s@.len(),
            views(r@) + words_from(s@, i as int) == words_from(s@, 0),
        ensures
            views(r@) == words_from(s@, 0),
        decreases s@.len() - i,
    {
        let mut a: usize = i;
        while a < s.len() && white(s[a])
            invariant
                i <= a <= s@.len(),
                next_dark(s@, i as int) == next_dark(s@, a as int),
            decreases s@.len() - a,
        {
            a += 1;
        }
        let mut b: usize = a;
        while b < s.len() && !white(s[b])
            invariant
                a <= b <= s@.len(),
                next_white(s@, a as int) == next_white(s@, b as int),
            decreases s@.len() - b,
        {
            b += 1;
        }
        if a == b {
            assert(words_from(s@, i as int) =~= Seq::<Seq<char>>::empty());
            assert(views(r@) + words_from(s@, i as int) =~= views(r@));
            break;
        }
        let w = piece(s, a, b);
        let t = from_chars(w.as_slice());
        let ghost before = r@;
        r.push(t);
        proof {
            views_push(before, t);
            assert(views(before) + (seq![t@] + words_from(s@, b as int)) =~= views(r@)
                + words_from(s@, b as int));
        }
        i = b;
    }
    r
}

// ---------------------------------------------------------------------------
// Lines
// ---------------------------------------------------------------------------

/// The first position at or after `i` that holds `c`, or the length.
pub open spec fn next_char(s: Seq<char>, c: char, i: int) -> int
    decreases s.len() - i,
{
    if 0 <= i < s.len() && s[i] != c {
        next_char(s, c, i + 1)
    } else {
        i
    }
}

/// The position that `next_char` gives is the first one that holds `c`.
pub proof fn next_char_is_first(s: Seq<char>, c: char, i: int)
    requires
        0 <= i <= s.len(),
    ensures
        i <= next_char(s, c, i) <= s.len(),
        next_char(s, c, i) < s.len() ==> s[next_char(s, c, i)] == c,
        forall|j: int| i <= j < next_char(s, c, i) ==> s[j] != c,
    decreases s.len() - i,
{
    if i < s.len() && s[i] != c {
        next_char_is_first(s, c, i + 1);
    }
}

/// The first position at or after `i` that holds `c`, or the length.
pub fn index_of(s: &[char], c: char, i: usize) -> (r: usize)
    requires
        i <= s@.len(),
    ensures
        r == next_char(s@, c, i as int),
        i <= r <= s@.len(),
        r < s@.len() ==> s@[r as int] == c,
{
    let mut j: usize = i;
    while j < s.len() && s[j] != c
        invariant
            i <= j <= s@.len(),
            next_char(s@, c, i as int) == next_char(s@, c, j as int),
        decreases s@.len() - j,
    {
        j += 1;
    }
    j
}

/// `s` without one carriage return at its end.
pub open spec fn without_return(s: Seq<char>) -> Seq<char> {
    if s.len() > 0 && s.last() == '\r' {
        s.drop_last()
    } else {
        s
    }
}

/// The lines of `s` from `i` on. A line ends with `\n` or `\r\n`, which it does not hold; the
/// last line may lack them.
pub open spec fn lines_from(s: Seq<char>, i: int) -> Seq<Seq<char>>
    decreases s.len() - i,
{
    if 0 <= i < s.len() {
        let e = next_char(s, '\n', i);
        if i <= e < s.len() {
            seq![without_return(s.subrange(i, e))] + lines_from(s, e + 1)
        } else {
            seq![s.skip(i)]
        }
    } else {
        Seq::empty()
    }
}

/// The lines of `s`.
pub open spec fn lines(s: Seq<char>) -> Seq<Seq<char>> {
    lines_from(s, 0)
}

/// The lines of `s`.
pub fn split_lines(s: &[char]) -> (r: Vec<String>)
    ensures
        views(r@) == lines(s@),
{
    let mut r: Vec<String> = Vec::new();
    let mut i: usize = 0;
    assert(views(r@) + lines_from(s@, 0) =~= lines(s@));
    while i < s.len()
        invariant
            i <= s@.len(),
            views(r@) + lines_from(s@, i as int) == lines(s@),
        decreases s@.len() - i,
    {
        let e = index_of(s, '\n', i);
        let ghost before = r@;
        if e < s.len() {
            let mut end: usize = e;
            if i < e && s[e - 1] == '\r' {
                end = e - 1;
            }
            let w = piece(s, i, end);
            assert(w@ =~= without_return(s@.subrange(i as int, e as int)));
            let t = from_chars(w.as_slice());
            r.push(t);
            proof {
                views_push(before, t);
                assert(views(before) + (seq![t@] + lines_from(s@, e + 1)) =~= views(r@)
                    + lines_from(s@, e + 1));
            }
            i = e + 1;
        } else {
            let w = piece(s, i, s.len());
            assert(w@ =~= s@.skip(i as int));
            let t = from_chars(w.as_slice());
            r.push(t);
            proof {
                views_push(before, t);
                assert(lines_from(s@, s@.len() as int) =~= Seq::<Seq<char>>::empty());
                assert(views(before) + seq![t@] =~= views(r@) + lines_from(s@, s@.len() as int));
            }
            i = s.len();
        }
    }
    assert(lines_from(s@, i as int) =~= Seq::<Seq<char>>::empty());
    assert(views(r@) + lines_from(s@, i as int) =~= views(r@));
    r
}

/// The lines of a text.
pub fn text_lines(s: &str) -> (r: Vec<String>)
    ensures
        views(r@) == lines(s@),
{
    let c = to_chars(s);
    split_lines(c.as_slice())
}

/// The texts one after the other, with `sep` between each two.
pub open spec fn joined(parts: Seq<Seq<char>>, sep: Seq<char>) -> Seq<char>
    decreases parts.len(),
{
    if parts.len() == 0 {
        Seq::empty()
    } else if parts.len() == 1 {
        parts[0]
    } else {
        joined(parts.drop_last(), sep) + sep + parts.last()
    }
}

/// Joins the texts with `sep` between each two.
pub fn join(parts: &[String], sep: &str) -> (r: String)
    ensures
        r@ == joined(views(parts@), sep@),
{
    let mut out: Vec<char> = Vec::new();
    let mut i: usize = 0;
    while i < parts.len()
        invariant
            i <= parts.len(),
            out@ == joined(views(parts@).take(i as int), sep@),
        decreases parts.len() - i,
    {
        let ghost before = out@;
        if i > 0 {
            push_text(&mut out, sep);
        }
        push_text(&mut out, parts[i].as_str());
        proof {
            let p = views(parts@).take(i as int + 1);
            assert(p.drop_last() =~= views(parts@).take(i as int));
            assert(p.last() == parts@[i as int]@);
            if i == 0 {
                assert(Seq::<char>::empty() + p[0] =~= p[0]);
            }
        }
        i += 1;
    }
    assert(views(parts@).take(parts@.len() as int) =~= views(parts@));
    from_chars(out.as_slice())
}

} // verus!
