//! Text as sequences of characters: searching, splitting, number formats.

use vstd::prelude::*;

verus! {

/// `String::push` of std: appends one character.
pub assume_specification[ String::push ](s: &mut String, c: char)
    ensures
        final(s)@ == old(s)@.push(c),
;

/// The characters of `s`.
pub fn to_chars(s: &str) -> (r: Vec<char>)
    ensures
        r@ == s@,
{
    let mut r: Vec<char> = Vec::new();
    for c in it: s.chars()
        invariant
            it.seq() == s@,
            r@ == s@.take(it.index() as int),
    {
        r.push(c);
        assert(s@.take(it.index() as int + 1) == s@.take(it.index() as int).push(c));
    }
    assert(s@.take(s@.len() as int) == s@);
    r
}

/// The text that `chars` holds.
pub fn from_chars(chars: &[char]) -> (r: String)
    ensures
        r@ == chars@,
{
    let mut r = String::new();
    let mut i: usize = 0;
    while i < chars.len()
        invariant
            i <= chars.len(),
            r@ == chars@.take(i as int),
        decreases chars.len() - i,
    {
        r.push(chars[i]);
        assert(chars@.take(i as int + 1) == chars@.take(i as int).push(chars@[i as int]));
        i += 1;
    }
    assert(chars@.take(chars@.len() as int) == chars@);
    r
}

/// Whether two texts are the same.
pub fn same(a: &str, b: &str) -> (r: bool)
    ensures
        r == (a@ == b@),
{
    let x = a.as_bytes();
    let y = b.as_bytes();
    proof {
        vstd::utf8::encode_utf8_decode_utf8(a@);
        vstd::utf8::encode_utf8_decode_utf8(b@);
    }
    if x.len() != y.len() {
        return false;
    }
    let mut i: usize = 0;
    while i < x.len()
        invariant
            i <= x.len(),
            x.len() == y.len(),
            x@.take(i as int) == y@.take(i as int),
            x@ == vstd::utf8::encode_utf8(a@),
            y@ == vstd::utf8::encode_utf8(b@),
        decreases x.len() - i,
    {
        if x[i] != y[i] {
            assert(x@[i as int] != y@[i as int]);
            return false;
        }
        assert(x@.take(i as int + 1) == x@.take(i as int).push(x@[i as int]));
        assert(y@.take(i as int + 1) == y@.take(i as int).push(y@[i as int]));
        i += 1;
    }
    assert(x@.take(x@.len() as int) == x@);
    assert(y@.take(y@.len() as int) == y@);
    true
}

/// Whether `list` holds `x`.
pub open spec fn holds_text(list: Seq<String>, x: Seq<char>) -> bool {
    exists|i: int| 0 <= i < list.len() && (#[trigger] list[i])@ == x
}

/// Whether `list` holds `x`.
pub fn contains_text(list: &[String], x: &str) -> (r: bool)
    ensures
        r == holds_text(list@, x@),
{
    let mut i: usize = 0;
    while i < list.len()
        invariant
            i <= list.len(),
            forall|j: int| 0 <= j < i ==> (#[trigger] list@[j])@ != x@,
        decreases list.len() - i,
    {
        if same(list[i].as_str(), x) {
            assert(list@[i as int]@ == x@);
            return true;
        }
        i += 1;
    }
    false
}

// ---------------------------------------------------------------------------
// Prefixes, suffixes and pieces
// ---------------------------------------------------------------------------

/// `s` begins with `p`.
pub open spec fn begins(s: Seq<char>, p: Seq<char>) -> bool {
    p.len() <= s.len() && s.take(p.len() as int) == p
}

/// `s` ends with `p`.
pub open spec fn ends(s: Seq<char>, p: Seq<char>) -> bool {
    p.len() <= s.len() && s.skip(s.len() - p.len()) == p
}

/// `p` stands in `s` at position `i`.
pub open spec fn occurs_at(s: Seq<char>, p: Seq<char>, i: int) -> bool {
    0 <= i && i + p.len() <= s.len() && s.subrange(i, i + p.len()) == p
}

/// The first position at or after `from` at which `p` stands in `s`.
pub open spec fn find(s: Seq<char>, p: Seq<char>, from: int) -> Option<int>
    decreases s.len() - from + 1,
{
    if from < 0 || from + p.len() > s.len() {
        None
    } else if occurs_at(s, p, from) {
        Some(from)
    } else {
        find(s, p, from + 1)
    }
}

/// `find` gives the least position at which `p` stands, and none where `p` does not stand.
pub proof fn find_is_first(s: Seq<char>, p: Seq<char>, from: int)
    requires
        0 <= from,
    ensures
        match find(s, p, from) {
            Some(i) => from <= i && occurs_at(s, p, i) && forall|j: int|
                from <= j < i ==> !#[trigger] occurs_at(s, p, j),
            None => forall|j: int| from <= j ==> !#[trigger] occurs_at(s, p, j),
        },
    decreases s.len() - from + 1,
{
    if from + p.len() <= s.len() && !occurs_at(s, p, from) {
        find_is_first(s, p, from + 1);
    }
}

/// Whether `p` stands in `s` at position `i`.
pub fn stands_at(s: &[char], p: &[char], i: usize) -> (r: bool)
    ensures
        r == occurs_at(s@, p@, i as int),
{
    if i > s.len() || p.len() > s.len() - i {
        return false;
    }
    let mut k: usize = 0;
    while k < p.len()
        invariant
            k <= p.len(),
            i + p.len() <= s.len(),
            forall|j: int| 0 <= j < k ==> s@[i + j] == p@[j],
        decreases p.len() - k,
    {
        if s[i + k] != p[k] {
            assert(s@.subrange(i as int, i + p@.len())[k as int] == s@[i + k]);
            return false;
        }
        k += 1;
    }
    assert(s@.subrange(i as int, i + p@.len()) =~= p@);
    true
}

/// The first position at or after `from` at which `p` stands in `s`.
pub fn find_from(s: &[char], p: &[char], from: usize) -> (r: Option<usize>)
    ensures
        match r {
            Some(i) => find(s@, p@, from as int) == Some(i as int) && from <= i && i + p@.len()
                <= s@.len(),
            None => find(s@, p@, from as int) is None,
        },
{
    let mut i: usize = from;
    while i <= s.len() && p.len() <= s.len() - i
        invariant
            from <= i,
            i <= s.len() || i == from,
            find(s@, p@, from as int) == find(s@, p@, i as int),
        decreases s.len() - i,
    {
        if stands_at(s, p, i) {
            return Some(i);
        }
        if i == s.len() {
            assert(find(s@, p@, i + 1) is None);
            return None;
        }
        i += 1;
    }
    None
}

/// Whether `s` begins with `p`.
pub fn starts_with(s: &[char], p: &[char]) -> (r: bool)
    ensures
        r == begins(s@, p@),
{
    let r = stands_at(s, p, 0);
    assert(p@.len() <= s@.len() ==> s@.take(p@.len() as int) =~= s@.subrange(0, p@.len() as int));
    r
}

/// Whether `s` ends with `p`.
pub fn ends_with(s: &[char], p: &[char]) -> (r: bool)
    ensures
        r == ends(s@, p@),
{
    if p.len() > s.len() {
        return false;
    }
    let r = stands_at(s, p, s.len() - p.len());
    assert(s@.skip(s@.len() - p@.len()) =~= s@.subrange(s@.len() - p@.len(), s@.len() as int));
    r
}

/// Whether `s` begins with `p`.
pub fn str_starts_with(s: &str, p: &str) -> (r: bool)
    ensures
        r == begins(s@, p@),
{
    let s = to_chars(s);
    let p = to_chars(p);
    starts_with(s.as_slice(), p.as_slice())
}

/// Whether `p` stands somewhere in `s`.
pub open spec fn contains(s: Seq<char>, p: Seq<char>) -> bool {
    find(s, p, 0) is Some
}

/// Whether `p` stands somewhere in `s`.
pub fn str_contains(s: &str, p: &str) -> (r: bool)
    ensures
        r == contains(s@, p@),
{
    let s = to_chars(s);
    let p = to_chars(p);
    find_from(s.as_slice(), p.as_slice(), 0).is_some()
}

/// The characters of `s` from `i` to `j`.
pub fn piece(s: &[char], i: usize, j: usize) -> (r: Vec<char>)
    requires
        i <= j <= s@.len(),
    ensures
        r@ == s@.subrange(i as int, j as int),
{
    let mut r: Vec<char> = Vec::new();
    let mut k: usize = i;
    while k < j
        invariant
            i <= k <= j <= s@.len(),
            r@ == s@.subrange(i as int, k as int),
        decreases j - k,
    {
        r.push(s[k]);
        assert(s@.subrange(i as int, k + 1) == s@.subrange(i as int, k as int).push(s@[k as int]));
        k += 1;
    }
    r
}

/// Appends the characters of `s` from `i` to `j`.
pub fn push_piece(out: &mut Vec<char>, s: &[char], i: usize, j: usize)
    requires
        i <= j <= s@.len(),
    ensures
        final(out)@ == old(out)@ + s@.subrange(i as int, j as int),
{
    let mut k: usize = i;
    assert(old(out)@ + s@.subrange(i as int, i as int) =~= old(out)@);
    while k < j
        invariant
            i <= k <= j <= s@.len(),
            out@ == old(out)@ + s@.subrange(i as int, k as int),
        decreases j - k,
    {
        out.push(s[k]);
        assert(old(out)@ + s@.subrange(i as int, k + 1) =~= (old(out)@ + s@.subrange(
            i as int,
            k as int,
        )).push(s@[k as int]));
        k += 1;
    }
}

/// Appends all characters of `s`.
pub fn push_all(out: &mut Vec<char>, s: &[char])
    ensures
        final(out)@ == old(out)@ + s@,
{
    push_piece(out, s, 0, s.len());
    assert(s@.subrange(0, s@.len() as int) =~= s@);
}

/// Appends the characters of a text.
pub fn push_text(out: &mut Vec<char>, s: &str)
    ensures
        final(out)@ == old(out)@ + s@,
{
    let c = to_chars(s);
    push_all(out, c.as_slice());
}

// ---------------------------------------------------------------------------
// Replacing
// ---------------------------------------------------------------------------

/// How far a search moves past a match of `p`: never less than one character.
pub open spec fn stride(p: Seq<char>) -> int {
    if p.len() == 0 {
        1
    } else {
        p.len() as int
    }
}

/// The number of matches of `p` in `s` from `from` on that do not overlap, leftmost first.
pub open spec fn match_count(s: Seq<char>, p: Seq<char>, from: int) -> nat
    decreases s.len() - from + 1,
{
    if from < 0 || from > s.len() {
        0
    } else {
        match find(s, p, from) {
            None => 0,
            Some(i) => if i < from || i + p.len() > s.len() {
                0
            } else {
                1 + match_count(s, p, i + stride(p))
            },
        }
    }
}

/// `s` from `pos` on, with `r` in place of each match of `p` that a search from `from` on meets.
pub open spec fn replaced_from(
    s: Seq<char>,
    p: Seq<char>,
    r: Seq<char>,
    pos: int,
    from: int,
) -> Seq<char>
    decreases s.len() - from + 1,
{
    if from < 0 || from > s.len() {
        s.skip(pos)
    } else {
        match find(s, p, from) {
            None => s.skip(pos),
            Some(i) => if i < from || i + p.len() > s.len() {
                s.skip(pos)
            } else {
                s.subrange(pos, i) + r + replaced_from(s, p, r, i + p.len(), i + stride(p))
            },
        }
    }
}

/// `s` with `r` in place of every match of `p`.
pub open spec fn replaced(s: Seq<char>, p: Seq<char>, r: Seq<char>) -> Seq<char> {
    replaced_from(s, p, r, 0, 0)
}

/// `s` with `r` in place of the first match of `p`.
pub open spec fn replaced_first(s: Seq<char>, p: Seq<char>, r: Seq<char>) -> Seq<char> {
    match find(s, p, 0) {
        None => s,
        Some(i) => s.take(i) + r + s.skip(i + p.len()),
    }
}

/// The number of matches of `p` in `s` that do not overlap.
pub fn count_matches(s: &[char], p: &[char]) -> (n: usize)
    requires
        p@.len() > 0 || s@.len() < usize::MAX,
    ensures
        n == match_count(s@, p@, 0),
        n <= s@.len() + 1,
{
    let len: usize = s.len();
    let mut n: usize = 0;
    let mut from: usize = 0;
    loop
        invariant
            p@.len() > 0 || s@.len() < usize::MAX,
            len == s@.len(),
            from <= s@.len() + 1,
            n <= from,
            n + match_count(s@, p@, from as int) == match_count(s@, p@, 0),
        ensures
            n == match_count(s@, p@, 0),
            n <= s@.len() + 1,
        decreases s@.len() + 1 - from,
    {
        if from > s.len() {
            break;
        }
        match find_from(s, p, from) {
            None => {
                break;
            },
            Some(i) => {
                n += 1;
                from = if p.len() == 0 { i + 1 } else { i + p.len() };
            },
        }
    }
    n
}

/// `s` with `r` in place of every match of `p`.
pub fn replace_all(s: &[char], p: &[char], r: &[char]) -> (out: Vec<char>)
    requires
        p@.len() > 0 || s@.len() < usize::MAX,
    ensures
        out@ == replaced(s@, p@, r@),
{
    let len: usize = s.len();
    let mut out: Vec<char> = Vec::new();
    let mut pos: usize = 0;
    let mut from: usize = 0;
    assert(out@ + replaced_from(s@, p@, r@, 0, 0) =~= replaced(s@, p@, r@));
    loop
        invariant
            p@.len() > 0 || s@.len() < usize::MAX,
            len == s@.len(),
            pos <= s@.len(),
            pos <= from <= s@.len() + 1,
            out@ + replaced_from(s@, p@, r@, pos as int, from as int) == replaced(s@, p@, r@),
        ensures
            pos <= s@.len(),
            out@ + s@.skip(pos as int) == replaced(s@, p@, r@),
        decreases s@.len() + 1 - from,
    {
        if from > s.len() {
            break;
        }
        match find_from(s, p, from) {
            None => {
                break;
            },
            Some(i) => {
                let ghost before = out@;
                let ghost rest = replaced_from(s@, p@, r@, i + p@.len(), i + stride(p@));
                push_piece(&mut out, s, pos, i);
                push_all(&mut out, r);
                assert(before + (s@.subrange(pos as int, i as int) + r@ + rest) =~= out@ + rest);
                pos = i + p.len();
                from = if p.len() == 0 { i + 1 } else { i + p.len() };
            },
        }
    }
    push_piece(&mut out, s, pos, s.len());
    assert(s@.skip(pos as int) =~= s@.subrange(pos as int, s@.len() as int));
    out
}

/// `s` with the character `b` in place of every `a`.
pub open spec fn swapped(s: Seq<char>, a: char, b: char) -> Seq<char> {
    Seq::new(s.len(), |i: int| if s[i] == a { b } else { s[i] })
}

/// `s` on one line: line breaks and tabs become spaces.
pub open spec fn flattened(s: Seq<char>) -> Seq<char> {
    swapped(swapped(swapped(s, '\n', ' '), '\r', ' '), '\t', ' ')
}

/// Puts a space in place of every line break and tab.
pub fn flatten_line(s: &[char]) -> (r: Vec<char>)
    ensures
        r@ == flattened(s@),
{
    let mut r: Vec<char> = Vec::new();
    let mut i: usize = 0;
    while i < s.len()
        invariant
            i <= s.len(),
            r@ == flattened(s@).take(i as int),
        decreases s.len() - i,
    {
        let c = s[i];
        if c == '\n' || c == '\r' || c == '\t' {
            r.push(' ');
        } else {
            r.push(c);
        }
        assert(flattened(s@).take(i as int + 1) =~= flattened(s@).take(i as int).push(
            flattened(s@)[i as int],
        ));
        i += 1;
    }
    assert(flattened(s@).take(s@.len() as int) =~= flattened(s@));
    r
}

/// Two texts in a row.
pub fn text2(a: &str, b: &str) -> (r: String)
    ensures
        r@ == a@ + b@,
{
    let mut s = a.to_owned();
    s.append(b);
    s
}

/// Three texts in a row.
pub fn text3(a: &str, b: &str, c: &str) -> (r: String)
    ensures
        r@ == a@ + b@ + c@,
{
    let mut s = text2(a, b);
    s.append(c);
    s
}

/// Four texts in a row.
pub fn text4(a: &str, b: &str, c: &str, d: &str) -> (r: String)
    ensures
        r@ == a@ + b@ + c@ + d@,
{
    let mut s = text3(a, b, c);
    s.append(d);
    s
}

/// Five texts in a row.
pub fn text5(a: &str, b: &str, c: &str, d: &str, e: &str) -> (r: String)
    ensures
        r@ == a@ + b@ + c@ + d@ + e@,
{
    let mut s = text4(a, b, c, d);
    s.append(e);
    s
}

} // verus!
