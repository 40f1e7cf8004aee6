//! Finding the LaTeX math blocks in a text, whole or while it streams in.

use vstd::prelude::*;
use crate::text;
use crate::text::{find_from, from_chars, piece, push_text, to_chars};

verus! {

/// A pair of math delimiters: `\[ \]`, `\( \)` or `$$ $$`.
#[derive(Clone, Copy, PartialEq, Eq, Structural, Debug)]
pub enum Delimiter {
    Bracket,
    Paren,
    Dollars,
}

/// The text that ends a block.
pub open spec fn closing(d: Delimiter) -> Seq<char> {
    match d {
        Delimiter::Bracket => seq!['\\', ']'],
        Delimiter::Paren => seq!['\\', ')'],
        Delimiter::Dollars => seq!['$', '$'],
    }
}

/// The delimiter that opens a block at position `i` of `s`.
pub open spec fn opens_at(s: Seq<char>, i: int) -> Option<Delimiter> {
    if 0 <= i && i + 1 < s.len() {
        if s[i] == '\\' && s[i + 1] == '[' {
            Some(Delimiter::Bracket)
        } else if s[i] == '\\' && s[i + 1] == '(' {
            Some(Delimiter::Paren)
        } else if s[i] == '$' && s[i + 1] == '$' {
            Some(Delimiter::Dollars)
        } else {
            None
        }
    } else {
        None
    }
}

/// The first position at or after `pos` at which a delimiter opens, or the length.
pub open spec fn next_open(s: Seq<char>, pos: int) -> int
    decreases s.len() - pos,
{
    if 0 <= pos < s.len() && opens_at(s, pos) is None {
        next_open(s, pos + 1)
    } else {
        pos
    }
}

/// Where the block that opens at `i` ends, if its closing delimiter follows.
pub open spec fn block_end(s: Seq<char>, i: int) -> Option<int> {
    match opens_at(s, i) {
        Some(d) => match text::find(s, closing(d), i + 2) {
            Some(e) => Some(e + 2),
            None => None,
        },
        None => None,
    }
}

/// One piece of a response: plain text to print as it is, or a complete, delimited LaTeX block.
#[derive(Debug, PartialEq, Eq, Clone)]
pub enum StreamSegment {
    Text(String),
    Latex(String),
}

/// What a segment holds.
pub ghost enum Segment {
    Text(Seq<char>),
    Latex(Seq<char>),
}

impl View for StreamSegment {
    type V = Segment;

    open spec fn view(&self) -> Segment {
        match self {
            StreamSegment::Text(t) => Segment::Text(t@),
            StreamSegment::Latex(t) => Segment::Latex(t@),
        }
    }
}

/// The segments that a list holds.
pub open spec fn segment_views(v: Seq<StreamSegment>) -> Seq<Segment> {
    Seq::new(v.len(), |i: int| v[i]@)
}

/// A run of plain text: nothing where it is empty.
pub open spec fn text_run(t: Seq<char>) -> Seq<Segment> {
    if t.len() > 0 {
        seq![Segment::Text(t)]
    } else {
        Seq::empty()
    }
}

/// The segments of `s` from `start` on, when no block opens between `start` and `pos`. A delimiter
/// that is never closed is plain text.
pub open spec fn segments_from(s: Seq<char>, start: int, pos: int) -> Seq<Segment>
    decreases s.len() - pos,
{
    let i = next_open(s, pos);
    if 0 <= start <= pos <= i < s.len() {
        match block_end(s, i) {
            Some(e) => if i < e <= s.len() {
                text_run(s.subrange(start, i)) + seq![Segment::Latex(s.subrange(i, e))]
                    + segments_from(s, e, e)
            } else {
                Seq::empty()
            },
            None => segments_from(s, start, i + 1),
        }
    } else {
        text_run(s.skip(start))
    }
}

/// The segments of `s`.
pub open spec fn segments(s: Seq<char>) -> Seq<Segment> {
    segments_from(s, 0, 0)
}

/// The text of a segment.
pub open spec fn segment_text(g: Segment) -> Seq<char> {
    match g {
        Segment::Text(t) => t,
        Segment::Latex(t) => t,
    }
}

/// The texts of the segments, one after the other.
pub open spec fn glued(v: Seq<Segment>) -> Seq<char>
    decreases v.len(),
{
    if v.len() == 0 {
        Seq::empty()
    } else {
        segment_text(v[0]) + glued(v.skip(1))
    }
}

pub(crate) proof fn next_open_bounds(s: Seq<char>, pos: int)
    requires
        0 <= pos <= s.len(),
    ensures
        pos <= next_open(s, pos) <= s.len(),
        next_open(s, pos) < s.len() ==> opens_at(s, next_open(s, pos)) is Some,
        forall|j: int| pos <= j < next_open(s, pos) ==> opens_at(s, j) is None,
    decreases s.len() - pos,
{
    if pos < s.len() && opens_at(s, pos) is None {
        next_open_bounds(s, pos + 1);
    }
}

proof fn block_end_bounds(s: Seq<char>, i: int)
    requires
        0 <= i,
    ensures
        block_end(s, i) is Some ==> i + 4 <= block_end(s, i)->0 <= s.len(),
{
    match opens_at(s, i) {
        Some(d) => {
            text::find_is_first(s, closing(d), i + 2);
        },
        None => {},
    }
}

fn opening_at(s: &[char], i: usize) -> (r: Option<Delimiter>)
    requires
        i < s@.len(),
    ensures
        r == opens_at(s@, i as int),
{
    let n: usize = s.len();
    if i + 1 < n {
        let a = s[i];
        let b = s[i + 1];
        if a == '\\' && b == '[' {
            Some(Delimiter::Bracket)
        } else if a == '\\' && b == '(' {
            Some(Delimiter::Paren)
        } else if a == '$' && b == '$' {
            Some(Delimiter::Dollars)
        } else {
            None
        }
    } else {
        None
    }
}

fn find_open(s: &[char], pos: usize) -> (r: usize)
    requires
        pos <= s@.len(),
    ensures
        r == next_open(s@, pos as int),
        pos <= r <= s@.len(),
        r < s@.len() ==> opens_at(s@, r as int) is Some,
{
    let mut i: usize = pos;
    while i < s.len() && opening_at(s, i).is_none()
        invariant
            pos <= i <= s@.len(),
            next_open(s@, pos as int) == next_open(s@, i as int),
        decreases s@.len() - i,
    {
        i += 1;
    }
    i
}

fn find_block_end(s: &[char], i: usize) -> (r: Option<usize>)
    requires
        i < s@.len(),
    ensures
        match r {
            Some(e) => block_end(s@, i as int) == Some(e as int) && i + 4 <= e <= s@.len(),
            None => block_end(s@, i as int) is None,
        },
{
    let n: usize = s.len();
    let mut close: Vec<char> = Vec::new();
    match opening_at(s, i) {
        None => {
            return None;
        },
        Some(Delimiter::Bracket) => {
            close.push('\\');
            close.push(']');
        },
        Some(Delimiter::Paren) => {
            close.push('\\');
            close.push(')');
        },
        Some(Delimiter::Dollars) => {
            close.push('$');
            close.push('$');
        },
    }
    assert(close@ =~= closing(opens_at(s@, i as int)->0));
    match find_from(s, close.as_slice(), i + 2) {
        Some(e) => Some(e + 2),
        None => None,
    }
}

fn push_run(out: &mut Vec<StreamSegment>, s: &[char], i: usize, j: usize)
    requires
        i <= j <= s@.len(),
    ensures
        segment_views(final(out)@) == segment_views(old(out)@) + text_run(
            s@.subrange(i as int, j as int),
        ),
{
    if i < j {
        let p = piece(s, i, j);
        out.push(StreamSegment::Text(from_chars(p.as_slice())));
    }
    assert(segment_views(out@) =~= segment_views(old(out)@) + text_run(
        s@.subrange(i as int, j as int),
    ));
}

fn push_block(out: &mut Vec<StreamSegment>, s: &[char], i: usize, j: usize)
    requires
        i <= j <= s@.len(),
    ensures
        segment_views(final(out)@) == segment_views(old(out)@) + seq![
            Segment::Latex(s@.subrange(i as int, j as int)),
        ],
{
    let p = piece(s, i, j);
    out.push(StreamSegment::Latex(from_chars(p.as_slice())));
    assert(segment_views(out@) =~= segment_views(old(out)@) + seq![
        Segment::Latex(s@.subrange(i as int, j as int)),
    ]);
}

fn split_chars(s: &[char]) -> (r: Vec<StreamSegment>)
    ensures
        segment_views(r@) == segments(s@),
{
    let mut out: Vec<StreamSegment> = Vec::new();
    let mut start: usize = 0;
    let mut pos: usize = 0;
    assert(segment_views(out@) + segments_from(s@, 0, 0) =~= segments(s@));
    loop
        invariant
            start <= pos <= s@.len(),
            segment_views(out@) + segments_from(s@, start as int, pos as int) == segments(s@),
        ensures
            start <= s@.len(),
            segment_views(out@) + text_run(s@.skip(start as int)) == segments(s@),
        decreases s@.len() - pos,
    {
        let i = find_open(s, pos);
        if i == s.len() {
            break;
        }
        match find_block_end(s, i) {
            Some(e) => {
                let ghost before = segment_views(out@);
                let ghost a = text_run(s@.subrange(start as int, i as int));
                let ghost b = seq![Segment::Latex(s@.subrange(i as int, e as int))];
                let ghost rest = segments_from(s@, e as int, e as int);
                push_run(&mut out, s, start, i);
                push_block(&mut out, s, i, e);
                assert(before + (a + b + rest) =~= before + a + b + rest);
                start = e;
                pos = e;
            },
            None => {
                pos = i + 1;
            },
        }
    }
    assert(s@.skip(start as int) =~= s@.subrange(start as int, s@.len() as int));
    push_run(&mut out, s, start, s.len());
    out
}

/// Splits a whole, already complete text into plain text and the LaTeX blocks `\[..\]`, `\(..\)`
/// and `$$..$$`, in order.
///
/// Blocks do not nest. An opening delimiter without a matching close later in the text is plain
/// text, and only that one occurrence is given up on.
pub fn split_latex_segments(text: &str) -> (r: Vec<StreamSegment>)
    ensures
        segment_views(r@) == segments(text@),
{
    let s = to_chars(text);
    split_chars(s.as_slice())
}

proof fn glued_add(a: Seq<Segment>, b: Seq<Segment>)
    ensures
        glued(a + b) == glued(a) + glued(b),
    decreases a.len(),
{
    if a.len() == 0 {
        assert(a + b =~= b);
        assert(Seq::<char>::empty() + glued(b) =~= glued(b));
    } else {
        assert((a + b).skip(1) =~= a.skip(1) + b);
        glued_add(a.skip(1), b);
        assert(segment_text(a[0]) + (glued(a.skip(1)) + glued(b)) =~= (segment_text(a[0]) + glued(
            a.skip(1),
        )) + glued(b));
    }
}

proof fn glued_one(g: Segment)
    ensures
        glued(seq![g]) == segment_text(g),
{
    assert(seq![g].skip(1) =~= Seq::<Segment>::empty());
    assert(glued(Seq::<Segment>::empty()) =~= Seq::<char>::empty());
    assert(segment_text(g) + Seq::<char>::empty() =~= segment_text(g));
}

proof fn glued_run(t: Seq<char>)
    ensures
        glued(text_run(t)) == t,
{
    if t.len() > 0 {
        glued_one(Segment::Text(t));
    } else {
        assert(t =~= Seq::<char>::empty());
    }
}

proof fn glued_segments_from(s: Seq<char>, start: int, pos: int)
    requires
        0 <= start <= pos <= s.len(),
    ensures
        glued(segments_from(s, start, pos)) == s.skip(start),
    decreases s.len() - pos,
{
    let i = next_open(s, pos);
    next_open_bounds(s, pos);
    block_end_bounds(s, i);
    if i < s.len() {
        match block_end(s, i) {
            Some(e) => {
                let a = text_run(s.subrange(start, i));
                let b = seq![Segment::Latex(s.subrange(i, e))];
                glued_segments_from(s, e, e);
                glued_add(a + b, segments_from(s, e, e));
                glued_add(a, b);
                glued_run(s.subrange(start, i));
                glued_one(Segment::Latex(s.subrange(i, e)));
                assert(s.subrange(start, i) + s.subrange(i, e) + s.skip(e) =~= s.skip(start));
            },
            None => {
                glued_segments_from(s, start, i + 1);
            },
        }
    } else {
        glued_run(s.skip(start));
    }
}

/// The texts of the segments, one after the other, are the text that was split: nothing is
/// dropped, only classified.
pub proof fn splitting_loses_nothing(s: Seq<char>)
    ensures
        glued(segments(s)) == s,
{
    glued_segments_from(s, 0, 0);
    assert(s.skip(0) =~= s);
}

// ---------------------------------------------------------------------------
// Streaming
// ---------------------------------------------------------------------------

/// The character held back at the end of a text in which no block opens: one that may be the
/// first half of a delimiter.
pub open spec fn held(s: Seq<char>) -> int {
    if s.len() > 0 && (s.last() == '$' || s.last() == '\\') {
        1
    } else {
        0
    }
}

/// The segments that can be told apart in `s` while more text may follow.
pub open spec fn settled(s: Seq<char>) -> Seq<Segment>
    decreases s.len(),
{
    let i = next_open(s, 0);
    if 0 <= i < s.len() {
        match block_end(s, i) {
            Some(e) => if i < e <= s.len() {
                text_run(s.take(i)) + seq![Segment::Latex(s.subrange(i, e))] + settled(s.skip(e))
            } else {
                Seq::empty()
            },
            None => text_run(s.take(i)),
        }
    } else {
        text_run(s.take(s.len() - held(s)))
    }
}

/// What must wait for more text: an unfinished block, or half a delimiter.
pub open spec fn unsettled(s: Seq<char>) -> Seq<char>
    decreases s.len(),
{
    let i = next_open(s, 0);
    if 0 <= i < s.len() {
        match block_end(s, i) {
            Some(e) => if i < e <= s.len() {
                unsettled(s.skip(e))
            } else {
                s
            },
            None => s.skip(i),
        }
    } else {
        s.skip(s.len() - held(s))
    }
}

/// Splits a stream of text into segments as it arrives.
///
/// Text is held back only as long as it is ambiguous: a block that is not closed yet, or a single
/// `$` or `\` at the end that may become a delimiter.
pub struct LatexSplitter {
    buf: Vec<char>,
}

impl View for LatexSplitter {
    type V = Seq<char>;

    /// The text that was received and not handed out yet.
    closed spec fn view(&self) -> Seq<char> {
        self.buf@
    }
}

impl LatexSplitter {
    pub fn new() -> (r: Self)
        ensures
            r@ == Seq::<char>::empty(),
    {
        LatexSplitter { buf: Vec::new() }
    }

    /// Takes a newly arrived chunk and gives the segments that can now be told apart.
    pub fn push(&mut self, chunk: &str) -> (r: Vec<StreamSegment>)
        ensures
            segment_views(r@) == settled(old(self)@ + chunk@),
            final(self)@ == unsettled(old(self)@ + chunk@),
    {
        push_text(&mut self.buf, chunk);
        let mut out: Vec<StreamSegment> = Vec::new();
        let ghost all = self.buf@;
        let mut from: usize = 0;
        let mut keep: usize = 0;
        let n: usize = self.buf.len();
        proof {
            assert(all.skip(0) =~= all);
            assert(segment_views(out@) + settled(all) =~= settled(all));
        }
        loop
            invariant_except_break
                segment_views(out@) + settled(all.skip(from as int)) == settled(all),
                unsettled(all.skip(from as int)) == unsettled(all),
            invariant
                self.buf@ == all,
                n == all.len(),
                from <= n,
            ensures
                self.buf@ == all,
                n == all.len(),
                keep <= n,
                segment_views(out@) == settled(all),
                all.skip(keep as int) == unsettled(all),
            decreases n - from,
        {
            let rest = piece(self.buf.as_slice(), from, n);
            let ghost r = all.skip(from as int);
            assert(rest@ =~= r);
            let i = find_open(rest.as_slice(), 0);
            if i < rest.len() {
                push_run(&mut out, rest.as_slice(), 0, i);
                assert(r.take(i as int) =~= r.subrange(0, i as int));
                match find_block_end(rest.as_slice(), i) {
                    Some(e) => {
                        let ghost a = text_run(r.take(i as int));
                        let ghost b = seq![Segment::Latex(r.subrange(i as int, e as int))];
                        let ghost before = segment_views(out@);
                        push_block(&mut out, rest.as_slice(), i, e);
                        proof {
                            assert(r.skip(e as int) =~= all.skip(from + e));
                            assert(segment_views(out@) + settled(all.skip(from + e))
                                =~= settled(all));
                        }
                        from = from + e;
                    },
                    None => {
                        keep = from + i;
                        assert(r.skip(i as int) =~= all.skip(keep as int));
                        break;
                    },
                }
            } else {
                let m: usize = rest.len();
                let hold: usize = if m > 0 && (rest[m - 1] == '$' || rest[m - 1] == '\\') {
                    1
                } else {
                    0
                };
                push_run(&mut out, rest.as_slice(), 0, m - hold);
                assert(r.take(m - hold) =~= r.subrange(0, m - hold));
                keep = n - hold;
                assert(r.skip(m - hold) =~= all.skip(keep as int));
                break;
            }
        }
        self.buf = piece(self.buf.as_slice(), keep, n);
        assert(self.buf@ =~= all.skip(keep as int));
        out
    }

    /// Ends the stream: what is left is split as a whole text.
    pub fn finish(&mut self) -> (r: Vec<StreamSegment>)
        ensures
            segment_views(r@) == segments(old(self)@),
            final(self)@ == Seq::<char>::empty(),
    {
        let out = split_chars(self.buf.as_slice());
        self.buf = Vec::new();
        out
    }
}

impl Default for LatexSplitter {
    fn default() -> (r: Self)
        ensures
            r@ == Seq::<char>::empty(),
    {
        LatexSplitter::new()
    }
}

// ---------------------------------------------------------------------------
// Streaming and splitting agree
// ---------------------------------------------------------------------------

/// `v` with the text `t` before it, in one run with the text that `v` begins with.
pub open spec fn prepend(t: Seq<char>, v: Seq<Segment>) -> Seq<Segment> {
    if t.len() == 0 {
        v
    } else if v.len() > 0 && v[0] is Text {
        seq![Segment::Text(t + segment_text(v[0]))] + v.skip(1)
    } else {
        seq![Segment::Text(t)] + v
    }
}

/// The segments of `a` and then those of `b`, with neighbouring texts made one.
pub open spec fn merged_onto(a: Seq<Segment>, b: Seq<Segment>) -> Seq<Segment>
    decreases a.len(),
{
    if a.len() == 0 {
        b
    } else {
        match a[0] {
            Segment::Text(t) => prepend(t, merged_onto(a.skip(1), b)),
            Segment::Latex(t) => seq![a[0]] + merged_onto(a.skip(1), b),
        }
    }
}

/// What a splitter has handed out after the given chunks.
pub open spec fn streamed(chunks: Seq<Seq<char>>) -> Seq<Segment>
    decreases chunks.len(),
{
    if chunks.len() == 0 {
        Seq::empty()
    } else {
        streamed(chunks.drop_last()) + settled(pending(chunks.drop_last()) + chunks.last())
    }
}

/// What a splitter still holds after the given chunks.
pub open spec fn pending(chunks: Seq<Seq<char>>) -> Seq<char>
    decreases chunks.len(),
{
    if chunks.len() == 0 {
        Seq::empty()
    } else {
        unsettled(pending(chunks.drop_last()) + chunks.last())
    }
}

/// The chunks one after the other.
pub open spec fn whole(chunks: Seq<Seq<char>>) -> Seq<char>
    decreases chunks.len(),
{
    if chunks.len() == 0 {
        Seq::empty()
    } else {
        whole(chunks.drop_last()) + chunks.last()
    }
}

proof fn merged_onto_add(a: Seq<Segment>, b: Seq<Segment>, c: Seq<Segment>)
    ensures
        merged_onto(a + b, c) == merged_onto(a, merged_onto(b, c)),
    decreases a.len(),
{
    if a.len() == 0 {
        assert(a + b =~= b);
    } else {
        assert((a + b).skip(1) =~= a.skip(1) + b);
        merged_onto_add(a.skip(1), b, c);
    }
}

proof fn merged_run(t: Seq<char>, v: Seq<Segment>)
    ensures
        merged_onto(text_run(t), v) == prepend(t, v),
{
    if t.len() > 0 {
        assert(text_run(t).skip(1) =~= Seq::<Segment>::empty());
        assert(merged_onto(Seq::<Segment>::empty(), v) == v);
    } else {
        assert(merged_onto(Seq::<Segment>::empty(), v) == v);
    }
}

proof fn merged_block(t: Seq<char>, v: Seq<Segment>)
    ensures
        merged_onto(seq![Segment::Latex(t)], v) == seq![Segment::Latex(t)] + v,
{
    let a = seq![Segment::Latex(t)];
    assert(a.skip(1) =~= Seq::<Segment>::empty());
    assert(merged_onto(Seq::<Segment>::empty(), v) == v);
}

proof fn next_open_shift(s: Seq<char>, k: int, pos: int)
    requires
        0 <= k <= pos <= s.len(),
    ensures
        next_open(s, pos) == next_open(s.skip(k), pos - k) + k,
    decreases s.len() - pos,
{
    assert(opens_at(s, pos) == opens_at(s.skip(k), pos - k));
    if pos < s.len() && opens_at(s, pos) is None {
        next_open_shift(s, k, pos + 1);
    }
}

proof fn find_shift(s: Seq<char>, p: Seq<char>, k: int, from: int)
    requires
        0 <= k <= from,
        k <= s.len(),
    ensures
        text::find(s, p, from) == match text::find(s.skip(k), p, from - k) {
            Some(e) => Some(e + k),
            None => None,
        },
    decreases s.len() - from + 1,
{
    if from + p.len() <= s.len() {
        assert(s.skip(k).subrange(from - k, from - k + p.len()) =~= s.subrange(
            from,
            from + p.len(),
        ));
        if !text::occurs_at(s, p, from) {
            find_shift(s, p, k, from + 1);
        }
    }
}

proof fn segments_shift(s: Seq<char>, k: int, start: int, pos: int)
    requires
        0 <= k <= start <= pos <= s.len(),
    ensures
        segments_from(s, start, pos) == segments_from(s.skip(k), start - k, pos - k),
    decreases s.len() - pos,
{
    let t = s.skip(k);
    let i = next_open(s, pos);
    next_open_bounds(s, pos);
    next_open_shift(s, k, pos);
    if i < s.len() {
        block_end_bounds(s, i);
        assert(opens_at(s, i) == opens_at(t, i - k));
        find_shift(s, closing(opens_at(s, i)->0), k, i + 2);
        match block_end(s, i) {
            Some(e) => {
                assert(t.subrange(start - k, i - k) =~= s.subrange(start, i));
                assert(t.subrange(i - k, e - k) =~= s.subrange(i, e));
                segments_shift(s, k, e, e);
            },
            None => {
                segments_shift(s, k, start, i + 1);
            },
        }
    } else {
        assert(t.skip(start - k) =~= s.skip(start));
    }
}

proof fn segments_prepend(s: Seq<char>, start: int, mid: int, pos: int)
    requires
        0 <= start <= mid <= pos <= s.len(),
    ensures
        segments_from(s, start, pos) == prepend(
            s.subrange(start, mid),
            segments_from(s, mid, pos),
        ),
    decreases s.len() - pos,
{
    let i = next_open(s, pos);
    let x = s.subrange(start, mid);
    next_open_bounds(s, pos);
    if i < s.len() {
        block_end_bounds(s, i);
        match block_end(s, i) {
            Some(e) => {
                let y = s.subrange(mid, i);
                let rest = seq![Segment::Latex(s.subrange(i, e))] + segments_from(s, e, e);
                assert(s.subrange(start, i) =~= x + y);
                assert(segments_from(s, mid, pos) =~= text_run(y) + rest);
                assert(segments_from(s, start, pos) =~= text_run(x + y) + rest);
                if y.len() == 0 {
                    assert(text_run(y) + rest =~= rest);
                    assert(x + y =~= x);
                } else {
                    assert((text_run(y) + rest).skip(1) =~= rest);
                }
                if x.len() == 0 {
                    assert(x + y =~= y);
                }
            },
            None => {
                segments_prepend(s, start, mid, i + 1);
            },
        }
    } else {
        let y = s.skip(mid);
        assert(s.skip(start) =~= x + y);
        if x.len() == 0 {
            assert(x + y =~= y);
        }
        if y.len() == 0 {
            assert(x + y =~= x);
            assert(seq![Segment::Text(x)] + text_run(y) =~= seq![Segment::Text(x)]);
        } else {
            assert(text_run(y).skip(1) =~= Seq::<Segment>::empty());
            assert(seq![Segment::Text(x + y)] + text_run(y).skip(1) =~= seq![Segment::Text(x + y)]);
        }
    }
}

proof fn next_open_skip(s: Seq<char>, a: int, k: int)
    requires
        0 <= a <= k <= s.len(),
        forall|j: int| a <= j < k ==> opens_at(s, j) is None,
    ensures
        next_open(s, a) == next_open(s, k),
    decreases k - a,
{
    if a < k {
        next_open_skip(s, a + 1, k);
    }
}

proof fn segments_after_text(s: Seq<char>, k: int)
    requires
        0 <= k <= s.len(),
        forall|j: int| 0 <= j < k ==> opens_at(s, j) is None,
    ensures
        segments(s) == prepend(s.take(k), segments(s.skip(k))),
{
    next_open_skip(s, 0, k);
    next_open_bounds(s, k);
    assert(segments_from(s, 0, 0) == segments_from(s, 0, k));
    segments_prepend(s, 0, k, k);
    segments_shift(s, k, k, k);
    assert(s.subrange(0, k) =~= s.take(k));
}

proof fn find_extend(s: Seq<char>, b: Seq<char>, p: Seq<char>, from: int)
    requires
        0 <= from,
        text::find(s, p, from) is Some,
    ensures
        text::find(s + b, p, from) == text::find(s, p, from),
    decreases s.len() - from + 1,
{
    assert((s + b).subrange(from, from + p.len()) =~= s.subrange(from, from + p.len()));
    if !text::occurs_at(s, p, from) {
        find_extend(s, b, p, from + 1);
    }
}

proof fn next_open_extend(s: Seq<char>, b: Seq<char>, pos: int)
    requires
        0 <= pos <= s.len(),
        next_open(s, pos) < s.len(),
    ensures
        next_open(s + b, pos) == next_open(s, pos),
    decreases s.len() - pos,
{
    next_open_bounds(s, pos);
    assert(pos + 1 < s.len() ==> opens_at(s + b, pos) == opens_at(s, pos));
    if opens_at(s, pos) is None {
        next_open_extend(s, b, pos + 1);
    }
}

proof fn settling_keeps_segments(s: Seq<char>, b: Seq<char>)
    ensures
        merged_onto(settled(s), segments(unsettled(s) + b)) == segments(s + b),
    decreases s.len(),
{
    let i = next_open(s, 0);
    next_open_bounds(s, 0);
    if i < s.len() {
        block_end_bounds(s, i);
        next_open_extend(s, b, 0);
        assert(opens_at(s + b, i) == opens_at(s, i));
        match block_end(s, i) {
            Some(e) => {
                let x = s.take(i);
                let y = s.subrange(i, e);
                let z = segments(unsettled(s.skip(e)) + b);
                settling_keeps_segments(s.skip(e), b);
                find_extend(s, b, closing(opens_at(s, i)->0), i + 2);
                let rest = segments(s.skip(e) + b);
                merged_onto_add(text_run(x) + seq![Segment::Latex(y)], settled(s.skip(e)), z);
                merged_onto_add(text_run(x), seq![Segment::Latex(y)], rest);
                merged_block(y, rest);
                merged_run(x, seq![Segment::Latex(y)] + rest);
                assert((s + b).subrange(0, i) =~= x);
                assert((s + b).subrange(i, e) =~= y);
                assert((s + b).skip(e) =~= s.skip(e) + b);
                segments_shift(s + b, e, e, e);
                assert(segments(s + b) == text_run(x) + seq![Segment::Latex(y)] + rest);
                assert(text_run(x) + seq![Segment::Latex(y)] + rest =~= prepend(
                    x,
                    seq![Segment::Latex(y)] + rest,
                ));
            },
            None => {
                merged_run(s.take(i), segments(s.skip(i) + b));
                assert forall|j: int| 0 <= j < i implies opens_at(s + b, j) is None by {
                    assert(opens_at(s, j) is None);
                }
                segments_after_text(s + b, i);
                assert((s + b).take(i) =~= s.take(i));
                assert((s + b).skip(i) =~= s.skip(i) + b);
            },
        }
    } else {
        let k = s.len() - held(s);
        merged_run(s.take(k), segments(s.skip(k) + b));
        assert forall|j: int| 0 <= j < k implies opens_at(s + b, j) is None by {
            assert(opens_at(s, j) is None);
        }
        segments_after_text(s + b, k);
        assert((s + b).take(k) =~= s.take(k));
        assert((s + b).skip(k) =~= s.skip(k) + b);
    }
}

proof fn streaming_keeps_segments(chunks: Seq<Seq<char>>, b: Seq<char>)
    ensures
        merged_onto(streamed(chunks), segments(pending(chunks) + b)) == segments(whole(chunks) + b),
    decreases chunks.len(),
{
    if chunks.len() == 0 {
        assert(pending(chunks) =~= whole(chunks));
    } else {
        let first = chunks.drop_last();
        let s = pending(first) + chunks.last();
        settling_keeps_segments(s, b);
        merged_onto_add(streamed(first), settled(s), segments(unsettled(s) + b));
        streaming_keeps_segments(first, chunks.last() + b);
        assert(s + b =~= pending(first) + (chunks.last() + b));
        assert(whole(chunks) + b =~= whole(first) + (chunks.last() + b));
    }
}

/// However a text is cut into chunks, a splitter that takes them one by one and is then finished
/// hands out the segments of the whole text, but for plain text that comes in several pieces.
pub proof fn streaming_matches_splitting(chunks: Seq<Seq<char>>)
    ensures
        merged_onto(streamed(chunks), segments(pending(chunks))) == segments(whole(chunks)),
{
    streaming_keeps_segments(chunks, Seq::empty());
    assert(pending(chunks) + Seq::<char>::empty() =~= pending(chunks));
    assert(whole(chunks) + Seq::<char>::empty() =~= whole(chunks));
}

} // verus!
