//! The history of the lines that the user typed.

use vstd::prelude::*;
use vstd::utf8::*;
use crate::text;
use crate::text::{find_from, from_chars, piece, same, starts_with, to_chars};

verus! {

/// A line of the history and its number.
#[derive(Debug, PartialEq, Eq)]
pub struct HistoryEntry {
    pub id: usize,
    pub entry: String,
}

/// The history. Numbers are never given twice, so that they grow from line to line.
pub struct DbHistory {
    pub entries: Vec<HistoryEntry>,
    pub next_id: usize,
    pub max_len: usize,
    pub ignore_space: bool,
    pub ignore_dups: bool,
}

/// The direction of a search.
#[derive(Clone, Copy, Debug, PartialEq, Eq, Structural)]
pub enum SearchDirection {
    Forward,
    Reverse,
}

/// A line that was found: its text, its position, and the byte at which the cursor is put.
#[derive(Debug, PartialEq, Eq)]
pub struct SearchResult {
    pub entry: String,
    pub idx: usize,
    pub pos: usize,
}

/// What is looked for.
pub enum Query<'a> {
    /// Any line.
    Any,
    /// A line that holds the text, in whatever case.
    Holds(&'a str),
    /// A line that begins with the text, in whatever case.
    Begins(&'a str),
}

/// A letter of the English alphabet in lower case; any other character as it is.
pub open spec fn lower(c: char) -> char {
    if 'A' <= c <= 'Z' {
        ((c as int) + 32) as char
    } else {
        c
    }
}

/// A text with its letters in lower case.
pub open spec fn lowered(s: Seq<char>) -> Seq<char> {
    Seq::new(s.len(), |i: int| lower(s[i]))
}

/// A line that is looked for.
pub open spec fn wanted(q: Query<'_>, entry: Seq<char>) -> bool {
    match q {
        Query::Any => true,
        Query::Holds(t) => text::contains(lowered(entry), lowered(t@)),
        Query::Begins(t) => text::begins(lowered(entry), lowered(t@)),
    }
}

/// The numbers grow from line to line, and none has been given out yet from `next` on.
pub open spec fn numbered(v: Seq<HistoryEntry>, next: usize) -> bool {
    &&& next >= 1
    &&& forall|i: int| 0 <= i < v.len() ==> 1 <= (#[trigger] v[i]).id < next
    &&& forall|i: int, j: int| 0 <= i < j < v.len() ==> (#[trigger] v[i]).id < (#[trigger] v[j]).id
}

/// The lines of a history.
pub open spec fn lines_of(v: Seq<HistoryEntry>) -> Seq<Seq<char>> {
    Seq::new(v.len(), |i: int| v[i].entry@)
}

/// The newest lines, at most `max` of them.
pub open spec fn newest<T>(v: Seq<T>, max: int) -> Seq<T> {
    if v.len() > max {
        v.skip(v.len() - max)
    } else {
        v
    }
}

/// The position of the line that a search finds: the nearest one from the given number on, in the
/// given direction.
pub open spec fn is_hit(
    v: Seq<HistoryEntry>,
    q: Query<'_>,
    from: int,
    dir: SearchDirection,
    i: int,
) -> bool {
    &&& 0 <= i < v.len()
    &&& wanted(q, v[i].entry@)
    &&& match dir {
        SearchDirection::Forward => v[i].id >= from && forall|j: int|
            0 <= j < i && (#[trigger] v[j]).id >= from ==> !wanted(q, v[j].entry@),
        SearchDirection::Reverse => v[i].id <= from && forall|j: int|
            i < j < v.len() && (#[trigger] v[j]).id <= from ==> !wanted(q, v[j].entry@),
    }
}

/// A line that a search could find.
pub open spec fn reachable(
    e: HistoryEntry,
    q: Query<'_>,
    from: int,
    dir: SearchDirection,
) -> bool {
    wanted(q, e.entry@) && (match dir {
        SearchDirection::Forward => e.id >= from,
        SearchDirection::Reverse => e.id <= from,
    })
}

fn lower_chars(s: &str) -> (r: Vec<char>)
    ensures
        r@ == lowered(s@),
{
    let c = to_chars(s);
    let mut r: Vec<char> = Vec::new();
    let mut i: usize = 0;
    while i < c.len()
        invariant
            i <= c@.len(),
            c@ == s@,
            r@ =~= lowered(s@).take(i as int),
        decreases c@.len() - i,
    {
        let ch = c[i];
        let l = if 'A' <= ch && ch <= 'Z' {
            (ch as u8 + 32) as char
        } else {
            ch
        };
        assert(l == lower(s@[i as int]));
        r.push(l);
        assert(lowered(s@).take(i + 1) =~= lowered(s@).take(i as int).push(lower(s@[i as int])));
        i += 1;
    }
    assert(lowered(s@).take(s@.len() as int) =~= lowered(s@));
    r
}

fn is_wanted(q: &Query<'_>, entry: &str) -> (r: bool)
    ensures
        r == wanted(*q, entry@),
{
    match q {
        Query::Any => true,
        Query::Holds(t) => {
            let e = lower_chars(entry);
            let p = lower_chars(t);
            find_from(e.as_slice(), p.as_slice(), 0).is_some()
        },
        Query::Begins(t) => {
            let e = lower_chars(entry);
            let p = lower_chars(t);
            starts_with(e.as_slice(), p.as_slice())
        },
    }
}

impl DbHistory {
    /// An empty history.
    pub fn new() -> (r: Self)
        ensures
            r.wf(),
            r.entries@.len() == 0,
            r.next_id == 1,
            r.max_len == 1000,
            !r.ignore_space,
            r.ignore_dups,
    {
        DbHistory {
            entries: Vec::new(),
            next_id: 1,
            max_len: 1000,
            ignore_space: false,
            ignore_dups: true,
        }
    }

    /// The numbers grow.
    pub open spec fn wf(self) -> bool {
        numbered(self.entries@, self.next_id)
    }

    /// A line that is not kept: where nothing is, where it is empty, or where it begins with a
    /// space and such lines are ignored.
    pub open spec fn ignored(self, line: Seq<char>) -> bool {
        self.max_len == 0 || line.len() == 0 || (self.ignore_space && line[0] == ' ')
    }

    /// A line that is the last one already.
    pub open spec fn repeated(self, line: Seq<char>) -> bool {
        self.ignore_dups && self.entries@.len() > 0 && self.entries@.last().entry@ == line
    }

    /// Whether a line is not kept.
    pub fn ignore(&self, line: &str) -> (r: bool)
        ensures
            r == self.ignored(line@),
    {
        let c = to_chars(line);
        self.max_len == 0 || c.len() == 0 || (self.ignore_space && c[0] == ' ')
    }

    /// Whether a line is the last one already.
    pub fn is_dup(&self, line: &str) -> (r: bool)
        ensures
            r == self.repeated(line@),
    {
        let n = self.entries.len();
        self.ignore_dups && n > 0 && same(self.entries[n - 1].entry.as_str(), line)
    }

    fn enforce_max_len(&mut self)
        requires
            old(self).wf(),
        ensures
            final(self).wf(),
            final(self).entries@ == newest(old(self).entries@, old(self).max_len as int),
            final(self).next_id == old(self).next_id,
            final(self).max_len == old(self).max_len,
            final(self).ignore_space == old(self).ignore_space,
            final(self).ignore_dups == old(self).ignore_dups,
    {
        let n = self.entries.len();
        if n > self.max_len {
            let ghost v = self.entries@;
            let k: usize = n - self.max_len;
            let kept = self.entries.split_off(k);
            self.entries = kept;
            assert(self.entries@ =~= v.skip(k as int));
        }
    }

    /// Adds a line; says whether it was kept. The oldest lines go where there are too many.
    pub fn add(&mut self, line: &str) -> (r: bool)
        requires
            old(self).wf(),
            old(self).next_id < usize::MAX,
        ensures
            final(self).wf(),
            r == !(old(self).ignored(line@) || old(self).repeated(line@)),
            final(self).max_len == old(self).max_len,
            final(self).ignore_space == old(self).ignore_space,
            final(self).ignore_dups == old(self).ignore_dups,
            lines_of(final(self).entries@) == (if r {
                newest(lines_of(old(self).entries@).push(line@), old(self).max_len as int)
            } else {
                lines_of(old(self).entries@)
            }),
            r ==> final(self).entries@.last().id == old(self).next_id,
            final(self).next_id == (if r {
                old(self).next_id + 1
            } else {
                old(self).next_id as int
            }),
    {
        if self.ignore(line) || self.is_dup(line) {
            return false;
        }
        let ghost v = self.entries@;
        let e = HistoryEntry { id: self.next_id, entry: line.to_owned() };
        self.entries.push(e);
        self.next_id = self.next_id + 1;
        proof {
            assert(lines_of(self.entries@) =~= lines_of(v).push(line@));
        }
        let ghost w = self.entries@;
        self.enforce_max_len();
        proof {
            assert(lines_of(newest(w, self.max_len as int)) =~= newest(
                lines_of(w),
                self.max_len as int,
            ));
            assert(newest(w, self.max_len as int).last() == w.last());
        }
        true
    }

    /// The number of lines.
    pub fn len(&self) -> (r: usize)
        ensures
            r == self.entries@.len(),
    {
        self.entries.len()
    }

    /// Whether there are no lines.
    pub fn is_empty(&self) -> (r: bool)
        ensures
            r == (self.entries@.len() == 0),
    {
        self.entries.len() == 0
    }

    /// Sets the most lines that are kept.
    pub fn set_max_len(&mut self, len: usize)
        requires
            old(self).wf(),
        ensures
            final(self).wf(),
            final(self).max_len == len,
            final(self).entries@ == newest(old(self).entries@, len as int),
            final(self).next_id == old(self).next_id,
            final(self).ignore_space == old(self).ignore_space,
            final(self).ignore_dups == old(self).ignore_dups,
    {
        self.max_len = len;
        self.enforce_max_len();
    }

    /// Forgets all lines. Their numbers are not given again.
    pub fn clear(&mut self)
        requires
            old(self).wf(),
        ensures
            final(self).wf(),
            final(self).entries@.len() == 0,
            final(self).next_id == old(self).next_id,
            final(self).max_len == old(self).max_len,
            final(self).ignore_space == old(self).ignore_space,
            final(self).ignore_dups == old(self).ignore_dups,
    {
        self.entries = Vec::new();
    }

    /// The position of the nearest line that is looked for, or the number of lines.
    pub fn find(&self, q: &Query<'_>, from: usize, dir: SearchDirection) -> (r: usize)
        requires
            self.wf(),
        ensures
            r <= self.entries@.len(),
            r < self.entries@.len() ==> is_hit(self.entries@, *q, from as int, dir, r as int),
            r == self.entries@.len() ==> forall|i: int|
                0 <= i < self.entries@.len() ==> !reachable(
                    #[trigger] self.entries@[i],
                    *q,
                    from as int,
                    dir,
                ),
    {
        let n = self.entries.len();
        match dir {
            SearchDirection::Forward => {
                let mut i: usize = 0;
                while i < n && !(self.entries[i].id >= from && is_wanted(
                    q,
                    self.entries[i].entry.as_str(),
                ))
                    invariant
                        i <= n == self.entries@.len(),
                        forall|j: int|
                            0 <= j < i && (#[trigger] self.entries@[j]).id >= from ==> !wanted(
                                *q,
                                self.entries@[j].entry@,
                            ),
                    decreases n - i,
                {
                    i += 1;
                }
                i
            },
            SearchDirection::Reverse => {
                let mut i: usize = n;
                while i > 0 && !(self.entries[i - 1].id <= from && is_wanted(
                    q,
                    self.entries[i - 1].entry.as_str(),
                ))
                    invariant
                        i <= n == self.entries@.len(),
                        forall|j: int|
                            i <= j < n && (#[trigger] self.entries@[j]).id <= from ==> !wanted(
                                *q,
                                self.entries@[j].entry@,
                            ),
                    decreases i,
                {
                    i -= 1;
                }
                if i == 0 {
                    n
                } else {
                    i - 1
                }
            },
        }
    }

    /// The line at a position, or the nearest one in the given direction.
    pub fn get(&self, index: usize, dir: SearchDirection) -> (r: Option<SearchResult>)
        requires
            self.wf(),
            index < usize::MAX,
        ensures
            match r {
                Some(f) => f.pos == 0 && exists|i: int|
                    #![trigger self.entries@[i]]
                    is_hit(self.entries@, Query::Any, index + 1, dir, i) && f.entry@
                        == self.entries@[i].entry@ && f.idx == self.entries@[i].id - 1,
                None => forall|i: int|
                    0 <= i < self.entries@.len() ==> !reachable(
                        #[trigger] self.entries@[i],
                        Query::Any,
                        index + 1,
                        dir,
                    ),
            },
    {
        let i = self.find(&Query::Any, index + 1, dir);
        if i < self.entries.len() {
            let e = &self.entries[i];
            assert(is_hit(self.entries@, Query::Any, index + 1, dir, i as int));
            assert(self.entries@[i as int].id >= 1);
            Some(SearchResult { entry: e.entry.clone(), idx: e.id - 1, pos: 0 })
        } else {
            None
        }
    }

    /// The nearest line that holds a text, in whatever case. Nothing is found for an empty text, or
    /// from a position beyond the number of lines.
    pub fn search(&self, term: &str, start: usize, dir: SearchDirection) -> (r: Option<
        SearchResult,
    >)
        requires
            self.wf(),
        ensures
            match r {
                Some(f) => {
                    &&& term@.len() > 0
                    &&& start < self.entries@.len()
                    &&& f.pos == cursor(f.entry@, term@)
                    &&& exists|i: int|
                        #![trigger self.entries@[i]]
                        is_hit(self.entries@, Query::Holds(term), start + 1, dir, i) && f.entry@
                            == self.entries@[i].entry@ && f.idx == self.entries@[i].id - 1
                },
                None => term@.len() == 0 || start >= self.entries@.len() || forall|i: int|
                    0 <= i < self.entries@.len() ==> !reachable(
                        #[trigger] self.entries@[i],
                        Query::Holds(term),
                        start + 1,
                        dir,
                    ),
            },
    {
        if term.is_empty() || start >= self.entries.len() {
            return None;
        }
        let q = Query::Holds(term);
        let i = self.find(&q, start + 1, dir);
        if i < self.entries.len() {
            let e = &self.entries[i];
            let pos = cursor_byte(e.entry.as_str(), term);
            assert(is_hit(self.entries@, Query::Holds(term), start + 1, dir, i as int));
            assert(self.entries@[i as int].id >= 1);
            Some(SearchResult { entry: e.entry.clone(), idx: e.id - 1, pos })
        } else {
            None
        }
    }

    /// The nearest line that begins with a text, in whatever case. Nothing is found for an empty
    /// text, or from a position beyond the number of lines.
    pub fn starts_with(&self, term: &str, start: usize, dir: SearchDirection) -> (r: Option<
        SearchResult,
    >)
        requires
            self.wf(),
        ensures
            match r {
                Some(f) => {
                    &&& term@.len() > 0
                    &&& start < self.entries@.len()
                    &&& f.pos == encode_utf8(term@).len()
                    &&& exists|i: int|
                        #![trigger self.entries@[i]]
                        is_hit(self.entries@, Query::Begins(term), start + 1, dir, i) && f.entry@
                            == self.entries@[i].entry@ && f.idx == self.entries@[i].id - 1
                },
                None => term@.len() == 0 || start >= self.entries@.len() || forall|i: int|
                    0 <= i < self.entries@.len() ==> !reachable(
                        #[trigger] self.entries@[i],
                        Query::Begins(term),
                        start + 1,
                        dir,
                    ),
            },
    {
        if term.is_empty() || start >= self.entries.len() {
            return None;
        }
        let q = Query::Begins(term);
        let i = self.find(&q, start + 1, dir);
        if i < self.entries.len() {
            let e = &self.entries[i];
            let pos = term.as_bytes().len();
            assert(is_hit(self.entries@, Query::Begins(term), start + 1, dir, i as int));
            assert(self.entries@[i as int].id >= 1);
            Some(SearchResult { entry: e.entry.clone(), idx: e.id - 1, pos })
        } else {
            None
        }
    }
}

/// The byte at which a text stands in a line in the very same case; the start of the line where it
/// does not.
pub open spec fn cursor(entry: Seq<char>, term: Seq<char>) -> nat {
    match text::find(entry, term, 0) {
        Some(k) => encode_utf8(entry.take(k)).len(),
        None => 0,
    }
}

fn cursor_byte(entry: &str, term: &str) -> (r: usize)
    ensures
        r == cursor(entry@, term@),
{
    let e = to_chars(entry);
    let t = to_chars(term);
    match find_from(e.as_slice(), t.as_slice(), 0) {
        Some(k) => {
            let head = piece(e.as_slice(), 0, k);
            assert(head@ =~= entry@.take(k as int));
            let h = from_chars(head.as_slice());
            h.as_str().as_bytes().len()
        },
        None => 0,
    }
}

/// No more lines are kept than the history may hold, and the newest line is the last one.
pub proof fn history_is_bounded(lines: Seq<Seq<char>>, line: Seq<char>, max: int)
    requires
        max > 0,
    ensures
        newest(lines.push(line), max).len() <= max,
        newest(lines.push(line), max).last() == line,
{
}

/// Where there are too many lines, the oldest go, and the others stay in their order.
pub proof fn the_oldest_lines_go<T>(v: Seq<T>, max: int)
    requires
        max >= 0,
    ensures
        ({
            let w = newest(v, max);
            &&& w.len() == if v.len() <= max {
                v.len() as int
            } else {
                max
            }
            &&& forall|i: int| 0 <= i < w.len() ==> #[trigger] w[i] == v[v.len() - w.len() + i]
        }),
{
}

/// The same character, but for the case of an English letter.
pub open spec fn same_letter(a: char, b: char) -> bool {
    ||| a == b
    ||| 'A' <= a <= 'Z' && b as int == a as int + 32
    ||| 'A' <= b <= 'Z' && a as int == b as int + 32
}

/// The characters of `t` stand in `s` from position `i` on, in whatever case.
pub open spec fn stands_alike(s: Seq<char>, t: Seq<char>, i: int) -> bool {
    &&& 0 <= i
    &&& i + t.len() <= s.len()
    &&& forall|k: int| 0 <= k < t.len() ==> same_letter(s[i + k], #[trigger] t[k])
}

proof fn lower_is_alike(a: char, b: char)
    ensures
        (lower(a) == lower(b)) == same_letter(a, b),
{
}

proof fn alike_is_lowered(s: Seq<char>, t: Seq<char>, i: int)
    ensures
        stands_alike(s, t, i) == text::occurs_at(lowered(s), lowered(t), i),
{
    let a = lowered(s);
    let p = lowered(t);
    if 0 <= i && i + t.len() <= s.len() {
        let w = a.subrange(i, i + p.len());
        if stands_alike(s, t, i) {
            assert forall|k: int| 0 <= k < p.len() implies w[k] == p[k] by {
                assert(same_letter(s[i + k], t[k]));
                lower_is_alike(s[i + k], t[k]);
            }
            assert(w =~= p);
        }
        if w == p {
            assert forall|k: int| 0 <= k < t.len() implies same_letter(
                s[i + k],
                #[trigger] t[k],
            ) by {
                assert(w[k] == p[k]);
                lower_is_alike(s[i + k], t[k]);
            }
        }
    }
}

/// A search finds the lines that hold the text, in whatever case, and a search by the beginning
/// those that begin with it.
pub proof fn searches_ignore_case(term: &str, entry: Seq<char>)
    ensures
        wanted(Query::Any, entry),
        wanted(Query::Holds(term), entry) <==> exists|i: int|
            #[trigger] stands_alike(entry, term@, i),
        wanted(Query::Begins(term), entry) <==> stands_alike(entry, term@, 0),
{
    let a = lowered(entry);
    let p = lowered(term@);
    assert forall|i: int| #[trigger] stands_alike(entry, term@, i) == text::occurs_at(a, p, i) by {
        alike_is_lowered(entry, term@, i);
    }
    text::find_is_first(a, p, 0);
    if wanted(Query::Holds(term), entry) {
        let i = choose|i: int| #[trigger] text::occurs_at(a, p, i);
        alike_is_lowered(entry, term@, i);
    }
    if exists|i: int| #[trigger] stands_alike(entry, term@, i) {
        let i = choose|i: int| #[trigger] stands_alike(entry, term@, i);
        assert(text::occurs_at(a, p, i));
    }
    if p.len() <= a.len() {
        assert(a.take(p.len() as int) =~= a.subrange(0, p.len() as int));
    }
}

/// A line is kept unless it is empty, nothing is to be kept, it begins with a blank that is to be
/// ignored, or it repeats the last one where repetitions are to be ignored.
pub proof fn lines_are_kept(h: DbHistory, line: Seq<char>)
    ensures
        h.ignored(line) <==> line.len() == 0 || h.max_len == 0 || (h.ignore_space && line[0] == ' '),
        h.repeated(line) <==> h.ignore_dups && h.entries@.len() > 0 && lines_of(h.entries@).last()
            == line,
{
}

} // verus!
