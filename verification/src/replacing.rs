//! What it means to find and to replace a text.

use vstd::prelude::*;
use crate::text;
use crate::text_laws;
use crate::words;

verus! {

/// The characters of `p` stand in `s`, one after the other, from position `i` on.
pub open spec fn stands(s: Seq<char>, p: Seq<char>, i: int) -> bool {
    &&& 0 <= i
    &&& i + p.len() <= s.len()
    &&& forall|k: int| 0 <= k < p.len() ==> s[i + k] == #[trigger] p[k]
}

/// `p` stands in `s` at `i`, and nowhere before.
pub open spec fn stands_first(s: Seq<char>, p: Seq<char>, i: int) -> bool {
    stands(s, p, i) && forall|j: int| j < i ==> !#[trigger] stands(s, p, j)
}

/// `parts` are what remains of `s` when it is cut, from the left, at each match of `p`.
pub open spec fn is_cut(s: Seq<char>, p: Seq<char>, parts: Seq<Seq<char>>) -> bool {
    &&& parts.len() > 0
    &&& words::joined(parts, p) == s
    &&& forall|k: int|
        0 <= k < parts.len() - 1 ==> stands_first(
            #[trigger] parts[k] + p,
            p,
            parts[k].len() as int,
        )
    &&& forall|j: int| !#[trigger] stands(parts.last(), p, j)
}

pub(crate) proof fn stands_is_occurs(s: Seq<char>, p: Seq<char>, i: int)
    ensures
        stands(s, p, i) == text::occurs_at(s, p, i),
{
    if 0 <= i && i + p.len() <= s.len() {
        let w = s.subrange(i, i + p.len());
        if stands(s, p, i) {
            assert forall|k: int| 0 <= k < w.len() implies w[k] == p[k] by {
                assert(s[i + k] == p[k]);
            }
            assert(w =~= p);
        }
        if w == p {
            assert forall|k: int| 0 <= k < p.len() implies s[i + k] == #[trigger] p[k] by {
                assert(w[k] == p[k]);
            }
        }
    }
}

/// A search gives the first place at which the text stands, and nothing just where it stands
/// nowhere.
pub proof fn searching_gives_the_first_place(s: Seq<char>, p: Seq<char>)
    ensures
        forall|i: int| text::find(s, p, 0) == Some(i) <==> #[trigger] stands_first(s, p, i),
        text::find(s, p, 0) is None <==> forall|i: int| !#[trigger] stands(s, p, i),
{
    text::find_is_first(s, p, 0);
    assert forall|i: int| stands(s, p, i) == #[trigger] text::occurs_at(s, p, i) by {
        stands_is_occurs(s, p, i);
    }
    assert forall|i: int| #[trigger] stands(s, p, i) == text::occurs_at(s, p, i) by {
        stands_is_occurs(s, p, i);
    }
    match text::find(s, p, 0) {
        Some(f) => {
            assert(text::occurs_at(s, p, f));
            assert(stands(s, p, f));
            assert forall|i: int| text::find(s, p, 0) == Some(i) <==> #[trigger] stands_first(
                s,
                p,
                i,
            ) by {
                if stands_first(s, p, i) && i < f {
                    assert(text::occurs_at(s, p, i));
                }
                if i == f {
                    assert forall|j: int| j < i implies !#[trigger] stands(s, p, j) by {
                        if stands(s, p, j) {
                            assert(text::occurs_at(s, p, j));
                        }
                    }
                }
            }
        },
        None => {
            assert forall|i: int| !#[trigger] stands(s, p, i) by {
                if stands(s, p, i) {
                    assert(text::occurs_at(s, p, i));
                }
            }
        },
    }
}

proof fn searching_further(s: Seq<char>, p: Seq<char>, from: int)
    requires
        0 <= from <= s.len(),
    ensures
        text::find(s, p, from) == (match text::find(s.skip(from), p, 0) {
            Some(i) => Some(from + i),
            None => None,
        }),
{
    let t = s.skip(from);
    text::find_is_first(s, p, from);
    text::find_is_first(t, p, 0);
    assert forall|j: int| 0 <= j implies #[trigger] text::occurs_at(t, p, j) == text::occurs_at(
        s,
        p,
        from + j,
    ) by {
        if j + p.len() <= t.len() {
            assert(t.subrange(j, j + p.len()) =~= s.subrange(from + j, from + j + p.len()));
        }
    }
    match text::find(s, p, from) {
        Some(i) => {
            assert(text::occurs_at(t, p, i - from));
            if text::find(t, p, 0) is Some {
                let k = text::find(t, p, 0)->0;
                assert(text::occurs_at(s, p, from + k));
            }
        },
        None => {
            if text::find(t, p, 0) is Some {
                let k = text::find(t, p, 0)->0;
                assert(text::occurs_at(s, p, from + k));
            }
        },
    }
}

proof fn replacing_further(s: Seq<char>, p: Seq<char>, r: Seq<char>, from: int)
    requires
        p.len() > 0,
        0 <= from <= s.len(),
    ensures
        text::replaced_from(s, p, r, from, from) == text::replaced_from(s.skip(from), p, r, 0, 0),
        text::match_count(s, p, from) == text::match_count(s.skip(from), p, 0),
    decreases s.len() - from,
{
    let t = s.skip(from);
    searching_further(s, p, from);
    text::find_is_first(t, p, 0);
    assert(t.skip(0) =~= t);
    if let Some(i) = text::find(t, p, 0) {
        let n = i + p.len();
        replacing_further(s, p, r, from + n);
        replacing_further(t, p, r, n);
        assert(t.skip(n) =~= s.skip(from + n));
        assert(t.subrange(0, i) =~= s.subrange(from, from + i));
    }
}

/// Replacing every match puts the new text where the old one was cut out, and changes nothing
/// else; there are as many matches as cuts.
pub proof fn replacing_fills_the_cuts(
    s: Seq<char>,
    p: Seq<char>,
    r: Seq<char>,
    parts: Seq<Seq<char>>,
)
    requires
        p.len() > 0,
        is_cut(s, p, parts),
    ensures
        text::replaced(s, p, r) == words::joined(parts, r),
        text::match_count(s, p, 0) == parts.len() - 1,
    decreases parts.len(),
{
    searching_gives_the_first_place(s, p);
    let head = parts[0];
    if parts.len() == 1 {
        assert(parts.last() == s);
        assert(s.skip(0) =~= s);
    } else {
        let rest = parts.skip(1);
        assert(parts =~= seq![head] + rest);
        text_laws::joined_first(head, rest, p);
        text_laws::joined_first(head, rest, r);
        let t = words::joined(rest, p);
        let n = head.len() as int;
        assert(s =~= head + p + t);
        assert(stands_first(head + p, p, n));
        assert(stands_first(s, p, n)) by {
            assert forall|k: int| 0 <= k < p.len() implies s[n + k] == #[trigger] p[k] by {
                assert((head + p)[n + k] == p[k]);
            }
            assert forall|j: int| j < n implies !#[trigger] stands(s, p, j) by {
                if stands(s, p, j) {
                    assert(stands(head + p, p, j)) by {
                        assert forall|k: int| 0 <= k < p.len() implies (head + p)[j + k]
                            == #[trigger] p[k] by {
                            assert(s[j + k] == p[k]);
                            assert((head + p)[j + k] == s[j + k]);
                        }
                    }
                }
            }
        }
        assert(s.skip(n + p.len()) =~= t);
        assert(s.subrange(0, n) =~= head);
        assert(is_cut(t, p, rest)) by {
            assert forall|k: int| 0 <= k < rest.len() - 1 implies stands_first(
                #[trigger] rest[k] + p,
                p,
                rest[k].len() as int,
            ) by {
                assert(rest[k] == parts[k + 1]);
            }
            assert(rest.last() == parts.last());
        }
        replacing_fills_the_cuts(t, p, r, rest);
        replacing_further(s, p, r, n + p.len());
    }
}

/// Every text can be cut at the matches of another one.
pub proof fn every_text_can_be_cut(s: Seq<char>, p: Seq<char>) -> (parts: Seq<Seq<char>>)
    requires
        p.len() > 0,
    ensures
        is_cut(s, p, parts),
    decreases s.len(),
{
    searching_gives_the_first_place(s, p);
    match text::find(s, p, 0) {
        None => {
            let parts = seq![s];
            assert(words::joined(parts, p) == s);
            assert(parts.last() == s);
            parts
        },
        Some(n) => {
            assert(stands_first(s, p, n));
            let head = s.take(n);
            let t = s.skip(n + p.len());
            let rest = every_text_can_be_cut(t, p);
            let parts = seq![head] + rest;
            text_laws::joined_first(head, rest, p);
            assert(head + p + t =~= s) by {
                assert forall|i: int| 0 <= i < s.len() implies (head + p + t)[i] == s[i] by {
                    if n <= i < n + p.len() {
                        assert(s[n + (i - n)] == p[i - n]);
                    }
                }
            }
            assert(stands_first(head + p, p, n)) by {
                assert forall|j: int| j < n implies !#[trigger] stands(head + p, p, j) by {
                    if stands(head + p, p, j) {
                        assert(stands(s, p, j)) by {
                            assert forall|k: int| 0 <= k < p.len() implies s[j + k]
                                == #[trigger] p[k] by {
                                assert((head + p)[j + k] == p[k]);
                                assert((head + p + t)[j + k] == (head + p)[j + k]);
                            }
                        }
                    }
                }
            }
            assert forall|k: int| 0 <= k < parts.len() - 1 implies stands_first(
                #[trigger] parts[k] + p,
                p,
                parts[k].len() as int,
            ) by {
                if k > 0 {
                    assert(parts[k] == rest[k - 1]);
                }
            }
            assert(parts.last() == rest.last());
            parts
        },
    }
}

/// Replacing the first match keeps what stands before it and what stands behind it.
pub proof fn replacing_once_keeps_the_rest(s: Seq<char>, p: Seq<char>, r: Seq<char>, i: int)
    requires
        stands_first(s, p, i),
    ensures
        text::replaced_first(s, p, r) == s.take(i) + r + s.skip(i + p.len()),
{
    searching_gives_the_first_place(s, p);
}

} // verus!
