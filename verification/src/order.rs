//! Byte lengths, cuts at character boundaries, and sorted lists of texts.

use vstd::prelude::*;
use vstd::utf8::*;
use crate::text::to_chars;
use crate::words;

verus! {

/// The greatest character boundary of `bytes` that is not above `n`.
pub open spec fn boundary_below(bytes: Seq<u8>, n: int) -> int
    decreases n,
{
    if n <= 0 || is_char_boundary(bytes, n) {
        n
    } else {
        boundary_below(bytes, n - 1)
    }
}

/// The longest start of `s` that ends at a character boundary and takes up at most `n` bytes.
pub open spec fn cut(s: Seq<char>, n: int) -> Seq<char> {
    decode_utf8(encode_utf8(s).take(boundary_below(encode_utf8(s), n)))
}

/// The longest start of `s` that ends at a character boundary and takes up at most `n` bytes.
pub fn cut_at<'a>(s: &'a str, n: usize) -> (r: &'a str)
    requires
        n <= encode_utf8(s@).len(),
    ensures
        r@ == cut(s@, n as int),
{
    proof {
        encode_utf8_valid_utf8(s@);
    }
    let mut end: usize = n;
    while end > 0 && !s.is_char_boundary(end)
        invariant
            end <= n <= encode_utf8(s@).len(),
            boundary_below(encode_utf8(s@), n as int) == boundary_below(
                encode_utf8(s@),
                end as int,
            ),
        decreases end,
    {
        end -= 1;
    }
    let (head, _tail) = s.split_at(end);
    proof {
        encode_utf8_decode_utf8(head@);
        assert(encode_utf8(s@).take(end as int) =~= encode_utf8(s@).subrange(0, end as int));
    }
    head
}

/// The order of texts: by their first differing character, a start before what it starts.
pub open spec fn lex_le(a: Seq<char>, b: Seq<char>) -> bool
    decreases a.len(),
{
    if a.len() == 0 {
        true
    } else if b.len() == 0 {
        false
    } else if a[0] != b[0] {
        a[0] < b[0]
    } else {
        lex_le(a.skip(1), b.skip(1))
    }
}

/// A list of texts in ascending order.
pub open spec fn ascending(v: Seq<Seq<char>>) -> bool {
    forall|i: int, j: int| 0 <= i <= j < v.len() ==> lex_le(#[trigger] v[i], #[trigger] v[j])
}

/// Of two texts one stands before the other.
pub proof fn lex_total(a: Seq<char>, b: Seq<char>)
    ensures
        lex_le(a, b) || lex_le(b, a),
    decreases a.len(),
{
    if a.len() > 0 && b.len() > 0 && a[0] == b[0] {
        lex_total(a.skip(1), b.skip(1));
    }
}

/// The order of texts is transitive.
pub proof fn lex_transitive(a: Seq<char>, b: Seq<char>, c: Seq<char>)
    requires
        lex_le(a, b),
        lex_le(b, c),
    ensures
        lex_le(a, c),
    decreases a.len(),
{
    if a.len() > 0 && b.len() > 0 && c.len() > 0 && a[0] == b[0] && b[0] == c[0] {
        lex_transitive(a.skip(1), b.skip(1), c.skip(1));
    }
}

/// Only equal texts stand before each other.
pub proof fn lex_antisymmetric(a: Seq<char>, b: Seq<char>)
    requires
        lex_le(a, b),
        lex_le(b, a),
    ensures
        a == b,
    decreases a.len(),
{
    if a.len() > 0 && b.len() > 0 {
        lex_antisymmetric(a.skip(1), b.skip(1));
        assert(a =~= seq![a[0]] + a.skip(1));
        assert(b =~= seq![b[0]] + b.skip(1));
    } else {
        assert(a =~= b);
    }
}

/// Whether `a` stands before `b`, or equals it.
pub fn text_le(a: &str, b: &str) -> (r: bool)
    ensures
        r == lex_le(a@, b@),
{
    let x = to_chars(a);
    let y = to_chars(b);
    let mut i: usize = 0;
    assert(x@.skip(0) =~= x@);
    assert(y@.skip(0) =~= y@);
    while i < x.len() && i < y.len() && x[i] == y[i]
        invariant
            i <= x.len(),
            i <= y.len(),
            x@ == a@,
            y@ == b@,
            lex_le(a@, b@) == lex_le(x@.skip(i as int), y@.skip(i as int)),
        decreases x.len() - i,
    {
        assert(x@.skip(i as int).skip(1) =~= x@.skip(i + 1));
        assert(y@.skip(i as int).skip(1) =~= y@.skip(i + 1));
        i += 1;
    }
    if i == x.len() {
        true
    } else if i == y.len() {
        false
    } else {
        x[i] < y[i]
    }
}

fn insert_ascending(v: &mut Vec<String>, x: String)
    requires
        ascending(words::views(old(v)@)),
    ensures
        ascending(words::views(final(v)@)),
        words::views(final(v)@).to_multiset() == words::views(old(v)@).to_multiset().insert(x@),
{
    let mut i: usize = v.len();
    while i > 0 && !text_le(v[i - 1].as_str(), x.as_str())
        invariant
            v@ == old(v)@,
            i <= v.len(),
            ascending(words::views(v@)),
            forall|j: int| i <= j < v@.len() ==> lex_le(x@, #[trigger] words::views(v@)[j]),
        decreases i,
    {
        proof {
            lex_total(words::views(v@)[i - 1], x@);
            assert(words::views(v@)[i - 1] == v@[i - 1]@);
        }
        i -= 1;
    }
    let ghost before = words::views(v@);
    let ghost xs = x@;
    proof {
        if i > 0 {
            assert(lex_le(before[i - 1], xs)) by {
                assert(before[i - 1] == v@[i - 1]@);
            }
        }
    }
    v.insert(i, x);
    proof {
        let after = words::views(v@);
        assert(after =~= before.insert(i as int, xs));
        vstd::seq_lib::to_multiset_insert(before, i as int, xs);
        assert forall|a: int, b: int| 0 <= a <= b < after.len() implies lex_le(
            #[trigger] after[a],
            #[trigger] after[b],
        ) by {
            if a == b {
                lex_total(after[a], after[b]);
            } else if b == i {
                assert(after[a] == before[a]);
                lex_transitive(before[a], before[i - 1], xs);
            } else if a < i && b > i {
                assert(after[b] == before[b - 1]);
            } else if a == i {
                assert(after[b] == before[b - 1]);
            } else if a > i {
                assert(after[a] == before[a - 1]);
                assert(after[b] == before[b - 1]);
            }
        }
    }
}

/// The texts in ascending order.
pub open spec fn in_order(v: Seq<Seq<char>>) -> Seq<Seq<char>> {
    v.sort_by(|a: Seq<char>, b: Seq<char>| lex_le(a, b))
}

proof fn lex_is_total_ordering()
    ensures
        vstd::relations::total_ordering(|a: Seq<char>, b: Seq<char>| lex_le(a, b)),
{
    let leq = |a: Seq<char>, b: Seq<char>| lex_le(a, b);
    assert forall|x: Seq<char>| #[trigger] leq(x, x) by {
        lex_total(x, x);
    }
    assert forall|x: Seq<char>, y: Seq<char>| #[trigger] leq(x, y) && #[trigger] leq(
        y,
        x,
    ) implies x == y by {
        lex_antisymmetric(x, y);
    }
    assert forall|x: Seq<char>, y: Seq<char>, z: Seq<char>| #[trigger] leq(x, y) && #[trigger] leq(
        y,
        z,
    ) implies leq(x, z) by {
        lex_transitive(x, y, z);
    }
    assert forall|x: Seq<char>, y: Seq<char>| #[trigger] leq(x, y) || #[trigger] leq(y, x) by {
        lex_total(x, y);
    }
}

/// Sorting puts the texts in ascending order, loses none, and adds none.
pub proof fn in_order_sorts(v: Seq<Seq<char>>)
    ensures
        ascending(in_order(v)),
        in_order(v).to_multiset() == v.to_multiset(),
        in_order(v).len() == v.len(),
{
    let leq = |a: Seq<char>, b: Seq<char>| lex_le(a, b);
    lex_is_total_ordering();
    v.lemma_sort_by_ensures(leq);
    let s = v.sort_by(leq);
    assert forall|i: int, j: int| 0 <= i <= j < s.len() implies lex_le(
        #[trigger] s[i],
        #[trigger] s[j],
    ) by {
        if i == j {
            lex_total(s[i], s[j]);
        } else {
            assert(leq(s[i], s[j]));
        }
    }
    v.to_multiset_ensures();
    s.to_multiset_ensures();
}

/// There is only one way to put texts in ascending order.
pub proof fn ascending_is_unique(v: Seq<Seq<char>>, s: Seq<Seq<char>>)
    requires
        ascending(s),
        s.to_multiset() == v.to_multiset(),
    ensures
        s == in_order(v),
{
    let leq = |a: Seq<char>, b: Seq<char>| lex_le(a, b);
    lex_is_total_ordering();
    v.lemma_sort_by_ensures(leq);
    assert(vstd::relations::sorted_by(s, leq)) by {
        assert forall|i: int, j: int| 0 <= i < j < s.len() implies #[trigger] leq(s[i], s[j]) by {
            assert(lex_le(s[i], s[j]));
        }
    }
    vstd::seq_lib::lemma_sorted_unique(s, in_order(v), leq);
}

/// The texts in ascending order.
pub fn sorted(v: &[String]) -> (r: Vec<String>)
    ensures
        words::views(r@) == in_order(words::views(v@)),
{
    let mut r: Vec<String> = Vec::new();
    let mut i: usize = 0;
    assert(words::views(r@) =~= words::views(v@).take(0));
    while i < v.len()
        invariant
            i <= v.len(),
            ascending(words::views(r@)),
            words::views(r@).to_multiset() == words::views(v@).take(i as int).to_multiset(),
        decreases v.len() - i,
    {
        insert_ascending(&mut r, v[i].clone());
        proof {
            let t = words::views(v@).take(i as int);
            assert(words::views(v@).take(i + 1) =~= t.push(words::views(v@)[i as int]));
            t.to_multiset_ensures();
        }
        i += 1;
    }
    assert(words::views(v@).take(v@.len() as int) =~= words::views(v@));
    proof {
        ascending_is_unique(words::views(v@), words::views(r@));
    }
    r
}

/// A text comes before another where its character is the smaller one at the first place at which
/// they differ, and a text comes before what it begins.
pub proof fn order_is_by_the_first_difference(
    common: Seq<char>,
    x: char,
    y: char,
    a: Seq<char>,
    b: Seq<char>,
)
    ensures
        lex_le(common, common + a),
        a.len() > 0 ==> !lex_le(common + a, common),
        x != y ==> (lex_le(common + seq![x] + a, common + seq![y] + b) <==> x < y),
    decreases common.len(),
{
    let s = common + seq![x] + a;
    let t = common + seq![y] + b;
    if common.len() > 0 {
        let c = common.skip(1);
        order_is_by_the_first_difference(c, x, y, a, b);
        assert(s.skip(1) =~= c + seq![x] + a);
        assert(t.skip(1) =~= c + seq![y] + b);
        assert((common + a).skip(1) =~= c + a);
        assert(s[0] == t[0] && (common + a)[0] == common[0]);
    } else {
        assert(s[0] == x && t[0] == y);
        assert(common + a =~= a);
    }
}

} // verus!
