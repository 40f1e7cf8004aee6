//! Lists of rows, and what is done to them.

use vstd::prelude::*;
use crate::order;

verus! {

/// What a list of rows holds.
pub open spec fn rows_view<T: View>(v: Seq<T>) -> Seq<T::V> {
    Seq::new(v.len(), |i: int| v[i]@)
}

/// The views grow with the list.
pub proof fn rows_push<T: View>(v: Seq<T>, row: T)
    ensures
        rows_view(v.push(row)) == rows_view(v).push(row@),
{
    assert(rows_view(v.push(row)) =~= rows_view(v).push(row@));
}

/// The views grow with the list, at the same place.
pub proof fn rows_insert<T: View>(v: Seq<T>, i: int, row: T)
    requires
        0 <= i <= v.len(),
    ensures
        rows_view(v.insert(i, row)) == rows_view(v).insert(i, row@),
{
    assert(rows_view(v.insert(i, row)) =~= rows_view(v).insert(i, row@));
}

/// The rows that are kept.
pub open spec fn kept<T>(v: Seq<T>, keep: spec_fn(T) -> bool) -> Seq<T>
    decreases v.len(),
{
    if v.len() == 0 {
        Seq::empty()
    } else if keep(v.last()) {
        kept(v.drop_last(), keep).push(v.last())
    } else {
        kept(v.drop_last(), keep)
    }
}

/// Every row that is kept was there before and is to be kept.
pub proof fn kept_are_kept<T>(v: Seq<T>, keep: spec_fn(T) -> bool)
    ensures
        forall|i: int|
            0 <= i < kept(v, keep).len() ==> keep(#[trigger] kept(v, keep)[i]) && v.contains(
                kept(v, keep)[i],
            ),
        kept(v, keep).len() <= v.len(),
    decreases v.len(),
{
    if v.len() > 0 {
        let w = v.drop_last();
        kept_are_kept(w, keep);
        assert forall|i: int| 0 <= i < kept(v, keep).len() implies keep(
            #[trigger] kept(v, keep)[i],
        ) && v.contains(kept(v, keep)[i]) by {
            if i < kept(w, keep).len() {
                assert(kept(v, keep)[i] == kept(w, keep)[i]);
                let j = choose|j: int| 0 <= j < w.len() && w[j] == kept(w, keep)[i];
                assert(v[j] == kept(v, keep)[i]);
            } else {
                assert(kept(v, keep)[i] == v[v.len() - 1]);
            }
        }
    }
}

/// Every row that is to be kept is kept.
pub proof fn kept_has<T>(v: Seq<T>, keep: spec_fn(T) -> bool, i: int)
    requires
        0 <= i < v.len(),
        keep(v[i]),
    ensures
        kept(v, keep).contains(v[i]),
    decreases v.len(),
{
    let w = v.drop_last();
    if i == v.len() - 1 {
        assert(kept(v, keep).last() == v[i]);
        assert(kept(v, keep)[kept(v, keep).len() - 1] == v[i]);
    } else {
        kept_has(w, keep, i);
        let j = choose|j: int| 0 <= j < kept(w, keep).len() && kept(w, keep)[j] == v[i];
        assert(kept(v, keep)[j] == v[i]);
    }
}

/// Every row of a list stands to every later one in some relation.
pub open spec fn pairwise<T>(v: Seq<T>, rel: spec_fn(T, T) -> bool) -> bool {
    forall|i: int, j: int| 0 <= i < j < v.len() ==> rel(#[trigger] v[i], #[trigger] v[j])
}

/// A relation between the rows of a list holds between those that are kept.
pub proof fn kept_pairwise<T>(v: Seq<T>, keep: spec_fn(T) -> bool, rel: spec_fn(T, T) -> bool)
    requires
        pairwise(v, rel),
    ensures
        pairwise(kept(v, keep), rel),
    decreases v.len(),
{
    let k = kept(v, keep);
    if v.len() > 0 {
        let w = v.drop_last();
        assert forall|i: int, j: int| 0 <= i < j < w.len() implies rel(
            #[trigger] w[i],
            #[trigger] w[j],
        ) by {
            assert(v[i] == w[i] && v[j] == w[j]);
        }
        kept_pairwise(w, keep, rel);
        let kw = kept(w, keep);
        kept_are_kept(w, keep);
        if keep(v.last()) {
            assert forall|i: int, j: int| 0 <= i < j < k.len() implies rel(
                #[trigger] k[i],
                #[trigger] k[j],
            ) by {
                assert(k[i] == kw[i]);
                if j < kw.len() {
                    assert(k[j] == kw[j]);
                } else {
                    let x = choose|x: int| 0 <= x < w.len() && w[x] == kw[i];
                    assert(v[x] == k[i]);
                    assert(v[v.len() - 1] == k[j]);
                }
            }
        }
    }
}

/// Keeping rows by what they hold.
pub proof fn rows_kept<T: View>(
    v: Seq<T>,
    keep: spec_fn(T) -> bool,
    keep_view: spec_fn(T::V) -> bool,
)
    requires
        forall|x: T| #[trigger] keep(x) == keep_view(x@),
    ensures
        rows_view(kept(v, keep)) == kept(rows_view(v), keep_view),
    decreases v.len(),
{
    if v.len() == 0 {
        assert(rows_view(kept(v, keep)) =~= kept(rows_view(v), keep_view));
    } else {
        let w = v.drop_last();
        rows_kept(w, keep, keep_view);
        assert(rows_view(v).drop_last() =~= rows_view(w));
        assert(rows_view(v).last() == v.last()@);
        assert(keep(v.last()) == keep_view(v.last()@));
        if keep(v.last()) {
            rows_push(kept(w, keep), v.last());
        }
    }
}

/// Rows that are all kept stay as they are.
pub proof fn kept_all<T>(v: Seq<T>, keep: spec_fn(T) -> bool)
    requires
        forall|i: int| 0 <= i < v.len() ==> keep(#[trigger] v[i]),
    ensures
        kept(v, keep) == v,
    decreases v.len(),
{
    if v.len() > 0 {
        let w = v.drop_last();
        assert forall|i: int| 0 <= i < w.len() implies keep(#[trigger] w[i]) by {
            assert(w[i] == v[i]);
        }
        kept_all(w, keep);
        assert(keep(v[v.len() - 1]));
        assert(w.push(v.last()) =~= v);
    } else {
        assert(kept(v, keep) =~= v);
    }
}

/// Keeping rows of two lists in a row.
pub proof fn kept_adds<T>(a: Seq<T>, b: Seq<T>, keep: spec_fn(T) -> bool)
    ensures
        kept(a + b, keep) == kept(a, keep) + kept(b, keep),
    decreases b.len(),
{
    if b.len() == 0 {
        assert(a + b =~= a);
        assert(kept(a, keep) + kept(b, keep) =~= kept(a, keep));
    } else {
        kept_adds(a, b.drop_last(), keep);
        assert((a + b).drop_last() =~= a + b.drop_last());
        assert((a + b).last() == b.last());
        if keep(b.last()) {
            assert(kept(a, keep) + kept(b.drop_last(), keep).push(b.last()) =~= (kept(a, keep)
                + kept(b.drop_last(), keep)).push(b.last()));
        }
    }
}

/// Drops the rows that are not to be kept.
pub(crate) fn retain<T, F: Fn(&T) -> bool>(
    v: Vec<T>,
    keep: F,
    Ghost(p): Ghost<spec_fn(T) -> bool>,
) -> (r: Vec<T>)
    requires
        forall|x: &T| #[trigger] keep.requires((x,)),
        forall|x: &T, b: bool| #[trigger] keep.ensures((x,), b) ==> b == p(*x),
    ensures
        r@ == kept(v@, p),
{
    let ghost orig = v@;
    let mut v = v;
    let mut i: usize = 0;
    let ghost mut k: int = 0;
    assert(v@.take(0) =~= kept(orig.take(0), p));
    while i < v.len()
        invariant
            forall|x: &T| #[trigger] keep.requires((x,)),
            forall|x: &T, b: bool| #[trigger] keep.ensures((x,), b) ==> b == p(*x),
            0 <= k <= orig.len(),
            i <= v@.len(),
            v@.len() - i == orig.len() - k,
            v@.take(i as int) == kept(orig.take(k), p),
            v@.skip(i as int) == orig.skip(k),
        decreases v@.len() - i,
    {
        let ghost before = v@;
        proof {
            assert(before[i as int] == before.skip(i as int)[0]);
            assert(orig[k] == orig.skip(k)[0]);
            assert(orig.take(k + 1).drop_last() =~= orig.take(k));
            assert(orig.take(k + 1).last() == orig[k]);
        }
        let b = keep(&v[i]);
        if b {
            i += 1;
            proof {
                assert(v@.take(i as int) =~= before.take(i - 1).push(orig[k]));
                assert(v@.skip(i as int) =~= orig.skip(k + 1)) by {
                    assert forall|j: int| 0 <= j < orig.len() - k - 1 implies v@.skip(i as int)[j]
                        == #[trigger] orig.skip(k + 1)[j] by {
                        assert(before.skip(i - 1)[j + 1] == orig.skip(k)[j + 1]);
                    }
                }
            }
        } else {
            v.remove(i);
            proof {
                assert(v@.take(i as int) =~= before.take(i as int));
                assert(v@.skip(i as int) =~= orig.skip(k + 1)) by {
                    assert forall|j: int| 0 <= j < orig.len() - k - 1 implies v@.skip(i as int)[j]
                        == #[trigger] orig.skip(k + 1)[j] by {
                        assert(before.skip(i as int)[j + 1] == orig.skip(k)[j + 1]);
                    }
                }
            }
        }
        proof {
            k = k + 1;
        }
    }
    assert(v@.take(v@.len() as int) =~= v@);
    assert(orig.take(orig.len() as int) =~= orig);
    v
}

/// How many of the first rows stand before a key or have it.
pub open spec fn place(keys: Seq<Seq<char>>, key: Seq<char>) -> int
    decreases keys.len(),
{
    if keys.len() == 0 {
        0
    } else if order::lex_le(keys.last(), key) {
        keys.len() as int
    } else {
        place(keys.drop_last(), key)
    }
}

/// A place lies within the list.
pub proof fn place_within(keys: Seq<Seq<char>>, key: Seq<char>)
    ensures
        0 <= place(keys, key) <= keys.len(),
        forall|j: int| place(keys, key) <= j < keys.len() ==> !order::lex_le(
            #[trigger] keys[j],
            key,
        ),
        place(keys, key) > 0 ==> order::lex_le(keys[place(keys, key) - 1], key),
    decreases keys.len(),
{
    if keys.len() > 0 && !order::lex_le(keys.last(), key) {
        let w = keys.drop_last();
        place_within(w, key);
        assert forall|j: int| place(keys, key) <= j < keys.len() implies !order::lex_le(
            #[trigger] keys[j],
            key,
        ) by {
            if j < w.len() {
                assert(w[j] == keys[j]);
            }
        }
    }
}

/// Keys in ascending order stay so when a key is put into its place.
pub proof fn placing_keeps_order(keys: Seq<Seq<char>>, key: Seq<char>)
    requires
        order::ascending(keys),
    ensures
        order::ascending(keys.insert(place(keys, key), key)),
{
    place_within(keys, key);
    let p = place(keys, key);
    let w = keys.insert(p, key);
    assert forall|i: int, j: int| 0 <= i <= j < w.len() implies order::lex_le(
        #[trigger] w[i],
        #[trigger] w[j],
    ) by {
        if i == j {
            order::lex_total(w[i], w[j]);
        } else if j == p {
            assert(w[i] == keys[i]);
            order::lex_transitive(keys[i], keys[p - 1], key);
        } else if i == p {
            assert(w[j] == keys[j - 1]);
            order::lex_total(key, keys[j - 1]);
        } else if j < p {
            assert(w[i] == keys[i] && w[j] == keys[j]);
        } else if i < p {
            assert(w[i] == keys[i] && w[j] == keys[j - 1]);
        } else {
            assert(w[i] == keys[i - 1] && w[j] == keys[j - 1]);
        }
    }
}

} // verus!
