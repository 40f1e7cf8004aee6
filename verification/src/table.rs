//! Values by name, in the order in which the names came.

use vstd::prelude::*;
use crate::text::same;

verus! {

/// A name and its value.
#[derive(Debug)]
pub struct TableEntry<V> {
    pub name: String,
    pub value: V,
}

/// Values by name. No name occurs twice.
#[derive(Debug)]
pub struct Table<V> {
    pub entries: Vec<TableEntry<V>>,
}

/// The values of a list, by name.
pub open spec fn entries_map<V: View>(v: Seq<TableEntry<V>>) -> Map<Seq<char>, V::V>
    decreases v.len(),
{
    if v.len() == 0 {
        Map::empty()
    } else {
        entries_map(v.drop_last()).insert(v.last().name@, v.last().value@)
    }
}

/// No name occurs twice.
pub open spec fn distinct_entries<V>(v: Seq<TableEntry<V>>) -> bool {
    forall|i: int, j: int|
        0 <= i < j < v.len() ==> (#[trigger] v[i]).name@ != (#[trigger] v[j]).name@
}

/// A name is in the map where some entry has it.
pub proof fn entries_map_domain<V: View>(v: Seq<TableEntry<V>>)
    ensures
        forall|k: Seq<char>|
            #[trigger] entries_map(v).dom().contains(k) <==> exists|i: int|
                0 <= i < v.len() && (#[trigger] v[i]).name@ == k,
    decreases v.len(),
{
    if v.len() > 0 {
        let w = v.drop_last();
        entries_map_domain(w);
        assert forall|k: Seq<char>| #[trigger] entries_map(v).dom().contains(k) <==> exists|i: int|
            0 <= i < v.len() && (#[trigger] v[i]).name@ == k by {
            if exists|i: int| 0 <= i < w.len() && (#[trigger] w[i]).name@ == k {
                let i = choose|i: int| 0 <= i < w.len() && (#[trigger] w[i]).name@ == k;
                assert(v[i].name@ == k);
            }
            if exists|i: int| 0 <= i < v.len() && (#[trigger] v[i]).name@ == k {
                let i = choose|i: int| 0 <= i < v.len() && (#[trigger] v[i]).name@ == k;
                if i < w.len() {
                    assert(w[i].name@ == k);
                }
            }
            if k == v.last().name@ {
                assert(v[v.len() - 1].name@ == k);
            }
            assert(entries_map(v).dom().contains(k) <==> entries_map(w).dom().contains(k) || k
                == v.last().name@);
        }
    }
}

/// The map holds the value of the entry that has the name.
pub proof fn entries_map_value<V: View>(v: Seq<TableEntry<V>>, i: int)
    requires
        0 <= i < v.len(),
        distinct_entries(v),
    ensures
        entries_map(v).dom().contains(v[i].name@),
        entries_map(v)[v[i].name@] == v[i].value@,
    decreases v.len(),
{
    let w = v.drop_last();
    if i < v.len() - 1 {
        entries_map_value(w, i);
        assert(v[i].name@ != v[v.len() - 1].name@);
    }
}

proof fn entries_map_removed<V: View>(v: Seq<TableEntry<V>>, p: int)
    requires
        0 <= p < v.len(),
        distinct_entries(v),
    ensures
        entries_map(v.remove(p)) == entries_map(v).remove(v[p].name@),
    decreases v.len(),
{
    let w = v.drop_last();
    if p == v.len() - 1 {
        assert(v.remove(p) =~= w);
        entries_map_domain(w);
        assert(!entries_map(w).dom().contains(v[p].name@)) by {
            if entries_map(w).dom().contains(v[p].name@) {
                let i = choose|i: int| 0 <= i < w.len() && (#[trigger] w[i]).name@ == v[p].name@;
                assert(v[i].name@ == v[p].name@);
            }
        }
        assert(entries_map(v).remove(v[p].name@) =~= entries_map(w));
    } else {
        entries_map_removed(w, p);
        assert(v.remove(p).drop_last() =~= w.remove(p));
        assert(v.remove(p).last() == v.last());
        assert(v[p].name@ != v.last().name@) by {
            assert(v[v.len() - 1] == v.last());
        }
        assert(entries_map(v.remove(p)) =~= entries_map(v).remove(v[p].name@));
    }
}

proof fn entries_map_size<V: View>(v: Seq<TableEntry<V>>)
    requires
        distinct_entries(v),
    ensures
        entries_map(v).dom().finite(),
        entries_map(v).dom().len() == v.len(),
    decreases v.len(),
{
    if v.len() > 0 {
        let w = v.drop_last();
        entries_map_size(w);
        entries_map_domain(w);
        assert(!entries_map(w).dom().contains(v.last().name@)) by {
            if entries_map(w).dom().contains(v.last().name@) {
                let i = choose|i: int|
                    0 <= i < w.len() && (#[trigger] w[i]).name@ == v.last().name@;
                assert(v[i].name@ == v[v.len() - 1].name@);
            }
        }
        assert(entries_map(v).dom() =~= entries_map(w).dom().insert(v.last().name@));
    }
}

impl<V: View> Table<V> {
    /// The values by name.
    pub open spec fn map(self) -> Map<Seq<char>, V::V> {
        entries_map(self.entries@)
    }

    /// No name occurs twice.
    pub open spec fn wf(self) -> bool {
        distinct_entries(self.entries@)
    }

    /// An empty table.
    pub fn new() -> (r: Self)
        ensures
            r.wf(),
            r.map() == Map::<Seq<char>, V::V>::empty(),
            r.entries@.len() == 0,
    {
        Table { entries: Vec::new() }
    }

    /// The position of a name, or the number of entries.
    pub fn position(&self, name: &str) -> (r: usize)
        requires
            self.wf(),
        ensures
            r <= self.entries@.len(),
            r < self.entries@.len() <==> self.map().dom().contains(name@),
            r < self.entries@.len() ==> self.entries@[r as int].name@ == name@
                && self.entries@[r as int].value@ == self.map()[name@],
            forall|j: int| 0 <= j < r ==> (#[trigger] self.entries@[j]).name@ != name@,
    {
        let mut i: usize = 0;
        while i < self.entries.len() && !same(self.entries[i].name.as_str(), name)
            invariant
                i <= self.entries@.len(),
                forall|j: int| 0 <= j < i ==> (#[trigger] self.entries@[j]).name@ != name@,
            decreases self.entries@.len() - i,
        {
            i += 1;
        }
        proof {
            entries_map_domain(self.entries@);
            if i < self.entries@.len() {
                entries_map_value(self.entries@, i as int);
            }
        }
        i
    }

    /// Whether a name is there.
    pub fn contains_key(&self, name: &str) -> (r: bool)
        requires
            self.wf(),
        ensures
            r == self.map().dom().contains(name@),
    {
        self.position(name) < self.entries.len()
    }

    /// The value of a name.
    pub fn get(&self, name: &str) -> (r: Option<&V>)
        requires
            self.wf(),
        ensures
            match r {
                Some(v) => self.map().dom().contains(name@) && v@ == self.map()[name@],
                None => !self.map().dom().contains(name@),
            },
    {
        let p = self.position(name);
        if p < self.entries.len() {
            Some(&self.entries[p].value)
        } else {
            None
        }
    }

    /// The number of names.
    pub fn len(&self) -> (r: usize)
        requires
            self.wf(),
        ensures
            r == self.map().dom().len(),
            self.map().dom().finite(),
    {
        proof {
            entries_map_size(self.entries@);
        }
        self.entries.len()
    }

    /// Removes a name; says whether it was there.
    pub fn remove(&mut self, name: &str) -> (r: bool)
        requires
            old(self).wf(),
        ensures
            final(self).wf(),
            r == old(self).map().dom().contains(name@),
            final(self).map() == old(self).map().remove(name@),
    {
        let p = self.position(name);
        let ghost v = self.entries@;
        if p < self.entries.len() {
            self.entries.remove(p);
            proof {
                entries_map_removed(v, p as int);
                assert forall|a: int, b: int| 0 <= a < b < self.entries@.len() implies (
                #[trigger] self.entries@[a]).name@ != (#[trigger] self.entries@[b]).name@ by {
                    let x = if a < p {
                        a
                    } else {
                        a + 1
                    };
                    let y = if b < p {
                        b
                    } else {
                        b + 1
                    };
                    assert(self.entries@[a] == v[x] && self.entries@[b] == v[y]);
                }
            }
            true
        } else {
            assert(self.map().remove(name@) =~= self.map());
            false
        }
    }

    /// Sets the value of a name, in place of the one it had.
    pub fn set(&mut self, name: String, value: V)
        requires
            old(self).wf(),
        ensures
            final(self).wf(),
            final(self).map() == old(self).map().insert(name@, value@),
    {
        let ghost before = self.map();
        self.remove(name.as_str());
        let ghost w = self.entries@;
        proof {
            entries_map_domain(w);
            assert(!entries_map(w).dom().contains(name@));
        }
        let entry = TableEntry { name, value };
        self.entries.push(entry);
        proof {
            assert(self.entries@.drop_last() =~= w);
            assert(self.map() =~= before.insert(entry.name@, entry.value@));
            assert forall|a: int, b: int| 0 <= a < b < self.entries@.len() implies (
            #[trigger] self.entries@[a]).name@ != (#[trigger] self.entries@[b]).name@ by {
                assert(w[a].name@ == self.entries@[a].name@);
            }
        }
    }
}

} // verus!
