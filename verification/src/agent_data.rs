//! What agents store under keys.

use vstd::prelude::*;
use crate::database::{DataRow, Db, Item, NO_AGENT, Store};
use crate::database;
use crate::json;
use crate::options::AgentConfig;
use crate::order::text_le;
use crate::rows::retain;
use crate::rows;
use crate::text::same;

verus! {

impl Clone for DataRow {
    fn clone(&self) -> (r: Self)
        ensures
            r@ == self@,
    {
        DataRow { agent: self.agent.clone(), key: self.key.clone(), value: self.value.clone() }
    }
}

/// A value is stored for an agent under a key.
pub open spec fn has_item(v: Seq<Item>, agent: Seq<char>, key: Seq<char>) -> bool {
    exists|i: int| 0 <= i < v.len() && database::is_item(#[trigger] v[i], agent, key)
}

/// The value that is stored for an agent under a key.
pub open spec fn item_of(v: Seq<Item>, agent: Seq<char>, key: Seq<char>) -> Option<Seq<char>> {
    if has_item(v, agent, key) {
        let i = choose|i: int|
            0 <= i < v.len() && database::is_item(#[trigger] v[i], agent, key);
        Some(v[i].value)
    } else {
        None
    }
}

/// The stored values once there is a value for an agent under a key: it takes the place of the one
/// before it.
pub open spec fn with_item(v: Seq<Item>, e: Item) -> Seq<Item> {
    if has_item(v, e.agent, e.key) {
        Seq::new(
            v.len(),
            |i: int|
                if database::is_item(v[i], e.agent, e.key) {
                    e
                } else {
                    v[i]
                },
        )
    } else {
        v.insert(rows::place(database::keys(v), e.key), e)
    }
}

/// What is stored for an agent.
pub open spec fn items_of(v: Seq<Item>, agent: Seq<char>) -> Seq<Item> {
    rows::kept(v, |e: Item| e.agent == agent)
}

proof fn item_found(d: Db, agent: Seq<char>, key: Seq<char>, i: int)
    requires
        database::sound(d),
        0 <= i < d.data.len(),
        database::is_item(d.data[i], agent, key),
    ensures
        item_of(d.data, agent, key) == Some(d.data[i].value),
{
    let v = d.data;
    let c = choose|c: int| 0 <= c < v.len() && database::is_item(#[trigger] v[c], agent, key);
    if c < i {
        assert(!database::is_item(v[i], v[c].agent, v[c].key));
    } else if c > i {
        assert(!database::is_item(v[c], v[i].agent, v[i].key));
    }
}

proof fn setting_is_sound(d: Db, e: Item)
    requires
        database::sound(d),
        database::known(d.agents, e.agent),
    ensures
        database::sound(Db { data: with_item(d.data, e), ..d }),
        database::owned(d) ==> database::owned(Db { data: with_item(d.data, e), ..d }),
{
    let v = d.data;
    let w = with_item(v, e);
    if has_item(v, e.agent, e.key) {
        assert(database::keys(w) =~= database::keys(v));
        assert forall|i: int, j: int| 0 <= i < j < w.len() implies !database::is_item(
            #[trigger] w[j],
            (#[trigger] w[i]).agent,
            w[i].key,
        ) by {
            assert(!database::is_item(v[j], v[i].agent, v[i].key));
        }
    } else {
        let p = rows::place(database::keys(v), e.key);
        rows::place_within(database::keys(v), e.key);
        rows::placing_keeps_order(database::keys(v), e.key);
        assert(database::keys(w) =~= database::keys(v).insert(p, e.key));
        assert forall|i: int, j: int| 0 <= i < j < w.len() implies !database::is_item(
            #[trigger] w[j],
            (#[trigger] w[i]).agent,
            w[i].key,
        ) by {
            let x = if i < p {
                i
            } else {
                i - 1
            };
            let y = if j < p {
                j
            } else {
                j - 1
            };
            if i == p {
                assert(w[j] == v[y]);
                assert(!database::is_item(v[y], e.agent, e.key));
            } else if j == p {
                assert(w[i] == v[x]);
                assert(!database::is_item(v[x], e.agent, e.key));
            } else {
                assert(w[i] == v[x] && w[j] == v[y]);
            }
        }
        assert forall|i: int| database::owned(d) && 0 <= i < w.len() implies database::known(
            d.agents,
            (#[trigger] w[i]).agent,
        ) by {
            if i < p {
                assert(w[i] == v[i]);
            } else if i > p {
                assert(w[i] == v[i - 1]);
            }
        }
    }
}

fn place_of_key(v: &[DataRow], key: &str) -> (r: usize)
    ensures
        r == rows::place(database::keys(rows::rows_view(v@)), key@),
        r <= v@.len(),
{
    let ghost k = database::keys(rows::rows_view(v@));
    let mut p: usize = v.len();
    assert(k.take(k.len() as int) =~= k);
    while p > 0 && !text_le(v[p - 1].key.as_str(), key)
        invariant
            p <= v@.len() == k.len(),
            k == database::keys(rows::rows_view(v@)),
            rows::place(k, key@) == rows::place(k.take(p as int), key@),
        decreases p,
    {
        assert(k.take(p as int).last() == v@[p - 1].key@);
        assert(k.take(p as int).drop_last() =~= k.take(p - 1));
        p -= 1;
    }
    if p > 0 {
        assert(k.take(p as int).last() == v@[p - 1].key@);
    }
    p
}

impl Store {
    /// Whether an agent is there.
    pub fn has_agent(&self, name: &str) -> (r: bool)
        requires
            database::sound(self@),
        ensures
            r == database::known(self@.agents, name@),
    {
        self.get_agent(name).is_some()
    }

    fn find_data(&self, agent: &str, key: &str) -> (r: Option<usize>)
        requires
            database::sound(self@),
        ensures
            match r {
                Some(i) => {
                    &&& i < self@.data.len()
                    &&& database::is_item(self@.data[i as int], agent@, key@)
                    &&& item_of(self@.data, agent@, key@) == Some(self@.data[i as int].value)
                },
                None => !has_item(self@.data, agent@, key@),
            },
    {
        let mut i: usize = 0;
        while i < self.data.len()
            invariant
                database::sound(self@),
                i <= self.data@.len(),
                forall|j: int| 0 <= j < i ==> !database::is_item(#[trigger] self@.data[j], agent@, key@),
            decreases self.data@.len() - i,
        {
            assert(self@.data[i as int] == self.data@[i as int]@);
            if same(self.data[i].agent.as_str(), agent) && same(self.data[i].key.as_str(), key) {
                proof {
                    item_found(self@, agent@, key@, i as int);
                }
                return Some(i);
            }
            i += 1;
        }
        None
    }

    /// The value that an agent has stored under a key.
    pub fn get_agent_data(&self, agent: &str, key: &str) -> (r: Option<String>)
        requires
            database::sound(self@),
        ensures
            json::opt_view(r) == item_of(self@.data, agent@, key@),
    {
        match self.find_data(agent, key) {
            Some(i) => Some(self.data[i].value.clone()),
            None => None,
        }
    }

    /// Stores a value for an agent under a key, in place of the one before it.
    pub fn set_agent_data(&mut self, agent: &str, key: &str, value: &str) -> (r: Result<
        (),
        String,
    >)
        requires
            database::sound(old(self)@),
        ensures
            database::sound(final(self)@),
            database::owned(old(self)@) ==> database::owned(final(self)@),
            match r {
                Ok(_) => {
                    &&& database::known(old(self)@.agents, agent@)
                    &&& final(self)@ == (Db {
                        data: with_item(
                            old(self)@.data,
                            Item { agent: agent@, key: key@, value: value@ },
                        ),
                        ..old(self)@
                    })
                },
                Err(e) => {
                    &&& !database::known(old(self)@.agents, agent@)
                    &&& e@ == NO_AGENT@
                    &&& final(self)@ == old(self)@
                },
            },
    {
        if !self.has_agent(agent) {
            return Err(NO_AGENT.to_owned());
        }
        let ghost d = self@;
        let ghost e = Item { agent: agent@, key: key@, value: value@ };
        proof {
            setting_is_sound(d, e);
        }
        match self.find_data(agent, key) {
            Some(i) => {
                let row = DataRow {
                    agent: agent.to_owned(),
                    key: key.to_owned(),
                    value: value.to_owned(),
                };
                self.data.set(i, row);
                proof {
                    assert(row@ == e);
                    assert(has_item(d.data, agent@, key@));
                    assert forall|j: int| 0 <= j < d.data.len() implies #[trigger] self@.data[j]
                        == with_item(d.data, e)[j] by {
                        if j < i {
                            assert(!database::is_item(d.data[i as int], d.data[j].agent, d.data[j].key));
                        } else if j > i {
                            assert(!database::is_item(
                                d.data[j],
                                d.data[i as int].agent,
                                d.data[i as int].key,
                            ));
                        }
                    }
                    assert(self@.data =~= with_item(d.data, e));
                }
            },
            None => {
                let row = DataRow {
                    agent: agent.to_owned(),
                    key: key.to_owned(),
                    value: value.to_owned(),
                };
                let p = place_of_key(self.data.as_slice(), key);
                proof {
                    assert(row@ == e);
                    rows::rows_insert(self.data@, p as int, row);
                }
                self.data.insert(p, row);
            },
        }
        Ok(())
    }

    /// Deletes the value that an agent has stored under a key; says whether there was one.
    pub fn delete_agent_data(&mut self, agent: &str, key: &str) -> (r: bool)
        requires
            database::sound(old(self)@),
        ensures
            database::sound(final(self)@),
            database::owned(old(self)@) ==> database::owned(final(self)@),
            r == has_item(old(self)@.data, agent@, key@),
            final(self)@ == (Db {
                data: rows::kept(old(self)@.data, |e: Item| !database::is_item(e, agent@, key@)),
                ..old(self)@
            }),
    {
        let found = self.find_data(agent, key).is_some();
        let ghost d = self@;
        let ghost p = |e: DataRow| !database::is_item(e@, agent@, key@);
        let ghost q = |e: Item| !database::is_item(e, agent@, key@);
        let keep = |e: &DataRow| -> (b: bool)
            ensures
                b == !database::is_item(e@, agent@, key@),
            { !(same(e.agent.as_str(), agent) && same(e.key.as_str(), key)) };
        let mut data: Vec<DataRow> = Vec::new();
        std::mem::swap(&mut data, &mut self.data);
        proof {
            assert(forall|x: DataRow| #[trigger] p(x) == q(x@));
            rows::rows_kept(data@, p, q);
            database::kept_items_sound(d.data, q);
            rows::kept_are_kept(d.data, q);
            let k = rows::kept(d.data, q);
            assert forall|i: int| database::owned(d) && 0 <= i < k.len() implies database::known(
                d.agents,
                (#[trigger] k[i]).agent,
            ) by {
                let x = choose|x: int| 0 <= x < d.data.len() && d.data[x] == k[i];
                assert(database::known(d.agents, d.data[x].agent));
            }
        }
        self.data = retain(data, keep, Ghost(p));
        found
    }

    /// What an agent has stored, in the order of the keys.
    pub fn list_agent_data(&self, agent: &str) -> (r: Vec<DataRow>)
        requires
            database::sound(self@),
        ensures
            rows::rows_view(r@) == items_of(self@.data, agent@),
    {
        let ghost v = self@.data;
        let ghost q = |e: Item| e.agent == agent@;
        let mut out: Vec<DataRow> = Vec::new();
        let mut i: usize = 0;
        assert(rows::rows_view(out@) =~= rows::kept(v.take(0), q));
        while i < self.data.len()
            invariant
                i <= self.data@.len(),
                v == self@.data,
                q == (|e: Item| e.agent == agent@),
                rows::rows_view(out@) == rows::kept(v.take(i as int), q),
            decreases self.data@.len() - i,
        {
            assert(v.take(i + 1).drop_last() =~= v.take(i as int));
            assert(v.take(i + 1).last() == self.data@[i as int]@);
            if same(self.data[i].agent.as_str(), agent) {
                let row = self.data[i].clone();
                proof {
                    rows::rows_push(out@, row);
                }
                out.push(row);
            }
            i += 1;
        }
        assert(v.take(v.len() as int) =~= v);
        out
    }

    /// The options of an agent, which stand among its values.
    pub fn get_agent_config(&self, agent: &str) -> (r: AgentConfig)
        requires
            database::sound(self@),
        ensures
            json::opt_view(r.model) == item_of(self@.data, agent@, "config:model"@),
            json::opt_view(r.endpoint) == item_of(self@.data, agent@, "config:endpoint"@),
            json::opt_view(r.system_prompt) == item_of(
                self@.data,
                agent@,
                "config:system_prompt"@,
            ),
    {
        AgentConfig {
            model: self.get_agent_data(agent, "config:model"),
            endpoint: self.get_agent_data(agent, "config:endpoint"),
            system_prompt: self.get_agent_data(agent, "config:system_prompt"),
        }
    }
}

/// What was stored is what is found; what is stored elsewhere stays as it was.
pub proof fn stored_values_are_found(
    d: Db,
    agent: Seq<char>,
    key: Seq<char>,
    value: Seq<char>,
    other: Seq<char>,
    other_key: Seq<char>,
)
    requires
        database::sound(d),
        database::known(d.agents, agent),
    ensures
        ({
            let w = with_item(d.data, Item { agent, key, value });
            &&& item_of(w, agent, key) == Some(value)
            &&& (other != agent || other_key != key) ==> item_of(w, other, other_key) == item_of(
                d.data,
                other,
                other_key,
            )
        }),
{
    let e = Item { agent, key, value };
    let v = d.data;
    let w = with_item(v, e);
    let f = Db { data: w, ..d };
    setting_is_sound(d, e);
    rows::place_within(database::keys(v), key);
    let p = rows::place(database::keys(v), key);
    if has_item(v, agent, key) {
        let i = choose|i: int| 0 <= i < v.len() && database::is_item(#[trigger] v[i], agent, key);
        assert(w[i] == e);
        item_found(f, agent, key, i);
    } else {
        assert(w[p] == e);
        item_found(f, agent, key, p);
    }
    if other != agent || other_key != key {
        if has_item(v, other, other_key) {
            let i = choose|i: int|
                0 <= i < v.len() && database::is_item(#[trigger] v[i], other, other_key);
            let j = if has_item(v, agent, key) || i < p {
                i
            } else {
                i + 1
            };
            assert(w[j] == v[i]);
            item_found(f, other, other_key, j);
            item_found(d, other, other_key, i);
        } else if has_item(w, other, other_key) {
            let j = choose|j: int|
                0 <= j < w.len() && database::is_item(#[trigger] w[j], other, other_key);
            let i = if has_item(v, agent, key) || j < p {
                j
            } else {
                j - 1
            };
            assert(w[j] == v[i]);
            assert(database::is_item(v[i], other, other_key));
        }
    }
}

} // verus!
