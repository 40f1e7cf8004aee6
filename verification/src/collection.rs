//! The removal of agents that nobody uses.

use vstd::prelude::*;
use crate::database::{Clock, DataRow, Db, Item, Line, MessageRow, Store};
use crate::database;
use crate::rows::retain;
use crate::rows;
use crate::store::{Agent, AgentRow, Note, NotificationRow, Task, gc_agents, is_dormant};
use crate::store;
use crate::text::contains_text;
use crate::text;
use crate::words;

verus! {

/// An agent that nobody uses has the name.
pub open spec fn unused(v: Seq<Agent>, cutoff: Seq<char>, name: Seq<char>) -> bool {
    exists|i: int| 0 <= i < v.len() && (#[trigger] v[i]).name == name && store::dormant(
        v[i],
        cutoff,
    )
}

/// A task once the agents that nobody uses are gone: it stays, and belongs to no agent where its
/// agent is gone.
pub open spec fn orphaned(v: Seq<Agent>, cutoff: Seq<char>, t: Task) -> Task {
    match t.agent {
        Some(a) => if unused(v, cutoff, a) {
            Task { agent: None, ..t }
        } else {
            t
        },
        None => t,
    }
}

/// The state without the agents that nobody uses.
pub open spec fn collected(d: Db, cutoff: Seq<char>) -> Db {
    Db {
        agents: rows::kept(d.agents, |a: Agent| !store::dormant(a, cutoff)),
        data: rows::kept(d.data, |e: Item| !unused(d.agents, cutoff, e.agent)),
        tasks: Seq::new(d.tasks.len(), |i: int| orphaned(d.agents, cutoff, d.tasks[i])),
        messages: rows::kept(d.messages, |m: Line| !unused(d.agents, cutoff, m.agent)),
        notes: rows::kept(
            d.notes,
            |n: Note| !unused(d.agents, cutoff, n.from) && !unused(d.agents, cutoff, n.to),
        ),
        ..d
    }
}

proof fn dormant_named(v: Seq<Agent>, cutoff: Seq<char>, name: Seq<char>)
    ensures
        store::dormant_names(v, cutoff).contains(name) == unused(v, cutoff, name),
    decreases v.len(),
{
    let d = store::dormant_names(v, cutoff);
    if v.len() > 0 {
        let w = v.drop_last();
        let e = store::dormant_names(w, cutoff);
        dormant_named(w, cutoff, name);
        if unused(v, cutoff, name) {
            let i = choose|i: int|
                0 <= i < v.len() && (#[trigger] v[i]).name == name && store::dormant(v[i], cutoff);
            if i < w.len() {
                assert(w[i] == v[i]);
                assert(e.contains(name));
                let j = choose|j: int| 0 <= j < e.len() && e[j] == name;
                assert(d[j] == name);
            } else {
                assert(d[d.len() - 1] == name);
            }
        }
        if d.contains(name) {
            let j = choose|j: int| 0 <= j < d.len() && d[j] == name;
            if j < e.len() {
                assert(e[j] == name);
                assert(unused(w, cutoff, name));
                let i = choose|i: int|
                    0 <= i < w.len() && (#[trigger] w[i]).name == name && store::dormant(
                        w[i],
                        cutoff,
                    );
                assert(v[i] == w[i]);
            } else {
                assert(v[v.len() - 1].name == name);
            }
        }
    }
}

proof fn survivors(d: Db, cutoff: Seq<char>, name: Seq<char>)
    requires
        database::sound(d),
        database::known(d.agents, name),
        !unused(d.agents, cutoff, name),
    ensures
        database::known(collected(d, cutoff).agents, name),
{
    let keep = |a: Agent| !store::dormant(a, cutoff);
    assert forall|a: Agent| a.name == name && #[trigger] d.agents.contains(a) implies keep(a) by {
        let i = choose|i: int| 0 <= i < d.agents.len() && d.agents[i] == a;
        assert(d.agents[i].name == name);
    }
    database::still_known(d.agents, keep, name);
}

proof fn collecting_is_sound(d: Db, cutoff: Seq<char>)
    requires
        database::sound(d),
    ensures
        database::sound(collected(d, cutoff)),
        database::owned(d) ==> database::owned(collected(d, cutoff)),
{
    let e = collected(d, cutoff);
    let pa = |a: Agent| !store::dormant(a, cutoff);
    let pd = |x: Item| !unused(d.agents, cutoff, x.agent);
    let pm = |m: Line| !unused(d.agents, cutoff, m.agent);
    let pn = |n: Note| !unused(d.agents, cutoff, n.from) && !unused(d.agents, cutoff, n.to);
    database::kept_ascending(d.agents, pa);
    database::kept_items_sound(d.data, pd);
    database::kept_notes_numbered(d.notes, d.next_note, pn);
    rows::kept_are_kept(d.data, pd);
    rows::kept_are_kept(d.messages, pm);
    rows::kept_are_kept(d.notes, pn);
    assert forall|i: int| database::owned(d) && 0 <= i < e.data.len() implies database::known(
        e.agents,
        (#[trigger] e.data[i]).agent,
    ) by {
        let x = choose|x: int| 0 <= x < d.data.len() && d.data[x] == e.data[i];
        assert(database::known(d.agents, d.data[x].agent));
        assert(pd(e.data[i]));
        survivors(d, cutoff, e.data[i].agent);
    }
    assert forall|i: int| database::owned(d) && 0 <= i < e.messages.len() implies database::known(
        e.agents,
        (#[trigger] e.messages[i]).agent,
    ) by {
        let x = choose|x: int| 0 <= x < d.messages.len() && d.messages[x] == e.messages[i];
        assert(database::known(d.agents, d.messages[x].agent));
        assert(pm(e.messages[i]));
        survivors(d, cutoff, e.messages[i].agent);
    }
    assert forall|i: int| database::owned(d) && 0 <= i < e.notes.len() implies database::known(
        e.agents,
        (#[trigger] e.notes[i]).from,
    ) && database::known(e.agents, e.notes[i].to) by {
        let x = choose|x: int| 0 <= x < d.notes.len() && d.notes[x] == e.notes[i];
        assert(database::known(d.agents, d.notes[x].from));
        assert(pn(e.notes[i]));
        survivors(d, cutoff, e.notes[i].from);
        survivors(d, cutoff, e.notes[i].to);
    }
    assert forall|i: int| database::owned(d) && 0 <= i < e.tasks.len() implies ((
    #[trigger] e.tasks[i]).agent matches Some(a) ==> database::known(e.agents, a)) by {
        assert(d.tasks[i].id == e.tasks[i].id);
        if let Some(a) = e.tasks[i].agent {
            assert(d.tasks[i].agent == Some(a));
            survivors(d, cutoff, a);
        }
    }
    assert forall|i: int, j: int| 0 <= i < j < e.tasks.len() implies (#[trigger] e.tasks[i]).id < (
    #[trigger] e.tasks[j]).id by {
        assert(d.tasks[i].id < d.tasks[j].id);
    }
    assert forall|i: int| 0 <= i < e.tasks.len() implies (#[trigger] e.tasks[i]).id
        < d.next_task by {
        assert(d.tasks[i].id < d.next_task);
    }
}

proof fn listed_are_unused(list: Seq<String>, v: Seq<Agent>, cutoff: Seq<char>)
    requires
        words::views(list) == store::dormant_names(v, cutoff),
    ensures
        forall|n: Seq<char>| #[trigger] text::holds_text(list, n) == unused(v, cutoff, n),
{
    let w = words::views(list);
    assert forall|n: Seq<char>| #[trigger] text::holds_text(list, n) == unused(v, cutoff, n) by {
        dormant_named(v, cutoff, n);
        if text::holds_text(list, n) {
            let i = choose|i: int| 0 <= i < list.len() && (#[trigger] list[i])@ == n;
            assert(w[i] == n);
        }
        if w.contains(n) {
            let i = choose|i: int| 0 <= i < w.len() && w[i] == n;
            assert(list[i]@ == n);
        }
    }
}

impl Store {
    /// Drops the agents that nobody uses, with what belongs to them; their tasks stay and belong to
    /// no agent. Gives the names of the agents that are gone.
    pub fn gc_agents(&mut self, clock: &Clock) -> (r: Vec<String>)
        requires
            database::sound(old(self)@),
        ensures
            database::sound(final(self)@),
            database::owned(old(self)@) ==> database::owned(final(self)@),
            words::views(r@) == store::dormant_names(old(self)@.agents, clock.cutoff@),
            final(self)@ == collected(old(self)@, clock.cutoff@),
    {
        let ghost d = self@;
        let ghost v = d.agents;
        let ghost cutoff = clock.cutoff@;
        proof {
            collecting_is_sound(d, cutoff);
        }
        let list = gc_agents(self.agents.as_slice(), clock.cutoff.as_str());
        proof {
            listed_are_unused(list@, v, cutoff);
        }
        let mut agents: Vec<AgentRow> = Vec::new();
        std::mem::swap(&mut agents, &mut self.agents);
        self.agents = keep_used(agents, clock.cutoff.as_str());
        let mut data: Vec<DataRow> = Vec::new();
        std::mem::swap(&mut data, &mut self.data);
        self.data = keep_owned_data(data, list.as_slice(), Ghost(v), Ghost(cutoff));
        let mut messages: Vec<MessageRow> = Vec::new();
        std::mem::swap(&mut messages, &mut self.messages);
        self.messages =
        keep_owned_messages(messages, list.as_slice(), Ghost(v), Ghost(cutoff));
        let mut notes: Vec<NotificationRow> = Vec::new();
        std::mem::swap(&mut notes, &mut self.notes);
        self.notes = keep_owned_notes(notes, list.as_slice(), Ghost(v), Ghost(cutoff));
        let ghost tasks = Seq::new(d.tasks.len(), |i: int| orphaned(v, cutoff, d.tasks[i]));
        let mut i: usize = 0;
        while i < self.tasks.len()
            invariant
                i <= self.tasks@.len() == d.tasks.len(),
                forall|n: Seq<char>|
                    #[trigger] text::holds_text(list@, n) == unused(v, cutoff, n),
                tasks == Seq::new(d.tasks.len(), |i: int| orphaned(v, cutoff, d.tasks[i])),
                self@ == (Db { tasks: self@.tasks, ..collected(d, cutoff) }),
                forall|j: int| 0 <= j < i ==> #[trigger] self@.tasks[j] == tasks[j],
                forall|j: int| i <= j < d.tasks.len() ==> #[trigger] self@.tasks[j] == d.tasks[j],
            decreases self.tasks@.len() - i,
        {
            let ghost before = self.tasks@;
            assert(self@.tasks[i as int] == d.tasks[i as int]);
            assert(before[i as int]@ == d.tasks[i as int]);
            let alone = match &self.tasks[i].agent_name {
                Some(a) => contains_text(list.as_slice(), a.as_str()),
                None => false,
            };
            if alone {
                let mut row = self.tasks[i].clone();
                row.agent_name = None;
                self.tasks.set(i, row);
            }
            proof {
                assert forall|j: int| 0 <= j < d.tasks.len() && j != i implies #[trigger] self@.tasks[j]
                    == rows::rows_view(before)[j] by {}
            }
            i += 1;
        }
        assert(self@.tasks =~= tasks);
        list
    }
}

fn keep_used(v: Vec<AgentRow>, cutoff: &str) -> (r: Vec<AgentRow>)
    ensures
        rows::rows_view(r@) == rows::kept(
            rows::rows_view(v@),
            |a: Agent| !store::dormant(a, cutoff@),
        ),
{
    let ghost p = |a: AgentRow| !store::dormant(a@, cutoff@);
    let ghost q = |a: Agent| !store::dormant(a, cutoff@);
    let keep = |a: &AgentRow| -> (b: bool)
        ensures
            b == !store::dormant(a@, cutoff@),
        { !is_dormant(a, cutoff) };
    proof {
        assert(forall|x: AgentRow| #[trigger] p(x) == q(x@));
        rows::rows_kept(v@, p, q);
    }
    retain(v, keep, Ghost(p))
}

fn keep_owned_data(
    v: Vec<DataRow>,
    list: &[String],
    Ghost(agents): Ghost<Seq<Agent>>,
    Ghost(cutoff): Ghost<Seq<char>>,
) -> (r: Vec<DataRow>)
    requires
        words::views(list@) == store::dormant_names(agents, cutoff),
    ensures
        rows::rows_view(r@) == rows::kept(
            rows::rows_view(v@),
            |e: Item| !unused(agents, cutoff, e.agent),
        ),
{
    let ghost p = |e: DataRow| !text::holds_text(list@, e.agent@);
    let ghost q = |e: Item| !unused(agents, cutoff, e.agent);
    let keep = |e: &DataRow| -> (b: bool)
        ensures
            b == !text::holds_text(list@, e.agent@),
        { !contains_text(list, e.agent.as_str()) };
    proof {
        listed_are_unused(list@, agents, cutoff);
        assert(forall|x: DataRow| #[trigger] p(x) == q(x@));
        rows::rows_kept(v@, p, q);
    }
    retain(v, keep, Ghost(p))
}

fn keep_owned_messages(
    v: Vec<MessageRow>,
    list: &[String],
    Ghost(agents): Ghost<Seq<Agent>>,
    Ghost(cutoff): Ghost<Seq<char>>,
) -> (r: Vec<MessageRow>)
    requires
        words::views(list@) == store::dormant_names(agents, cutoff),
    ensures
        rows::rows_view(r@) == rows::kept(
            rows::rows_view(v@),
            |m: Line| !unused(agents, cutoff, m.agent),
        ),
{
    let ghost p = |m: MessageRow| !text::holds_text(list@, m.agent@);
    let ghost q = |m: Line| !unused(agents, cutoff, m.agent);
    let keep = |m: &MessageRow| -> (b: bool)
        ensures
            b == !text::holds_text(list@, m.agent@),
        { !contains_text(list, m.agent.as_str()) };
    proof {
        listed_are_unused(list@, agents, cutoff);
        assert(forall|x: MessageRow| #[trigger] p(x) == q(x@));
        rows::rows_kept(v@, p, q);
    }
    retain(v, keep, Ghost(p))
}

fn keep_owned_notes(
    v: Vec<NotificationRow>,
    list: &[String],
    Ghost(agents): Ghost<Seq<Agent>>,
    Ghost(cutoff): Ghost<Seq<char>>,
) -> (r: Vec<NotificationRow>)
    requires
        words::views(list@) == store::dormant_names(agents, cutoff),
    ensures
        rows::rows_view(r@) == rows::kept(
            rows::rows_view(v@),
            |n: Note| !unused(agents, cutoff, n.from) && !unused(agents, cutoff, n.to),
        ),
{
    let ghost p = |n: NotificationRow|
        !text::holds_text(list@, n.from_agent@) && !text::holds_text(list@, n.to_agent@);
    let ghost q = |n: Note| !unused(agents, cutoff, n.from) && !unused(agents, cutoff, n.to);
    let keep = |n: &NotificationRow| -> (b: bool)
        ensures
            b == (!text::holds_text(list@, n.from_agent@) && !text::holds_text(
                list@,
                n.to_agent@,
            )),
        {
            !contains_text(list, n.from_agent.as_str()) && !contains_text(
                list,
                n.to_agent.as_str(),
            )
        };
    proof {
        listed_are_unused(list@, agents, cutoff);
        assert(forall|x: NotificationRow| #[trigger] p(x) == q(x@));
        rows::rows_kept(v@, p, q);
    }
    retain(v, keep, Ghost(p))
}

/// The default agent and the agents in use outlive the collection, with what they have stored; the
/// others do not.
pub proof fn collection_keeps_what_is_used(d: Db, cutoff: Seq<char>, name: Seq<char>)
    requires
        database::sound(d),
        database::known(d.agents, name),
    ensures
        database::known(collected(d, cutoff).agents, name) == !unused(d.agents, cutoff, name),
        name == "default"@ ==> database::known(collected(d, cutoff).agents, name),
        !unused(d.agents, cutoff, name) ==> forall|i: int|
            0 <= i < d.data.len() && (#[trigger] d.data[i]).agent == name ==> collected(
                d,
                cutoff,
            ).data.contains(d.data[i]),
        collected(d, cutoff).tasks.len() == d.tasks.len(),
{
    let e = collected(d, cutoff);
    let pa = |a: Agent| !store::dormant(a, cutoff);
    let pd = |x: Item| !unused(d.agents, cutoff, x.agent);
    if !unused(d.agents, cutoff, name) {
        survivors(d, cutoff, name);
        assert forall|i: int| 0 <= i < d.data.len() && (#[trigger] d.data[i]).agent
            == name implies e.data.contains(d.data[i]) by {
            rows::kept_has(d.data, pd, i);
        }
    } else {
        let i = choose|i: int|
            0 <= i < d.agents.len() && (#[trigger] d.agents[i]).name == name && store::dormant(
                d.agents[i],
                cutoff,
            );
        rows::kept_are_kept(d.agents, pa);
        if database::known(e.agents, name) {
            let j = choose|j: int| 0 <= j < e.agents.len() && (#[trigger] e.agents[j]).name == name;
            assert(pa(e.agents[j]) && d.agents.contains(e.agents[j]));
            let k = choose|k: int| 0 <= k < d.agents.len() && d.agents[k] == e.agents[j];
            if i < k {
                assert(d.agents[i].name != d.agents[k].name);
            } else if k < i {
                assert(d.agents[k].name != d.agents[i].name);
            }
        }
    }
}

} // verus!
