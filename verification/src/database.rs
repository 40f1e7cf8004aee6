//! The stored state: agents, their data, their tasks, their conversations, and their messages.

use vstd::prelude::*;
use crate::json;
use crate::order::text_le;
use crate::order;
use crate::rows::retain;
use crate::rows;
use crate::store::{
    claim_agent, heartbeat, release_agent, Agent, AgentRow, Note, NotificationRow, Task, TaskRow,
};
use crate::store;
use crate::text::{same, text3};

verus! {


/// The time of an operation: now and the time before which a session counts as gone, as they are
/// stored; now in RFC 3339 form; and now in milliseconds.
pub struct Clock {
    pub now: String,
    pub cutoff: String,
    pub stamp: String,
    pub millis: i64,
}

/// The time of an operation.
pub ghost struct Moment {
    pub now: Seq<char>,
    pub cutoff: Seq<char>,
    pub stamp: Seq<char>,
    pub millis: i64,
}

impl View for Clock {
    type V = Moment;

    open spec fn view(&self) -> Moment {
        Moment {
            now: self.now@,
            cutoff: self.cutoff@,
            stamp: self.stamp@,
            millis: self.millis,
        }
    }
}

/// A value that an agent stores.
#[derive(Debug, PartialEq, Eq)]
pub struct DataRow {
    pub agent: String,
    pub key: String,
    pub value: String,
}

/// A message of the conversation of an agent, as JSON.
#[derive(Debug, PartialEq, Eq)]
pub struct MessageRow {
    pub agent: String,
    pub json: String,
}

/// What a stored value holds.
pub ghost struct Item {
    pub agent: Seq<char>,
    pub key: Seq<char>,
    pub value: Seq<char>,
}

/// What a stored message of a conversation holds.
pub ghost struct Line {
    pub agent: Seq<char>,
    pub json: Seq<char>,
}

impl View for DataRow {
    type V = Item;

    open spec fn view(&self) -> Item {
        Item { agent: self.agent@, key: self.key@, value: self.value@ }
    }
}

impl View for MessageRow {
    type V = Line;

    open spec fn view(&self) -> Line {
        Line { agent: self.agent@, json: self.json@ }
    }
}

/// The stored state.
pub struct Store {
    pub agents: Vec<AgentRow>,
    pub data: Vec<DataRow>,
    pub tasks: Vec<TaskRow>,
    pub messages: Vec<MessageRow>,
    pub notes: Vec<NotificationRow>,
    pub next_task: i64,
    pub next_note: i64,
}

/// What the stored state holds.
pub ghost struct Db {
    pub agents: Seq<Agent>,
    pub data: Seq<Item>,
    pub tasks: Seq<Task>,
    pub messages: Seq<Line>,
    pub notes: Seq<Note>,
    pub next_task: int,
    pub next_note: int,
}

impl View for Store {
    type V = Db;

    open spec fn view(&self) -> Db {
        Db {
            agents: rows::rows_view(self.agents@),
            data: rows::rows_view(self.data@),
            tasks: rows::rows_view(self.tasks@),
            messages: rows::rows_view(self.messages@),
            notes: rows::rows_view(self.notes@),
            next_task: self.next_task as int,
            next_note: self.next_note as int,
        }
    }
}

/// The names of agents.
pub open spec fn names(v: Seq<Agent>) -> Seq<Seq<char>> {
    Seq::new(v.len(), |i: int| v[i].name)
}

/// The keys of stored values.
pub open spec fn keys(v: Seq<Item>) -> Seq<Seq<char>> {
    Seq::new(v.len(), |i: int| v[i].key)
}

/// An agent of that name is there.
pub open spec fn known(v: Seq<Agent>, name: Seq<char>) -> bool {
    exists|i: int| 0 <= i < v.len() && (#[trigger] v[i]).name == name
}

/// A value that belongs to an agent under a key.
pub open spec fn is_item(e: Item, agent: Seq<char>, key: Seq<char>) -> bool {
    e.agent == agent && e.key == key
}

/// Tasks in the order of their numbers.
pub open spec fn tasks_numbered(v: Seq<Task>, next: int) -> bool {
    &&& forall|i: int, j: int| 0 <= i < j < v.len() ==> (#[trigger] v[i]).id < (#[trigger] v[j]).id
    &&& forall|i: int| 0 <= i < v.len() ==> (#[trigger] v[i]).id < next
}

/// Messages between agents in the order of their numbers.
pub open spec fn notes_numbered(v: Seq<Note>, next: int) -> bool {
    &&& forall|i: int, j: int| 0 <= i < j < v.len() ==> (#[trigger] v[i]).id < (#[trigger] v[j]).id
    &&& forall|i: int| 0 <= i < v.len() ==> (#[trigger] v[i]).id < next
}

/// The agents are in the order of their names, and no two share one; the values are in the order of
/// their keys, and no agent has two under one key; tasks and messages between agents are in the
/// order of their numbers.
pub open spec fn sound(d: Db) -> bool {
    &&& tasks_numbered(d.tasks, d.next_task)
    &&& notes_numbered(d.notes, d.next_note)
    &&& order::ascending(names(d.agents))
    &&& forall|i: int, j: int|
        0 <= i < j < d.agents.len() ==> (#[trigger] d.agents[i]).name != (
        #[trigger] d.agents[j]).name
    &&& order::ascending(keys(d.data))
    &&& forall|i: int, j: int|
        0 <= i < j < d.data.len() ==> !is_item(
            #[trigger] d.data[j],
            (#[trigger] d.data[i]).agent,
            d.data[i].key,
        )
}

/// Whatever is stored belongs to agents that are there.
pub open spec fn owned(d: Db) -> bool {
    &&& forall|i: int| 0 <= i < d.data.len() ==> known(d.agents, (#[trigger] d.data[i]).agent)
    &&& forall|i: int|
        0 <= i < d.messages.len() ==> known(d.agents, (#[trigger] d.messages[i]).agent)
    &&& forall|i: int|
        0 <= i < d.notes.len() ==> known(d.agents, (#[trigger] d.notes[i]).from) && known(
            d.agents,
            d.notes[i].to,
        )
    &&& forall|i: int|
        0 <= i < d.tasks.len() ==> ((#[trigger] d.tasks[i]).agent matches Some(a) ==> known(
            d.agents,
            a,
        ))
}

/// The error for something that would belong to an agent that is not there.
pub const NO_AGENT: &'static str = "FOREIGN KEY constraint failed";

/// The error where no number is left to give.
pub const NO_NUMBER: &'static str = "database or disk is full";

// ---------------------------------------------------------------------------
// Sessions
// ---------------------------------------------------------------------------

/// The agents after a session claimed one.
pub open spec fn claimed(
    v: Seq<Agent>,
    name: Seq<char>,
    session: Seq<char>,
    now: Seq<char>,
    cutoff: Seq<char>,
) -> Seq<Agent> {
    Seq::new(
        v.len(),
        |i: int|
            if v[i].name == name && store::claimable(v[i], session, cutoff) {
                store::held(v[i], session, now)
            } else {
                v[i]
            },
    )
}

/// An agent of that name can be claimed.
pub open spec fn can_claim(
    v: Seq<Agent>,
    name: Seq<char>,
    session: Seq<char>,
    cutoff: Seq<char>,
) -> bool {
    exists|i: int|
        0 <= i < v.len() && (#[trigger] v[i]).name == name && store::claimable(
            v[i],
            session,
            cutoff,
        )
}

/// The agents after a sign of life of a session.
pub open spec fn all_heartbeats(v: Seq<Agent>, session: Seq<char>, now: Seq<char>) -> Seq<Agent> {
    Seq::new(v.len(), |i: int| store::after_heartbeat(v[i], session, now))
}

/// The agents after a session gave up one.
pub open spec fn released(v: Seq<Agent>, name: Seq<char>, session: Seq<char>) -> Seq<Agent> {
    Seq::new(
        v.len(),
        |i: int|
            if v[i].name == name {
                store::after_release(v[i], session)
            } else {
                v[i]
            },
    )
}

/// The agents after a session gave up all that it had.
pub open spec fn all_released(v: Seq<Agent>, session: Seq<char>) -> Seq<Agent> {
    Seq::new(v.len(), |i: int| store::after_release(v[i], session))
}

/// Two lists of agents with the same names.
pub open spec fn same_names(a: Seq<Agent>, b: Seq<Agent>) -> bool {
    a.len() == b.len() && forall|i: int|
        0 <= i < a.len() ==> (#[trigger] a[i]).name == (#[trigger] b[i]).name
}

proof fn renaming_nothing_is_sound(d: Db, agents: Seq<Agent>)
    requires
        sound(d),
        same_names(d.agents, agents),
    ensures
        sound(Db { agents, ..d }),
        owned(d) ==> owned(Db { agents, ..d }),
{
    assert(names(agents) =~= names(d.agents));
    assert forall|n: Seq<char>| known(d.agents, n) implies #[trigger] known(agents, n) by {
        let i = choose|i: int| 0 <= i < d.agents.len() && (#[trigger] d.agents[i]).name == n;
        assert(agents[i].name == n);
    }
    assert forall|i: int, j: int| 0 <= i < j < agents.len() implies (#[trigger] agents[i]).name
        != (#[trigger] agents[j]).name by {
        assert(d.agents[i].name != d.agents[j].name);
    }
}

impl Store {
    /// Nothing is stored.
    pub fn new() -> (r: Self)
        ensures
            sound(r@),
            owned(r@),
            r@.agents.len() == 0,
            r@.data.len() == 0,
            r@.tasks.len() == 0,
            r@.messages.len() == 0,
            r@.notes.len() == 0,
            r@.next_task == 1,
            r@.next_note == 1,
    {
        Store {
            agents: Vec::new(),
            data: Vec::new(),
            tasks: Vec::new(),
            messages: Vec::new(),
            notes: Vec::new(),
            next_task: 1,
            next_note: 1,
        }
    }

    /// Claims an agent for a session; says whether that was possible.
    pub fn claim_agent(&mut self, name: &str, session: &str, clock: &Clock) -> (r: bool)
        requires
            sound(old(self)@),
        ensures
            sound(final(self)@),
            owned(old(self)@) ==> owned(final(self)@),
            r == can_claim(old(self)@.agents, name@, session@, clock.cutoff@),
            final(self)@ == (Db {
                agents: claimed(
                    old(self)@.agents,
                    name@,
                    session@,
                    clock.now@,
                    clock.cutoff@,
                ),
                ..old(self)@
            }),
    {
        let ghost d = self@;
        let ghost goal = claimed(d.agents, name@, session@, clock.now@, clock.cutoff@);
        let mut found = false;
        let mut i: usize = 0;
        while i < self.agents.len()
            invariant
                i <= self.agents@.len() == d.agents.len(),
                goal == claimed(d.agents, name@, session@, clock.now@, clock.cutoff@),
                self@ == (Db { agents: self@.agents, ..d }),
                forall|j: int| 0 <= j < i ==> #[trigger] self@.agents[j] == goal[j],
                forall|j: int| i <= j < d.agents.len() ==> #[trigger] self@.agents[j]
                    == d.agents[j],
                found == exists|j: int|
                    0 <= j < i && (#[trigger] d.agents[j]).name == name@ && store::claimable(
                        d.agents[j],
                        session@,
                        clock.cutoff@,
                    ),
            decreases self.agents@.len() - i,
        {
            let ghost before = self.agents@;
            assert(self@.agents[i as int] == d.agents[i as int]);
            assert(before[i as int]@ == d.agents[i as int]);
            if same(self.agents[i].name.as_str(), name) {
                let c = claim_agent(
                    &mut self.agents[i],
                    session,
                    clock.now.as_str(),
                    clock.cutoff.as_str(),
                );
                if c {
                    found = true;
                }
            }
            proof {
                assert forall|j: int| 0 <= j < d.agents.len() && j != i implies
                    #[trigger] self@.agents[j] == before[j]@ by {
                    assert(self.agents@[j] == before[j]);
                }
                assert(self@.agents[i as int] == goal[i as int]);
                assert forall|j: int| 0 <= j < i implies #[trigger] self@.agents[j] == goal[j] by {
                    assert(rows::rows_view(before)[j] == goal[j]);
                }
                assert forall|j: int| i < j < d.agents.len() implies #[trigger] self@.agents[j]
                    == d.agents[j] by {
                    assert(rows::rows_view(before)[j] == d.agents[j]);
                }
            }
            i += 1;
        }
        proof {
            assert(self@.agents =~= goal);
            renaming_nothing_is_sound(d, goal);
        }
        found
    }

    /// Takes a sign of life of a session for all its agents.
    pub fn heartbeat_all(&mut self, session: &str, clock: &Clock)
        requires
            sound(old(self)@),
        ensures
            sound(final(self)@),
            owned(old(self)@) ==> owned(final(self)@),
            final(self)@ == (Db {
                agents: all_heartbeats(old(self)@.agents, session@, clock.now@),
                ..old(self)@
            }),
    {
        let ghost d = self@;
        let ghost goal = all_heartbeats(d.agents, session@, clock.now@);
        let mut i: usize = 0;
        while i < self.agents.len()
            invariant
                i <= self.agents@.len() == d.agents.len(),
                goal == all_heartbeats(d.agents, session@, clock.now@),
                self@ == (Db { agents: self@.agents, ..d }),
                forall|j: int| 0 <= j < i ==> #[trigger] self@.agents[j] == goal[j],
                forall|j: int| i <= j < d.agents.len() ==> #[trigger] self@.agents[j]
                    == d.agents[j],
            decreases self.agents@.len() - i,
        {
            let ghost before = self.agents@;
            assert(self@.agents[i as int] == d.agents[i as int]);
            assert(before[i as int]@ == d.agents[i as int]);
            heartbeat(&mut self.agents[i], session, clock.now.as_str());
            proof {
                assert(self@.agents[i as int] == goal[i as int]);
                assert forall|j: int| 0 <= j < i implies #[trigger] self@.agents[j] == goal[j] by {
                    assert(self.agents@[j] == before[j]);
                    assert(rows::rows_view(before)[j] == goal[j]);
                }
                assert forall|j: int| i < j < d.agents.len() implies #[trigger] self@.agents[j]
                    == d.agents[j] by {
                    assert(self.agents@[j] == before[j]);
                    assert(rows::rows_view(before)[j] == d.agents[j]);
                }
            }
            i += 1;
        }
        proof {
            assert(self@.agents =~= goal);
            renaming_nothing_is_sound(d, goal);
        }
    }

    /// Gives up an agent, where the session has it.
    pub fn release_agent(&mut self, name: &str, session: &str)
        requires
            sound(old(self)@),
        ensures
            sound(final(self)@),
            owned(old(self)@) ==> owned(final(self)@),
            final(self)@ == (Db {
                agents: released(old(self)@.agents, name@, session@),
                ..old(self)@
            }),
    {
        let ghost d = self@;
        let ghost goal = released(d.agents, name@, session@);
        let mut i: usize = 0;
        while i < self.agents.len()
            invariant
                i <= self.agents@.len() == d.agents.len(),
                goal == released(d.agents, name@, session@),
                self@ == (Db { agents: self@.agents, ..d }),
                forall|j: int| 0 <= j < i ==> #[trigger] self@.agents[j] == goal[j],
                forall|j: int| i <= j < d.agents.len() ==> #[trigger] self@.agents[j]
                    == d.agents[j],
            decreases self.agents@.len() - i,
        {
            let ghost before = self.agents@;
            assert(self@.agents[i as int] == d.agents[i as int]);
            assert(before[i as int]@ == d.agents[i as int]);
            if same(self.agents[i].name.as_str(), name) {
                release_agent(&mut self.agents[i], session);
            }
            proof {
                assert(self@.agents[i as int] == goal[i as int]);
                assert forall|j: int| 0 <= j < i implies #[trigger] self@.agents[j] == goal[j] by {
                    assert(self.agents@[j] == before[j]);
                    assert(rows::rows_view(before)[j] == goal[j]);
                }
                assert forall|j: int| i < j < d.agents.len() implies #[trigger] self@.agents[j]
                    == d.agents[j] by {
                    assert(self.agents@[j] == before[j]);
                    assert(rows::rows_view(before)[j] == d.agents[j]);
                }
            }
            i += 1;
        }
        proof {
            assert(self@.agents =~= goal);
            renaming_nothing_is_sound(d, goal);
        }
    }

    /// Gives up all agents of a session.
    pub fn release_all_agents(&mut self, session: &str)
        requires
            sound(old(self)@),
        ensures
            sound(final(self)@),
            owned(old(self)@) ==> owned(final(self)@),
            final(self)@ == (Db {
                agents: all_released(old(self)@.agents, session@),
                ..old(self)@
            }),
    {
        let ghost d = self@;
        let ghost goal = all_released(d.agents, session@);
        let mut i: usize = 0;
        while i < self.agents.len()
            invariant
                i <= self.agents@.len() == d.agents.len(),
                goal == all_released(d.agents, session@),
                self@ == (Db { agents: self@.agents, ..d }),
                forall|j: int| 0 <= j < i ==> #[trigger] self@.agents[j] == goal[j],
                forall|j: int| i <= j < d.agents.len() ==> #[trigger] self@.agents[j]
                    == d.agents[j],
            decreases self.agents@.len() - i,
        {
            let ghost before = self.agents@;
            assert(self@.agents[i as int] == d.agents[i as int]);
            assert(before[i as int]@ == d.agents[i as int]);
            release_agent(&mut self.agents[i], session);
            proof {
                assert(self@.agents[i as int] == goal[i as int]);
                assert forall|j: int| 0 <= j < i implies #[trigger] self@.agents[j] == goal[j] by {
                    assert(self.agents@[j] == before[j]);
                    assert(rows::rows_view(before)[j] == goal[j]);
                }
                assert forall|j: int| i < j < d.agents.len() implies #[trigger] self@.agents[j]
                    == d.agents[j] by {
                    assert(self.agents@[j] == before[j]);
                    assert(rows::rows_view(before)[j] == d.agents[j]);
                }
            }
            i += 1;
        }
        proof {
            assert(self@.agents =~= goal);
            renaming_nothing_is_sound(d, goal);
        }
    }
}

// ---------------------------------------------------------------------------
// Agents
// ---------------------------------------------------------------------------

/// A new agent, in the place that its name gives it.
pub open spec fn with_agent(v: Seq<Agent>, a: Agent) -> Seq<Agent> {
    v.insert(rows::place(names(v), a.name), a)
}

/// An agent that nobody has claimed yet.
pub open spec fn new_agent(name: Seq<char>, description: Seq<char>, now: Seq<char>) -> Agent {
    Agent { name, description, created_at: now, session: None, heartbeat: None }
}

proof fn known_grows(v: Seq<Agent>, a: Agent, n: Seq<char>)
    requires
        known(v, n) || n == a.name,
    ensures
        known(with_agent(v, a), n),
{
    rows::place_within(names(v), a.name);
    let p = rows::place(names(v), a.name);
    let w = with_agent(v, a);
    if n == a.name {
        assert(w[p].name == n);
    } else {
        let i = choose|i: int| 0 <= i < v.len() && (#[trigger] v[i]).name == n;
        if i < p {
            assert(w[i].name == n);
        } else {
            assert(w[i + 1].name == n);
        }
    }
}

proof fn adding_is_sound(d: Db, a: Agent)
    requires
        sound(d),
        !known(d.agents, a.name),
    ensures
        sound(Db { agents: with_agent(d.agents, a), ..d }),
        owned(d) ==> owned(Db { agents: with_agent(d.agents, a), ..d }),
{
    let v = d.agents;
    let w = with_agent(v, a);
    let p = rows::place(names(v), a.name);
    rows::place_within(names(v), a.name);
    rows::placing_keeps_order(names(v), a.name);
    assert(names(w) =~= names(v).insert(p, a.name));
    assert forall|i: int, j: int| 0 <= i < j < w.len() implies (#[trigger] w[i]).name != (
    #[trigger] w[j]).name by {
        let x = if i < p {
            i
        } else {
            i - 1
        };
        let y = if j < p {
            j
        } else {
            j - 1
        };
        if i == p {
            assert(w[j] == v[y]);
        } else if j == p {
            assert(w[i] == v[x]);
        } else {
            assert(w[i] == v[x] && w[j] == v[y]);
        }
    }
    assert forall|n: Seq<char>| known(v, n) implies #[trigger] known(w, n) by {
        known_grows(v, a, n);
    }
}

/// The agent of a name.
pub open spec fn agent_named(v: Seq<Agent>, name: Seq<char>) -> Option<Agent> {
    if known(v, name) {
        Some(v[choose|i: int| 0 <= i < v.len() && (#[trigger] v[i]).name == name])
    } else {
        None
    }
}

/// The state without an agent and what belongs to it. The tasks of a name go with it even where no
/// agent has it.
pub open spec fn without_agent(d: Db, name: Seq<char>) -> Db {
    let tasks = rows::kept(d.tasks, |t: Task| t.agent != Some(name));
    if known(d.agents, name) {
        Db {
            agents: rows::kept(d.agents, |a: Agent| a.name != name),
            data: rows::kept(d.data, |e: Item| e.agent != name),
            tasks,
            messages: rows::kept(d.messages, |m: Line| m.agent != name),
            notes: rows::kept(d.notes, |n: Note| n.from != name && n.to != name),
            ..d
        }
    } else {
        Db { tasks, ..d }
    }
}

pub(crate) proof fn kept_ascending(v: Seq<Agent>, keep: spec_fn(Agent) -> bool)
    requires
        order::ascending(names(v)),
        forall|i: int, j: int|
            0 <= i < j < v.len() ==> (#[trigger] v[i]).name != (#[trigger] v[j]).name,
    ensures
        order::ascending(names(rows::kept(v, keep))),
        forall|i: int, j: int|
            0 <= i < j < rows::kept(v, keep).len() ==> (#[trigger] rows::kept(v, keep)[i]).name
                != (#[trigger] rows::kept(v, keep)[j]).name,
{
    let k = rows::kept(v, keep);
    let rel = |a: Agent, b: Agent| order::lex_le(a.name, b.name) && a.name != b.name;
    assert forall|i: int, j: int| 0 <= i < j < v.len() implies rel(
        #[trigger] v[i],
        #[trigger] v[j],
    ) by {
        assert(order::lex_le(names(v)[i], names(v)[j]));
    }
    rows::kept_pairwise(v, keep, rel);
    assert forall|i: int, j: int| 0 <= i <= j < k.len() implies order::lex_le(
        #[trigger] names(k)[i],
        #[trigger] names(k)[j],
    ) by {
        if i == j {
            order::lex_total(names(k)[i], names(k)[j]);
        } else {
            assert(rel(k[i], k[j]));
        }
    }
    assert forall|i: int, j: int| 0 <= i < j < k.len() implies (#[trigger] k[i]).name != (
    #[trigger] k[j]).name by {
        assert(rel(k[i], k[j]));
    }
}

pub(crate) proof fn kept_items_sound(v: Seq<Item>, keep: spec_fn(Item) -> bool)
    requires
        order::ascending(keys(v)),
        forall|i: int, j: int|
            0 <= i < j < v.len() ==> !is_item(
                #[trigger] v[j],
                (#[trigger] v[i]).agent,
                v[i].key,
            ),
    ensures
        order::ascending(keys(rows::kept(v, keep))),
        forall|i: int, j: int|
            0 <= i < j < rows::kept(v, keep).len() ==> !is_item(
                #[trigger] rows::kept(v, keep)[j],
                (#[trigger] rows::kept(v, keep)[i]).agent,
                rows::kept(v, keep)[i].key,
            ),
{
    let k = rows::kept(v, keep);
    let rel = |a: Item, b: Item| order::lex_le(a.key, b.key) && !is_item(b, a.agent, a.key);
    assert forall|i: int, j: int| 0 <= i < j < v.len() implies rel(
        #[trigger] v[i],
        #[trigger] v[j],
    ) by {
        assert(order::lex_le(keys(v)[i], keys(v)[j]));
    }
    rows::kept_pairwise(v, keep, rel);
    assert forall|i: int, j: int| 0 <= i <= j < k.len() implies order::lex_le(
        #[trigger] keys(k)[i],
        #[trigger] keys(k)[j],
    ) by {
        if i == j {
            order::lex_total(keys(k)[i], keys(k)[j]);
        } else {
            assert(rel(k[i], k[j]));
        }
    }
    assert forall|i: int, j: int| 0 <= i < j < k.len() implies !is_item(
        #[trigger] k[j],
        (#[trigger] k[i]).agent,
        k[i].key,
    ) by {
        assert(rel(k[i], k[j]));
    }
}

pub(crate) proof fn kept_tasks_numbered(v: Seq<Task>, next: int, keep: spec_fn(Task) -> bool)
    requires
        tasks_numbered(v, next),
    ensures
        tasks_numbered(rows::kept(v, keep), next),
{
    let k = rows::kept(v, keep);
    let rel = |a: Task, b: Task| a.id < b.id;
    rows::kept_are_kept(v, keep);
    assert(rows::pairwise(v, rel));
    rows::kept_pairwise(v, keep, rel);
    assert forall|i: int, j: int| 0 <= i < j < k.len() implies (#[trigger] k[i]).id < (
    #[trigger] k[j]).id by {
        assert(rel(k[i], k[j]));
    }
    assert forall|i: int| 0 <= i < k.len() implies (#[trigger] k[i]).id < next by {
        let x = choose|x: int| 0 <= x < v.len() && v[x] == k[i];
        assert(v[x].id < next);
    }
}

pub(crate) proof fn kept_notes_numbered(v: Seq<Note>, next: int, keep: spec_fn(Note) -> bool)
    requires
        notes_numbered(v, next),
    ensures
        notes_numbered(rows::kept(v, keep), next),
{
    let k = rows::kept(v, keep);
    let rel = |a: Note, b: Note| a.id < b.id;
    rows::kept_are_kept(v, keep);
    assert(rows::pairwise(v, rel));
    rows::kept_pairwise(v, keep, rel);
    assert forall|i: int, j: int| 0 <= i < j < k.len() implies (#[trigger] k[i]).id < (
    #[trigger] k[j]).id by {
        assert(rel(k[i], k[j]));
    }
    assert forall|i: int| 0 <= i < k.len() implies (#[trigger] k[i]).id < next by {
        let x = choose|x: int| 0 <= x < v.len() && v[x] == k[i];
        assert(v[x].id < next);
    }
}

pub(crate) proof fn still_known(v: Seq<Agent>, keep: spec_fn(Agent) -> bool, name: Seq<char>)
    requires
        known(v, name),
        forall|a: Agent| a.name == name && #[trigger] v.contains(a) ==> keep(a),
    ensures
        known(rows::kept(v, keep), name),
{
    let i = choose|i: int| 0 <= i < v.len() && (#[trigger] v[i]).name == name;
    assert(v.contains(v[i]));
    rows::kept_has(v, keep, i);
    let k = rows::kept(v, keep);
    let j = choose|j: int| 0 <= j < k.len() && k[j] == v[i];
    assert(k[j].name == name);
}

proof fn deleting_is_sound(d: Db, name: Seq<char>)
    requires
        sound(d),
    ensures
        sound(without_agent(d, name)),
        owned(d) ==> owned(without_agent(d, name)),
{
    let e = without_agent(d, name);
    let keep = |a: Agent| a.name != name;
    kept_ascending(d.agents, keep);
    kept_items_sound(d.data, |x: Item| x.agent != name);
    kept_tasks_numbered(d.tasks, d.next_task, |t: Task| t.agent != Some(name));
    kept_notes_numbered(d.notes, d.next_note, |n: Note| n.from != name && n.to != name);
    rows::kept_are_kept(d.data, |x: Item| x.agent != name);
    rows::kept_are_kept(d.tasks, |t: Task| t.agent != Some(name));
    rows::kept_are_kept(d.messages, |m: Line| m.agent != name);
    rows::kept_are_kept(d.notes, |n: Note| n.from != name && n.to != name);
    assert forall|n: Seq<char>| known(d.agents, n) && n != name implies #[trigger] known(
        e.agents,
        n,
    ) by {
        still_known(d.agents, keep, n);
    }
    assert forall|i: int| owned(d) && 0 <= i < e.data.len() implies known(
        e.agents,
        (#[trigger] e.data[i]).agent,
    ) by {
        let x = choose|x: int| 0 <= x < d.data.len() && d.data[x] == e.data[i];
        assert(known(d.agents, d.data[x].agent));
    }
    assert forall|i: int| owned(d) && 0 <= i < e.messages.len() implies known(
        e.agents,
        (#[trigger] e.messages[i]).agent,
    ) by {
        let x = choose|x: int| 0 <= x < d.messages.len() && d.messages[x] == e.messages[i];
        assert(known(d.agents, d.messages[x].agent));
    }
    assert forall|i: int| owned(d) && 0 <= i < e.notes.len() implies known(
        e.agents,
        (#[trigger] e.notes[i]).from,
    ) && known(e.agents, e.notes[i].to) by {
        let x = choose|x: int| 0 <= x < d.notes.len() && d.notes[x] == e.notes[i];
        assert(known(d.agents, d.notes[x].from) && known(d.agents, d.notes[x].to));
    }
    assert forall|i: int| owned(d) && 0 <= i < e.tasks.len() implies ((
    #[trigger] e.tasks[i]).agent matches Some(a) ==> known(e.agents, a)) by {
        let x = choose|x: int| 0 <= x < d.tasks.len() && d.tasks[x] == e.tasks[i];
        assert(d.tasks[x].agent == e.tasks[i].agent);
    }
}

/// The rows that a condition keeps are found by what they hold.
fn keep_agents(v: Vec<AgentRow>, name: &str) -> (r: Vec<AgentRow>)
    ensures
        rows::rows_view(r@) == rows::kept(rows::rows_view(v@), |a: Agent| a.name != name@),
{
    let ghost p = |a: AgentRow| a.name@ != name@;
    let ghost q = |a: Agent| a.name != name@;
    let keep = |a: &AgentRow| -> (b: bool)
        ensures
            b == (a.name@ != name@),
        { !same(a.name.as_str(), name) };
    proof {
        assert(forall|x: AgentRow| #[trigger] p(x) == q(x@));
        rows::rows_kept(v@, p, q);
    }
    retain(v, keep, Ghost(p))
}

fn keep_data(v: Vec<DataRow>, name: &str) -> (r: Vec<DataRow>)
    ensures
        rows::rows_view(r@) == rows::kept(rows::rows_view(v@), |e: Item| e.agent != name@),
{
    let ghost p = |e: DataRow| e.agent@ != name@;
    let ghost q = |e: Item| e.agent != name@;
    let keep = |e: &DataRow| -> (b: bool)
        ensures
            b == (e.agent@ != name@),
        { !same(e.agent.as_str(), name) };
    proof {
        assert(forall|x: DataRow| #[trigger] p(x) == q(x@));
        rows::rows_kept(v@, p, q);
    }
    retain(v, keep, Ghost(p))
}

pub(crate) fn belongs_to(agent: &Option<String>, name: &str) -> (r: bool)
    ensures
        r == (json::opt_view(*agent) == Some(name@)),
{
    match agent {
        Some(a) => same(a.as_str(), name),
        None => false,
    }
}

fn keep_tasks(v: Vec<TaskRow>, name: &str) -> (r: Vec<TaskRow>)
    ensures
        rows::rows_view(r@) == rows::kept(rows::rows_view(v@), |t: Task| t.agent != Some(name@)),
{
    let ghost p = |t: TaskRow| json::opt_view(t.agent_name) != Some(name@);
    let ghost q = |t: Task| t.agent != Some(name@);
    let keep = |t: &TaskRow| -> (b: bool)
        ensures
            b == (json::opt_view(t.agent_name) != Some(name@)),
        { !belongs_to(&t.agent_name, name) };
    proof {
        assert(forall|x: TaskRow| #[trigger] p(x) == q(x@));
        rows::rows_kept(v@, p, q);
    }
    retain(v, keep, Ghost(p))
}

pub(crate) fn keep_messages(v: Vec<MessageRow>, name: &str) -> (r: Vec<MessageRow>)
    ensures
        rows::rows_view(r@) == rows::kept(rows::rows_view(v@), |m: Line| m.agent != name@),
{
    let ghost p = |m: MessageRow| m.agent@ != name@;
    let ghost q = |m: Line| m.agent != name@;
    let keep = |m: &MessageRow| -> (b: bool)
        ensures
            b == (m.agent@ != name@),
        { !same(m.agent.as_str(), name) };
    proof {
        assert(forall|x: MessageRow| #[trigger] p(x) == q(x@));
        rows::rows_kept(v@, p, q);
    }
    retain(v, keep, Ghost(p))
}

fn keep_notes(v: Vec<NotificationRow>, name: &str) -> (r: Vec<NotificationRow>)
    ensures
        rows::rows_view(r@) == rows::kept(
            rows::rows_view(v@),
            |n: Note| n.from != name@ && n.to != name@,
        ),
{
    let ghost p = |n: NotificationRow| n.from_agent@ != name@ && n.to_agent@ != name@;
    let ghost q = |n: Note| n.from != name@ && n.to != name@;
    let keep = |n: &NotificationRow| -> (b: bool)
        ensures
            b == (n.from_agent@ != name@ && n.to_agent@ != name@),
        { !same(n.from_agent.as_str(), name) && !same(n.to_agent.as_str(), name) };
    proof {
        assert(forall|x: NotificationRow| #[trigger] p(x) == q(x@));
        rows::rows_kept(v@, p, q);
    }
    retain(v, keep, Ghost(p))
}

fn place_of_agent(v: &[AgentRow], name: &str) -> (r: usize)
    ensures
        r == rows::place(names(rows::rows_view(v@)), name@),
        r <= v@.len(),
{
    let ghost k = names(rows::rows_view(v@));
    let mut p: usize = v.len();
    assert(k.take(k.len() as int) =~= k);
    while p > 0 && !text_le(v[p - 1].name.as_str(), name)
        invariant
            p <= v@.len() == k.len(),
            k == names(rows::rows_view(v@)),
            rows::place(k, name@) == rows::place(k.take(p as int), name@),
        decreases p,
    {
        assert(k.take(p as int).last() == v@[p - 1].name@);
        assert(k.take(p as int).drop_last() =~= k.take(p - 1));
        p -= 1;
    }
    if p > 0 {
        assert(k.take(p as int).last() == v@[p - 1].name@);
    }
    p
}

impl Store {
    /// The agent of a name.
    pub fn get_agent(&self, name: &str) -> (r: Option<&AgentRow>)
        requires
            sound(self@),
        ensures
            match r {
                Some(a) => agent_named(self@.agents, name@) == Some(a@) && a@.name == name@,
                None => agent_named(self@.agents, name@) is None,
            },
    {
        let mut i: usize = 0;
        while i < self.agents.len()
            invariant
                sound(self@),
                i <= self.agents@.len(),
                forall|j: int| 0 <= j < i ==> (#[trigger] self@.agents[j]).name != name@,
            decreases self.agents@.len() - i,
        {
            assert(self@.agents[i as int] == self.agents@[i as int]@);
            if same(self.agents[i].name.as_str(), name) {
                proof {
                    let v = self@.agents;
                    assert(known(v, name@));
                    let c = choose|c: int| 0 <= c < v.len() && (#[trigger] v[c]).name == name@;
                    if c < i {
                        assert(v[c].name != v[i as int].name);
                    } else if c > i {
                        assert(v[i as int].name != v[c].name);
                    }
                }
                return Some(&self.agents[i]);
            }
            i += 1;
        }
        None
    }

    /// The agents, in the order of their names.
    pub fn list_agents(&self) -> (r: &[AgentRow])
        requires
            sound(self@),
        ensures
            rows::rows_view(r@) == self@.agents,
            order::ascending(names(rows::rows_view(r@))),
    {
        self.agents.as_slice()
    }

    fn add_agent(&mut self, name: &str, description: &str, clock: &Clock)
        requires
            sound(old(self)@),
            !known(old(self)@.agents, name@),
        ensures
            sound(final(self)@),
            owned(old(self)@) ==> owned(final(self)@),
            final(self)@ == (Db {
                agents: with_agent(
                    old(self)@.agents,
                    new_agent(name@, description@, clock.now@),
                ),
                ..old(self)@
            }),
    {
        let ghost d = self@;
        let row = AgentRow {
            name: name.to_owned(),
            description: description.to_owned(),
            created_at: clock.now.clone(),
            session_id: None,
            heartbeat_at: None,
        };
        let p = place_of_agent(self.agents.as_slice(), name);
        proof {
            rows::rows_insert(self.agents@, p as int, row);
            adding_is_sound(d, row@);
        }
        self.agents.insert(p, row);
    }

    /// Creates an agent; refuses a name that is there already.
    pub fn create_agent(&mut self, name: &str, description: &str, clock: &Clock) -> (r: Result<
        (),
        String,
    >)
        requires
            sound(old(self)@),
        ensures
            sound(final(self)@),
            owned(old(self)@) ==> owned(final(self)@),
            match r {
                Ok(_) => {
                    &&& !known(old(self)@.agents, name@)
                    &&& final(self)@ == (Db {
                        agents: with_agent(
                            old(self)@.agents,
                            new_agent(name@, description@, clock.now@),
                        ),
                        ..old(self)@
                    })
                },
                Err(e) => {
                    &&& known(old(self)@.agents, name@)
                    &&& e@ == "Agent '"@ + name@ + "' already exists"@
                    &&& final(self)@ == old(self)@
                },
            },
    {
        if self.get_agent(name).is_some() {
            return Err(text3("Agent '", name, "' already exists"));
        }
        self.add_agent(name, description, clock);
        Ok(())
    }

    /// Creates the default agent, where it is not there.
    pub fn ensure_default_agent(&mut self, clock: &Clock)
        requires
            sound(old(self)@),
        ensures
            sound(final(self)@),
            owned(old(self)@) ==> owned(final(self)@),
            known(final(self)@.agents, "default"@),
            final(self)@ == (if known(old(self)@.agents, "default"@) {
                old(self)@
            } else {
                Db {
                    agents: with_agent(
                        old(self)@.agents,
                        new_agent("default"@, "Default agent"@, clock.now@),
                    ),
                    ..old(self)@
                }
            }),
    {
        if self.get_agent("default").is_none() {
            proof {
                known_grows(
                    self@.agents,
                    new_agent("default"@, "Default agent"@, clock.now@),
                    "default"@,
                );
            }
            self.add_agent("default", "Default agent", clock);
        }
    }

    /// Deletes an agent with all that belongs to it; says whether it was there.
    pub fn delete_agent(&mut self, name: &str) -> (r: bool)
        requires
            sound(old(self)@),
        ensures
            sound(final(self)@),
            owned(old(self)@) ==> owned(final(self)@),
            r == known(old(self)@.agents, name@),
            final(self)@ == without_agent(old(self)@, name@),
    {
        let found = self.get_agent(name).is_some();
        proof {
            deleting_is_sound(self@, name@);
        }
        let mut tasks: Vec<TaskRow> = Vec::new();
        std::mem::swap(&mut tasks, &mut self.tasks);
        self.tasks = keep_tasks(tasks, name);
        if !found {
            return false;
        }
        let mut agents: Vec<AgentRow> = Vec::new();
        std::mem::swap(&mut agents, &mut self.agents);
        self.agents = keep_agents(agents, name);
        let mut data: Vec<DataRow> = Vec::new();
        std::mem::swap(&mut data, &mut self.data);
        self.data = keep_data(data, name);
        let mut messages: Vec<MessageRow> = Vec::new();
        std::mem::swap(&mut messages, &mut self.messages);
        self.messages = keep_messages(messages, name);
        let mut notes: Vec<NotificationRow> = Vec::new();
        std::mem::swap(&mut notes, &mut self.notes);
        self.notes = keep_notes(notes, name);
        true
    }
}

/// Nothing is left of an agent that was deleted.
pub proof fn deleting_leaves_nothing(d: Db, name: Seq<char>)
    requires
        known(d.agents, name) || owned(d),
    ensures
        ({
            let e = without_agent(d, name);
            &&& !known(e.agents, name)
            &&& forall|i: int| 0 <= i < e.data.len() ==> (#[trigger] e.data[i]).agent != name
            &&& forall|i: int| 0 <= i < e.tasks.len() ==> (#[trigger] e.tasks[i]).agent != Some(name)
            &&& forall|i: int|
                0 <= i < e.messages.len() ==> (#[trigger] e.messages[i]).agent != name
            &&& forall|i: int|
                0 <= i < e.notes.len() ==> (#[trigger] e.notes[i]).from != name && e.notes[i].to
                    != name
        }),
{
    rows::kept_are_kept(d.agents, |a: Agent| a.name != name);
    rows::kept_are_kept(d.data, |x: Item| x.agent != name);
    rows::kept_are_kept(d.tasks, |t: Task| t.agent != Some(name));
    rows::kept_are_kept(d.messages, |m: Line| m.agent != name);
    rows::kept_are_kept(d.notes, |n: Note| n.from != name && n.to != name);
}

} // verus!
