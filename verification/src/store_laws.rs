//! What holds of stored agents, values, conversations, messages and tasks.

use vstd::prelude::*;
use crate::agent_data;
use crate::collection;
use crate::conversations;
use crate::database;
use crate::database::{Db, Item, Line};
use crate::notifications;
use crate::order;
use crate::rows;
use crate::schedule;
use crate::store;
use crate::store::{Agent, Note, RunInfo, Task};
use crate::task_store;

verus! {

/// Keeping rows drops the others, and leaves those that are kept in their order.
pub proof fn keeping_is_filtering<T>(v: Seq<T>, keep: spec_fn(T) -> bool)
    ensures
        rows::kept(v, keep) == v.filter(keep),
    decreases v.len(),
{
    reveal(Seq::filter);
    if v.len() > 0 {
        keeping_is_filtering(v.drop_last(), keep);
    } else {
        assert(rows::kept(v, keep) =~= v.filter(keep));
    }
}

// ---------------------------------------------------------------------------
// Agents
// ---------------------------------------------------------------------------

/// A session gave no sign of life since the cutoff.
pub open spec fn silent(a: Agent, cutoff: Seq<char>) -> bool {
    a.heartbeat matches Some(h) ==> !order::lex_le(cutoff, h)
}

/// What stays of an agent, whoever has it.
pub open spec fn same_person(a: Agent, b: Agent) -> bool {
    a.name == b.name && a.description == b.description && a.created_at == b.created_at
}

/// A claim hands the agent of the name to the session where nobody has it, the session itself has
/// it, or its session is silent. Every other agent stays as it is.
pub proof fn claims_are_exact(
    v: Seq<Agent>,
    name: Seq<char>,
    session: Seq<char>,
    now: Seq<char>,
    cutoff: Seq<char>,
    i: int,
)
    requires
        0 <= i < v.len(),
    ensures
        ({
            let a = v[i];
            let b = database::claimed(v, name, session, now, cutoff)[i];
            let free = a.session is None || a.session == Some(session) || silent(a, cutoff);
            &&& same_person(a, b)
            &&& if a.name == name && free {
                b.session == Some(session) && b.heartbeat == Some(now) && database::can_claim(
                    v,
                    name,
                    session,
                    cutoff,
                )
            } else {
                b == a
            }
        }),
        database::claimed(v, name, session, now, cutoff).len() == v.len(),
        database::can_claim(v, name, session, cutoff) ==> exists|k: int|
            0 <= k < v.len() && (#[trigger] v[k]).name == name && (v[k].session is None
                || v[k].session == Some(session) || silent(v[k], cutoff)),
{
}

/// A sign of life renews what the session has, and nothing else. What a session gives up is
/// nobody's, and what others have stays theirs.
pub proof fn sessions_change_what_they_have(
    v: Seq<Agent>,
    name: Seq<char>,
    session: Seq<char>,
    now: Seq<char>,
    i: int,
)
    requires
        0 <= i < v.len(),
    ensures
        ({
            let a = v[i];
            let beat = database::all_heartbeats(v, session, now)[i];
            let one = database::released(v, name, session)[i];
            let all = database::all_released(v, session)[i];
            &&& same_person(a, beat) && same_person(a, one) && same_person(a, all)
            &&& beat.session == a.session
            &&& beat.heartbeat == if a.session == Some(session) {
                Some(now)
            } else {
                a.heartbeat
            }
            &&& a.session != Some(session) ==> all == a && one == a
            &&& a.session == Some(session) ==> all.session is None && all.heartbeat is None
            &&& a.name != name ==> one == a
            &&& a.name == name ==> one == all
        }),
        database::all_heartbeats(v, session, now).len() == v.len(),
        database::released(v, name, session).len() == v.len(),
        database::all_released(v, session).len() == v.len(),
{
}

/// A new agent is found under its name and stands in its place; the others stay.
pub proof fn new_agents_are_found(
    d: Db,
    name: Seq<char>,
    description: Seq<char>,
    now: Seq<char>,
    other: Seq<char>,
)
    requires
        database::sound(d),
        !database::known(d.agents, name),
    ensures
        ({
            let a = database::new_agent(name, description, now);
            let w = database::with_agent(d.agents, a);
            &&& a.name == name && a.description == description && a.created_at == now
            &&& a.session is None && a.heartbeat is None
            &&& database::agent_named(w, name) == Some(a)
            &&& other != name ==> database::agent_named(w, other) == database::agent_named(
                d.agents,
                other,
            )
            &&& w.to_multiset() == d.agents.to_multiset().insert(a)
            &&& order::ascending(database::names(w))
        }),
{
    let v = d.agents;
    let a = database::new_agent(name, description, now);
    let w = database::with_agent(v, a);
    let p = rows::place(database::names(v), name);
    rows::place_within(database::names(v), name);
    rows::placing_keeps_order(database::names(v), name);
    assert(database::names(w) =~= database::names(v).insert(p, name));
    broadcast use vstd::seq_lib::group_to_multiset_ensures;

    assert(w[p] == a);
    assert forall|k: int| 0 <= k < w.len() && (#[trigger] w[k]).name == name implies k == p by {
        if k < p {
            assert(w[k] == v[k]);
        } else if k > p {
            assert(w[k] == v[k - 1]);
        }
    }
    assert(database::known(w, name));
    if other != name {
        if database::known(v, other) {
            let c = choose|c: int| 0 <= c < v.len() && (#[trigger] v[c]).name == other;
            let j = if c < p {
                c
            } else {
                c + 1
            };
            assert(w[j] == v[c]);
            assert(database::known(w, other));
            let e = choose|e: int| 0 <= e < w.len() && (#[trigger] w[e]).name == other;
            assert(e != p);
            let f = if e < p {
                e
            } else {
                e - 1
            };
            assert(w[e] == v[f]);
            if f < c {
                assert(v[f].name != v[c].name);
            } else if c < f {
                assert(v[c].name != v[f].name);
            }
        } else if database::known(w, other) {
            let e = choose|e: int| 0 <= e < w.len() && (#[trigger] w[e]).name == other;
            let f = if e < p {
                e
            } else {
                e - 1
            };
            assert(w[e] == v[f]);
        }
    }
}

/// Deleting an agent drops the agent and what is its own, and nothing else.
pub proof fn deleting_drops_what_is_its_own(d: Db, name: Seq<char>)
    requires
        database::known(d.agents, name),
    ensures
        ({
            let e = database::without_agent(d, name);
            &&& e.agents == d.agents.filter(|a: Agent| a.name != name)
            &&& e.data == d.data.filter(|x: Item| x.agent != name)
            &&& e.tasks == d.tasks.filter(|t: Task| t.agent != Some(name))
            &&& e.messages == d.messages.filter(|m: Line| m.agent != name)
            &&& e.notes == d.notes.filter(|n: Note| n.from != name && n.to != name)
            &&& e.next_task == d.next_task && e.next_note == d.next_note
        }),
{
    keeping_is_filtering(d.agents, |a: Agent| a.name != name);
    keeping_is_filtering(d.data, |x: Item| x.agent != name);
    keeping_is_filtering(d.tasks, |t: Task| t.agent != Some(name));
    keeping_is_filtering(d.messages, |m: Line| m.agent != name);
    keeping_is_filtering(d.notes, |n: Note| n.from != name && n.to != name);
}

/// An agent that may be collected: it is not the default one, and nobody has it, or its session is
/// silent.
pub open spec fn idle(a: Agent, cutoff: Seq<char>) -> bool {
    a.name != "default"@ && (a.session is None || silent(a, cutoff))
}

/// An idle agent has the name.
pub open spec fn names_an_idle_one(v: Seq<Agent>, cutoff: Seq<char>, name: Seq<char>) -> bool {
    exists|i: int| 0 <= i < v.len() && (#[trigger] v[i]).name == name && idle(v[i], cutoff)
}

proof fn idle_names(v: Seq<Agent>, cutoff: Seq<char>)
    ensures
        store::dormant_names(v, cutoff) == v.filter(|a: Agent| idle(a, cutoff)).map(
            |k: int, a: Agent| a.name,
        ),
    decreases v.len(),
{
    reveal(Seq::filter);
    let p = |a: Agent| idle(a, cutoff);
    let f = |k: int, a: Agent| a.name;
    if v.len() > 0 {
        idle_names(v.drop_last(), cutoff);
        let k = v.drop_last().filter(p);
        if p(v.last()) {
            assert(k.push(v.last()).map(f) =~= k.map(f).push(v.last().name));
        }
    } else {
        assert(store::dormant_names(v, cutoff) =~= v.filter(p).map(f));
    }
}

/// A collection drops the idle agents and what is their own, and tells their names. Their tasks
/// stay, as tasks of nobody.
pub proof fn collecting_drops_the_idle(d: Db, cutoff: Seq<char>)
    ensures
        ({
            let e = collection::collected(d, cutoff);
            &&& e.agents == d.agents.filter(|a: Agent| !idle(a, cutoff))
            &&& e.data == d.data.filter(|x: Item| !names_an_idle_one(d.agents, cutoff, x.agent))
            &&& e.messages == d.messages.filter(
                |m: Line| !names_an_idle_one(d.agents, cutoff, m.agent),
            )
            &&& e.notes == d.notes.filter(
                |n: Note|
                    !names_an_idle_one(d.agents, cutoff, n.from) && !names_an_idle_one(
                        d.agents,
                        cutoff,
                        n.to,
                    ),
            )
            &&& e.tasks.len() == d.tasks.len()
            &&& forall|i: int|
                0 <= i < d.tasks.len() ==> #[trigger] e.tasks[i] == (Task {
                    agent: if d.tasks[i].agent is Some && names_an_idle_one(
                        d.agents,
                        cutoff,
                        d.tasks[i].agent->0,
                    ) {
                        None
                    } else {
                        d.tasks[i].agent
                    },
                    ..d.tasks[i]
                })
        }),
        store::dormant_names(d.agents, cutoff) == d.agents.filter(
            |a: Agent| idle(a, cutoff),
        ).map(|k: int, a: Agent| a.name),
{
    idle_names(d.agents, cutoff);
    let v = d.agents;
    assert forall|n: Seq<char>|
        #[trigger] names_an_idle_one(v, cutoff, n) == collection::unused(v, cutoff, n) by {
        if names_an_idle_one(v, cutoff, n) {
            let i = choose|i: int|
                0 <= i < v.len() && (#[trigger] v[i]).name == n && idle(v[i], cutoff);
            assert(store::dormant(v[i], cutoff));
        }
        if collection::unused(v, cutoff, n) {
            let i = choose|i: int|
                0 <= i < v.len() && (#[trigger] v[i]).name == n && store::dormant(v[i], cutoff);
            assert(idle(v[i], cutoff));
        }
    }
    let pa = |a: Agent| !idle(a, cutoff);
    let pd = |x: Item| !names_an_idle_one(v, cutoff, x.agent);
    let pm = |m: Line| !names_an_idle_one(v, cutoff, m.agent);
    let pn = |n: Note|
        !names_an_idle_one(v, cutoff, n.from) && !names_an_idle_one(v, cutoff, n.to);
    keeping_is_filtering(d.agents, pa);
    keeping_is_filtering(d.data, pd);
    keeping_is_filtering(d.messages, pm);
    keeping_is_filtering(d.notes, pn);
    assert(pa =~= |a: Agent| !store::dormant(a, cutoff));
    assert(pd =~= |e: Item| !collection::unused(v, cutoff, e.agent));
    assert(pm =~= |m: Line| !collection::unused(v, cutoff, m.agent));
    assert(pn =~= |n: Note|
        !collection::unused(v, cutoff, n.from) && !collection::unused(v, cutoff, n.to));
}

// ---------------------------------------------------------------------------
// Values, conversations and messages
// ---------------------------------------------------------------------------

/// The values of an agent are those that were stored for it, in the order of the store; one that is
/// deleted is gone, and the others stay.
pub proof fn values_are_listed(v: Seq<Item>, agent: Seq<char>, key: Seq<char>)
    ensures
        agent_data::items_of(v, agent) == v.filter(|e: Item| e.agent == agent),
        ({
            let w = rows::kept(v, |e: Item| !database::is_item(e, agent, key));
            &&& w == v.filter(|e: Item| e.agent != agent || e.key != key)
            &&& agent_data::item_of(w, agent, key) is None
        }),
{
    keeping_is_filtering(v, |e: Item| e.agent == agent);
    let q = |e: Item| !database::is_item(e, agent, key);
    let w = rows::kept(v, q);
    keeping_is_filtering(v, q);
    assert(q =~= |e: Item| e.agent != agent || e.key != key);
    rows::kept_are_kept(v, q);
    if agent_data::has_item(w, agent, key) {
        let i = choose|i: int| 0 <= i < w.len() && database::is_item(#[trigger] w[i], agent, key);
        assert(q(w[i]));
    }
}

/// A conversation is what was stored for the agent, in the order in which it was stored.
pub proof fn conversations_are_in_order(v: Seq<Line>, agent: Seq<char>)
    ensures
        conversations::conversation(v, agent) == v.filter(|m: Line| m.agent == agent).map(
            |k: int, m: Line| m.json,
        ),
{
    keeping_is_filtering(v, |m: Line| m.agent == agent);
    assert(conversations::conversation(v, agent) =~= v.filter(|m: Line| m.agent == agent).map(
        |k: int, m: Line| m.json,
    ));
}

/// The session has an agent of the name, and gave a sign of life since the cutoff.
pub open spec fn has_live(v: Seq<Agent>, name: Seq<char>, session: Seq<char>, cutoff: Seq<char>) -> bool {
    exists|i: int|
        0 <= i < v.len() && (#[trigger] v[i]).name == name && v[i].session == Some(session)
            && !silent(v[i], cutoff)
}

/// A session is handed the messages to the agents that it has, in the order in which they were
/// sent, and just those are taken out.
pub proof fn messages_are_delivered(d: Db, session: Seq<char>, cutoff: Seq<char>)
    ensures
        notifications::heard_by(d, session, cutoff) == d.notes.filter(
            |n: Note| has_live(d.agents, n.to, session, cutoff),
        ),
        notifications::unheard_by(d, session, cutoff) == d.notes.filter(
            |n: Note| !has_live(d.agents, n.to, session, cutoff),
        ),
{
    let v = d.agents;
    assert forall|n: Seq<char>|
        #[trigger] has_live(v, n, session, cutoff) == store::some_listens(
            v,
            n,
            session,
            cutoff,
        ) by {
        if has_live(v, n, session, cutoff) {
            let i = choose|i: int|
                0 <= i < v.len() && (#[trigger] v[i]).name == n && v[i].session == Some(session)
                    && !silent(v[i], cutoff);
            assert(store::listens(v[i], session, cutoff));
        }
        if store::some_listens(v, n, session, cutoff) {
            let i = choose|i: int|
                0 <= i < v.len() && (#[trigger] v[i]).name == n && store::listens(
                    v[i],
                    session,
                    cutoff,
                );
            assert(!silent(v[i], cutoff));
        }
    }
    let yes = |n: Note| has_live(v, n.to, session, cutoff);
    let no = |n: Note| !has_live(v, n.to, session, cutoff);
    keeping_is_filtering(d.notes, yes);
    keeping_is_filtering(d.notes, no);
    assert(yes =~= |n: Note| store::some_listens(v, n.to, session, cutoff));
    assert(no =~= |n: Note| !store::some_listens(v, n.to, session, cutoff));
}

// ---------------------------------------------------------------------------
// Tasks
// ---------------------------------------------------------------------------

proof fn numbers_find(v: Seq<Task>, i: int)
    requires
        forall|x: int, y: int|
            0 <= x < y < v.len() ==> (#[trigger] v[x]).id < (#[trigger] v[y]).id,
        0 <= i < v.len(),
    ensures
        task_store::task_of(v, v[i].id) == Some(v[i]),
{
    let id = v[i].id;
    assert(task_store::has_task(v, id));
    let c = choose|c: int| 0 <= c < v.len() && (#[trigger] v[c]).id == id;
    if c < i {
        assert(v[c].id < v[i].id);
    } else if i < c {
        assert(v[i].id < v[c].id);
    }
}

/// A new task is found under its number, behind the others, and they stay.
pub proof fn new_tasks_are_found(d: Db, t: Task, other: int)
    requires
        database::sound(d),
        t.id == d.next_task,
    ensures
        ({
            let e = task_store::with_task(d, t);
            &&& task_store::task_of(e.tasks, t.id) == Some(t)
            &&& other != t.id ==> task_store::task_of(e.tasks, other) == task_store::task_of(
                d.tasks,
                other,
            )
            &&& e.tasks == d.tasks.push(t)
            &&& e.next_task > t.id
            &&& e.agents == d.agents && e.data == d.data && e.messages == d.messages
            &&& e.notes == d.notes && e.next_note == d.next_note
        }),
{
    let v = d.tasks;
    let w = v.push(t);
    assert forall|x: int, y: int| 0 <= x < y < w.len() implies (#[trigger] w[x]).id < (
    #[trigger] w[y]).id by {
        assert(w[x] == v[x]);
        if y < v.len() {
            assert(w[y] == v[y]);
        }
    }
    numbers_find(w, v.len() as int);
    if other != t.id {
        if task_store::has_task(v, other) {
            let c = choose|c: int| 0 <= c < v.len() && (#[trigger] v[c]).id == other;
            numbers_find(v, c);
            assert(w[c] == v[c]);
            numbers_find(w, c);
        } else if task_store::has_task(w, other) {
            let c = choose|c: int| 0 <= c < w.len() && (#[trigger] w[c]).id == other;
            assert(w[c] == v[c]);
        }
    }
}

/// A new task is enabled and has not run yet. One that repeats has its expression and may have a
/// limit; one that runs once is to run at its time.
pub proof fn new_tasks_have_not_run(
    id: int,
    name: Seq<char>,
    description: Seq<char>,
    when: Seq<char>,
    first: Option<Seq<char>>,
    command: Seq<char>,
    agent: Option<Seq<char>>,
    max_runs: Option<i64>,
    now: Seq<char>,
)
    ensures
        ({
            let c = task_store::cron_task(
                id,
                name,
                description,
                when,
                first,
                command,
                agent,
                max_runs,
                now,
            );
            let o = task_store::oneshot_task(id, name, description, when, command, agent, now);
            &&& forall|t: Task|
                t == c || t == o ==> {
                    &&& #[trigger] t.id == id && t.name == name && t.description == description
                    &&& t.command == command && t.agent == agent && t.created_at == now
                    &&& t.enabled && t.run_count == 0 && t.last_run is None
                }
            &&& c.cron == Some(when) && c.next_run == first && c.max_runs == max_runs
            &&& store::repeats(c.task_type, c.cron)
            &&& o.run_at == Some(when) && o.next_run == Some(when) && o.max_runs is None
            &&& !store::repeats(o.task_type, o.cron)
        }),
{
}

/// The tasks of an agent are those that belong to it, and without an agent all tasks are meant. A
/// task that is deleted is gone, and the others stay.
pub proof fn tasks_are_listed(v: Seq<Task>, agent: Seq<char>, id: int)
    ensures
        task_store::tasks_of(v, Some(agent)) == v.filter(|t: Task| t.agent == Some(agent)),
        task_store::tasks_of(v, None) == v,
        rows::kept(v, |t: Task| t.id != id) == v.filter(|t: Task| t.id != id),
        task_store::task_of(rows::kept(v, |t: Task| t.id != id), id) is None,
{
    keeping_is_filtering(v, |t: Task| t.agent == Some(agent));
    let q = |t: Task| t.id != id;
    keeping_is_filtering(v, q);
    rows::kept_are_kept(v, q);
    let w = rows::kept(v, q);
    if task_store::has_task(w, id) {
        let c = choose|c: int| 0 <= c < w.len() && (#[trigger] w[c]).id == id;
        assert(q(w[c]));
    }
}

/// Changing a task changes the task of that number and no other.
pub proof fn changes_are_found(d: Db, t: Task, i: int)
    requires
        database::sound(d),
        0 <= i < d.tasks.len(),
    ensures
        ({
            let w = task_store::with_changed(d.tasks, t);
            &&& w.len() == d.tasks.len()
            &&& d.tasks[i].id == t.id ==> w[i] == t && task_store::task_of(w, t.id) == Some(t)
            &&& d.tasks[i].id != t.id ==> w[i] == d.tasks[i] && task_store::task_of(
                w,
                d.tasks[i].id,
            ) == Some(d.tasks[i])
        }),
{
    let v = d.tasks;
    let w = task_store::with_changed(v, t);
    assert forall|x: int, y: int| 0 <= x < y < w.len() implies (#[trigger] w[x]).id < (
    #[trigger] w[y]).id by {
        assert(v[x].id < v[y].id);
    }
    numbers_find(w, i);
}

/// A run counts, and its time is kept. A task of type `cron` with an expression runs again at the
/// time that the expression gives, as long as it is below its limit; any other is over. Nothing
/// else of the task changes, and nothing of the other tasks.
pub proof fn runs_are_recorded(
    before: Db,
    i: int,
    info: RunInfo,
    stamp: Seq<char>,
    millis: i64,
    answer: Result<(), Seq<char>>,
    after: Db,
)
    requires
        database::sound(before),
        0 <= i < before.tasks.len(),
        before.tasks[i].run_count < i64::MAX,
        task_store::run_marked(before, before.tasks[i].id, info, stamp, millis, answer, after),
    ensures
        ({
            let t = before.tasks[i];
            let u = after.tasks[i];
            let cron = info.task_type@ == "cron"@ && info.cron_expression is Some;
            let fault = cron && schedule::next_run_of(info.cron_expression->0@, millis) is Err;
            &&& u.run_count == t.run_count + 1
            &&& answer is Err <==> fault
            &&& fault ==> u.enabled == t.enabled && u.last_run == t.last_run && u.next_run
                == t.next_run
            &&& !fault ==> {
                &&& u.last_run == Some(stamp)
                &&& u.enabled == (t.enabled && cron && !(info.max_runs matches Some(m)
                    && t.run_count + 1 >= m))
                &&& cron ==> u.next_run == schedule::next_run_of(
                    info.cron_expression->0@,
                    millis,
                )->Ok_0
                &&& !cron ==> u.next_run == t.next_run
            }
            &&& u.id == t.id && u.agent == t.agent && u.name == t.name && u.description
                == t.description
            &&& u.task_type == t.task_type && u.cron == t.cron && u.run_at == t.run_at
            &&& u.created_at == t.created_at && u.command == t.command && u.max_runs == t.max_runs
            &&& after.tasks.len() == before.tasks.len()
            &&& forall|j: int|
                0 <= j < before.tasks.len() && j != i ==> #[trigger] after.tasks[j]
                    == before.tasks[j]
            &&& after.agents == before.agents && after.data == before.data
            &&& after.messages == before.messages && after.notes == before.notes
        }),
{
    let v = before.tasks;
    numbers_find(v, i);
    assert forall|j: int| 0 <= j < v.len() && j != i implies (#[trigger] v[j]).id != v[i].id by {
        if j < i {
            assert(v[j].id < v[i].id);
        } else {
            assert(v[i].id < v[j].id);
        }
    }
}

} // verus!
