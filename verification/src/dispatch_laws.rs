//! What holds of calls to the database, one after the other.

use vstd::prelude::*;
use crate::agent_data;
use crate::conversations;
use crate::database;
use crate::database::{Db, Item, Line, Moment};
use crate::dispatch;
use crate::dispatch::Told;
use crate::json;
use crate::notifications;
use crate::order;
use crate::rows;
use crate::rpc::{DbMethod, Given};
use crate::schedule;
use crate::store;
use crate::store::{Agent, Note, RunInfo, Task};
use crate::store_laws;
use crate::task_store;

verus! {

/// What a call answers.
pub open spec fn told(d: Db, m: DbMethod, args: Seq<Given>, c: Moment) -> Result<Told, Seq<char>> {
    dispatch::answered(d, m, args, c).0
}

/// What a call leaves.
pub open spec fn left(d: Db, m: DbMethod, args: Seq<Given>, c: Moment) -> Db {
    dispatch::answered(d, m, args, c).1
}

/// A call that only asks.
pub open spec fn only_asks(m: DbMethod) -> bool {
    ||| m is ListAgents
    ||| m is GetAgent
    ||| m is GetAgentData
    ||| m is ListAgentData
    ||| m is GetAgentConfig
    ||| m is LoadAgentMessages
    ||| m is AgentMessageCount
    ||| m is ListTasks
    ||| m is GetTask
    ||| m is GetPendingTasks
}

/// Asking changes nothing, and is always answered.
pub proof fn asking_changes_nothing(d: Db, m: DbMethod, args: Seq<Given>, c: Moment)
    requires
        only_asks(m),
    ensures
        left(d, m, args, c) == d,
        told(d, m, args, c) is Ok,
{
}

/// A call that is refused changes nothing, but for a run of a task, which is counted.
pub proof fn refusals_change_nothing(d: Db, m: DbMethod, args: Seq<Given>, c: Moment)
    requires
        told(d, m, args, c) is Err,
        !(m is MarkTaskExecuted),
    ensures
        left(d, m, args, c) == d,
{
}

/// A value that was stored is read, by whoever asks for that agent and key, until it is deleted.
pub proof fn stored_values_are_read(
    d: Db,
    agent: Seq<char>,
    key: Seq<char>,
    value: Seq<char>,
    c: Moment,
    e: Moment,
)
    requires
        database::sound(d),
    ensures
        ({
            let set = seq![Given::Text(agent), Given::Text(key), Given::Text(value)];
            let get = seq![Given::Text(agent), Given::Text(key)];
            let after = left(d, DbMethod::SetAgentData, set, c);
            let gone = left(after, DbMethod::DeleteAgentData, get, c);
            &&& told(d, DbMethod::SetAgentData, set, c) is Ok <==> database::known(d.agents, agent)
            &&& database::known(d.agents, agent) ==> {
                &&& told(after, DbMethod::GetAgentData, get, e) == Ok::<Told, Seq<char>>(
                    Told::Text(Some(value)),
                )
                &&& told(after, DbMethod::DeleteAgentData, get, e) == Ok::<Told, Seq<char>>(
                    Told::Flag(true),
                )
                &&& told(gone, DbMethod::GetAgentData, get, e) == Ok::<Told, Seq<char>>(
                    Told::Text(None),
                )
            }
            &&& after.agents == d.agents && after.tasks == d.tasks && after.messages == d.messages
            &&& after.notes == d.notes
        }),
{
    let set = seq![Given::Text(agent), Given::Text(key), Given::Text(value)];
    let get = seq![Given::Text(agent), Given::Text(key)];
    if database::known(d.agents, agent) {
        agent_data::stored_values_are_found(d, agent, key, value, agent, key);
        let w = agent_data::with_item(d.data, Item { agent, key, value });
        store_laws::values_are_listed(w, agent, key);
        let after = left(d, DbMethod::SetAgentData, set, c);
        assert(after.data == w);
        assert((|x: Item| !database::is_item(x, agent, key)) =~= (|x: Item|
            !database::is_item(x, dispatch::text_at(get, 0), dispatch::text_at(get, 1))));
    }
}

/// A conversation that was saved is loaded as it was saved, and a message that was added is its
/// last; as many messages are counted as are loaded, and none once it is cleared.
pub proof fn saved_messages_are_loaded(
    d: Db,
    agent: Seq<char>,
    list: Seq<char>,
    text: Seq<char>,
    c: Moment,
    e: Moment,
)
    requires
        database::known(d.agents, agent),
        json::json_items_of(list) is Some,
    ensures
        ({
            let who = seq![Given::Text(agent)];
            let saved = left(
                d,
                DbMethod::SaveAgentMessages,
                seq![Given::Json(list), Given::Text(agent)],
                c,
            );
            let more = left(
                saved,
                DbMethod::AppendAgentMessage,
                seq![Given::Json(text), Given::Text(agent)],
                c,
            );
            let none = left(more, DbMethod::ClearAgentMessages, who, c);
            let texts = json::json_items_of(list)->0;
            &&& told(saved, DbMethod::LoadAgentMessages, who, e) == Ok::<Told, Seq<char>>(
                Told::Messages(texts),
            )
            &&& told(saved, DbMethod::AgentMessageCount, who, e) == Ok::<Told, Seq<char>>(
                Told::Number(texts.len() as int),
            )
            &&& told(more, DbMethod::LoadAgentMessages, who, e) == Ok::<Told, Seq<char>>(
                Told::Messages(texts.push(text)),
            )
            &&& told(none, DbMethod::AgentMessageCount, who, e) == Ok::<Told, Seq<char>>(
                Told::Number(0),
            )
        }),
{
    let who = seq![Given::Text(agent)];
    let texts = json::json_items_of(list)->0;
    let m = conversations::saved(d.messages, agent, texts);
    conversations::saved_conversations_are_loaded(d.messages, agent, texts, agent);
    conversations::appended_messages_come_last(m, agent, text, agent);
    let n = m.push(Line { agent, json: text });
    conversations::saved_conversations_are_loaded(n, agent, Seq::empty(), agent);
    let p = |l: Line| l.agent != agent;
    assert(p =~= (|l: Line| l.agent != dispatch::text_at(who, 0)));
    assert(conversations::saved(n, agent, Seq::empty()) =~= rows::kept(n, p));
}

/// An agent that was created is there, free, and is not created again; once it is deleted it is
/// gone.
pub proof fn created_agents_are_there(
    d: Db,
    name: Seq<char>,
    description: Seq<char>,
    c: Moment,
    e: Moment,
)
    requires
        database::sound(d),
    ensures
        ({
            let make = seq![Given::Text(name), Given::Text(description)];
            let who = seq![Given::Text(name)];
            let after = left(d, DbMethod::CreateAgent, make, c);
            let gone = left(after, DbMethod::DeleteAgent, who, c);
            &&& told(d, DbMethod::CreateAgent, make, c) is Err <==> database::known(d.agents, name)
            &&& !database::known(d.agents, name) ==> {
                &&& told(after, DbMethod::GetAgent, who, e) == Ok::<Told, Seq<char>>(
                    Told::Agent(
                        Some(
                            Agent {
                                name,
                                description,
                                created_at: c.now,
                                session: None,
                                heartbeat: None,
                            },
                        ),
                    ),
                )
                &&& told(after, DbMethod::CreateAgent, make, e) is Err
                &&& told(after, DbMethod::DeleteAgent, who, e) == Ok::<Told, Seq<char>>(
                    Told::Flag(true),
                )
                &&& told(gone, DbMethod::GetAgent, who, e) == Ok::<Told, Seq<char>>(
                    Told::Agent(None),
                )
            }
        }),
{
    let make = seq![Given::Text(name), Given::Text(description)];
    if !database::known(d.agents, name) {
        store_laws::new_agents_are_found(d, name, description, c.now, name);
        let after = left(d, DbMethod::CreateAgent, make, c);
        assert(database::known(after.agents, name));
        database::deleting_leaves_nothing(after, name);
    }
}

/// Of two sessions only one gets an agent: the one that claims it first keeps it as long as it is
/// not silent.
pub proof fn one_session_has_an_agent(
    d: Db,
    name: Seq<char>,
    mine: Seq<char>,
    other: Seq<char>,
    c: Moment,
    e: Moment,
)
    requires
        mine != other,
        order::lex_le(e.cutoff, c.now),
        told(d, DbMethod::ClaimAgent, seq![Given::Text(name), Given::Text(mine)], c) == Ok::<
            Told,
            Seq<char>,
        >(Told::Flag(true)),
        database::sound(d),
    ensures
        ({
            let claim = seq![Given::Text(name), Given::Text(mine)];
            let second = seq![Given::Text(name), Given::Text(other)];
            let after = left(d, DbMethod::ClaimAgent, claim, c);
            let free = left(after, DbMethod::ReleaseAgent, claim, e);
            &&& told(after, DbMethod::ClaimAgent, second, e) == Ok::<Told, Seq<char>>(
                Told::Flag(false),
            )
            &&& left(after, DbMethod::ClaimAgent, second, e).agents == after.agents
            &&& told(after, DbMethod::ClaimAgent, claim, e) == Ok::<Told, Seq<char>>(
                Told::Flag(true),
            )
            &&& told(free, DbMethod::ClaimAgent, second, e) == Ok::<Told, Seq<char>>(
                Told::Flag(true),
            )
        }),
{
    let claim = seq![Given::Text(name), Given::Text(mine)];
    let second = seq![Given::Text(name), Given::Text(other)];
    let v = d.agents;
    let after = left(d, DbMethod::ClaimAgent, claim, c);
    let free = left(after, DbMethod::ReleaseAgent, claim, e);
    let w = after.agents;
    let i = choose|i: int|
        0 <= i < v.len() && (#[trigger] v[i]).name == name && store::claimable(v[i], mine, c.cutoff);
    assert(w[i].session == Some(mine) && w[i].heartbeat == Some(c.now) && w[i].name == name);
    assert forall|j: int| 0 <= j < w.len() && (#[trigger] w[j]).name == name implies j == i by {
        if j < i {
            assert(v[j].name != v[i].name);
        } else if i < j {
            assert(v[i].name != v[j].name);
        }
    }
    assert(!store::claimable(w[i], other, e.cutoff));
    assert(store::claimable(w[i], mine, e.cutoff));
    assert(left(after, DbMethod::ClaimAgent, second, e).agents =~= w);
    assert(free.agents[i].session is None && free.agents[i].name == name);
}

/// A message that was sent is handed to the session that has the agent, once.
pub proof fn sent_messages_are_delivered(
    d: Db,
    from: Seq<char>,
    to: Seq<char>,
    message: Seq<char>,
    session: Seq<char>,
    i: int,
    c: Moment,
)
    requires
        d.next_note < i64::MAX,
        database::known(d.agents, from),
        0 <= i < d.agents.len(),
        d.agents[i].name == to,
        d.agents[i].session == Some(session),
        d.agents[i].heartbeat is Some,
        order::lex_le(c.cutoff, d.agents[i].heartbeat->0),
    ensures
        ({
            let send = seq![Given::Text(from), Given::Text(to), Given::Text(message)];
            let who = seq![Given::Text(session)];
            let sent = left(d, DbMethod::SendNotification, send, c);
            let note = Note { id: d.next_note, from, to, message, created_at: c.now };
            let polled = left(sent, DbMethod::PollNotificationsForSession, who, c);
            &&& told(d, DbMethod::SendNotification, send, c) == Ok::<Told, Seq<char>>(
                Told::Number(d.next_note),
            )
            &&& told(sent, DbMethod::PollNotificationsForSession, who, c) matches Ok(
                Told::Notifications(v),
            ) && v.len() > 0 && v.last() == note
            &&& told(polled, DbMethod::PollNotificationsForSession, who, c) matches Ok(
                Told::Notifications(v),
            ) && v.len() == 0
        }),
{
    let send = seq![Given::Text(from), Given::Text(to), Given::Text(message)];
    let who = seq![Given::Text(session)];
    let sent = left(d, DbMethod::SendNotification, send, c);
    let note = Note { id: d.next_note, from, to, message, created_at: c.now };
    assert(database::known(d.agents, to));
    assert(sent.notes =~= d.notes.push(note));
    assert(store::some_listens(d.agents, to, session, c.cutoff)) by {
        assert(store::listens(d.agents[i], session, c.cutoff));
    }
    assert(sent.notes.last() == note);
    notifications::messages_arrive_once(sent, session, c.cutoff);
}

/// A task that was created is found under the number that is answered, as one that has not run; it
/// can be disabled and enabled, and is gone once it is deleted.
pub proof fn created_tasks_are_there(
    d: Db,
    name: Seq<char>,
    description: Seq<char>,
    run_at: Seq<char>,
    command: Seq<char>,
    agent: Option<Seq<char>>,
    flag: bool,
    c: Moment,
    e: Moment,
)
    requires
        database::sound(d),
        told(
            d,
            DbMethod::CreateOneshotTask,
            seq![
                Given::Text(name),
                Given::Text(description),
                Given::Text(run_at),
                Given::Text(command),
                Given::OptText(agent),
            ],
            c,
        ) is Ok,
    ensures
        ({
            let make = seq![
                Given::Text(name),
                Given::Text(description),
                Given::Text(run_at),
                Given::Text(command),
                Given::OptText(agent),
            ];
            let id = d.next_task;
            let one = seq![Given::Number(id)];
            let set = seq![Given::Flag(flag), Given::Number(id)];
            let after = left(d, DbMethod::CreateOneshotTask, make, c);
            let changed = left(after, DbMethod::SetTaskEnabled, set, e);
            let gone = left(after, DbMethod::DeleteTask, one, e);
            &&& told(d, DbMethod::CreateOneshotTask, make, c) == Ok::<Told, Seq<char>>(
                Told::Number(id),
            )
            &&& told(after, DbMethod::GetTask, one, e) matches Ok(Told::Task(Some(t))) && {
                &&& t.name == name && t.description == description && t.command == command
                &&& t.agent == agent && t.run_at == Some(run_at) && t.next_run == Some(run_at)
                &&& t.enabled && t.run_count == 0 && t.last_run is None
                &&& told(changed, DbMethod::GetTask, one, e) == Ok::<Told, Seq<char>>(
                    Told::Task(Some(Task { enabled: flag, ..t })),
                )
            }
            &&& told(gone, DbMethod::GetTask, one, e) == Ok::<Told, Seq<char>>(Told::Task(None))
        }),
{
    let make = seq![
        Given::Text(name),
        Given::Text(description),
        Given::Text(run_at),
        Given::Text(command),
        Given::OptText(agent),
    ];
    let id = d.next_task;
    let one = seq![Given::Number(id)];
    let set = seq![Given::Flag(flag), Given::Number(id)];
    let t = task_store::oneshot_task(id, name, description, run_at, command, agent, c.now);
    let after = left(d, DbMethod::CreateOneshotTask, make, c);
    store_laws::new_tasks_are_found(d, t, id);
    assert(after == task_store::with_task(d, t));
    let v = after.tasks;
    assert(database::sound(after)) by {
        assert forall|x: int, y: int| 0 <= x < y < v.len() implies (#[trigger] v[x]).id < (
        #[trigger] v[y]).id by {
            assert(v[x] == d.tasks[x]);
            if y < d.tasks.len() {
                assert(v[y] == d.tasks[y]);
            }
        }
        assert forall|x: int| 0 <= x < v.len() implies (#[trigger] v[x]).id < after.next_task by {
            if x < d.tasks.len() {
                assert(v[x] == d.tasks[x]);
            }
        }
    }
    assert(v[d.tasks.len() as int] == t);
    store_laws::changes_are_found(after, Task { enabled: flag, ..t }, d.tasks.len() as int);
    store_laws::tasks_are_listed(v, name, id);
    assert((|x: Task| x.id != id) =~= (|x: Task| x.id != dispatch::number_at(one, 0)));
}

/// A task is created just where its time or its expression can be read, a number is left for it,
/// and it is nobody's or that of an agent that is there; it has the next number.
pub proof fn tasks_are_created(
    d: Db,
    name: Seq<char>,
    description: Seq<char>,
    when: Seq<char>,
    command: Seq<char>,
    agent: Option<Seq<char>>,
    limit: Option<i64>,
    c: Moment,
)
    ensures
        ({
            let once = seq![
                Given::Text(name),
                Given::Text(description),
                Given::Text(when),
                Given::Text(command),
                Given::OptText(agent),
            ];
            let most = match limit {
                Some(n) => Some(n as int),
                None => None,
            };
            let often = once.push(Given::OptNumber(most));
            let room = d.next_task != i64::MAX && (agent matches Some(a) ==> database::known(
                d.agents,
                a,
            ));
            let a = told(d, DbMethod::CreateOneshotTask, once, c);
            let b = told(d, DbMethod::CreateCronTask, often, c);
            let after = left(d, DbMethod::CreateCronTask, often, c);
            &&& a is Ok <==> room && schedule::rfc3339_fault_of(when) is None
            &&& a is Ok ==> a == Ok::<Told, Seq<char>>(Told::Number(d.next_task))
            &&& b is Ok <==> room && schedule::next_run_of(when, c.millis) is Ok
            &&& b is Ok ==> b == Ok::<Told, Seq<char>>(Told::Number(d.next_task)) && after.tasks
                == d.tasks.push(
                Task {
                    id: d.next_task,
                    agent,
                    name,
                    description,
                    task_type: "cron"@,
                    cron: Some(when),
                    run_at: None,
                    next_run: schedule::next_run_of(when, c.millis)->Ok_0,
                    last_run: None,
                    enabled: true,
                    created_at: c.now,
                    command,
                    max_runs: limit,
                    run_count: 0,
                },
            )
        }),
{
}

/// A run is recorded through a call just as it is in the store.
pub proof fn runs_are_recorded_by_call(
    d: Db,
    id: int,
    task_type: String,
    cron: Option<String>,
    limit: Option<i64>,
    c: Moment,
)
    ensures
        ({
            let info = RunInfo { task_type, cron_expression: cron, max_runs: limit };
            let most = match limit {
                Some(n) => Some(n as int),
                None => None,
            };
            let args = seq![
                Given::Number(id),
                Given::Text(task_type@),
                Given::OptText(json::opt_view(cron)),
                Given::OptNumber(most),
            ];
            let r = told(d, DbMethod::MarkTaskExecuted, args, c);
            task_store::run_marked(
                d,
                id,
                info,
                c.stamp,
                c.millis,
                match r {
                    Ok(_) => Ok(()),
                    Err(e) => Err(e),
                },
                left(d, DbMethod::MarkTaskExecuted, args, c),
            )
        }),
{
}

} // verus!
