//! How requests are carried out on the stored state.

use vstd::prelude::*;
use crate::agent_data;
use crate::collection;
use crate::conversations;
use crate::database;
use crate::database::{Clock, DataRow, Db, Item, Line, Moment, Store, NO_AGENT, NO_NUMBER};
use crate::json;
use crate::json::{json_items, json_quoted};
use crate::notifications;
use crate::options::AgentConfig;
use crate::rows;
use crate::rpc;
use crate::rpc::{read_request, Arg, DbMethod, DbRequest, Given};
use crate::schedule;
use crate::schedule::LAST_MILLIS;
use crate::store;
use crate::store::{Agent, AgentRow, Note, NotificationRow, RunInfo, Task, TaskRow};
use crate::task_store;
use crate::words;

verus! {

/// What a request is answered.
pub enum Answer {
    Flag(bool),
    Number(i64),
    Count(usize),
    Text(Option<String>),
    Names(Vec<String>),
    Agents(Vec<AgentRow>),
    Agent(Option<AgentRow>),
    Data(Vec<DataRow>),
    Config(AgentConfig),
    /// Messages of a conversation, as JSON.
    Messages(Vec<String>),
    Notifications(Vec<NotificationRow>),
    Tasks(Vec<TaskRow>),
    Task(Option<TaskRow>),
}

/// The options of an agent.
pub ghost struct Config {
    pub model: Option<Seq<char>>,
    pub endpoint: Option<Seq<char>>,
    pub system_prompt: Option<Seq<char>>,
}

/// What an answer holds.
pub ghost enum Told {
    Flag(bool),
    Number(int),
    Text(Option<Seq<char>>),
    Names(Seq<Seq<char>>),
    Agents(Seq<Agent>),
    Agent(Option<Agent>),
    Data(Seq<Item>),
    Config(Config),
    Messages(Seq<Seq<char>>),
    Notifications(Seq<Note>),
    Tasks(Seq<Task>),
    Task(Option<Task>),
}

impl View for Answer {
    type V = Told;

    open spec fn view(&self) -> Told {
        match self {
            Answer::Flag(b) => Told::Flag(*b),
            Answer::Number(n) => Told::Number(*n as int),
            Answer::Count(n) => Told::Number(*n as int),
            Answer::Text(t) => Told::Text(json::opt_view(*t)),
            Answer::Names(v) => Told::Names(words::views(v@)),
            Answer::Agents(v) => Told::Agents(rows::rows_view(v@)),
            Answer::Agent(a) => Told::Agent(
                match a {
                    Some(row) => Some(row@),
                    None => None,
                },
            ),
            Answer::Data(v) => Told::Data(rows::rows_view(v@)),
            Answer::Config(c) => Told::Config(
                Config {
                    model: json::opt_view(c.model),
                    endpoint: json::opt_view(c.endpoint),
                    system_prompt: json::opt_view(c.system_prompt),
                },
            ),
            Answer::Messages(v) => Told::Messages(words::views(v@)),
            Answer::Notifications(v) => Told::Notifications(rows::rows_view(v@)),
            Answer::Tasks(v) => Told::Tasks(rows::rows_view(v@)),
            Answer::Task(t) => Told::Task(
                match t {
                    Some(row) => Some(row@),
                    None => None,
                },
            ),
        }
    }
}

/// What an outcome holds.
pub open spec fn outcome_view(r: Result<Answer, String>) -> Result<Told, Seq<char>> {
    match r {
        Ok(a) => Ok(a@),
        Err(e) => Err(e@),
    }
}

// ---------------------------------------------------------------------------
// Arguments
// ---------------------------------------------------------------------------

/// The text that is given as an argument.
pub open spec fn text_at(args: Seq<Given>, i: int) -> Seq<char> {
    match args[i] {
        Given::Text(t) => t,
        _ => Seq::empty(),
    }
}

/// The text that may be given as an argument.
pub open spec fn opt_at(args: Seq<Given>, i: int) -> Option<Seq<char>> {
    match args[i] {
        Given::OptText(t) => t,
        _ => None,
    }
}

/// The number that is given as an argument.
pub open spec fn number_at(args: Seq<Given>, i: int) -> int {
    match args[i] {
        Given::Number(n) => n,
        _ => 0,
    }
}

/// The number that may be given as an argument.
pub open spec fn limit_at(args: Seq<Given>, i: int) -> Option<i64> {
    match args[i] {
        Given::OptNumber(Some(n)) => Some(n as i64),
        _ => None,
    }
}

/// The flag that is given as an argument.
pub open spec fn flag_at(args: Seq<Given>, i: int) -> bool {
    args[i] == Given::Flag(true)
}

/// The JSON value that is given as an argument.
pub open spec fn json_at(args: Seq<Given>, i: int) -> Seq<char> {
    match args[i] {
        Given::Json(t) => t,
        Given::Text(t) => json::json_quote_of(t),
        _ => Seq::empty(),
    }
}

fn text_arg(args: &[Arg], i: usize) -> (r: &str)
    requires
        i < args@.len(),
    ensures
        r@ == text_at(rpc::arg_views(args@), i as int),
{
    assert(rpc::arg_views(args@)[i as int] == args@[i as int]@);
    match &args[i] {
        Arg::Text(t) => t.as_str(),
        _ => {
            let r = "";
            proof {
                reveal_strlit("");
            }
            assert(r@ =~= Seq::<char>::empty());
            r
        },
    }
}

fn opt_arg(args: &[Arg], i: usize) -> (r: Option<&str>)
    requires
        i < args@.len(),
    ensures
        task_store::name_of(r) == opt_at(rpc::arg_views(args@), i as int),
{
    assert(rpc::arg_views(args@)[i as int] == args@[i as int]@);
    match &args[i] {
        Arg::OptText(t) => match t {
            Some(s) => Some(s.as_str()),
            None => None,
        },
        _ => None,
    }
}

fn number_arg(args: &[Arg], i: usize) -> (r: i64)
    requires
        i < args@.len(),
    ensures
        r == number_at(rpc::arg_views(args@), i as int),
{
    assert(rpc::arg_views(args@)[i as int] == args@[i as int]@);
    match &args[i] {
        Arg::Number(n) => *n,
        _ => 0,
    }
}

fn limit_arg(args: &[Arg], i: usize) -> (r: Option<i64>)
    requires
        i < args@.len(),
    ensures
        r == limit_at(rpc::arg_views(args@), i as int),
{
    assert(rpc::arg_views(args@)[i as int] == args@[i as int]@);
    match &args[i] {
        Arg::OptNumber(n) => *n,
        _ => None,
    }
}

fn flag_arg(args: &[Arg], i: usize) -> (r: bool)
    requires
        i < args@.len(),
    ensures
        r == flag_at(rpc::arg_views(args@), i as int),
{
    assert(rpc::arg_views(args@)[i as int] == args@[i as int]@);
    match &args[i] {
        Arg::Flag(b) => *b,
        _ => false,
    }
}

fn json_arg(args: &[Arg], i: usize) -> (r: String)
    requires
        i < args@.len(),
    ensures
        r@ == json_at(rpc::arg_views(args@), i as int),
{
    assert(rpc::arg_views(args@)[i as int] == args@[i as int]@);
    match &args[i] {
        Arg::Json(t) => t.clone(),
        Arg::Text(t) => json_quoted(t.as_str()),
        _ => {
            let r = String::new();
            assert(r@ =~= Seq::<char>::empty());
            r
        },
    }
}

// ---------------------------------------------------------------------------
// What each request does
// ---------------------------------------------------------------------------

/// An answer, and the state after it.
pub open spec fn done(a: Told, d: Db) -> (Result<Told, Seq<char>>, Db) {
    (Ok(a), d)
}

/// A refusal, which leaves the state as it is.
pub open spec fn refused(e: Seq<char>, d: Db) -> (Result<Told, Seq<char>>, Db) {
    (Err(e), d)
}

/// What the requests on sessions do.
pub open spec fn on_sessions(d: Db, m: DbMethod, args: Seq<Given>, c: Moment) -> (Result<
    Told,
    Seq<char>,
>, Db) {
    match m {
        DbMethod::ClaimAgent => done(
            Told::Flag(
                database::can_claim(d.agents, text_at(args, 0), text_at(args, 1), c.cutoff),
            ),
            Db {
                agents: database::claimed(
                    d.agents,
                    text_at(args, 0),
                    text_at(args, 1),
                    c.now,
                    c.cutoff,
                ),
                ..d
            },
        ),
        DbMethod::HeartbeatAll => done(
            Told::Flag(true),
            Db { agents: database::all_heartbeats(d.agents, text_at(args, 0), c.now), ..d },
        ),
        DbMethod::ReleaseAgent => done(
            Told::Flag(true),
            Db { agents: database::released(d.agents, text_at(args, 0), text_at(args, 1)), ..d },
        ),
        DbMethod::ReleaseAllAgents => done(
            Told::Flag(true),
            Db { agents: database::all_released(d.agents, text_at(args, 0)), ..d },
        ),
        DbMethod::PollNotificationsForSession => done(
            Told::Notifications(notifications::heard_by(d, text_at(args, 0), c.cutoff)),
            Db { notes: notifications::unheard_by(d, text_at(args, 0), c.cutoff), ..d },
        ),
        DbMethod::SendNotification => if d.next_note == i64::MAX {
            refused(NO_NUMBER@, d)
        } else if !(database::known(d.agents, text_at(args, 0)) && database::known(
            d.agents,
            text_at(args, 1),
        )) {
            refused(NO_AGENT@, d)
        } else {
            done(
                Told::Number(d.next_note),
                Db {
                    notes: d.notes.push(
                        Note {
                            id: d.next_note,
                            from: text_at(args, 0),
                            to: text_at(args, 1),
                            message: text_at(args, 2),
                            created_at: c.now,
                        },
                    ),
                    next_note: d.next_note + 1,
                    ..d
                },
            )
        },
        _ => refused(Seq::empty(), d),
    }
}

/// What the requests on agents do.
pub open spec fn on_agents(d: Db, m: DbMethod, args: Seq<Given>, c: Moment) -> (Result<
    Told,
    Seq<char>,
>, Db) {
    match m {
        DbMethod::CreateAgent => if database::known(d.agents, text_at(args, 0)) {
            refused("Agent '"@ + text_at(args, 0) + "' already exists"@, d)
        } else {
            done(
                Told::Flag(true),
                Db {
                    agents: database::with_agent(
                        d.agents,
                        database::new_agent(text_at(args, 0), text_at(args, 1), c.now),
                    ),
                    ..d
                },
            )
        },
        DbMethod::DeleteAgent => done(
            Told::Flag(database::known(d.agents, text_at(args, 0))),
            database::without_agent(d, text_at(args, 0)),
        ),
        DbMethod::ListAgents => done(Told::Agents(d.agents), d),
        DbMethod::GetAgent => done(
            Told::Agent(database::agent_named(d.agents, text_at(args, 0))),
            d,
        ),
        DbMethod::EnsureDefaultAgent => done(
            Told::Flag(true),
            if database::known(d.agents, "default"@) {
                d
            } else {
                Db {
                    agents: database::with_agent(
                        d.agents,
                        database::new_agent("default"@, "Default agent"@, c.now),
                    ),
                    ..d
                }
            },
        ),
        DbMethod::GcAgents => done(
            Told::Names(store::dormant_names(d.agents, c.cutoff)),
            collection::collected(d, c.cutoff),
        ),
        _ => refused(Seq::empty(), d),
    }
}

/// What the requests on the data of agents do.
pub open spec fn on_data(d: Db, m: DbMethod, args: Seq<Given>) -> (Result<Told, Seq<char>>, Db) {
    match m {
        DbMethod::SetAgentData => if !database::known(d.agents, text_at(args, 0)) {
            refused(NO_AGENT@, d)
        } else {
            done(
                Told::Flag(true),
                Db {
                    data: agent_data::with_item(
                        d.data,
                        Item {
                            agent: text_at(args, 0),
                            key: text_at(args, 1),
                            value: text_at(args, 2),
                        },
                    ),
                    ..d
                },
            )
        },
        DbMethod::GetAgentData => done(
            Told::Text(agent_data::item_of(d.data, text_at(args, 0), text_at(args, 1))),
            d,
        ),
        DbMethod::DeleteAgentData => done(
            Told::Flag(agent_data::has_item(d.data, text_at(args, 0), text_at(args, 1))),
            Db {
                data: rows::kept(
                    d.data,
                    |e: Item| !database::is_item(e, text_at(args, 0), text_at(args, 1)),
                ),
                ..d
            },
        ),
        DbMethod::ListAgentData => done(
            Told::Data(agent_data::items_of(d.data, text_at(args, 0))),
            d,
        ),
        DbMethod::GetAgentConfig => done(
            Told::Config(
                Config {
                    model: agent_data::item_of(d.data, text_at(args, 0), "config:model"@),
                    endpoint: agent_data::item_of(d.data, text_at(args, 0), "config:endpoint"@),
                    system_prompt: agent_data::item_of(
                        d.data,
                        text_at(args, 0),
                        "config:system_prompt"@,
                    ),
                },
            ),
            d,
        ),
        _ => refused(Seq::empty(), d),
    }
}

/// What the requests on conversations do.
pub open spec fn on_messages(d: Db, m: DbMethod, args: Seq<Given>) -> (Result<
    Told,
    Seq<char>,
>, Db) {
    match m {
        DbMethod::SaveAgentMessages => match json::json_items_of(json_at(args, 0)) {
            Some(texts) => if texts.len() > 0 && !database::known(d.agents, text_at(args, 1)) {
                refused(NO_AGENT@, d)
            } else {
                done(
                    Told::Flag(true),
                    Db {
                        messages: conversations::saved(d.messages, text_at(args, 1), texts),
                        ..d
                    },
                )
            },
            None => refused(rpc::missing_error("messages"@), d),
        },
        DbMethod::LoadAgentMessages => done(
            Told::Messages(conversations::conversation(d.messages, text_at(args, 0))),
            d,
        ),
        DbMethod::AppendAgentMessage => if !database::known(d.agents, text_at(args, 1)) {
            refused(NO_AGENT@, d)
        } else {
            done(
                Told::Flag(true),
                Db {
                    messages: d.messages.push(
                        Line { agent: text_at(args, 1), json: json_at(args, 0) },
                    ),
                    ..d
                },
            )
        },
        DbMethod::ClearAgentMessages => done(
            Told::Flag(true),
            Db { messages: rows::kept(d.messages, |m: Line| m.agent != text_at(args, 0)), ..d },
        ),
        DbMethod::AgentMessageCount => done(
            Told::Number(
                conversations::conversation(d.messages, text_at(args, 0)).len() as int,
            ),
            d,
        ),
        _ => refused(Seq::empty(), d),
    }
}

/// What is known of a run, as a request gives it.
pub open spec fn run_recorded(
    d: Db,
    id: int,
    task_type: Seq<char>,
    cron: Option<Seq<char>>,
    max_runs: Option<i64>,
    c: Moment,
) -> (Result<Told, Seq<char>>, Db) {
    let repeating = store::repeats(task_type, cron);
    let next = if repeating {
        schedule::next_run_of(cron->0, c.millis)
    } else {
        Ok(None)
    };
    match task_store::task_of(d.tasks, id) {
        Some(t) => if t.run_count == i64::MAX {
            refused(task_store::TOO_MANY_RUNS@, d)
        } else {
            match next {
                Ok(n) => done(
                    Told::Flag(true),
                    Db {
                        tasks: task_store::with_changed(
                            d.tasks,
                            store::after_run(t, repeating, max_runs, c.stamp, n),
                        ),
                        ..d
                    },
                ),
                Err(e) => (
                    Err(e),
                    Db {
                        tasks: task_store::with_changed(
                            d.tasks,
                            Task { run_count: t.run_count + 1, ..t },
                        ),
                        ..d
                    },
                ),
            }
        },
        None => match next {
            Ok(_) => done(Told::Flag(true), d),
            Err(e) => refused(e, d),
        },
    }
}

/// What creating a task does, once it may be created.
pub open spec fn task_added(d: Db, t: Task) -> (Result<Told, Seq<char>>, Db) {
    if d.next_task == i64::MAX {
        refused(NO_NUMBER@, d)
    } else if !task_store::may_own(d.agents, t.agent) {
        refused(NO_AGENT@, d)
    } else {
        done(Told::Number(d.next_task), task_store::with_task(d, t))
    }
}

/// What the requests on tasks do.
pub open spec fn on_tasks(d: Db, m: DbMethod, args: Seq<Given>, c: Moment) -> (Result<
    Told,
    Seq<char>,
>, Db) {
    match m {
        DbMethod::CreateCronTask => match schedule::first_run(text_at(args, 2), c.millis) {
            Err(e) => refused(e, d),
            Ok(next) => task_added(
                d,
                task_store::cron_task(
                    d.next_task,
                    text_at(args, 0),
                    text_at(args, 1),
                    text_at(args, 2),
                    next,
                    text_at(args, 3),
                    opt_at(args, 4),
                    limit_at(args, 5),
                    c.now,
                ),
            ),
        },
        DbMethod::CreateOneshotTask => match schedule::rfc3339_fault_of(text_at(args, 2)) {
            Some(fault) => refused(
                "Invalid RFC 3339 datetime '"@ + text_at(args, 2) + "': "@ + fault,
                d,
            ),
            None => task_added(
                d,
                task_store::oneshot_task(
                    d.next_task,
                    text_at(args, 0),
                    text_at(args, 1),
                    text_at(args, 2),
                    text_at(args, 3),
                    opt_at(args, 4),
                    c.now,
                ),
            ),
        },
        DbMethod::DeleteTask => done(
            Told::Flag(task_store::has_task(d.tasks, number_at(args, 0))),
            Db { tasks: rows::kept(d.tasks, |t: Task| t.id != number_at(args, 0)), ..d },
        ),
        DbMethod::ListTasks => done(
            Told::Tasks(task_store::tasks_of(d.tasks, opt_at(args, 0))),
            d,
        ),
        DbMethod::GetTask => done(
            Told::Task(task_store::task_of(d.tasks, number_at(args, 0))),
            d,
        ),
        DbMethod::SetTaskEnabled => match task_store::task_of(d.tasks, number_at(args, 1)) {
            Some(t) => done(
                Told::Flag(true),
                Db {
                    tasks: task_store::with_changed(
                        d.tasks,
                        Task { enabled: flag_at(args, 0), ..t },
                    ),
                    ..d
                },
            ),
            None => done(Told::Flag(false), d),
        },
        DbMethod::GetPendingTasks => done(
            Told::Tasks(task_store::pending(d.tasks, c.stamp)),
            d,
        ),
        DbMethod::MarkTaskExecuted => run_recorded(
            d,
            number_at(args, 0),
            text_at(args, 1),
            opt_at(args, 2),
            limit_at(args, 3),
            c,
        ),
        _ => refused(Seq::empty(), d),
    }
}

/// What a request is answered, and the state after it.
pub open spec fn answered(d: Db, m: DbMethod, args: Seq<Given>, c: Moment) -> (Result<
    Told,
    Seq<char>,
>, Db) {
    match m {
        DbMethod::ClaimAgent
        | DbMethod::HeartbeatAll
        | DbMethod::ReleaseAgent
        | DbMethod::ReleaseAllAgents
        | DbMethod::PollNotificationsForSession
        | DbMethod::SendNotification => on_sessions(d, m, args, c),
        DbMethod::CreateAgent
        | DbMethod::DeleteAgent
        | DbMethod::ListAgents
        | DbMethod::GetAgent
        | DbMethod::EnsureDefaultAgent
        | DbMethod::GcAgents => on_agents(d, m, args, c),
        DbMethod::SetAgentData
        | DbMethod::GetAgentData
        | DbMethod::DeleteAgentData
        | DbMethod::ListAgentData
        | DbMethod::GetAgentConfig => on_data(d, m, args),
        DbMethod::SaveAgentMessages
        | DbMethod::LoadAgentMessages
        | DbMethod::AppendAgentMessage
        | DbMethod::ClearAgentMessages
        | DbMethod::AgentMessageCount => on_messages(d, m, args),
        DbMethod::CreateCronTask
        | DbMethod::CreateOneshotTask
        | DbMethod::DeleteTask
        | DbMethod::ListTasks
        | DbMethod::GetTask
        | DbMethod::SetTaskEnabled
        | DbMethod::GetPendingTasks
        | DbMethod::MarkTaskExecuted => on_tasks(d, m, args, c),
    }
}

fn flag_result(r: Result<(), String>) -> (out: Result<Answer, String>)
    ensures
        match r {
            Ok(_) => outcome_view(out) == Ok::<Told, Seq<char>>(Told::Flag(true)),
            Err(e) => outcome_view(out) == Err::<Told, Seq<char>>(e@),
        },
{
    match r {
        Ok(_) => Ok(Answer::Flag(true)),
        Err(e) => Err(e),
    }
}

fn number_result(r: Result<i64, String>) -> (out: Result<Answer, String>)
    ensures
        match r {
            Ok(n) => outcome_view(out) == Ok::<Told, Seq<char>>(Told::Number(n as int)),
            Err(e) => outcome_view(out) == Err::<Told, Seq<char>>(e@),
        },
{
    match r {
        Ok(n) => Ok(Answer::Number(n)),
        Err(e) => Err(e),
    }
}

fn run_on_sessions(state: &mut Store, m: DbMethod, args: &[Arg], clock: &Clock) -> (r: Result<
    Answer,
    String,
>)
    requires
        database::sound(old(state)@),
        rpc::conforms(m, rpc::arg_views(args@)),
    ensures
        database::sound(final(state)@),
        database::owned(old(state)@) ==> database::owned(final(state)@),
        (outcome_view(r), final(state)@) == on_sessions(
            old(state)@,
            m,
            rpc::arg_views(args@),
            clock@,
        ),
{
    match m {
        DbMethod::ClaimAgent => Ok(
            Answer::Flag(state.claim_agent(text_arg(args, 0), text_arg(args, 1), clock)),
        ),
        DbMethod::HeartbeatAll => {
            state.heartbeat_all(text_arg(args, 0), clock);
            Ok(Answer::Flag(true))
        },
        DbMethod::ReleaseAgent => {
            state.release_agent(text_arg(args, 0), text_arg(args, 1));
            Ok(Answer::Flag(true))
        },
        DbMethod::ReleaseAllAgents => {
            state.release_all_agents(text_arg(args, 0));
            Ok(Answer::Flag(true))
        },
        DbMethod::PollNotificationsForSession => Ok(
            Answer::Notifications(
                state.poll_notifications_for_session(text_arg(args, 0), clock),
            ),
        ),
        DbMethod::SendNotification => number_result(
            state.send_notification(
                text_arg(args, 0),
                text_arg(args, 1),
                text_arg(args, 2),
                clock,
            ),
        ),
        _ => {
            let e = String::new();
            assert(e@ =~= Seq::<char>::empty());
            Err(e)
        },
    }
}

fn run_on_agents(state: &mut Store, m: DbMethod, args: &[Arg], clock: &Clock) -> (r: Result<
    Answer,
    String,
>)
    requires
        database::sound(old(state)@),
        rpc::conforms(m, rpc::arg_views(args@)),
    ensures
        database::sound(final(state)@),
        database::owned(old(state)@) ==> database::owned(final(state)@),
        (outcome_view(r), final(state)@) == on_agents(
            old(state)@,
            m,
            rpc::arg_views(args@),
            clock@,
        ),
{
    match m {
        DbMethod::CreateAgent => flag_result(
            state.create_agent(text_arg(args, 0), text_arg(args, 1), clock),
        ),
        DbMethod::DeleteAgent => Ok(Answer::Flag(state.delete_agent(text_arg(args, 0)))),
        DbMethod::ListAgents => Ok(Answer::Agents(copy_agents(state.list_agents()))),
        DbMethod::GetAgent => Ok(
            Answer::Agent(
                match state.get_agent(text_arg(args, 0)) {
                    Some(a) => Some(a.clone()),
                    None => None,
                },
            ),
        ),
        DbMethod::EnsureDefaultAgent => {
            state.ensure_default_agent(clock);
            Ok(Answer::Flag(true))
        },
        DbMethod::GcAgents => Ok(Answer::Names(state.gc_agents(clock))),
        _ => {
            let e = String::new();
            assert(e@ =~= Seq::<char>::empty());
            Err(e)
        },
    }
}

fn copy_agents(v: &[AgentRow]) -> (r: Vec<AgentRow>)
    ensures
        rows::rows_view(r@) == rows::rows_view(v@),
{
    let mut out: Vec<AgentRow> = Vec::new();
    let mut i: usize = 0;
    assert(rows::rows_view(out@) =~= rows::rows_view(v@).take(0));
    while i < v.len()
        invariant
            i <= v@.len(),
            rows::rows_view(out@) == rows::rows_view(v@).take(i as int),
        decreases v@.len() - i,
    {
        let row = v[i].clone();
        proof {
            rows::rows_push(out@, row);
            assert(rows::rows_view(v@).take(i + 1) =~= rows::rows_view(v@).take(i as int).push(
                row@,
            ));
        }
        out.push(row);
        i += 1;
    }
    assert(rows::rows_view(v@).take(v@.len() as int) =~= rows::rows_view(v@));
    out
}

fn run_on_data(state: &mut Store, m: DbMethod, args: &[Arg]) -> (r: Result<Answer, String>)
    requires
        database::sound(old(state)@),
        rpc::conforms(m, rpc::arg_views(args@)),
    ensures
        database::sound(final(state)@),
        database::owned(old(state)@) ==> database::owned(final(state)@),
        (outcome_view(r), final(state)@) == on_data(old(state)@, m, rpc::arg_views(args@)),
{
    match m {
        DbMethod::SetAgentData => flag_result(
            state.set_agent_data(text_arg(args, 0), text_arg(args, 1), text_arg(args, 2)),
        ),
        DbMethod::GetAgentData => Ok(
            Answer::Text(state.get_agent_data(text_arg(args, 0), text_arg(args, 1))),
        ),
        DbMethod::DeleteAgentData => {
            let agent = text_arg(args, 0);
            let key = text_arg(args, 1);
            let ghost d = state@;
            let r = state.delete_agent_data(agent, key);
            proof {
                let v = rpc::arg_views(args@);
                assert((|e: Item| !database::is_item(e, text_at(v, 0), text_at(v, 1))) =~= (
                |e: Item| !database::is_item(e, agent@, key@)));
            }
            Ok(Answer::Flag(r))
        },
        DbMethod::ListAgentData => Ok(Answer::Data(state.list_agent_data(text_arg(args, 0)))),
        DbMethod::GetAgentConfig => Ok(Answer::Config(state.get_agent_config(text_arg(args, 0)))),
        _ => {
            let e = String::new();
            assert(e@ =~= Seq::<char>::empty());
            Err(e)
        },
    }
}

fn run_on_messages(state: &mut Store, m: DbMethod, args: &[Arg]) -> (r: Result<Answer, String>)
    requires
        database::sound(old(state)@),
        rpc::conforms(m, rpc::arg_views(args@)),
    ensures
        database::sound(final(state)@),
        database::owned(old(state)@) ==> database::owned(final(state)@),
        (outcome_view(r), final(state)@) == on_messages(old(state)@, m, rpc::arg_views(args@)),
{
    match m {
        DbMethod::SaveAgentMessages => {
            let list = json_arg(args, 0);
            match json_items(list.as_str()) {
                Some(texts) => {
                    assert(words::views(texts@).len() == texts@.len());
                    flag_result(state.save_agent_messages(text_arg(args, 1), texts.as_slice()))
                },
                None => Err(crate::text::text3("missing param '", "messages", "'")),
            }
        },
        DbMethod::LoadAgentMessages => Ok(
            Answer::Messages(state.load_agent_messages(text_arg(args, 0))),
        ),
        DbMethod::AppendAgentMessage => {
            let message = json_arg(args, 0);
            flag_result(state.append_agent_message(text_arg(args, 1), message.as_str()))
        },
        DbMethod::ClearAgentMessages => {
            let agent = text_arg(args, 0);
            state.clear_agent_messages(agent);
            proof {
                let v = rpc::arg_views(args@);
                assert((|m: Line| m.agent != text_at(v, 0)) =~= (|m: Line| m.agent != agent@));
            }
            Ok(Answer::Flag(true))
        },
        DbMethod::AgentMessageCount => Ok(
            Answer::Count(state.agent_message_count(text_arg(args, 0))),
        ),
        _ => {
            let e = String::new();
            assert(e@ =~= Seq::<char>::empty());
            Err(e)
        },
    }
}

fn run_on_tasks(state: &mut Store, m: DbMethod, args: &[Arg], clock: &Clock) -> (r: Result<
    Answer,
    String,
>)
    requires
        database::sound(old(state)@),
        rpc::conforms(m, rpc::arg_views(args@)),
        0 <= clock.millis <= LAST_MILLIS,
    ensures
        database::sound(final(state)@),
        database::owned(old(state)@) ==> database::owned(final(state)@),
        (outcome_view(r), final(state)@) == on_tasks(
            old(state)@,
            m,
            rpc::arg_views(args@),
            clock@,
        ),
{
    match m {
        DbMethod::CreateCronTask => number_result(
            state.create_cron_task(
                text_arg(args, 0),
                text_arg(args, 1),
                text_arg(args, 2),
                text_arg(args, 3),
                opt_arg(args, 4),
                limit_arg(args, 5),
                clock,
            ),
        ),
        DbMethod::CreateOneshotTask => number_result(
            state.create_oneshot_task(
                text_arg(args, 0),
                text_arg(args, 1),
                text_arg(args, 2),
                text_arg(args, 3),
                opt_arg(args, 4),
                clock,
            ),
        ),
        DbMethod::DeleteTask => {
            let id: i64 = number_arg(args, 0);
            let r = state.delete_task(id);
            proof {
                let v = rpc::arg_views(args@);
                assert((|t: Task| t.id != number_at(v, 0)) =~= (|t: Task| t.id != id));
            }
            Ok(Answer::Flag(r))
        },
        DbMethod::ListTasks => Ok(Answer::Tasks(state.list_tasks(opt_arg(args, 0)))),
        DbMethod::GetTask => Ok(
            Answer::Task(
                match state.get_task(number_arg(args, 0)) {
                    Some(t) => Some(t.clone()),
                    None => None,
                },
            ),
        ),
        DbMethod::SetTaskEnabled => Ok(
            Answer::Flag(state.set_task_enabled(number_arg(args, 1), flag_arg(args, 0))),
        ),
        DbMethod::GetPendingTasks => Ok(Answer::Tasks(state.get_pending_tasks(clock))),
        DbMethod::MarkTaskExecuted => {
            let info = RunInfo {
                task_type: text_arg(args, 1).to_owned(),
                cron_expression: task_store::owner_name(opt_arg(args, 2)),
                max_runs: limit_arg(args, 3),
            };
            flag_result(state.mark_task_executed(number_arg(args, 0), &info, clock))
        },
        _ => {
            let e = String::new();
            assert(e@ =~= Seq::<char>::empty());
            Err(e)
        },
    }
}

/// Carries out a request.
pub fn run_request(state: &mut Store, q: &DbRequest, clock: &Clock) -> (r: Result<Answer, String>)
    requires
        database::sound(old(state)@),
        rpc::conforms(q.method, rpc::arg_views(q.args@)),
        0 <= clock.millis <= LAST_MILLIS,
    ensures
        database::sound(final(state)@),
        database::owned(old(state)@) ==> database::owned(final(state)@),
        (outcome_view(r), final(state)@) == answered(
            old(state)@,
            q.method,
            rpc::arg_views(q.args@),
            clock@,
        ),
{
    let args = q.args.as_slice();
    match q.method {
        DbMethod::ClaimAgent
        | DbMethod::HeartbeatAll
        | DbMethod::ReleaseAgent
        | DbMethod::ReleaseAllAgents
        | DbMethod::PollNotificationsForSession
        | DbMethod::SendNotification => run_on_sessions(state, q.method, args, clock),
        DbMethod::CreateAgent
        | DbMethod::DeleteAgent
        | DbMethod::ListAgents
        | DbMethod::GetAgent
        | DbMethod::EnsureDefaultAgent
        | DbMethod::GcAgents => run_on_agents(state, q.method, args, clock),
        DbMethod::SetAgentData
        | DbMethod::GetAgentData
        | DbMethod::DeleteAgentData
        | DbMethod::ListAgentData
        | DbMethod::GetAgentConfig => run_on_data(state, q.method, args),
        DbMethod::SaveAgentMessages
        | DbMethod::LoadAgentMessages
        | DbMethod::AppendAgentMessage
        | DbMethod::ClearAgentMessages
        | DbMethod::AgentMessageCount => run_on_messages(state, q.method, args),
        DbMethod::CreateCronTask
        | DbMethod::CreateOneshotTask
        | DbMethod::DeleteTask
        | DbMethod::ListTasks
        | DbMethod::GetTask
        | DbMethod::SetTaskEnabled
        | DbMethod::GetPendingTasks
        | DbMethod::MarkTaskExecuted => run_on_tasks(state, q.method, args, clock),
    }
}

/// Carries out a request: the name of a method, and its parameters as a JSON object.
pub fn dispatch(state: &mut Store, method: &str, params: &str, clock: &Clock) -> (r: Result<
    Answer,
    String,
>)
    requires
        database::sound(old(state)@),
        0 <= clock.millis <= LAST_MILLIS,
    ensures
        database::sound(final(state)@),
        database::owned(old(state)@) ==> database::owned(final(state)@),
        match rpc::request_in(method@, params@) {
            Ok(q) => (outcome_view(r), final(state)@) == answered(
                old(state)@,
                q.0,
                q.1,
                clock@,
            ),
            Err(e) => outcome_view(r) == Err::<Told, Seq<char>>(e) && final(state)@
                == old(state)@,
        },
{
    match read_request(method, params) {
        Ok(q) => run_request(state, &q, clock),
        Err(e) => Err(e),
    }
}

} // verus!
