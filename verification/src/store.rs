//! The rules for stored agents, tasks and notifications.
//!
//! Times are texts that sort in time order: `cutoff` is the time before which a session counts as
//! gone.

use vstd::prelude::*;
use crate::json;
use crate::numbers;
use crate::numbers::usize_text;
use crate::messages::copy_opt;
use crate::order;
use crate::order::text_le;
use crate::rows;
use crate::session;
use crate::session::{push_line, push_names};
use crate::text::{same, text3};
use crate::words;

verus! {

/// A stored agent.
#[derive(Debug, PartialEq, Eq)]
pub struct AgentRow {
    pub name: String,
    pub description: String,
    pub created_at: String,
    pub session_id: Option<String>,
    pub heartbeat_at: Option<String>,
}

/// A stored task.
#[derive(Debug, PartialEq, Eq)]
pub struct TaskRow {
    pub id: i64,
    pub agent_name: Option<String>,
    pub name: String,
    pub description: String,
    pub task_type: String,
    pub cron_expression: Option<String>,
    pub run_at: Option<String>,
    pub next_run_at: Option<String>,
    pub last_run_at: Option<String>,
    pub enabled: bool,
    pub created_at: String,
    pub command: String,
    pub max_runs: Option<i64>,
    pub run_count: i64,
}

/// A stored message from one agent to another.
#[derive(Debug, PartialEq, Eq)]
pub struct NotificationRow {
    pub id: i64,
    pub from_agent: String,
    pub to_agent: String,
    pub message: String,
    pub created_at: String,
}

/// What a stored agent holds.
pub ghost struct Agent {
    pub name: Seq<char>,
    pub description: Seq<char>,
    pub created_at: Seq<char>,
    pub session: Option<Seq<char>>,
    pub heartbeat: Option<Seq<char>>,
}

impl View for AgentRow {
    type V = Agent;

    open spec fn view(&self) -> Agent {
        Agent {
            name: self.name@,
            description: self.description@,
            created_at: self.created_at@,
            session: json::opt_view(self.session_id),
            heartbeat: json::opt_view(self.heartbeat_at),
        }
    }
}

/// What a stored task holds.
pub ghost struct Task {
    pub id: int,
    pub agent: Option<Seq<char>>,
    pub name: Seq<char>,
    pub description: Seq<char>,
    pub task_type: Seq<char>,
    pub cron: Option<Seq<char>>,
    pub run_at: Option<Seq<char>>,
    pub next_run: Option<Seq<char>>,
    pub last_run: Option<Seq<char>>,
    pub enabled: bool,
    pub created_at: Seq<char>,
    pub command: Seq<char>,
    pub max_runs: Option<i64>,
    pub run_count: int,
}

impl View for TaskRow {
    type V = Task;

    open spec fn view(&self) -> Task {
        Task {
            id: self.id as int,
            agent: json::opt_view(self.agent_name),
            name: self.name@,
            description: self.description@,
            task_type: self.task_type@,
            cron: json::opt_view(self.cron_expression),
            run_at: json::opt_view(self.run_at),
            next_run: json::opt_view(self.next_run_at),
            last_run: json::opt_view(self.last_run_at),
            enabled: self.enabled,
            created_at: self.created_at@,
            command: self.command@,
            max_runs: self.max_runs,
            run_count: self.run_count as int,
        }
    }
}

/// What a stored message from one agent to another holds.
pub ghost struct Note {
    pub id: int,
    pub from: Seq<char>,
    pub to: Seq<char>,
    pub message: Seq<char>,
    pub created_at: Seq<char>,
}

impl View for NotificationRow {
    type V = Note;

    open spec fn view(&self) -> Note {
        Note {
            id: self.id as int,
            from: self.from_agent@,
            to: self.to_agent@,
            message: self.message@,
            created_at: self.created_at@,
        }
    }
}

impl Clone for AgentRow {
    fn clone(&self) -> (r: Self)
        ensures
            r@ == self@,
    {
        AgentRow {
            name: self.name.clone(),
            description: self.description.clone(),
            created_at: self.created_at.clone(),
            session_id: copy_opt(&self.session_id),
            heartbeat_at: copy_opt(&self.heartbeat_at),
        }
    }
}

impl Clone for TaskRow {
    fn clone(&self) -> (r: Self)
        ensures
            r@ == self@,
    {
        TaskRow {
            id: self.id,
            agent_name: copy_opt(&self.agent_name),
            name: self.name.clone(),
            description: self.description.clone(),
            task_type: self.task_type.clone(),
            cron_expression: copy_opt(&self.cron_expression),
            run_at: copy_opt(&self.run_at),
            next_run_at: copy_opt(&self.next_run_at),
            last_run_at: copy_opt(&self.last_run_at),
            enabled: self.enabled,
            created_at: self.created_at.clone(),
            command: self.command.clone(),
            max_runs: self.max_runs,
            run_count: self.run_count,
        }
    }
}

// ---------------------------------------------------------------------------
// Sessions and agents
// ---------------------------------------------------------------------------

/// The session of an agent is gone: it never gave a sign of life, or its last one is too old.
pub open spec fn lapsed(heartbeat: Option<Seq<char>>, cutoff: Seq<char>) -> bool {
    match heartbeat {
        Some(h) => !order::lex_le(cutoff, h),
        None => true,
    }
}

/// A session may claim an agent that is free, that it has already, or whose session is gone.
pub open spec fn claimable(a: Agent, session: Seq<char>, cutoff: Seq<char>) -> bool {
    a.session is None || a.session == Some(session) || lapsed(a.heartbeat, cutoff)
}

/// An agent in the hands of a session.
pub open spec fn held(a: Agent, session: Seq<char>, now: Seq<char>) -> Agent {
    Agent { session: Some(session), heartbeat: Some(now), ..a }
}

fn is_lapsed(heartbeat: &Option<String>, cutoff: &str) -> (r: bool)
    ensures
        r == lapsed(json::opt_view(*heartbeat), cutoff@),
{
    match heartbeat {
        Some(h) => !text_le(cutoff, h.as_str()),
        None => true,
    }
}

fn is_session(session_id: &Option<String>, session: &str) -> (r: bool)
    ensures
        r == (json::opt_view(*session_id) == Some(session@)),
{
    match session_id {
        Some(s) => same(s.as_str(), session),
        None => false,
    }
}

/// Claims an agent for a session; says whether that was possible.
pub fn claim_agent(row: &mut AgentRow, session: &str, now: &str, cutoff: &str) -> (r: bool)
    ensures
        r == claimable(old(row)@, session@, cutoff@),
        final(row)@ == (if r {
            held(old(row)@, session@, now@)
        } else {
            old(row)@
        }),
{
    let free = row.session_id.is_none();
    if free || is_session(&row.session_id, session) || is_lapsed(&row.heartbeat_at, cutoff) {
        row.session_id = Some(session.to_owned());
        row.heartbeat_at = Some(now.to_owned());
        true
    } else {
        false
    }
}

/// An agent after a sign of life of a session.
pub open spec fn after_heartbeat(a: Agent, session: Seq<char>, now: Seq<char>) -> Agent {
    if a.session == Some(session) {
        Agent { heartbeat: Some(now), ..a }
    } else {
        a
    }
}

/// Takes a sign of life of a session.
pub fn heartbeat(row: &mut AgentRow, session: &str, now: &str)
    ensures
        final(row)@ == after_heartbeat(old(row)@, session@, now@),
{
    if is_session(&row.session_id, session) {
        row.heartbeat_at = Some(now.to_owned());
    }
}

/// An agent after a session gave it up.
pub open spec fn after_release(a: Agent, session: Seq<char>) -> Agent {
    if a.session == Some(session) {
        Agent { session: None, heartbeat: None, ..a }
    } else {
        a
    }
}

/// Gives up an agent, where the session has it.
pub fn release_agent(row: &mut AgentRow, session: &str)
    ensures
        final(row)@ == after_release(old(row)@, session@),
{
    if is_session(&row.session_id, session) {
        row.session_id = None;
        row.heartbeat_at = None;
    }
}

/// An agent that nobody uses. The default agent is never one.
pub open spec fn dormant(a: Agent, cutoff: Seq<char>) -> bool {
    a.name != "default"@ && (a.session is None || lapsed(a.heartbeat, cutoff))
}

/// Whether an agent is used by nobody.
pub fn is_dormant(row: &AgentRow, cutoff: &str) -> (r: bool)
    ensures
        r == dormant(row@, cutoff@),
{
    !same(row.name.as_str(), "default") && (row.session_id.is_none() || is_lapsed(
        &row.heartbeat_at,
        cutoff,
    ))
}

/// The names of the agents that nobody uses.
pub open spec fn dormant_names(v: Seq<Agent>, cutoff: Seq<char>) -> Seq<Seq<char>>
    decreases v.len(),
{
    if v.len() == 0 {
        Seq::empty()
    } else if dormant(v.last(), cutoff) {
        dormant_names(v.drop_last(), cutoff).push(v.last().name)
    } else {
        dormant_names(v.drop_last(), cutoff)
    }
}

/// The names of the agents that nobody uses.
pub fn gc_agents(rows: &[AgentRow], cutoff: &str) -> (r: Vec<String>)
    ensures
        words::views(r@) == dormant_names(rows::rows_view(rows@), cutoff@),
{
    let ghost v = rows::rows_view(rows@);
    let mut names: Vec<String> = Vec::new();
    let mut i: usize = 0;
    assert(words::views(names@) =~= dormant_names(v.take(0), cutoff@));
    while i < rows.len()
        invariant
            i <= rows@.len(),
            v == rows::rows_view(rows@),
            words::views(names@) == dormant_names(v.take(i as int), cutoff@),
        decreases rows@.len() - i,
    {
        assert(v.take(i + 1).drop_last() =~= v.take(i as int));
        assert(v.take(i + 1).last() == rows@[i as int]@);
        if is_dormant(&rows[i], cutoff) {
            let n = rows[i].name.clone();
            proof {
                words::views_push(names@, n);
            }
            names.push(n);
        }
        i += 1;
    }
    assert(v.take(v.len() as int) =~= v);
    names
}

/// An agent whose notifications a session is to see.
pub open spec fn listens(a: Agent, session: Seq<char>, cutoff: Seq<char>) -> bool {
    a.session == Some(session) && !lapsed(a.heartbeat, cutoff)
}

/// Whether a session is to see the notifications for an agent.
pub fn is_listening(row: &AgentRow, session: &str, cutoff: &str) -> (r: bool)
    ensures
        r == listens(row@, session@, cutoff@),
{
    is_session(&row.session_id, session) && !is_lapsed(&row.heartbeat_at, cutoff)
}

/// Some agent of a list has the name and listens.
pub open spec fn some_listens(
    v: Seq<Agent>,
    name: Seq<char>,
    session: Seq<char>,
    cutoff: Seq<char>,
) -> bool {
    exists|i: int|
        0 <= i < v.len() && (#[trigger] v[i]).name == name && listens(v[i], session, cutoff)
}

/// Whether a session is to see the notifications to an agent.
pub fn hears(rows: &[AgentRow], name: &str, session: &str, cutoff: &str) -> (r: bool)
    ensures
        r == some_listens(rows::rows_view(rows@), name@, session@, cutoff@),
{
    let ghost v = rows::rows_view(rows@);
    let mut i: usize = 0;
    while i < rows.len()
        invariant
            i <= rows@.len(),
            v == rows::rows_view(rows@),
            forall|j: int|
                0 <= j < i ==> !((#[trigger] v[j]).name == name@ && listens(
                    v[j],
                    session@,
                    cutoff@,
                )),
        decreases rows@.len() - i,
    {
        assert(v[i as int] == rows@[i as int]@);
        if same(rows[i].name.as_str(), name) && is_listening(&rows[i], session, cutoff) {
            return true;
        }
        i += 1;
    }
    false
}

/// While a session gives signs of life, no other session gets its agent, and the agent is not
/// collected.
pub proof fn live_claims_hold(a: Agent, mine: Seq<char>, other: Seq<char>, cutoff: Seq<char>)
    requires
        listens(a, mine, cutoff),
        other != mine,
    ensures
        !claimable(a, other, cutoff),
        !dormant(a, cutoff),
        claimable(a, mine, cutoff),
{
}

/// Once claimed, an agent is live for as long as the claim is not older than the cutoff.
pub proof fn claiming_makes_live(a: Agent, session: Seq<char>, now: Seq<char>, cutoff: Seq<char>)
    requires
        order::lex_le(cutoff, now),
    ensures
        listens(held(a, session, now), session, cutoff),
{
}

/// What a session gives up, every session can claim.
pub proof fn released_agents_are_free(
    a: Agent,
    mine: Seq<char>,
    other: Seq<char>,
    now: Seq<char>,
    cutoff: Seq<char>,
)
    ensures
        claimable(after_release(held(a, mine, now), mine), other, cutoff),
{
}

/// A session can only give up what it has.
pub proof fn others_cannot_release(a: Agent, mine: Seq<char>, other: Seq<char>)
    requires
        a.session == Some(mine),
        other != mine,
    ensures
        after_release(a, other) == a,
{
}

/// The default agent is never collected.
pub proof fn default_agent_stays(a: Agent, cutoff: Seq<char>)
    requires
        a.name == "default"@,
    ensures
        !dormant(a, cutoff),
{
}

/// What is printed after the agents that nobody uses were removed.
pub open spec fn gc_lines(removed: Seq<Seq<char>>) -> Seq<Seq<char>> {
    if removed.len() == 0 {
        seq!["No dormant agents to clean up."@]
    } else {
        seq![
            "Removed "@ + numbers::decimal(removed.len()) + " agent(s):"@,
        ] + session::name_lines(removed)
    }
}

/// What is printed after the agents that nobody uses were removed.
pub fn report_gc(removed: &[String]) -> (r: Vec<String>)
    ensures
        words::views(r@) == gc_lines(words::views(removed@)),
{
    let ghost v = words::views(removed@);
    let mut lines: Vec<String> = Vec::new();
    assert(words::views(lines@) =~= Seq::<Seq<char>>::empty());
    assert(v.len() == removed@.len());
    if removed.len() == 0 {
        push_line(&mut lines, "No dormant agents to clean up.".to_owned());
    } else {
        let n = usize_text(removed.len());
        push_line(
            &mut lines,
            text3("Removed ", n.as_str(), " agent(s):"),
        );
        push_names(&mut lines, removed);
    }
    assert(words::views(lines@) =~= gc_lines(v));
    lines
}

// ---------------------------------------------------------------------------
// Tasks
// ---------------------------------------------------------------------------

/// A task that is to run now.
pub open spec fn due(enabled: bool, next_run: Option<Seq<char>>, now: Seq<char>) -> bool {
    enabled && (match next_run {
        Some(t) => order::lex_le(t, now),
        None => false,
    })
}

/// Whether a task is to run now.
pub fn is_due(task: &TaskRow, now: &str) -> (r: bool)
    ensures
        r == due(task.enabled, json::opt_view(task.next_run_at), now@),
{
    task.enabled && (match &task.next_run_at {
        Some(t) => text_le(t.as_str(), now),
        None => false,
    })
}

/// The command of a task: its description, where no command is given.
pub fn task_command(task: &TaskRow) -> (r: String)
    ensures
        r@ == (if task.command@.len() == 0 {
            task.description@
        } else {
            task.command@
        }),
{
    if task.command.as_str().is_empty() {
        task.description.clone()
    } else {
        task.command.clone()
    }
}

/// What is known of a run: the type of the task, its cron expression, and how often it may run.
pub struct RunInfo {
    pub task_type: String,
    pub cron_expression: Option<String>,
    pub max_runs: Option<i64>,
}

/// A run of a task that repeats: it is of type `cron` and has an expression.
pub open spec fn repeats(task_type: Seq<char>, cron: Option<Seq<char>>) -> bool {
    task_type == "cron"@ && cron is Some
}

/// Whether a run is one of a task that repeats.
pub fn is_repeating(info: &RunInfo) -> (r: bool)
    ensures
        r == repeats(info.task_type@, json::opt_view(info.cron_expression)),
{
    same(info.task_type.as_str(), "cron") && info.cron_expression.is_some()
}

/// Whether a task may run again after a run.
pub open spec fn stays_enabled(t: Task, repeating: bool, max_runs: Option<i64>) -> bool {
    t.enabled && repeating && (match max_runs {
        Some(max) => t.run_count + 1 < max,
        None => true,
    })
}

/// A task after a run.
pub open spec fn after_run(
    t: Task,
    repeating: bool,
    max_runs: Option<i64>,
    now: Seq<char>,
    next: Option<Seq<char>>,
) -> Task {
    Task {
        run_count: t.run_count + 1,
        last_run: Some(now),
        next_run: if repeating {
            next
        } else {
            t.next_run
        },
        enabled: stays_enabled(t, repeating, max_runs),
        ..t
    }
}

/// Records a run of a task. `next` says when a repeating task runs next.
pub fn record_run(task: &mut TaskRow, info: &RunInfo, now: &str, next: Option<String>)
    requires
        old(task).run_count < i64::MAX,
    ensures
        final(task)@ == after_run(
            old(task)@,
            repeats(info.task_type@, json::opt_view(info.cron_expression)),
            info.max_runs,
            now@,
            json::opt_view(next),
        ),
{
    task.run_count = task.run_count + 1;
    task.last_run_at = Some(now.to_owned());
    if is_repeating(info) {
        task.next_run_at = next;
    } else {
        task.enabled = false;
    }
    match info.max_runs {
        Some(max) => {
            if task.run_count >= max {
                task.enabled = false;
            }
        },
        None => {},
    }
}

/// Records a run of a task whose cron expression is refused: only the count changes.
pub fn count_run(task: &mut TaskRow)
    requires
        old(task).run_count < i64::MAX,
    ensures
        final(task)@ == (Task { run_count: old(task)@.run_count + 1, ..old(task)@ }),
{
    task.run_count = task.run_count + 1;
}

/// A task that does not repeat is over once it ran.
pub proof fn one_shots_run_once(
    t: Task,
    max_runs: Option<i64>,
    now: Seq<char>,
    next: Option<Seq<char>>,
    later: Seq<char>,
)
    ensures
        ({
            let ran = after_run(t, false, max_runs, now, next);
            !due(ran.enabled, ran.next_run, later)
        }),
{
}

/// A task with a limit is over once it ran that often.
pub proof fn limits_are_kept(
    t: Task,
    repeating: bool,
    max: i64,
    now: Seq<char>,
    next: Option<Seq<char>>,
    later: Seq<char>,
)
    requires
        t.run_count + 1 >= max,
    ensures
        ({
            let ran = after_run(t, repeating, Some(max), now, next);
            !due(ran.enabled, ran.next_run, later)
        }),
{
}

} // verus!
