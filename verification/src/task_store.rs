//! Stored tasks.

use vstd::prelude::*;
use crate::database::{Clock, Db, NO_AGENT, NO_NUMBER, Store, belongs_to};
use crate::database;
use crate::json;
use crate::order::text_le;
use crate::order;
use crate::rows::retain;
use crate::rows;
use crate::schedule::{LAST_MILLIS, check_run_at, cron_first_run, next_run};
use crate::schedule;
use crate::store::{Agent, RunInfo, Task, TaskRow, count_run, is_due, is_repeating, record_run};
use crate::store;
use crate::text::same;

verus! {

/// A task may belong to an agent: to none, or to one that is there.
pub open spec fn may_own(v: Seq<Agent>, agent: Option<Seq<char>>) -> bool {
    match agent {
        Some(a) => database::known(v, a),
        None => true,
    }
}

/// The name of an agent that may be missing.
pub open spec fn name_of(agent: Option<&str>) -> Option<Seq<char>> {
    match agent {
        Some(a) => Some(a@),
        None => None,
    }
}

/// The state with another task.
pub open spec fn with_task(d: Db, t: Task) -> Db {
    Db { tasks: d.tasks.push(t), next_task: t.id + 1, ..d }
}

/// A task of a number is there.
pub open spec fn has_task(v: Seq<Task>, id: int) -> bool {
    exists|i: int| 0 <= i < v.len() && (#[trigger] v[i]).id == id
}

/// The task of a number.
pub open spec fn task_of(v: Seq<Task>, id: int) -> Option<Task> {
    if has_task(v, id) {
        Some(v[choose|i: int| 0 <= i < v.len() && (#[trigger] v[i]).id == id])
    } else {
        None
    }
}

/// The tasks of an agent, or all of them where no agent is given.
pub open spec fn tasks_of(v: Seq<Task>, agent: Option<Seq<char>>) -> Seq<Task> {
    match agent {
        Some(a) => rows::kept(v, |t: Task| t.agent == Some(a)),
        None => v,
    }
}

/// The tasks with another one in place of one of the same number.
pub open spec fn with_changed(v: Seq<Task>, t: Task) -> Seq<Task> {
    Seq::new(
        v.len(),
        |i: int|
            if v[i].id == t.id {
                t
            } else {
                v[i]
            },
    )
}

proof fn task_found(d: Db, id: int, i: int)
    requires
        database::sound(d),
        0 <= i < d.tasks.len(),
        d.tasks[i].id == id,
    ensures
        task_of(d.tasks, id) == Some(d.tasks[i]),
{
    let v = d.tasks;
    let c = choose|c: int| 0 <= c < v.len() && (#[trigger] v[c]).id == id;
    if c < i {
        assert(v[c].id < v[i].id);
    } else if c > i {
        assert(v[i].id < v[c].id);
    }
}

proof fn new_task_sound(d: Db, t: Task)
    requires
        database::sound(d),
        t.id == d.next_task,
        may_own(d.agents, t.agent),
    ensures
        database::sound(with_task(d, t)),
        database::owned(d) ==> database::owned(with_task(d, t)),
{
    let v = d.tasks.push(t);
    assert forall|i: int, j: int| 0 <= i < j < v.len() implies (#[trigger] v[i]).id < (
    #[trigger] v[j]).id by {
        assert(v[i] == d.tasks[i]);
        if j < d.tasks.len() {
            assert(v[j] == d.tasks[j]);
        }
    }
    assert forall|i: int| 0 <= i < v.len() implies (#[trigger] v[i]).id < t.id + 1 by {
        if i < d.tasks.len() {
            assert(v[i] == d.tasks[i]);
        }
    }
    assert forall|i: int| database::owned(d) && 0 <= i < v.len() implies ((
    #[trigger] v[i]).agent matches Some(a) ==> database::known(d.agents, a)) by {
        if i < d.tasks.len() {
            assert(v[i] == d.tasks[i]);
        }
    }
}

proof fn changed_sound(d: Db, t: Task, i: int)
    requires
        database::sound(d),
        0 <= i < d.tasks.len(),
        d.tasks[i].id == t.id,
        d.tasks[i].agent == t.agent,
    ensures
        database::sound(Db { tasks: with_changed(d.tasks, t), ..d }),
        database::owned(d) ==> database::owned(Db { tasks: with_changed(d.tasks, t), ..d }),
        with_changed(d.tasks, t) == d.tasks.update(i, t),
{
    let v = d.tasks;
    let w = with_changed(v, t);
    assert forall|j: int| 0 <= j < v.len() implies #[trigger] w[j] == v.update(i, t)[j] by {
        if j < i {
            assert(v[j].id < v[i].id);
        } else if j > i {
            assert(v[i].id < v[j].id);
        }
    }
    assert(w =~= v.update(i, t));
    assert forall|x: int, y: int| 0 <= x < y < w.len() implies (#[trigger] w[x]).id < (
    #[trigger] w[y]).id by {
        assert(v[x].id < v[y].id);
    }
    assert forall|x: int| 0 <= x < w.len() implies (#[trigger] w[x]).id < d.next_task by {
        assert(v[x].id < d.next_task);
    }
    assert forall|x: int| database::owned(d) && 0 <= x < w.len() implies ((
    #[trigger] w[x]).agent matches Some(a) ==> database::known(d.agents, a)) by {
        assert(v[x].agent == w[x].agent);
    }
}

pub(crate) fn owner_name(agent: Option<&str>) -> (r: Option<String>)
    ensures
        json::opt_view(r) == name_of(agent),
{
    match agent {
        Some(a) => Some(a.to_owned()),
        None => None,
    }
}

/// A new task that runs by a cron expression.
pub open spec fn cron_task(
    id: int,
    name: Seq<char>,
    description: Seq<char>,
    cron: Seq<char>,
    next_run: Option<Seq<char>>,
    command: Seq<char>,
    agent: Option<Seq<char>>,
    max_runs: Option<i64>,
    now: Seq<char>,
) -> Task {
    Task {
        id,
        agent,
        name,
        description,
        task_type: "cron"@,
        cron: Some(cron),
        run_at: None,
        next_run,
        last_run: None,
        enabled: true,
        created_at: now,
        command,
        max_runs,
        run_count: 0,
    }
}

/// A new task that runs once.
pub open spec fn oneshot_task(
    id: int,
    name: Seq<char>,
    description: Seq<char>,
    run_at: Seq<char>,
    command: Seq<char>,
    agent: Option<Seq<char>>,
    now: Seq<char>,
) -> Task {
    Task {
        id,
        agent,
        name,
        description,
        task_type: "oneshot"@,
        cron: None,
        run_at: Some(run_at),
        next_run: Some(run_at),
        last_run: None,
        enabled: true,
        created_at: now,
        command,
        max_runs: None,
        run_count: 0,
    }
}

impl Store {
    fn owner_is_there(&self, agent: Option<&str>) -> (r: bool)
        requires
            database::sound(self@),
        ensures
            r == may_own(self@.agents, name_of(agent)),
    {
        match agent {
            Some(a) => self.has_agent(a),
            None => true,
        }
    }

    fn add_task(&mut self, row: TaskRow) -> (r: Result<i64, String>)
        requires
            database::sound(old(self)@),
            row@.id == old(self)@.next_task,
            may_own(old(self)@.agents, row@.agent),
            row.id < i64::MAX,
        ensures
            database::sound(final(self)@),
            database::owned(old(self)@) ==> database::owned(final(self)@),
            r == Ok::<i64, String>(row.id),
            final(self)@ == with_task(old(self)@, row@),
    {
        let ghost d = self@;
        let id: i64 = row.id;
        proof {
            rows::rows_push(self.tasks@, row);
            new_task_sound(d, row@);
        }
        self.tasks.push(row);
        self.next_task = id + 1;
        Ok(id)
    }

    /// Creates a task that runs by a cron expression; gives its number.
    pub fn create_cron_task(
        &mut self,
        name: &str,
        description: &str,
        cron_expr: &str,
        command: &str,
        agent_name: Option<&str>,
        max_runs: Option<i64>,
        clock: &Clock,
    ) -> (r: Result<i64, String>)
        requires
            database::sound(old(self)@),
            0 <= clock.millis <= LAST_MILLIS,
        ensures
            database::sound(final(self)@),
            database::owned(old(self)@) ==> database::owned(final(self)@),
            match r {
                Ok(id) => {
                    &&& id == old(self)@.next_task < i64::MAX
                    &&& may_own(old(self)@.agents, name_of(agent_name))
                    &&& schedule::first_run(cron_expr@, clock.millis) is Ok
                    &&& final(self)@ == with_task(
                        old(self)@,
                        cron_task(
                            id as int,
                            name@,
                            description@,
                            cron_expr@,
                            schedule::first_run(cron_expr@, clock.millis)->Ok_0,
                            command@,
                            name_of(agent_name),
                            max_runs,
                            clock.now@,
                        ),
                    )
                },
                Err(e) => {
                    &&& final(self)@ == old(self)@
                    &&& match schedule::first_run(cron_expr@, clock.millis) {
                        Err(fault) => e@ == fault,
                        Ok(_) => if old(self)@.next_task == i64::MAX {
                            e@ == NO_NUMBER@
                        } else {
                            e@ == NO_AGENT@ && !may_own(old(self)@.agents, name_of(agent_name))
                        },
                    }
                },
            },
    {
        let next = cron_first_run(cron_expr, clock.millis);
        match next {
            Err(e) => Err(e),
            Ok(next_run_at) => {
                if self.next_task == i64::MAX {
                    return Err(NO_NUMBER.to_owned());
                }
                if !self.owner_is_there(agent_name) {
                    return Err(NO_AGENT.to_owned());
                }
                let row = TaskRow {
                    id: self.next_task,
                    agent_name: owner_name(agent_name),
                    name: name.to_owned(),
                    description: description.to_owned(),
                    task_type: "cron".to_owned(),
                    cron_expression: Some(cron_expr.to_owned()),
                    run_at: None,
                    next_run_at,
                    last_run_at: None,
                    enabled: true,
                    created_at: clock.now.clone(),
                    command: command.to_owned(),
                    max_runs,
                    run_count: 0,
                };
                self.add_task(row)
            },
        }
    }

    /// Creates a task that runs once; gives its number.
    pub fn create_oneshot_task(
        &mut self,
        name: &str,
        description: &str,
        run_at: &str,
        command: &str,
        agent_name: Option<&str>,
        clock: &Clock,
    ) -> (r: Result<i64, String>)
        requires
            database::sound(old(self)@),
        ensures
            database::sound(final(self)@),
            database::owned(old(self)@) ==> database::owned(final(self)@),
            match r {
                Ok(id) => {
                    &&& id == old(self)@.next_task < i64::MAX
                    &&& may_own(old(self)@.agents, name_of(agent_name))
                    &&& schedule::rfc3339_fault_of(run_at@) is None
                    &&& final(self)@ == with_task(
                        old(self)@,
                        oneshot_task(
                            id as int,
                            name@,
                            description@,
                            run_at@,
                            command@,
                            name_of(agent_name),
                            clock.now@,
                        ),
                    )
                },
                Err(e) => {
                    &&& final(self)@ == old(self)@
                    &&& match schedule::rfc3339_fault_of(run_at@) {
                        Some(fault) => e@ == "Invalid RFC 3339 datetime '"@ + run_at@ + "': "@
                            + fault,
                        None => if old(self)@.next_task == i64::MAX {
                            e@ == NO_NUMBER@
                        } else {
                            e@ == NO_AGENT@ && !may_own(old(self)@.agents, name_of(agent_name))
                        },
                    }
                },
            },
    {
        match check_run_at(run_at) {
            Err(e) => Err(e),
            Ok(_) => {
                if self.next_task == i64::MAX {
                    return Err(NO_NUMBER.to_owned());
                }
                if !self.owner_is_there(agent_name) {
                    return Err(NO_AGENT.to_owned());
                }
                let row = TaskRow {
                    id: self.next_task,
                    agent_name: owner_name(agent_name),
                    name: name.to_owned(),
                    description: description.to_owned(),
                    task_type: "oneshot".to_owned(),
                    cron_expression: None,
                    run_at: Some(run_at.to_owned()),
                    next_run_at: Some(run_at.to_owned()),
                    last_run_at: None,
                    enabled: true,
                    created_at: clock.now.clone(),
                    command: command.to_owned(),
                    max_runs: None,
                    run_count: 0,
                };
                self.add_task(row)
            },
        }
    }

    fn find_task(&self, id: i64) -> (r: Option<usize>)
        requires
            database::sound(self@),
        ensures
            match r {
                Some(i) => {
                    &&& i < self@.tasks.len()
                    &&& self@.tasks[i as int].id == id
                    &&& task_of(self@.tasks, id as int) == Some(self@.tasks[i as int])
                },
                None => !has_task(self@.tasks, id as int),
            },
    {
        let mut i: usize = 0;
        while i < self.tasks.len()
            invariant
                database::sound(self@),
                i <= self.tasks@.len(),
                forall|j: int| 0 <= j < i ==> (#[trigger] self@.tasks[j]).id != id,
            decreases self.tasks@.len() - i,
        {
            assert(self@.tasks[i as int] == self.tasks@[i as int]@);
            if self.tasks[i].id == id {
                proof {
                    task_found(self@, id as int, i as int);
                }
                return Some(i);
            }
            i += 1;
        }
        None
    }

    /// The task of a number.
    pub fn get_task(&self, id: i64) -> (r: Option<&TaskRow>)
        requires
            database::sound(self@),
        ensures
            match r {
                Some(t) => task_of(self@.tasks, id as int) == Some(t@) && t@.id == id,
                None => task_of(self@.tasks, id as int) is None,
            },
    {
        match self.find_task(id) {
            Some(i) => Some(&self.tasks[i]),
            None => None,
        }
    }

    /// Deletes the task of a number; says whether it was there.
    pub fn delete_task(&mut self, id: i64) -> (r: bool)
        requires
            database::sound(old(self)@),
        ensures
            database::sound(final(self)@),
            database::owned(old(self)@) ==> database::owned(final(self)@),
            r == has_task(old(self)@.tasks, id as int),
            final(self)@ == (Db {
                tasks: rows::kept(old(self)@.tasks, |t: Task| t.id != id),
                ..old(self)@
            }),
    {
        let found = self.find_task(id).is_some();
        let ghost d = self@;
        let ghost p = |t: TaskRow| t.id != id;
        let ghost q = |t: Task| t.id != id;
        let keep = |t: &TaskRow| -> (b: bool)
            ensures
                b == (t.id != id),
            { t.id != id };
        let mut tasks: Vec<TaskRow> = Vec::new();
        std::mem::swap(&mut tasks, &mut self.tasks);
        proof {
            assert(forall|x: TaskRow| #[trigger] p(x) == q(x@));
            rows::rows_kept(tasks@, p, q);
            let k = rows::kept(d.tasks, q);
            database::kept_tasks_numbered(d.tasks, d.next_task, q);
            rows::kept_are_kept(d.tasks, q);
            assert forall|i: int| database::owned(d) && 0 <= i < k.len() implies ((
            #[trigger] k[i]).agent matches Some(a) ==> database::known(d.agents, a)) by {
                let x = choose|x: int| 0 <= x < d.tasks.len() && d.tasks[x] == k[i];
                assert(d.tasks[x].agent == k[i].agent);
            }
        }
        self.tasks = retain(tasks, keep, Ghost(p));
        found
    }

    /// The tasks of an agent, or all of them where no agent is given, in the order of their
    /// numbers.
    pub fn list_tasks(&self, agent_name: Option<&str>) -> (r: Vec<TaskRow>)
        ensures
            rows::rows_view(r@) == tasks_of(self@.tasks, name_of(agent_name)),
    {
        let ghost v = self@.tasks;
        let ghost all = tasks_of(v, name_of(agent_name));
        let mut out: Vec<TaskRow> = Vec::new();
        let mut i: usize = 0;
        assert(rows::rows_view(out@) =~= tasks_of(v.take(0), name_of(agent_name)));
        while i < self.tasks.len()
            invariant
                i <= self.tasks@.len(),
                v == self@.tasks,
                rows::rows_view(out@) == tasks_of(v.take(i as int), name_of(agent_name)),
            decreases self.tasks@.len() - i,
        {
            assert(v.take(i + 1).drop_last() =~= v.take(i as int));
            assert(v.take(i + 1).last() == self.tasks@[i as int]@);
            assert(v.take(i as int).push(v[i as int]) =~= v.take(i + 1));
            let take = match agent_name {
                Some(a) => belongs_to(&self.tasks[i].agent_name, a),
                None => true,
            };
            if take {
                let row = self.tasks[i].clone();
                proof {
                    rows::rows_push(out@, row);
                }
                out.push(row);
            }
            i += 1;
        }
        assert(v.take(v.len() as int) =~= v);
        out
    }

    /// Enables or disables a task; says whether it was there.
    pub fn set_task_enabled(&mut self, id: i64, enabled: bool) -> (r: bool)
        requires
            database::sound(old(self)@),
        ensures
            database::sound(final(self)@),
            database::owned(old(self)@) ==> database::owned(final(self)@),
            match task_of(old(self)@.tasks, id as int) {
                Some(t) => r && final(self)@ == (Db {
                    tasks: with_changed(old(self)@.tasks, Task { enabled, ..t }),
                    ..old(self)@
                }),
                None => !r && final(self)@ == old(self)@,
            },
    {
        match self.find_task(id) {
            Some(i) => {
                let ghost d = self@;
                let ghost before = self.tasks@;
                let mut row = self.tasks[i].clone();
                row.enabled = enabled;
                proof {
                    changed_sound(d, row@, i as int);
                }
                self.tasks.set(i, row);
                assert(self@.tasks =~= d.tasks.update(i as int, row@));
                true
            },
            None => false,
        }
    }

    /// Records a run of a task. The cron expression of a task that repeats says when it runs next;
    /// where it is refused, only the count of the runs changes.
    pub fn mark_task_executed(&mut self, id: i64, info: &RunInfo, clock: &Clock) -> (r: Result<
        (),
        String,
    >)
        requires
            database::sound(old(self)@),
            0 <= clock.millis <= LAST_MILLIS,
        ensures
            database::sound(final(self)@),
            database::owned(old(self)@) ==> database::owned(final(self)@),
            run_marked(
                old(self)@,
                id as int,
                *info,
                clock.stamp@,
                clock.millis,
                text_result(r),
                final(self)@,
            ),
    {
        let place = self.find_task(id);
        if let Some(i) = place {
            if self.tasks[i].run_count == i64::MAX {
                return Err(TOO_MANY_RUNS.to_owned());
            }
        }
        let next = match &info.cron_expression {
            Some(c) => if is_repeating(info) {
                next_run(c.as_str(), clock.millis)
            } else {
                Ok(None)
            },
            None => Ok(None),
        };
        let ghost d = self@;
        match place {
            Some(i) => {
                let mut row = self.tasks[i].clone();
                assert(row@ == d.tasks[i as int]);
                match next {
                    Ok(next_run_at) => {
                        record_run(&mut row, info, clock.stamp.as_str(), next_run_at);
                        proof {
                            changed_sound(d, row@, i as int);
                        }
                        self.tasks.set(i, row);
                        assert(self@.tasks =~= d.tasks.update(i as int, row@));
                        Ok(())
                    },
                    Err(e) => {
                        count_run(&mut row);
                        proof {
                            changed_sound(d, row@, i as int);
                        }
                        self.tasks.set(i, row);
                        assert(self@.tasks =~= d.tasks.update(i as int, row@));
                        Err(e)
                    },
                }
            },
            None => match next {
                Ok(_) => Ok(()),
                Err(e) => Err(e),
            },
        }
    }
}

/// The error for a task that cannot be counted any further.
pub const TOO_MANY_RUNS: &'static str = "integer overflow";

/// An error as a text.
pub open spec fn text_result(r: Result<(), String>) -> Result<(), Seq<char>> {
    match r {
        Ok(_) => Ok(()),
        Err(e) => Err(e@),
    }
}

/// When a task runs after a run.
pub open spec fn next_after(info: RunInfo, millis: i64) -> Result<Option<Seq<char>>, Seq<char>> {
    if store::repeats(info.task_type@, json::opt_view(info.cron_expression)) {
        schedule::next_run_of(json::opt_view(info.cron_expression)->0, millis)
    } else {
        Ok(None)
    }
}

/// What recording a run does, and what it answers.
pub open spec fn run_marked(
    before: Db,
    id: int,
    info: RunInfo,
    stamp: Seq<char>,
    millis: i64,
    answer: Result<(), Seq<char>>,
    after: Db,
) -> bool {
    let repeating = store::repeats(info.task_type@, json::opt_view(info.cron_expression));
    let next = next_after(info, millis);
    match task_of(before.tasks, id) {
        Some(t) => if t.run_count == i64::MAX {
            answer == Err::<(), Seq<char>>(TOO_MANY_RUNS@) && after == before
        } else {
            match next {
                Ok(n) => answer == Ok::<(), Seq<char>>(()) && after == (Db {
                    tasks: with_changed(
                        before.tasks,
                        store::after_run(t, repeating, info.max_runs, stamp, n),
                    ),
                    ..before
                }),
                Err(e) => answer == Err::<(), Seq<char>>(e) && after == (Db {
                    tasks: with_changed(before.tasks, Task { run_count: t.run_count + 1, ..t }),
                    ..before
                }),
            }
        },
        None => after == before && answer == (match next {
            Ok(_) => Ok::<(), Seq<char>>(()),
            Err(e) => Err::<(), Seq<char>>(e),
        }),
    }
}

/// When tasks run next. A task that does not run stands first.
pub open spec fn next_runs(v: Seq<Task>) -> Seq<Seq<char>> {
    Seq::new(v.len(), |i: int| run_key(v[i]))
}

/// When a task runs next, as a key.
pub open spec fn run_key(t: Task) -> Seq<char> {
    match t.next_run {
        Some(n) => n,
        None => Seq::empty(),
    }
}

/// The tasks that are to run, the one that was to run first before the others.
pub open spec fn pending(v: Seq<Task>, now: Seq<char>) -> Seq<Task>
    decreases v.len(),
{
    if v.len() == 0 {
        Seq::empty()
    } else {
        let before = pending(v.drop_last(), now);
        let t = v.last();
        if store::due(t.enabled, t.next_run, now) {
            before.insert(rows::place(next_runs(before), run_key(t)), t)
        } else {
            before
        }
    }
}

fn place_of_run(v: &[TaskRow], key: &str) -> (r: usize)
    ensures
        r == rows::place(next_runs(rows::rows_view(v@)), key@),
        r <= v@.len(),
{
    let ghost k = next_runs(rows::rows_view(v@));
    let mut p: usize = v.len();
    assert(k.take(k.len() as int) =~= k);
    while p > 0
        invariant
            p <= v@.len() == k.len(),
            k == next_runs(rows::rows_view(v@)),
            rows::place(k, key@) == rows::place(k.take(p as int), key@),
        decreases p,
    {
        assert(k.take(p as int).drop_last() =~= k.take(p - 1));
        assert(k.take(p as int).last() == run_key(v@[p - 1]@));
        let le = match &v[p - 1].next_run_at {
            Some(n) => text_le(n.as_str(), key),
            None => true,
        };
        if le {
            return p;
        }
        p -= 1;
    }
    0
}

impl Store {
    /// The tasks that are to run now, the one that was to run first before the others.
    pub fn get_pending_tasks(&self, clock: &Clock) -> (r: Vec<TaskRow>)
        ensures
            rows::rows_view(r@) == pending(self@.tasks, clock.stamp@),
    {
        let ghost v = self@.tasks;
        let mut out: Vec<TaskRow> = Vec::new();
        let mut i: usize = 0;
        assert(rows::rows_view(out@) =~= pending(v.take(0), clock.stamp@));
        while i < self.tasks.len()
            invariant
                i <= self.tasks@.len(),
                v == self@.tasks,
                rows::rows_view(out@) == pending(v.take(i as int), clock.stamp@),
            decreases self.tasks@.len() - i,
        {
            assert(v.take(i + 1).drop_last() =~= v.take(i as int));
            assert(v.take(i + 1).last() == self.tasks@[i as int]@);
            if is_due(&self.tasks[i], clock.stamp.as_str()) {
                let row = self.tasks[i].clone();
                let p = match &row.next_run_at {
                    Some(n) => place_of_run(out.as_slice(), n.as_str()),
                    None => 0,
                };
                proof {
                    rows::rows_insert(out@, p as int, row);
                }
                out.insert(p, row);
            }
            i += 1;
        }
        assert(v.take(v.len() as int) =~= v);
        out
    }
}

/// A task is handed out just where it is enabled and its next run is not later than now, of
/// whatever type it is, and as often as it is stored.
pub proof fn due_tasks_are_pending(v: Seq<Task>, now: Seq<char>, t: Task)
    ensures
        pending(v, now).to_multiset().count(t) == (if t.enabled && (t.next_run matches Some(n)
            && order::lex_le(n, now)) {
            v.to_multiset().count(t)
        } else {
            0
        }),
        pending(v, now).contains(t) <==> v.contains(t) && t.enabled && (t.next_run matches Some(n)
            && order::lex_le(n, now)),
    decreases v.len(),
{
    broadcast use vstd::seq_lib::group_to_multiset_ensures;

    if v.len() > 0 {
        let w = v.drop_last();
        let x = v.last();
        let b = pending(w, now);
        due_tasks_are_pending(w, now, t);
        assert(v =~= w.push(x));
        assert(v.to_multiset() =~= w.to_multiset().insert(x));
        if store::due(x.enabled, x.next_run, now) {
            let p = rows::place(next_runs(b), run_key(x));
            rows::place_within(next_runs(b), run_key(x));
            vstd::seq_lib::to_multiset_insert(b, p, x);
            assert(pending(v, now).to_multiset() =~= b.to_multiset().insert(x));
        }
    }
    assert(pending(v, now).contains(t) <==> pending(v, now).to_multiset().count(t) > 0);
    assert(v.contains(t) <==> v.to_multiset().count(t) > 0);
}

/// Of stored tasks with numbers of their own, each that is due is handed out exactly once.
pub proof fn due_tasks_run_once(d: Db, now: Seq<char>, i: int)
    requires
        database::sound(d),
        0 <= i < d.tasks.len(),
        d.tasks[i].enabled,
        d.tasks[i].next_run matches Some(n) && order::lex_le(n, now),
    ensures
        exists|j: int|
            0 <= j < pending(d.tasks, now).len() && #[trigger] pending(d.tasks, now)[j]
                == d.tasks[i] && forall|k: int|
                0 <= k < pending(d.tasks, now).len() && (#[trigger] pending(d.tasks, now)[k]).id
                    == d.tasks[i].id ==> k == j,
{
    broadcast use vstd::seq_lib::group_to_multiset_ensures;

    let v = d.tasks;
    let r = pending(v, now);
    let t = v[i];
    due_tasks_are_pending(v, now, t);
    pending_tasks_are_due(v, now);
    assert(v.contains(t));
    let j = choose|j: int| 0 <= j < r.len() && r[j] == t;
    assert(v.no_duplicates()) by {
        assert forall|a: int, b: int| 0 <= a < v.len() && 0 <= b < v.len() && a != b implies v[a]
            != v[b] by {
            if a < b {
                assert(v[a].id < v[b].id);
            } else {
                assert(v[b].id < v[a].id);
            }
        }
    }
    v.lemma_multiset_has_no_duplicates();
    assert forall|k: int| 0 <= k < r.len() && (#[trigger] r[k]).id == t.id implies k == j by {
        let x = choose|x: int| 0 <= x < v.len() && v[x] == r[k];
        if x < i {
            assert(v[x].id < v[i].id);
        } else if x > i {
            assert(v[i].id < v[x].id);
        }
        assert(r[k] == t);
        if k != j {
            let a = if k < j { k } else { j };
            let b = if k < j { j } else { k };
            let s = r.remove(a);
            vstd::seq_lib::to_multiset_remove(r, a);
            assert(s[b - 1] == t);
            assert(s.contains(t));
            assert(s.to_multiset().count(t) > 0);
            assert(r.to_multiset().count(t) >= 2);
            assert(v.to_multiset().count(t) <= 1);
        }
    }
    assert(r[j] == d.tasks[i]);
}

/// The tasks that are to run come in the order in which they were to run, and are all due.
pub proof fn pending_tasks_are_due(v: Seq<Task>, now: Seq<char>)
    ensures
        order::ascending(next_runs(pending(v, now))),
        forall|i: int|
            0 <= i < pending(v, now).len() ==> store::due(
                (#[trigger] pending(v, now)[i]).enabled,
                pending(v, now)[i].next_run,
                now,
            ) && v.contains(pending(v, now)[i]),
    decreases v.len(),
{
    if v.len() > 0 {
        let w = v.drop_last();
        let t = v.last();
        let b = pending(w, now);
        let r = pending(v, now);
        pending_tasks_are_due(w, now);
        let p = rows::place(next_runs(b), run_key(t));
        rows::place_within(next_runs(b), run_key(t));
        rows::placing_keeps_order(next_runs(b), run_key(t));
        if store::due(t.enabled, t.next_run, now) {
            assert(next_runs(r) =~= next_runs(b).insert(p, run_key(t)));
        }
        assert forall|i: int| 0 <= i < r.len() implies store::due(
            (#[trigger] r[i]).enabled,
            r[i].next_run,
            now,
        ) && v.contains(r[i]) by {
            if store::due(t.enabled, t.next_run, now) && i == p {
                assert(r[i] == v[v.len() - 1]);
            } else {
                let j = if store::due(t.enabled, t.next_run, now) && i > p {
                    i - 1
                } else {
                    i
                };
                assert(r[i] == b[j]);
                let x = choose|x: int| 0 <= x < w.len() && w[x] == b[j];
                assert(v[x] == r[i]);
            }
        }
    }
}

} // verus!
