//! The requests with which a client works on the stored state of a server.

use vstd::prelude::*;
use crate::json;
use crate::json::{field, json_member, json_object, json_string, opt_field, text_field, Datum};
use crate::json::{JsonField, JsonMember, JsonValue, Member};
use crate::numbers;
use crate::numbers::parse_signed;
use crate::text;
use crate::text::{same, str_starts_with, text2, text3};
use crate::words;
use crate::words::trim_text;

verus! {

// ---------------------------------------------------------------------------
// Methods and their parameters
// ---------------------------------------------------------------------------

/// What a client can ask of the stored state.
#[derive(Clone, Copy, Debug, PartialEq, Eq, Structural)]
pub enum DbMethod {
    ClaimAgent,
    HeartbeatAll,
    ReleaseAgent,
    ReleaseAllAgents,
    CreateAgent,
    DeleteAgent,
    ListAgents,
    GetAgent,
    EnsureDefaultAgent,
    SetAgentData,
    GetAgentData,
    DeleteAgentData,
    ListAgentData,
    GetAgentConfig,
    SaveAgentMessages,
    LoadAgentMessages,
    AppendAgentMessage,
    ClearAgentMessages,
    AgentMessageCount,
    SendNotification,
    PollNotificationsForSession,
    CreateCronTask,
    CreateOneshotTask,
    DeleteTask,
    ListTasks,
    GetTask,
    SetTaskEnabled,
    GetPendingTasks,
    MarkTaskExecuted,
    GcAgents,
}

/// What a parameter holds.
#[derive(Clone, Copy, Debug, PartialEq, Eq, Structural)]
pub enum ParamKind {
    /// A text.
    Text,
    /// A text, or nothing.
    OptText,
    /// A whole number.
    Number,
    /// A whole number, or nothing.
    OptNumber,
    /// True or false.
    Flag,
    /// A JSON array.
    List,
    /// Any JSON value but `null`.
    Any,
}

/// The name of a method.
pub open spec fn method_name(m: DbMethod) -> Seq<char> {
    match m {
        DbMethod::ClaimAgent => "claim_agent"@,
        DbMethod::HeartbeatAll => "heartbeat_all"@,
        DbMethod::ReleaseAgent => "release_agent"@,
        DbMethod::ReleaseAllAgents => "release_all_agents"@,
        DbMethod::CreateAgent => "create_agent"@,
        DbMethod::DeleteAgent => "delete_agent"@,
        DbMethod::ListAgents => "list_agents"@,
        DbMethod::GetAgent => "get_agent"@,
        DbMethod::EnsureDefaultAgent => "ensure_default_agent"@,
        DbMethod::SetAgentData => "set_agent_data"@,
        DbMethod::GetAgentData => "get_agent_data"@,
        DbMethod::DeleteAgentData => "delete_agent_data"@,
        DbMethod::ListAgentData => "list_agent_data"@,
        DbMethod::GetAgentConfig => "get_agent_config"@,
        DbMethod::SaveAgentMessages => "save_agent_messages"@,
        DbMethod::LoadAgentMessages => "load_agent_messages"@,
        DbMethod::AppendAgentMessage => "append_agent_message"@,
        DbMethod::ClearAgentMessages => "clear_agent_messages"@,
        DbMethod::AgentMessageCount => "agent_message_count"@,
        DbMethod::SendNotification => "send_notification"@,
        DbMethod::PollNotificationsForSession => "poll_notifications_for_session"@,
        DbMethod::CreateCronTask => "create_cron_task"@,
        DbMethod::CreateOneshotTask => "create_oneshot_task"@,
        DbMethod::DeleteTask => "delete_task"@,
        DbMethod::ListTasks => "list_tasks"@,
        DbMethod::GetTask => "get_task"@,
        DbMethod::SetTaskEnabled => "set_task_enabled"@,
        DbMethod::GetPendingTasks => "get_pending_tasks"@,
        DbMethod::MarkTaskExecuted => "mark_task_executed"@,
        DbMethod::GcAgents => "gc_agents"@,
    }
}

/// The method with a name.
pub open spec fn method_of(name: Seq<char>) -> Option<DbMethod> {
    if name == "claim_agent"@ {
        Some(DbMethod::ClaimAgent)
    } else if name == "heartbeat_all"@ {
        Some(DbMethod::HeartbeatAll)
    } else if name == "release_agent"@ {
        Some(DbMethod::ReleaseAgent)
    } else if name == "release_all_agents"@ {
        Some(DbMethod::ReleaseAllAgents)
    } else if name == "create_agent"@ {
        Some(DbMethod::CreateAgent)
    } else if name == "delete_agent"@ {
        Some(DbMethod::DeleteAgent)
    } else if name == "list_agents"@ {
        Some(DbMethod::ListAgents)
    } else if name == "get_agent"@ {
        Some(DbMethod::GetAgent)
    } else if name == "ensure_default_agent"@ {
        Some(DbMethod::EnsureDefaultAgent)
    } else if name == "set_agent_data"@ {
        Some(DbMethod::SetAgentData)
    } else if name == "get_agent_data"@ {
        Some(DbMethod::GetAgentData)
    } else if name == "delete_agent_data"@ {
        Some(DbMethod::DeleteAgentData)
    } else if name == "list_agent_data"@ {
        Some(DbMethod::ListAgentData)
    } else if name == "get_agent_config"@ {
        Some(DbMethod::GetAgentConfig)
    } else if name == "save_agent_messages"@ {
        Some(DbMethod::SaveAgentMessages)
    } else if name == "load_agent_messages"@ {
        Some(DbMethod::LoadAgentMessages)
    } else if name == "append_agent_message"@ {
        Some(DbMethod::AppendAgentMessage)
    } else if name == "clear_agent_messages"@ {
        Some(DbMethod::ClearAgentMessages)
    } else if name == "agent_message_count"@ {
        Some(DbMethod::AgentMessageCount)
    } else if name == "send_notification"@ {
        Some(DbMethod::SendNotification)
    } else if name == "poll_notifications_for_session"@ {
        Some(DbMethod::PollNotificationsForSession)
    } else if name == "create_cron_task"@ {
        Some(DbMethod::CreateCronTask)
    } else if name == "create_oneshot_task"@ {
        Some(DbMethod::CreateOneshotTask)
    } else if name == "delete_task"@ {
        Some(DbMethod::DeleteTask)
    } else if name == "list_tasks"@ {
        Some(DbMethod::ListTasks)
    } else if name == "get_task"@ {
        Some(DbMethod::GetTask)
    } else if name == "set_task_enabled"@ {
        Some(DbMethod::SetTaskEnabled)
    } else if name == "get_pending_tasks"@ {
        Some(DbMethod::GetPendingTasks)
    } else if name == "mark_task_executed"@ {
        Some(DbMethod::MarkTaskExecuted)
    } else if name == "gc_agents"@ {
        Some(DbMethod::GcAgents)
    } else {
        None
    }
}

/// The parameters of a method, in the order in which they are read.
pub open spec fn signature(m: DbMethod) -> Seq<(Seq<char>, ParamKind)> {
    match m {
        DbMethod::ClaimAgent | DbMethod::ReleaseAgent => seq![
            ("name"@, ParamKind::Text),
            ("session_id"@, ParamKind::Text),
        ],
        DbMethod::HeartbeatAll
        | DbMethod::ReleaseAllAgents
        | DbMethod::PollNotificationsForSession => seq![("session_id"@, ParamKind::Text)],
        DbMethod::CreateAgent => seq![
            ("name"@, ParamKind::Text),
            ("description"@, ParamKind::Text),
        ],
        DbMethod::DeleteAgent | DbMethod::GetAgent => seq![("name"@, ParamKind::Text)],
        DbMethod::ListAgents
        | DbMethod::EnsureDefaultAgent
        | DbMethod::GetPendingTasks
        | DbMethod::GcAgents => Seq::empty(),
        DbMethod::SetAgentData => seq![
            ("agent"@, ParamKind::Text),
            ("key"@, ParamKind::Text),
            ("value"@, ParamKind::Text),
        ],
        DbMethod::GetAgentData | DbMethod::DeleteAgentData => seq![
            ("agent"@, ParamKind::Text),
            ("key"@, ParamKind::Text),
        ],
        DbMethod::ListAgentData => seq![("agent"@, ParamKind::Text)],
        DbMethod::GetAgentConfig
        | DbMethod::LoadAgentMessages
        | DbMethod::ClearAgentMessages
        | DbMethod::AgentMessageCount => seq![("agent_name"@, ParamKind::Text)],
        DbMethod::SaveAgentMessages => seq![
            ("messages"@, ParamKind::List),
            ("agent_name"@, ParamKind::Text),
        ],
        DbMethod::AppendAgentMessage => seq![
            ("message"@, ParamKind::Any),
            ("agent_name"@, ParamKind::Text),
        ],
        DbMethod::SendNotification => seq![
            ("from_agent"@, ParamKind::Text),
            ("to_agent"@, ParamKind::Text),
            ("message"@, ParamKind::Text),
        ],
        DbMethod::CreateCronTask => seq![
            ("name"@, ParamKind::Text),
            ("description"@, ParamKind::Text),
            ("cron_expression"@, ParamKind::Text),
            ("command"@, ParamKind::Text),
            ("agent_name"@, ParamKind::OptText),
            ("max_runs"@, ParamKind::OptNumber),
        ],
        DbMethod::CreateOneshotTask => seq![
            ("name"@, ParamKind::Text),
            ("description"@, ParamKind::Text),
            ("run_at"@, ParamKind::Text),
            ("command"@, ParamKind::Text),
            ("agent_name"@, ParamKind::OptText),
        ],
        DbMethod::DeleteTask | DbMethod::GetTask => seq![("task_id"@, ParamKind::Number)],
        DbMethod::ListTasks => seq![("agent_name"@, ParamKind::OptText)],
        DbMethod::SetTaskEnabled => seq![
            ("enabled"@, ParamKind::Flag),
            ("task_id"@, ParamKind::Number),
        ],
        DbMethod::MarkTaskExecuted => seq![
            ("task_id"@, ParamKind::Number),
            ("task_type"@, ParamKind::Text),
            ("cron_expression"@, ParamKind::OptText),
            ("max_runs"@, ParamKind::OptNumber),
        ],
    }
}

/// The name of a method.
pub fn name_of_method(m: DbMethod) -> (r: &'static str)
    ensures
        r@ == method_name(m),
{
    match m {
        DbMethod::ClaimAgent => "claim_agent",
        DbMethod::HeartbeatAll => "heartbeat_all",
        DbMethod::ReleaseAgent => "release_agent",
        DbMethod::ReleaseAllAgents => "release_all_agents",
        DbMethod::CreateAgent => "create_agent",
        DbMethod::DeleteAgent => "delete_agent",
        DbMethod::ListAgents => "list_agents",
        DbMethod::GetAgent => "get_agent",
        DbMethod::EnsureDefaultAgent => "ensure_default_agent",
        DbMethod::SetAgentData => "set_agent_data",
        DbMethod::GetAgentData => "get_agent_data",
        DbMethod::DeleteAgentData => "delete_agent_data",
        DbMethod::ListAgentData => "list_agent_data",
        DbMethod::GetAgentConfig => "get_agent_config",
        DbMethod::SaveAgentMessages => "save_agent_messages",
        DbMethod::LoadAgentMessages => "load_agent_messages",
        DbMethod::AppendAgentMessage => "append_agent_message",
        DbMethod::ClearAgentMessages => "clear_agent_messages",
        DbMethod::AgentMessageCount => "agent_message_count",
        DbMethod::SendNotification => "send_notification",
        DbMethod::PollNotificationsForSession => "poll_notifications_for_session",
        DbMethod::CreateCronTask => "create_cron_task",
        DbMethod::CreateOneshotTask => "create_oneshot_task",
        DbMethod::DeleteTask => "delete_task",
        DbMethod::ListTasks => "list_tasks",
        DbMethod::GetTask => "get_task",
        DbMethod::SetTaskEnabled => "set_task_enabled",
        DbMethod::GetPendingTasks => "get_pending_tasks",
        DbMethod::MarkTaskExecuted => "mark_task_executed",
        DbMethod::GcAgents => "gc_agents",
    }
}

/// The method with a name.
pub fn find_method(name: &str) -> (r: Option<DbMethod>)
    ensures
        r == method_of(name@),
{
    if same(name, "claim_agent") {
        Some(DbMethod::ClaimAgent)
    } else if same(name, "heartbeat_all") {
        Some(DbMethod::HeartbeatAll)
    } else if same(name, "release_agent") {
        Some(DbMethod::ReleaseAgent)
    } else if same(name, "release_all_agents") {
        Some(DbMethod::ReleaseAllAgents)
    } else if same(name, "create_agent") {
        Some(DbMethod::CreateAgent)
    } else if same(name, "delete_agent") {
        Some(DbMethod::DeleteAgent)
    } else if same(name, "list_agents") {
        Some(DbMethod::ListAgents)
    } else if same(name, "get_agent") {
        Some(DbMethod::GetAgent)
    } else if same(name, "ensure_default_agent") {
        Some(DbMethod::EnsureDefaultAgent)
    } else if same(name, "set_agent_data") {
        Some(DbMethod::SetAgentData)
    } else if same(name, "get_agent_data") {
        Some(DbMethod::GetAgentData)
    } else if same(name, "delete_agent_data") {
        Some(DbMethod::DeleteAgentData)
    } else if same(name, "list_agent_data") {
        Some(DbMethod::ListAgentData)
    } else if same(name, "get_agent_config") {
        Some(DbMethod::GetAgentConfig)
    } else if same(name, "save_agent_messages") {
        Some(DbMethod::SaveAgentMessages)
    } else if same(name, "load_agent_messages") {
        Some(DbMethod::LoadAgentMessages)
    } else if same(name, "append_agent_message") {
        Some(DbMethod::AppendAgentMessage)
    } else if same(name, "clear_agent_messages") {
        Some(DbMethod::ClearAgentMessages)
    } else if same(name, "agent_message_count") {
        Some(DbMethod::AgentMessageCount)
    } else if same(name, "send_notification") {
        Some(DbMethod::SendNotification)
    } else if same(name, "poll_notifications_for_session") {
        Some(DbMethod::PollNotificationsForSession)
    } else if same(name, "create_cron_task") {
        Some(DbMethod::CreateCronTask)
    } else if same(name, "create_oneshot_task") {
        Some(DbMethod::CreateOneshotTask)
    } else if same(name, "delete_task") {
        Some(DbMethod::DeleteTask)
    } else if same(name, "list_tasks") {
        Some(DbMethod::ListTasks)
    } else if same(name, "get_task") {
        Some(DbMethod::GetTask)
    } else if same(name, "set_task_enabled") {
        Some(DbMethod::SetTaskEnabled)
    } else if same(name, "get_pending_tasks") {
        Some(DbMethod::GetPendingTasks)
    } else if same(name, "mark_task_executed") {
        Some(DbMethod::MarkTaskExecuted)
    } else if same(name, "gc_agents") {
        Some(DbMethod::GcAgents)
    } else {
        None
    }
}

/// A parameter of a method.
pub struct Param {
    pub key: &'static str,
    pub kind: ParamKind,
}

/// What a list of parameters holds.
pub open spec fn param_views(v: Seq<Param>) -> Seq<(Seq<char>, ParamKind)> {
    Seq::new(v.len(), |i: int| (v[i].key@, v[i].kind))
}

fn param(key: &'static str, kind: ParamKind) -> (r: Param)
    ensures
        r.key == key,
        r.kind == kind,
{
    Param { key, kind }
}

/// The parameters of a method.
pub fn params_of_method(m: DbMethod) -> (r: Vec<Param>)
    ensures
        param_views(r@) == signature(m),
{
    let r: Vec<Param> = match m {
        DbMethod::ClaimAgent | DbMethod::ReleaseAgent => vec![
            param("name", ParamKind::Text),
            param("session_id", ParamKind::Text),
        ],
        DbMethod::HeartbeatAll
        | DbMethod::ReleaseAllAgents
        | DbMethod::PollNotificationsForSession => vec![param("session_id", ParamKind::Text)],
        DbMethod::CreateAgent => vec![
            param("name", ParamKind::Text),
            param("description", ParamKind::Text),
        ],
        DbMethod::DeleteAgent | DbMethod::GetAgent => vec![param("name", ParamKind::Text)],
        DbMethod::ListAgents
        | DbMethod::EnsureDefaultAgent
        | DbMethod::GetPendingTasks
        | DbMethod::GcAgents => Vec::new(),
        DbMethod::SetAgentData => vec![
            param("agent", ParamKind::Text),
            param("key", ParamKind::Text),
            param("value", ParamKind::Text),
        ],
        DbMethod::GetAgentData | DbMethod::DeleteAgentData => vec![
            param("agent", ParamKind::Text),
            param("key", ParamKind::Text),
        ],
        DbMethod::ListAgentData => vec![param("agent", ParamKind::Text)],
        DbMethod::GetAgentConfig
        | DbMethod::LoadAgentMessages
        | DbMethod::ClearAgentMessages
        | DbMethod::AgentMessageCount => vec![param("agent_name", ParamKind::Text)],
        DbMethod::SaveAgentMessages => vec![
            param("messages", ParamKind::List),
            param("agent_name", ParamKind::Text),
        ],
        DbMethod::AppendAgentMessage => vec![
            param("message", ParamKind::Any),
            param("agent_name", ParamKind::Text),
        ],
        DbMethod::SendNotification => vec![
            param("from_agent", ParamKind::Text),
            param("to_agent", ParamKind::Text),
            param("message", ParamKind::Text),
        ],
        DbMethod::CreateCronTask => vec![
            param("name", ParamKind::Text),
            param("description", ParamKind::Text),
            param("cron_expression", ParamKind::Text),
            param("command", ParamKind::Text),
            param("agent_name", ParamKind::OptText),
            param("max_runs", ParamKind::OptNumber),
        ],
        DbMethod::CreateOneshotTask => vec![
            param("name", ParamKind::Text),
            param("description", ParamKind::Text),
            param("run_at", ParamKind::Text),
            param("command", ParamKind::Text),
            param("agent_name", ParamKind::OptText),
        ],
        DbMethod::DeleteTask | DbMethod::GetTask => vec![param("task_id", ParamKind::Number)],
        DbMethod::ListTasks => vec![param("agent_name", ParamKind::OptText)],
        DbMethod::SetTaskEnabled => vec![
            param("enabled", ParamKind::Flag),
            param("task_id", ParamKind::Number),
        ],
        DbMethod::MarkTaskExecuted => vec![
            param("task_id", ParamKind::Number),
            param("task_type", ParamKind::Text),
            param("cron_expression", ParamKind::OptText),
            param("max_runs", ParamKind::OptNumber),
        ],
    };
    assert(param_views(r@) =~= signature(m));
    r
}

/// No parameter of a method has the name of another one.
pub proof fn parameters_differ(m: DbMethod, i: int, j: int)
    requires
        0 <= i < j < signature(m).len(),
    ensures
        signature(m)[i].0 != signature(m)[j].0,
{
    reveal_strlit("agent");
    reveal_strlit("agent_name");
    reveal_strlit("command");
    reveal_strlit("cron_expression");
    reveal_strlit("description");
    reveal_strlit("enabled");
    reveal_strlit("from_agent");
    reveal_strlit("key");
    reveal_strlit("max_runs");
    reveal_strlit("message");
    reveal_strlit("messages");
    reveal_strlit("name");
    reveal_strlit("run_at");
    reveal_strlit("session_id");
    reveal_strlit("task_id");
    reveal_strlit("task_type");
    reveal_strlit("to_agent");
    reveal_strlit("value");
    assert("agent"@.len() == 5
        && "agent_name"@.len() == 10
        && "command"@.len() == 7
        && "cron_expression"@.len() == 15
        && "description"@.len() == 11
        && "enabled"@.len() == 7
        && "from_agent"@.len() == 10
        && "key"@.len() == 3
        && "max_runs"@.len() == 8
        && "message"@.len() == 7
        && "messages"@.len() == 8
        && "name"@.len() == 4
        && "run_at"@.len() == 6
        && "session_id"@.len() == 10
        && "task_id"@.len() == 7
        && "task_type"@.len() == 9
        && "to_agent"@.len() == 8
        && "value"@.len() == 5);
    assert("agent"@[0] == 'a' && "value"@[0] == 'v');
    assert("agent_name"@[0] == 'a' && "session_id"@[0] == 's');
    assert("enabled"@[0] == 'e' && "task_id"@[0] == 't');
}

// ---------------------------------------------------------------------------
// Arguments
// ---------------------------------------------------------------------------

/// The value of a parameter.
#[derive(Debug, PartialEq, Eq)]
pub enum Arg {
    Text(String),
    OptText(Option<String>),
    Number(i64),
    OptNumber(Option<i64>),
    Flag(bool),
    /// A JSON value, as text.
    Json(String),
}

/// What the value of a parameter holds.
pub ghost enum Given {
    Text(Seq<char>),
    OptText(Option<Seq<char>>),
    Number(int),
    OptNumber(Option<int>),
    Flag(bool),
    Json(Seq<char>),
}

impl View for Arg {
    type V = Given;

    open spec fn view(&self) -> Given {
        match self {
            Arg::Text(t) => Given::Text(t@),
            Arg::OptText(t) => Given::OptText(json::opt_view(*t)),
            Arg::Number(n) => Given::Number(*n as int),
            Arg::OptNumber(n) => Given::OptNumber(
                match n {
                    Some(k) => Some(*k as int),
                    None => None,
                },
            ),
            Arg::Flag(b) => Given::Flag(*b),
            Arg::Json(t) => Given::Json(t@),
        }
    }
}

/// What a list of arguments holds.
pub open spec fn arg_views(v: Seq<Arg>) -> Seq<Given> {
    Seq::new(v.len(), |i: int| v[i]@)
}

/// The whole number that is read.
pub open spec fn number_in(m: Member) -> Option<int> {
    match m {
        Member::Other(t) => numbers::read_signed(t),
        _ => None,
    }
}

/// The text that is read.
pub open spec fn text_in(m: Member) -> Option<Seq<char>> {
    match m {
        Member::Text(t) => Some(t),
        _ => None,
    }
}

/// The value of a parameter that is read, or nothing where it is missing or of another kind.
pub open spec fn arg_in(kind: ParamKind, m: Member) -> Option<Given> {
    match kind {
        ParamKind::Text => match text_in(m) {
            Some(t) => Some(Given::Text(t)),
            None => None,
        },
        ParamKind::OptText => Some(Given::OptText(text_in(m))),
        ParamKind::Number => match number_in(m) {
            Some(n) => Some(Given::Number(n)),
            None => None,
        },
        ParamKind::OptNumber => Some(Given::OptNumber(number_in(m))),
        ParamKind::Flag => if m == Member::Other("true"@) {
            Some(Given::Flag(true))
        } else if m == Member::Other("false"@) {
            Some(Given::Flag(false))
        } else {
            None
        },
        ParamKind::List => match m {
            Member::Other(t) => if text::begins(t, "["@) {
                Some(Given::Json(t))
            } else {
                None
            },
            _ => None,
        },
        ParamKind::Any => match m {
            Member::Text(t) => Some(Given::Text(t)),
            Member::Other(t) => if t == "null"@ {
                None
            } else {
                Some(Given::Json(t))
            },
            _ => None,
        },
    }
}

/// The error for a parameter that is missing or of another kind.
pub open spec fn missing_error(key: Seq<char>) -> Seq<char> {
    "missing param '"@ + key + "'"@
}

/// The first `k` arguments that are read from a JSON object.
pub open spec fn args_in(params: Seq<char>, sig: Seq<(Seq<char>, ParamKind)>, k: int) -> Result<
    Seq<Given>,
    Seq<char>,
>
    decreases k,
{
    if k <= 0 {
        Ok(Seq::empty())
    } else {
        match args_in(params, sig, k - 1) {
            Err(e) => Err(e),
            Ok(v) => match arg_in(sig[k - 1].1, json::json_member_of(params, sig[k - 1].0)) {
                Some(a) => Ok(v.push(a)),
                None => Err(missing_error(sig[k - 1].0)),
            },
        }
    }
}

/// What a request asks for: a method with its arguments, or why it cannot be carried out.
pub open spec fn request_in(method: Seq<char>, params: Seq<char>) -> Result<
    (DbMethod, Seq<Given>),
    Seq<char>,
> {
    match method_of(method) {
        Some(m) => match args_in(params, signature(m), signature(m).len() as int) {
            Ok(v) => Ok((m, v)),
            Err(e) => Err(e),
        },
        None => Err("unknown method: "@ + method),
    }
}

/// An argument of the kind of a parameter.
pub open spec fn of_kind(kind: ParamKind, a: Given) -> bool {
    match kind {
        ParamKind::Text => a is Text,
        ParamKind::OptText => a is OptText,
        ParamKind::Number => a is Number,
        ParamKind::OptNumber => a is OptNumber,
        ParamKind::Flag => a is Flag,
        ParamKind::List => a is Json,
        ParamKind::Any => a is Text || a is Json,
    }
}

/// The arguments are of the kinds of the parameters of a method.
pub open spec fn conforms(m: DbMethod, args: Seq<Given>) -> bool {
    &&& args.len() == signature(m).len()
    &&& forall|i: int| 0 <= i < args.len() ==> of_kind((#[trigger] signature(m)[i]).1, args[i])
}

fn read_number(m: &JsonMember) -> (r: Option<i64>)
    ensures
        match r {
            Some(n) => number_in(m@) == Some(n as int),
            None => number_in(m@) is None,
        },
{
    match m {
        JsonMember::Other(t) => parse_signed(t.as_str()),
        _ => None,
    }
}

/// The value of a parameter, given what a request holds for it.
pub fn read_arg(kind: ParamKind, m: JsonMember) -> (r: Option<Arg>)
    ensures
        match r {
            Some(a) => arg_in(kind, m@) == Some(a@),
            None => arg_in(kind, m@) is None,
        },
{
    match kind {
        ParamKind::Text => match m {
            JsonMember::Text(t) => Some(Arg::Text(t)),
            _ => None,
        },
        ParamKind::OptText => match m {
            JsonMember::Text(t) => Some(Arg::OptText(Some(t))),
            _ => Some(Arg::OptText(None)),
        },
        ParamKind::Number => match read_number(&m) {
            Some(n) => Some(Arg::Number(n)),
            None => None,
        },
        ParamKind::OptNumber => Some(Arg::OptNumber(read_number(&m))),
        ParamKind::Flag => match m {
            JsonMember::Other(t) => {
                if same(t.as_str(), "true") {
                    Some(Arg::Flag(true))
                } else if same(t.as_str(), "false") {
                    Some(Arg::Flag(false))
                } else {
                    None
                }
            },
            _ => None,
        },
        ParamKind::List => match m {
            JsonMember::Other(t) => {
                if str_starts_with(t.as_str(), "[") {
                    Some(Arg::Json(t))
                } else {
                    None
                }
            },
            _ => None,
        },
        ParamKind::Any => match m {
            JsonMember::Text(t) => Some(Arg::Text(t)),
            JsonMember::Other(t) => {
                if same(t.as_str(), "null") {
                    None
                } else {
                    Some(Arg::Json(t))
                }
            },
            _ => None,
        },
    }
}

proof fn args_fail(params: Seq<char>, sig: Seq<(Seq<char>, ParamKind)>, k: int, n: int)
    requires
        0 <= k <= n,
        args_in(params, sig, k) is Err,
    ensures
        args_in(params, sig, n) == args_in(params, sig, k),
    decreases n - k,
{
    if k < n {
        args_fail(params, sig, k, n - 1);
    }
}

/// A method and its arguments.
#[derive(Debug, PartialEq, Eq)]
pub struct DbRequest {
    pub method: DbMethod,
    pub args: Vec<Arg>,
}

/// Reads a request: the name of a method, and its parameters as a JSON object.
pub fn read_request(method: &str, params: &str) -> (r: Result<DbRequest, String>)
    ensures
        match r {
            Ok(q) => conforms(q.method, arg_views(q.args@)) && request_in(method@, params@) == Ok::<
                (DbMethod, Seq<Given>),
                Seq<char>,
            >((q.method, arg_views(q.args@))),
            Err(e) => request_in(method@, params@) == Err::<(DbMethod, Seq<Given>), Seq<char>>(e@),
        },
{
    let m = match find_method(method) {
        Some(m) => m,
        None => {
            return Err(text2("unknown method: ", method));
        },
    };
    let sig = params_of_method(m);
    let ghost s = signature(m);
    let mut args: Vec<Arg> = Vec::new();
    let mut i: usize = 0;
    assert(arg_views(args@) =~= Seq::<Given>::empty());
    assert(param_views(sig@).len() == sig@.len());
    while i < sig.len()
        invariant
            i <= sig@.len(),
            s == signature(m),
            param_views(sig@) == s,
            sig@.len() == s.len(),
            method_of(method@) == Some(m),
            args_in(params@, s, i as int) == Ok::<Seq<Given>, Seq<char>>(arg_views(args@)),
            args@.len() == i,
            forall|j: int| 0 <= j < i ==> of_kind((#[trigger] s[j]).1, arg_views(args@)[j]),
        decreases sig@.len() - i,
    {
        let member = json_member(params, sig[i].key);
        assert(s[i as int] == (sig@[i as int].key@, sig@[i as int].kind));
        match read_arg(sig[i].kind, member) {
            Some(a) => {
                let ghost before = arg_views(args@);
                args.push(a);
                assert(arg_views(args@) =~= before.push(a@));
            },
            None => {
                let e = text3("missing param '", sig[i].key, "'");
                proof {
                    args_fail(params@, s, i + 1, s.len() as int);
                }
                return Err(e);
            },
        }
        i += 1;
    }
    Ok(DbRequest { method: m, args })
}

/// An argument that fits a parameter and is read as it was written.
pub open spec fn fits(kind: ParamKind, a: Given) -> bool {
    match kind {
        ParamKind::Text => a is Text,
        ParamKind::OptText => a is OptText,
        ParamKind::Number => a matches Given::Number(n) && i64::MIN <= n <= i64::MAX,
        ParamKind::OptNumber => a matches Given::OptNumber(n) && (n matches Some(k) ==> i64::MIN
            <= k <= i64::MAX),
        ParamKind::Flag => a is Flag,
        ParamKind::List => false,
        ParamKind::Any => a is Text,
    }
}

/// The arguments fit the parameters of a method.
pub open spec fn all_fit(m: DbMethod, args: Seq<Given>) -> bool {
    &&& args.len() == signature(m).len()
    &&& forall|i: int| 0 <= i < args.len() ==> fits((#[trigger] signature(m)[i]).1, args[i])
}

/// An argument as a value of a JSON object.
pub open spec fn datum_of(a: Given) -> Datum {
    match a {
        Given::Text(t) => Datum::Text(t),
        Given::OptText(t) => json::text_or_null(t),
        Given::Number(n) => Datum::Number(n),
        Given::OptNumber(n) => match n {
            Some(k) => Datum::Number(k),
            None => Datum::Null,
        },
        Given::Flag(b) => Datum::Flag(b),
        Given::Json(t) => Datum::Json(t),
    }
}

/// The fields of a request.
pub open spec fn request_fields(m: DbMethod, args: Seq<Given>) -> Seq<(Seq<char>, Datum)> {
    Seq::new(signature(m).len(), |i: int| (signature(m)[i].0, datum_of(args[i])))
}

fn arg_field(key: &str, a: &Arg) -> (r: JsonField)
    ensures
        r.key@ == key@,
        r.value@ == datum_of(a@),
{
    match a {
        Arg::Text(t) => text_field(key, t.as_str()),
        Arg::OptText(t) => match t {
            Some(s) => opt_field(key, Some(s.as_str())),
            None => opt_field(key, None),
        },
        Arg::Number(n) => field(key, JsonValue::Number(*n)),
        Arg::OptNumber(n) => match n {
            Some(k) => field(key, JsonValue::Number(*k)),
            None => field(key, JsonValue::Null),
        },
        Arg::Flag(b) => field(key, JsonValue::Flag(*b)),
        Arg::Json(t) => field(key, JsonValue::Json(t.clone())),
    }
}

proof fn datum_reads_back(kind: ParamKind, a: Given, m: Member)
    requires
        fits(kind, a),
        json::reads_back(datum_of(a), m),
    ensures
        arg_in(kind, m) == Some(a),
{
    reveal_strlit("true");
    reveal_strlit("false");
    reveal_strlit("null");
    assert("true"@.len() == 4 && "false"@.len() == 5 && "null"@.len() == 4);
    assert("null"@[0] == 'n' && "true"@[0] == 't');
    match a {
        Given::Number(n) => {
            numbers::signed_reads_back(n as i64);
        },
        Given::OptNumber(n) => match n {
            Some(k) => {
                numbers::signed_reads_back(k as i64);
            },
            None => {
                assert(numbers::digit_value('n', 10) is None);
                let s = "null"@;
                assert(s.drop_last().drop_last().drop_last() =~= seq!['n']);
                assert(seq!['n'].drop_last() =~= Seq::<char>::empty());
                reveal_with_fuel(numbers::digits_value, 5);
                assert(numbers::digits_value(s, 10) is None);
            },
        },
        _ => {},
    }
}

proof fn request_reads_back(m: DbMethod, args: Seq<Given>, params: Seq<char>, k: int)
    requires
        all_fit(m, args),
        json::object_reads_back(request_fields(m, args), params),
        0 <= k <= args.len(),
    ensures
        args_in(params, signature(m), k) == Ok::<Seq<Given>, Seq<char>>(args.take(k)),
    decreases k,
{
    if k == 0 {
        assert(args.take(0) =~= Seq::<Given>::empty());
    } else {
        request_reads_back(m, args, params, k - 1);
        let f = request_fields(m, args);
        assert(f[k - 1] == (signature(m)[k - 1].0, datum_of(args[k - 1])));
        assert(json::reads_back(f[k - 1].1, json::json_member_of(params, f[k - 1].0)));
        assert(fits(signature(m)[k - 1].1, args[k - 1]));
        datum_reads_back(
            signature(m)[k - 1].1,
            args[k - 1],
            json::json_member_of(params, signature(m)[k - 1].0),
        );
        assert(args.take(k) =~= args.take(k - 1).push(args[k - 1]));
    }
}

/// A method is found by its name.
pub proof fn methods_are_found(m: DbMethod)
    ensures
        method_of(method_name(m)) == Some(m),
{
    reveal_strlit("claim_agent");
    reveal_strlit("heartbeat_all");
    reveal_strlit("release_agent");
    reveal_strlit("release_all_agents");
    reveal_strlit("create_agent");
    reveal_strlit("delete_agent");
    reveal_strlit("list_agents");
    reveal_strlit("get_agent");
    reveal_strlit("ensure_default_agent");
    reveal_strlit("set_agent_data");
    reveal_strlit("get_agent_data");
    reveal_strlit("delete_agent_data");
    reveal_strlit("list_agent_data");
    reveal_strlit("get_agent_config");
    reveal_strlit("save_agent_messages");
    reveal_strlit("load_agent_messages");
    reveal_strlit("append_agent_message");
    reveal_strlit("clear_agent_messages");
    reveal_strlit("agent_message_count");
    reveal_strlit("send_notification");
    reveal_strlit("poll_notifications_for_session");
    reveal_strlit("create_cron_task");
    reveal_strlit("create_oneshot_task");
    reveal_strlit("delete_task");
    reveal_strlit("list_tasks");
    reveal_strlit("get_task");
    reveal_strlit("set_task_enabled");
    reveal_strlit("get_pending_tasks");
    reveal_strlit("mark_task_executed");
    reveal_strlit("gc_agents");
    assert("claim_agent"@.len() == 11
        && "heartbeat_all"@.len() == 13
        && "release_agent"@.len() == 13
        && "release_all_agents"@.len() == 18
        && "create_agent"@.len() == 12
        && "delete_agent"@.len() == 12
        && "list_agents"@.len() == 11
        && "get_agent"@.len() == 9
        && "ensure_default_agent"@.len() == 20
        && "set_agent_data"@.len() == 14
        && "get_agent_data"@.len() == 14
        && "delete_agent_data"@.len() == 17
        && "list_agent_data"@.len() == 15
        && "get_agent_config"@.len() == 16
        && "save_agent_messages"@.len() == 19
        && "load_agent_messages"@.len() == 19
        && "append_agent_message"@.len() == 20
        && "clear_agent_messages"@.len() == 20
        && "agent_message_count"@.len() == 19
        && "send_notification"@.len() == 17
        && "poll_notifications_for_session"@.len() == 30
        && "create_cron_task"@.len() == 16
        && "create_oneshot_task"@.len() == 19
        && "delete_task"@.len() == 11
        && "list_tasks"@.len() == 10
        && "get_task"@.len() == 8
        && "set_task_enabled"@.len() == 16
        && "get_pending_tasks"@.len() == 17
        && "mark_task_executed"@.len() == 18
        && "gc_agents"@.len() == 9);
    assert("agent_message_count"@[0] == 'a'
        && "append_agent_message"@[0] == 'a'
        && "claim_agent"@[0] == 'c'
        && "clear_agent_messages"@[0] == 'c'
        && "create_agent"@[0] == 'c'
        && "create_cron_task"@[0] == 'c'
        && "create_oneshot_task"@[0] == 'c'
        && "delete_agent"@[0] == 'd'
        && "delete_agent_data"@[0] == 'd'
        && "delete_task"@[0] == 'd'
        && "ensure_default_agent"@[0] == 'e'
        && "gc_agents"@[1] == 'c'
        && "get_agent"@[1] == 'e'
        && "get_agent_config"@[0] == 'g'
        && "get_agent_data"@[0] == 'g'
        && "get_pending_tasks"@[0] == 'g'
        && "heartbeat_all"@[0] == 'h'
        && "list_agents"@[0] == 'l'
        && "load_agent_messages"@[0] == 'l'
        && "mark_task_executed"@[0] == 'm'
        && "release_agent"@[0] == 'r'
        && "release_all_agents"@[0] == 'r'
        && "save_agent_messages"@[0] == 's'
        && "send_notification"@[0] == 's'
        && "set_agent_data"@[0] == 's'
        && "set_task_enabled"@[0] == 's');
}

/// The parameters of a request as a JSON object. Where the arguments fit the method, reading the
/// request gives back the method and the arguments.
pub fn write_request(q: &DbRequest) -> (r: String)
    requires
        q.args@.len() == signature(q.method).len(),
    ensures
        r@ == json::json_object_of(request_fields(q.method, arg_views(q.args@))),
        all_fit(q.method, arg_views(q.args@)) ==> request_in(method_name(q.method), r@) == Ok::<
            (DbMethod, Seq<Given>),
            Seq<char>,
        >((q.method, arg_views(q.args@))),
{
    let sig = params_of_method(q.method);
    let ghost s = signature(q.method);
    let ghost args = arg_views(q.args@);
    let ghost all = request_fields(q.method, args);
    let mut fields: Vec<JsonField> = Vec::new();
    let mut i: usize = 0;
    assert(json::field_views(fields@) =~= all.take(0));
    assert(param_views(sig@).len() == sig@.len());
    while i < sig.len()
        invariant
            i <= sig@.len(),
            s == signature(q.method),
            args == arg_views(q.args@),
            all == request_fields(q.method, args),
            param_views(sig@) == s,
            sig@.len() == s.len(),
            q.args@.len() == s.len(),
            json::field_views(fields@) == all.take(i as int),
        decreases sig@.len() - i,
    {
        assert(s[i as int] == (sig@[i as int].key@, sig@[i as int].kind));
        assert(args[i as int] == q.args@[i as int]@);
        let f = arg_field(sig[i].key, &q.args[i]);
        let ghost before = json::field_views(fields@);
        fields.push(f);
        assert(json::field_views(fields@) =~= before.push((f.key@, f.value@)));
        assert(all.take(i + 1) =~= all.take(i as int).push(all[i as int]));
        i += 1;
    }
    assert(all.take(s.len() as int) =~= all);
    let r = json_object(fields.as_slice());
    proof {
        assert forall|a: int, b: int| 0 <= a < b < all.len() implies (#[trigger] all[a]).0 != (
        #[trigger] all[b]).0 by {
            parameters_differ(q.method, a, b);
        }
        methods_are_found(q.method);
        if all_fit(q.method, args) {
            request_reads_back(q.method, args, r@, s.len() as int);
            assert(args.take(s.len() as int) =~= args);
        }
    }
    r
}

// ---------------------------------------------------------------------------
// The server
// ---------------------------------------------------------------------------

/// The state of a connection: the key that is asked for, and whether the client gave it.
pub struct ServerState {
    pub auth_key: Option<String>,
    pub authenticated: bool,
}

/// What a server does with a request.
#[derive(Debug, PartialEq, Eq)]
pub enum ServerAction {
    /// The client is told that its key is right.
    Accept,
    /// The client is told an error, and the connection ends.
    Close(String),
    /// The client is told an error.
    Refuse(String),
    /// The request is carried out.
    Run(DbRequest),
}

/// What a server does with a request.
pub ghost enum Verdict {
    Accept,
    Close(Seq<char>),
    Refuse(Seq<char>),
    Run(DbMethod, Seq<Given>),
}

impl View for ServerAction {
    type V = Verdict;

    open spec fn view(&self) -> Verdict {
        match self {
            ServerAction::Accept => Verdict::Accept,
            ServerAction::Close(e) => Verdict::Close(e@),
            ServerAction::Refuse(e) => Verdict::Refuse(e@),
            ServerAction::Run(q) => Verdict::Run(q.method, arg_views(q.args@)),
        }
    }
}

/// The text that is there, or else an empty one.
pub open spec fn text_or_empty(t: Option<Seq<char>>) -> Seq<char> {
    match t {
        Some(s) => s,
        None => ""@,
    }
}

/// What a server does with a request. Until the client gives the key, no request is carried out.
pub open spec fn verdict(
    key: Option<Seq<char>>,
    authenticated: bool,
    method: Seq<char>,
    params: Seq<char>,
) -> Verdict {
    if authenticated {
        match request_in(method, params) {
            Ok((m, args)) => Verdict::Run(m, args),
            Err(e) => Verdict::Refuse(e),
        }
    } else if method == "auth"@ {
        if text_or_empty(text_in(json::json_member_of(params, "key"@))) == text_or_empty(key) {
            Verdict::Accept
        } else {
            Verdict::Close("unauthorized"@)
        }
    } else {
        Verdict::Close("auth required"@)
    }
}

impl ServerState {
    /// A new connection. Where no key is asked for, every client is welcome.
    pub fn new(auth_key: Option<String>) -> (r: Self)
        ensures
            r.auth_key == auth_key,
            r.authenticated == (auth_key is None),
    {
        let authenticated = auth_key.is_none();
        ServerState { auth_key, authenticated }
    }

    /// Whether a line holds no request.
    pub fn is_blank(line: &str) -> (r: bool)
        ensures
            r == (words::trimmed(line@).len() == 0),
    {
        trim_text(line).as_str().is_empty()
    }

    /// The error for a line that is no request.
    pub fn invalid_request(error: &str) -> (r: String)
        ensures
            r@ == "invalid request: "@ + error@,
    {
        text2("invalid request: ", error)
    }

    /// Takes a request.
    pub fn take(&mut self, method: &str, params: &str) -> (r: ServerAction)
        ensures
            r@ == verdict(
                json::opt_view(old(self).auth_key),
                old(self).authenticated,
                method@,
                params@,
            ),
            r matches ServerAction::Run(q) ==> conforms(q.method, arg_views(q.args@)),
            final(self).auth_key == old(self).auth_key,
            final(self).authenticated == (old(self).authenticated || r@ is Accept),
    {
        if self.authenticated {
            return match read_request(method, params) {
                Ok(q) => ServerAction::Run(q),
                Err(e) => ServerAction::Refuse(e),
            };
        }
        if !same(method, "auth") {
            return ServerAction::Close("auth required".to_owned());
        }
        let given = match json_member(params, "key") {
            JsonMember::Text(t) => t,
            _ => "".to_owned(),
        };
        let wanted: &str = match &self.auth_key {
            Some(k) => k.as_str(),
            None => "",
        };
        if same(given.as_str(), wanted) {
            self.authenticated = true;
            ServerAction::Accept
        } else {
            ServerAction::Close("unauthorized".to_owned())
        }
    }
}

/// Until a client has given the key, none of its requests is carried out, and a wrong key ends the
/// connection.
pub proof fn strangers_are_refused(key: Seq<char>, method: Seq<char>, params: Seq<char>)
    ensures
        !(verdict(Some(key), false, method, params) is Run),
        verdict(Some(key), false, method, params) is Accept ==> method == "auth"@
            && text_or_empty(text_in(json::json_member_of(params, "key"@))) == key,
{
}

// ---------------------------------------------------------------------------
// The client
// ---------------------------------------------------------------------------

/// The result of a call as JSON text; `null` where there is none.
pub fn call_result(error: Option<String>, result: Option<String>) -> (r: Result<String, String>)
    ensures
        match r {
            Ok(t) => error is None && t@ == (match result {
                Some(v) => v@,
                None => "null"@,
            }),
            Err(e) => error == Some(e),
        },
{
    match error {
        Some(e) => Err(e),
        None => match result {
            Some(v) => Ok(v),
            None => Ok("null".to_owned()),
        },
    }
}

/// A result that is true or false; false where it is something else.
pub fn flag_result(result: &str) -> (r: bool)
    ensures
        r == (result@ == "true"@),
{
    same(result, "true")
}

/// A result that is a whole number.
pub fn number_result(result: &str) -> (r: Result<i64, String>)
    ensures
        match r {
            Ok(n) => numbers::read_signed(result@) == Some(n as int),
            Err(e) => numbers::read_signed(result@) is None && e@ == "expected integer"@,
        },
{
    match parse_signed(result) {
        Some(n) => Ok(n),
        None => Err("expected integer".to_owned()),
    }
}

/// A result that is a text or `null`.
pub fn text_result(result: &str) -> (r: Result<Option<String>, String>)
    ensures
        match r {
            Ok(t) => match t {
                None => result@ == "null"@,
                Some(s) => result@ != "null"@ && json::json_string_of(result@) == Some(s@),
            },
            Err(e) => result@ != "null"@ && json::json_string_of(result@) is None && e@
                == "expected string value"@,
        },
{
    if same(result, "null") {
        return Ok(None);
    }
    match json_string(result) {
        Some(s) => Ok(Some(s)),
        None => Err("expected string value".to_owned()),
    }
}

/// Whether the server took the key.
pub fn check_authentication(result: &str) -> (r: Result<(), String>)
    ensures
        r is Ok <==> result@ == "true"@,
        r matches Err(e) ==> e@ == "authentication failed"@,
{
    if same(result, "true") {
        Ok(())
    } else {
        Err("authentication failed".to_owned())
    }
}

/// What a parameter is read as: a text as it is, a number by its digits, a truth value by its word,
/// and a JSON value as it stands. One that may be missing is read as nothing where it does not fit;
/// any other is then refused.
pub proof fn parameters_are_read_by_kind(m: Member)
    ensures
        arg_in(ParamKind::Text, m) == (match m {
            Member::Text(t) => Some(Given::Text(t)),
            _ => None,
        }),
        arg_in(ParamKind::OptText, m) == (match m {
            Member::Text(t) => Some(Given::OptText(Some(t))),
            _ => Some(Given::OptText(None)),
        }),
        forall|n: i64|
            m == Member::Other(#[trigger] numbers::decimal_int(n as int)) ==> arg_in(
                ParamKind::Number,
                m,
            ) == Some(Given::Number(n as int)) && arg_in(ParamKind::OptNumber, m) == Some(
                Given::OptNumber(Some(n as int)),
            ),
        !(m is Other) ==> arg_in(ParamKind::Number, m) is None && arg_in(ParamKind::OptNumber, m)
            == Some(Given::OptNumber(None)) && arg_in(ParamKind::Flag, m) is None,
        m == Member::Other("true"@) ==> arg_in(ParamKind::Flag, m) == Some(Given::Flag(true)),
        m == Member::Other("false"@) ==> arg_in(ParamKind::Flag, m) == Some(Given::Flag(false)),
        arg_in(ParamKind::Flag, m) is Some ==> m == Member::Other("true"@) || m == Member::Other(
            "false"@,
        ),
        m matches Member::Other(t) ==> (t.len() > 0 && t[0] == '[' ==> arg_in(ParamKind::List, m)
            == Some(Given::Json(t))),
        arg_in(ParamKind::List, m) is Some ==> (m matches Member::Other(t) && t.len() > 0 && t[0]
            == '['),
        m matches Member::Text(t) ==> arg_in(ParamKind::Any, m) == Some(Given::Text(t)),
        m matches Member::Other(t) ==> (t != "null"@ ==> arg_in(ParamKind::Any, m) == Some(
            Given::Json(t),
        )),
{
    reveal_strlit("true");
    reveal_strlit("false");
    assert("true"@.len() == 4 && "false"@.len() == 5);
    reveal_strlit("[");
    if let Member::Other(t) = m {
        assert forall|n: i64| t == #[trigger] numbers::decimal_int(n as int) implies arg_in(
            ParamKind::Number,
            m,
        ) == Some(Given::Number(n as int)) && arg_in(ParamKind::OptNumber, m) == Some(
            Given::OptNumber(Some(n as int)),
        ) by {
            numbers::signed_reads_back(n);
        }
        if t.len() > 0 {
            assert(t.take(1) =~= seq![t[0]]);
            assert("["@ =~= seq!['[']);
            if t.take(1) == "["@ {
                assert(t.take(1)[0] == '[');
            }
        }
    }
}

/// A request is read where its method is known and each of its parameters fits: one value for each
/// parameter, in order, by its kind and from the member of its name. The error names the first
/// parameter that does not.
pub proof fn requests_are_read_whole(m: DbMethod, params: Seq<char>, i: int)
    requires
        0 <= i < signature(m).len(),
    ensures
        ({
            let r = request_in(method_name(m), params);
            let own = arg_in(signature(m)[i].1, json::json_member_of(params, signature(m)[i].0));
            &&& r matches Ok((n, v)) ==> n == m && v.len() == signature(m).len() && own == Some(v[i])
            &&& (own is None && forall|j: int|
                0 <= j < i ==> arg_in(
                    (#[trigger] signature(m)[j]).1,
                    json::json_member_of(params, signature(m)[j].0),
                ) is Some) ==> r == Err::<(DbMethod, Seq<Given>), Seq<char>>(
                "missing param '"@ + signature(m)[i].0 + "'"@,
            )
        }),
{
    methods_are_found(m);
    let sig = signature(m);
    read_so_far(params, sig, sig.len() as int, i);
}

proof fn read_so_far(params: Seq<char>, sig: Seq<(Seq<char>, ParamKind)>, k: int, i: int)
    requires
        0 <= i < sig.len(),
        0 <= k <= sig.len(),
    ensures
        ({
            let own = arg_in(sig[i].1, json::json_member_of(params, sig[i].0));
            let r = args_in(params, sig, k);
            &&& r matches Ok(v) ==> v.len() == k && (i < k ==> own == Some(v[i]))
            &&& (own is None && forall|j: int|
                0 <= j < i ==> arg_in(
                    (#[trigger] sig[j]).1,
                    json::json_member_of(params, sig[j].0),
                ) is Some) ==> if i < k {
                r == Err::<Seq<Given>, Seq<char>>("missing param '"@ + sig[i].0 + "'"@)
            } else {
                r is Ok
            }
        }),
    decreases k,
{
    if k > 0 {
        read_so_far(params, sig, k - 1, i);
    }
}

/// The right key opens the connection, and then every request that can be read is carried out. A
/// server without a key takes a client that gives none.
pub proof fn clients_with_the_key_are_served(
    key: Seq<char>,
    method: Seq<char>,
    params: Seq<char>,
    wanted: Option<Seq<char>>,
)
    ensures
        json::json_member_of(params, "key"@) == Member::Text(key) ==> verdict(
            Some(key),
            false,
            "auth"@,
            params,
        ) == Verdict::Accept,
        json::json_member_of(params, "key"@) is Missing ==> verdict(None, false, "auth"@, params)
            == Verdict::Accept,
        method != "auth"@ ==> verdict(wanted, false, method, params) is Close,
        request_in(method, params) matches Ok((m, args)) ==> verdict(wanted, true, method, params)
            == Verdict::Run(m, args),
        request_in(method, params) matches Err(e) ==> verdict(wanted, true, method, params)
            == Verdict::Refuse(e),
{
}

} // verus!
