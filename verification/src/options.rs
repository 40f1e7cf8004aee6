//! Options of the program, from the command line and the configuration file.

use vstd::prelude::*;
use crate::json;
use crate::mcp;
use crate::mcp::{add_servers, McpServerEntry};
use crate::messages;
use crate::messages::{copy_opt, make_message, Message, Msg};
use crate::table::Table;
use crate::text;
use crate::text::{ends_with, from_chars, piece, replace_all, same, to_chars};
use crate::tools;
use crate::tools::{initialize_tools, ToolsCollection};
use crate::words;
use crate::words::{index_of, text_lines, trim};

verus! {

/// The endpoint where none is given.
pub const DEFAULT_ENDPOINT: &'static str = "http://localhost:8080";

/// The model where none is given.
pub const DEFAULT_MODEL: &'static str = "google/gemini-2.5-pro";

/// The options that the command line and the configuration file share.
pub struct Opts {
    pub max_tokens: Option<u32>,
    pub model: Option<String>,
    pub endpoint: Option<String>,
    pub no_tools: bool,
    pub unsafe_tools: bool,
    pub tools: Vec<String>,
    pub tool_choice: Option<String>,
    pub api_key: Option<String>,
    pub parameter: Vec<String>,
    pub db_path: Option<String>,
    pub agent: Option<String>,
    pub server: Option<String>,
    pub server_key: Option<String>,
    pub server_key_file: Option<String>,
    pub mcp_servers: Vec<McpServerEntry>,
}

/// `a` where it is given, else `b`.
pub open spec fn or_else<T>(a: Option<T>, b: Option<T>) -> Option<T> {
    match a {
        Some(x) => Some(x),
        None => b,
    }
}

fn fill<T>(slot: &mut Option<T>, other: Option<T>)
    ensures
        *final(slot) == or_else(*old(slot), other),
{
    if slot.is_none() {
        *slot = other;
    }
}

impl Opts {
    /// Fills in from the configuration file what the command line does not give. Switches of either
    /// count; parameters of the file come before those of the command line. Servers of the command
    /// line join those of the file, and take the place of those with the same name.
    pub fn merge_with_config(&mut self, config: Opts)
        ensures
            final(self).max_tokens == or_else(old(self).max_tokens, config.max_tokens),
            final(self).model == or_else(old(self).model, config.model),
            final(self).endpoint == or_else(old(self).endpoint, config.endpoint),
            final(self).no_tools == (old(self).no_tools || config.no_tools),
            final(self).unsafe_tools == (old(self).unsafe_tools || config.unsafe_tools),
            final(self).tools == old(self).tools,
            final(self).tool_choice == or_else(old(self).tool_choice, config.tool_choice),
            final(self).api_key == or_else(old(self).api_key, config.api_key),
            final(self).parameter@ == config.parameter@ + old(self).parameter@,
            final(self).db_path == or_else(old(self).db_path, config.db_path),
            final(self).agent == old(self).agent,
            final(self).server == or_else(old(self).server, config.server),
            final(self).server_key == or_else(old(self).server_key, config.server_key),
            final(self).server_key_file == or_else(
                old(self).server_key_file,
                config.server_key_file,
            ),
            final(self).mcp_servers@ == mcp::with_servers(
                config.mcp_servers@,
                old(self).mcp_servers@,
                old(self).mcp_servers@.len() as int,
            ),
    {
        fill(&mut self.max_tokens, config.max_tokens);
        fill(&mut self.model, config.model);
        fill(&mut self.endpoint, config.endpoint);
        self.no_tools = self.no_tools || config.no_tools;
        self.unsafe_tools = self.unsafe_tools || config.unsafe_tools;
        fill(&mut self.tool_choice, config.tool_choice);
        fill(&mut self.api_key, config.api_key);
        let mut merged = config.parameter;
        merged.append(&mut self.parameter);
        self.parameter = merged;
        fill(&mut self.db_path, config.db_path);
        fill(&mut self.server, config.server);
        fill(&mut self.server_key, config.server_key);
        fill(&mut self.server_key_file, config.server_key_file);
        let mut servers = config.mcp_servers;
        let mut own: Vec<McpServerEntry> = Vec::new();
        own.append(&mut self.mcp_servers);
        assert(own@ =~= old(self).mcp_servers@);
        add_servers(&mut servers, own);
        self.mcp_servers = servers;
    }

    /// Leaves the choice of the model to an endpoint that was given without one.
    pub fn reset_model(&mut self)
        ensures
            opt_str(final(self).model) == (if old(self).model is None && old(self).endpoint is Some {
                Some(""@)
            } else {
                opt_str(old(self).model)
            }),
            final(self).endpoint == old(self).endpoint,
            final(self).max_tokens == old(self).max_tokens,
            final(self).no_tools == old(self).no_tools,
            final(self).unsafe_tools == old(self).unsafe_tools,
            final(self).tools == old(self).tools,
            final(self).tool_choice == old(self).tool_choice,
            final(self).api_key == old(self).api_key,
            final(self).parameter == old(self).parameter,
            final(self).db_path == old(self).db_path,
            final(self).agent == old(self).agent,
            final(self).server == old(self).server,
            final(self).server_key == old(self).server_key,
            final(self).server_key_file == old(self).server_key_file,
            final(self).mcp_servers == old(self).mcp_servers,
    {
        if self.model.is_none() && self.endpoint.is_some() {
            self.model = Some("".to_owned());
        }
    }
}

/// The view of an optional text.
pub open spec fn opt_str(t: Option<String>) -> Option<Seq<char>> {
    json::opt_view(t)
}

/// The key given directly, or else the first line of the key file.
pub open spec fn chosen_key(key: Option<Seq<char>>, file: Option<Seq<char>>) -> Option<Seq<char>> {
    match key {
        Some(k) => Some(k),
        None => match file {
            Some(content) => Some(
                if words::lines(content).len() > 0 {
                    words::lines(content)[0]
                } else {
                    ""@
                },
            ),
            None => None,
        },
    }
}

/// The server key: the one given directly, or else the first line of the key file.
pub fn choose_key(key: &Option<String>, file_content: &Option<String>) -> (r: Option<String>)
    ensures
        opt_str(r) == chosen_key(opt_str(*key), opt_str(*file_content)),
{
    match key {
        Some(k) => Some(k.clone()),
        None => match file_content {
            Some(content) => {
                let lines = text_lines(content.as_str());
                assert(words::views(lines@).len() == lines@.len());
                if lines.len() > 0 {
                    assert(words::views(lines@)[0] == lines@[0]@);
                    Some(lines[0].clone())
                } else {
                    Some("".to_owned())
                }
            },
            None => None,
        },
    }
}

// ---------------------------------------------------------------------------
// Model parameters
// ---------------------------------------------------------------------------

/// How a parameter value reads as a floating-point number.
#[derive(Clone, Copy, PartialEq, Eq, Structural, Debug)]
pub enum NumberReading {
    /// It is no number.
    NotANumber,
    /// It is a finite number.
    Finite,
    /// It is an infinity or a NaN.
    NotFinite,
}

/// The value of a model parameter.
#[derive(Debug, PartialEq, Eq)]
pub enum ParamValue {
    /// A number, as it was written.
    Number(String),
    Bool(bool),
    Null,
    Text(String),
}

/// What a parameter value holds.
pub ghost enum Param {
    Number(Seq<char>),
    Bool(bool),
    Null,
    Text(Seq<char>),
}

impl View for ParamValue {
    type V = Param;

    open spec fn view(&self) -> Param {
        match self {
            ParamValue::Number(t) => Param::Number(t@),
            ParamValue::Bool(b) => Param::Bool(*b),
            ParamValue::Null => Param::Null,
            ParamValue::Text(t) => Param::Text(t@),
        }
    }
}

/// The name and the value of a parameter, without white space around them.
pub open spec fn split_at_equals(param: Seq<char>) -> Option<(Seq<char>, Seq<char>)> {
    let e = words::next_char(param, '=', 0);
    if e < param.len() {
        Some((words::trimmed(param.take(e)), words::trimmed(param.skip(e + 1))))
    } else {
        None
    }
}

/// The error for a parameter without `=`.
pub open spec fn parameter_error(param: Seq<char>) -> Seq<char> {
    "Invalid parameter format: '"@ + param + "'. Expected NAME=VALUE"@
}

/// Splits a parameter into its name and its value.
pub fn split_parameter(param: &str) -> (r: Result<(String, String), String>)
    ensures
        match r {
            Ok(p) => split_at_equals(param@) == Some((p.0@, p.1@)),
            Err(e) => split_at_equals(param@) is None && e@ == parameter_error(param@),
        },
{
    let s = to_chars(param);
    let e = index_of(s.as_slice(), '=', 0);
    if e < s.len() {
        let key = piece(s.as_slice(), 0, e);
        let value = piece(s.as_slice(), e + 1, s.len());
        assert(key@ =~= param@.take(e as int));
        assert(value@ =~= param@.skip(e + 1));
        let k = trim(key.as_slice());
        let v = trim(value.as_slice());
        Ok((from_chars(k.as_slice()), from_chars(v.as_slice())))
    } else {
        let mut m = "Invalid parameter format: '".to_owned();
        m.append(param);
        m.append("'. Expected NAME=VALUE");
        Err(m)
    }
}

/// The value that a text gives: a finite number, a boolean, `null`, or else the text.
pub open spec fn typed_value(value: Seq<char>, reading: NumberReading) -> Param {
    match reading {
        NumberReading::Finite => Param::Number(value),
        NumberReading::NotFinite => Param::Text(value),
        NumberReading::NotANumber => if value == "true"@ {
            Param::Bool(true)
        } else if value == "false"@ {
            Param::Bool(false)
        } else if value == "null"@ {
            Param::Null
        } else {
            Param::Text(value)
        },
    }
}

/// The value that a text gives, where `reading` says how it reads as a number.
pub fn parameter_value(value: &str, reading: NumberReading) -> (r: ParamValue)
    ensures
        r@ == typed_value(value@, reading),
{
    match reading {
        NumberReading::Finite => ParamValue::Number(value.to_owned()),
        NumberReading::NotFinite => ParamValue::Text(value.to_owned()),
        NumberReading::NotANumber => {
            if same(value, "true") {
                ParamValue::Bool(true)
            } else if same(value, "false") {
                ParamValue::Bool(false)
            } else if same(value, "null") {
                ParamValue::Null
            } else {
                ParamValue::Text(value.to_owned())
            }
        },
    }
}

/// The parameters by name: those of the first `k` texts, a later one in place of an earlier one of
/// the same name; or the error of the first text that gives none.
pub open spec fn parameters(
    params: Seq<Seq<char>>,
    readings: Seq<NumberReading>,
    k: int,
) -> Result<Map<Seq<char>, Param>, Seq<char>>
    decreases k,
{
    if k <= 0 {
        Ok(Map::empty())
    } else {
        match parameters(params, readings, k - 1) {
            Err(e) => Err(e),
            Ok(m) => match split_at_equals(params[k - 1]) {
                None => Err(parameter_error(params[k - 1])),
                Some((name, value)) => Ok(m.insert(name, typed_value(value, readings[k - 1]))),
            },
        }
    }
}

/// Reads model parameters in `NAME=VALUE` form. A later one takes the place of an earlier one of
/// the same name. `readings` says of each value how it reads as a number.
pub fn parse_parameters(params: &[String], readings: &[NumberReading]) -> (r: Result<
    Table<ParamValue>,
    String,
>)
    requires
        readings@.len() == params@.len(),
    ensures
        match r {
            Ok(list) => list.wf() && parameters(
                words::views(params@),
                readings@,
                params@.len() as int,
            ) == Ok::<Map<Seq<char>, Param>, Seq<char>>(list.map()),
            Err(e) => parameters(words::views(params@), readings@, params@.len() as int) == Err::<
                Map<Seq<char>, Param>,
                Seq<char>,
            >(e@),
        },
{
    let ghost v = words::views(params@);
    let mut list: Table<ParamValue> = Table::new();
    let mut i: usize = 0;
    while i < params.len()
        invariant
            i <= params@.len(),
            readings@.len() == params@.len(),
            v == words::views(params@),
            list.wf(),
            parameters(v, readings@, i as int) == Ok::<Map<Seq<char>, Param>, Seq<char>>(
                list.map(),
            ),
        decreases params@.len() - i,
    {
        assert(v[i as int] == params@[i as int]@);
        match split_parameter(params[i].as_str()) {
            Ok((name, value)) => {
                let typed = parameter_value(value.as_str(), readings[i]);
                list.set(name, typed);
            },
            Err(e) => {
                proof {
                    parameters_fail(v, readings@, i + 1, params@.len() as int);
                }
                return Err(e);
            },
        }
        i += 1;
    }
    Ok(list)
}

proof fn parameters_fail(
    params: Seq<Seq<char>>,
    readings: Seq<NumberReading>,
    k: int,
    m: int,
)
    requires
        0 <= k <= m,
        parameters(params, readings, k) is Err,
    ensures
        parameters(params, readings, m) == parameters(params, readings, k),
    decreases m - k,
{
    if k < m {
        parameters_fail(params, readings, k, m - 1);
    }
}

/// The value of a parameter is that of its last mention: those of the command line, which come
/// last, override those of the configuration file.
pub proof fn last_mention_wins(
    params: Seq<Seq<char>>,
    readings: Seq<NumberReading>,
    k: int,
    m: int,
)
    requires
        0 <= k < m <= params.len(),
        parameters(params, readings, m) is Ok,
        split_at_equals(params[k]) is Some,
        forall|j: int|
            k < j < m ==> (split_at_equals(#[trigger] params[j])->0).0 != (split_at_equals(
                params[k],
            )->0).0,
    ensures
        ({
            let (name, value) = split_at_equals(params[k])->0;
            let map = parameters(params, readings, m)->Ok_0;
            &&& map.dom().contains(name)
            &&& map[name] == typed_value(value, readings[k])
        }),
    decreases m - k,
{
    if m == k + 1 {
        assert(parameters(params, readings, k) is Ok);
    } else {
        assert(parameters(params, readings, m - 1) is Ok);
        last_mention_wins(params, readings, k, m - 1);
        assert(split_at_equals(params[m - 1]) is Some);
    }
}

// ---------------------------------------------------------------------------
// Requests
// ---------------------------------------------------------------------------

/// What an agent overrides: its model, its endpoint, and its system prompt.
pub struct AgentConfig {
    pub model: Option<String>,
    pub endpoint: Option<String>,
    pub system_prompt: Option<String>,
}

/// The options of a request to a model.
pub struct RequestOpts {
    pub max_tokens: Option<u32>,
    pub model: String,
    pub endpoint: String,
    pub tool_choice: Option<String>,
    pub api_key: Option<String>,
}

/// The first text that is given, or else the default.
pub open spec fn first_given(
    a: Option<Seq<char>>,
    b: Option<Seq<char>>,
    default: Seq<char>,
) -> Seq<char> {
    match a {
        Some(x) => x,
        None => match b {
            Some(y) => y,
            None => default,
        },
    }
}

fn choose_text(a: &Option<String>, b: &Option<String>, default: &str) -> (r: String)
    ensures
        r@ == first_given(opt_str(*a), opt_str(*b), default@),
{
    match a {
        Some(x) => x.clone(),
        None => match b {
            Some(y) => y.clone(),
            None => default.to_owned(),
        },
    }
}

/// The options of a request: what the agent overrides, else what was asked for, else the defaults.
pub fn build_openai_opts(opts: &Opts, agent_config: &AgentConfig) -> (r: RequestOpts)
    ensures
        r.max_tokens == opts.max_tokens,
        r.model@ == first_given(
            opt_str(agent_config.model),
            opt_str(opts.model),
            DEFAULT_MODEL@,
        ),
        r.endpoint@ == first_given(
            opt_str(agent_config.endpoint),
            opt_str(opts.endpoint),
            DEFAULT_ENDPOINT@,
        ),
        r.tool_choice == opts.tool_choice,
        r.api_key == opts.api_key,
{
    RequestOpts {
        max_tokens: opts.max_tokens,
        model: choose_text(&agent_config.model, &opts.model, DEFAULT_MODEL),
        endpoint: choose_text(&agent_config.endpoint, &opts.endpoint, DEFAULT_ENDPOINT),
        tool_choice: copy_opt(&opts.tool_choice),
        api_key: copy_opt(&opts.api_key),
    }
}

/// The options of a request, with the parameters of the model.
pub struct ModelOpts {
    pub request: RequestOpts,
    pub parameters: Table<ParamValue>,
}

/// The parameters of a request by name; none at all where a text gives none.
pub open spec fn request_parameters(
    params: Seq<Seq<char>>,
    readings: Seq<NumberReading>,
) -> Map<Seq<char>, Param> {
    match parameters(params, readings, params.len() as int) {
        Ok(m) => m,
        Err(_) => Map::empty(),
    }
}

/// The options of a request, as `build_openai_opts` gives them, with the model parameters that were
/// asked for. Where one of these is malformed, there are none. `readings` says of each value how it
/// reads as a number.
pub fn build_model_opts(
    opts: &Opts,
    agent_config: &AgentConfig,
    readings: &[NumberReading],
) -> (r: ModelOpts)
    requires
        readings@.len() == opts.parameter@.len(),
    ensures
        r.request.max_tokens == opts.max_tokens,
        r.request.model@ == first_given(
            opt_str(agent_config.model),
            opt_str(opts.model),
            DEFAULT_MODEL@,
        ),
        r.request.endpoint@ == first_given(
            opt_str(agent_config.endpoint),
            opt_str(opts.endpoint),
            DEFAULT_ENDPOINT@,
        ),
        r.request.tool_choice == opts.tool_choice,
        r.request.api_key == opts.api_key,
        r.parameters.wf(),
        r.parameters.map() == request_parameters(words::views(opts.parameter@), readings@),
{
    let parameters = match parse_parameters(opts.parameter.as_slice(), readings) {
        Ok(list) => list,
        Err(_) => Table::new(),
    };
    ModelOpts { request: build_openai_opts(opts, agent_config), parameters }
}

/// The tools of a session: none, or those that are asked for.
pub open spec fn session_tools(opts: Opts) -> Seq<tools::Tool> {
    if opts.no_tools {
        Seq::empty()
    } else {
        tools::allowed_tools(
            tools::offered_kinds(opts.unsafe_tools),
            if opts.tools@.len() == 0 {
                None
            } else {
                Some(words::views(opts.tools@))
            },
        )
    }
}

/// Sets up the tools of a session.
pub fn make_session_tools(opts: &Opts) -> (r: ToolsCollection)
    ensures
        r.list() == session_tools(*opts),
{
    if opts.no_tools {
        ToolsCollection::new()
    } else if opts.tools.len() == 0 {
        initialize_tools(opts.unsafe_tools, None)
    } else {
        initialize_tools(opts.unsafe_tools, Some(opts.tools.as_slice()))
    }
}

/// The system messages that a session begins with.
pub open spec fn tools_prompts(use_tools: bool) -> Seq<Msg> {
    if use_tools {
        seq![
            messages::plain_msg("system"@, USE_TOOLS_PROMPT@),
            messages::plain_msg("system"@, TERMINATE_PROMPT@),
        ]
    } else {
        seq![messages::plain_msg("system"@, AVOID_TOOLS_PROMPT@)]
    }
}

/// Tells the model to use its tools.
pub const USE_TOOLS_PROMPT: &'static str = "Use the available tools as much as possible to find a solution.  Iterate until the problem is solved.  Terminate only when you are sure to have found the solution, if a tool fails, analyze the failure, fix the issue and call again the tool.  Never ask to run commands manually or ask for permissions, just run the tool.";

/// Tells the model to stop when it is done.
pub const TERMINATE_PROMPT: &'static str = "When you've completed the task, you must terminate immediately the execution, do not explain your choices multiple times.";

/// Tells the model to use tools only when it is asked to.
pub const AVOID_TOOLS_PROMPT: &'static str = "You have access to various tools for file operations and code analysis.  Only use these tools when the user explicitly asks for file operations, code analysis, or repository interactions.  For simple questions, conversations, or general requests, respond directly without using tools.";

fn push_system(list: &mut Vec<Message>, content: &str)
    ensures
        messages::msg_views(final(list)@) == messages::msg_views(old(list)@).push(
            messages::plain_msg("system"@, content@),
        ),
{
    let m = make_message("system", content.to_owned());
    proof {
        messages::msg_views_push(list@, m);
    }
    list.push(m);
}

/// Adds the system messages about tools.
pub fn add_tools_prompt(list: &mut Vec<Message>, use_tools: bool)
    ensures
        messages::msg_views(final(list)@) == messages::msg_views(old(list)@) + tools_prompts(
            use_tools,
        ),
{
    let ghost before = messages::msg_views(list@);
    if use_tools {
        push_system(list, USE_TOOLS_PROMPT);
        push_system(list, TERMINATE_PROMPT);
    } else {
        push_system(list, AVOID_TOOLS_PROMPT);
    }
    assert(messages::msg_views(list@) =~= before + tools_prompts(use_tools));
}

/// The messages that a session begins with.
pub fn initialize_chat_messages(tools: &ToolsCollection) -> (r: Vec<Message>)
    ensures
        messages::msg_views(r@) == tools_prompts(tools.list().len() > 0),
{
    let mut r: Vec<Message> = Vec::new();
    add_tools_prompt(&mut r, !tools.is_empty());
    assert(messages::msg_views(r@) =~= tools_prompts(tools.list().len() > 0));
    r
}

/// The messages that an agent begins with: those of a session, and its own system prompt.
pub open spec fn agent_prompts(use_tools: bool, system_prompt: Option<Seq<char>>) -> Seq<Msg> {
    match system_prompt {
        Some(p) => tools_prompts(use_tools).push(messages::plain_msg("system"@, p)),
        None => tools_prompts(use_tools),
    }
}

/// The messages that an agent begins with.
pub fn initialize_agent_messages(tools: &ToolsCollection, agent_config: &AgentConfig) -> (r: Vec<
    Message,
>)
    ensures
        messages::msg_views(r@) == agent_prompts(
            tools.list().len() > 0,
            opt_str(agent_config.system_prompt),
        ),
{
    let mut r = initialize_chat_messages(tools);
    match &agent_config.system_prompt {
        Some(p) => {
            push_system(&mut r, p.as_str());
        },
        None => {},
    }
    r
}

/// The messages of a single prompt: those of a session, the contents of the given files as system
/// messages, and the prompt.
pub open spec fn prompt_messages(
    use_tools: bool,
    files: Seq<Seq<char>>,
    prompt: Seq<char>,
) -> Seq<Msg> {
    tools_prompts(use_tools) + Seq::new(
        files.len(),
        |i: int| messages::plain_msg("system"@, files[i]),
    ) + seq![messages::plain_msg("user"@, prompt)]
}

/// The messages of a single prompt with files as context.
pub fn make_prompt_messages(tools: &ToolsCollection, files: &[String], prompt: &str) -> (r: Vec<
    Message,
>)
    ensures
        messages::msg_views(r@) == prompt_messages(
            tools.list().len() > 0,
            words::views(files@),
            prompt@,
        ),
{
    let mut r = initialize_chat_messages(tools);
    let ghost head = messages::msg_views(r@);
    let ghost v = words::views(files@);
    let ghost mid = Seq::new(v.len(), |i: int| messages::plain_msg("system"@, v[i]));
    let mut i: usize = 0;
    assert(messages::msg_views(r@) =~= head + mid.take(0));
    while i < files.len()
        invariant
            i <= files@.len(),
            v == words::views(files@),
            mid == Seq::new(v.len(), |i: int| messages::plain_msg("system"@, v[i])),
            messages::msg_views(r@) == head + mid.take(i as int),
        decreases files@.len() - i,
    {
        push_system(&mut r, files[i].as_str());
        assert(v[i as int] == files@[i as int]@);
        assert(head + mid.take(i + 1) =~= (head + mid.take(i as int)).push(mid[i as int]));
        i += 1;
    }
    assert(mid.take(v.len() as int) =~= mid);
    let m = make_message("user", prompt.to_owned());
    proof {
        messages::msg_views_push(r@, m);
    }
    r.push(m);
    assert(messages::msg_views(r@) =~= prompt_messages(
        tools.list().len() > 0,
        words::views(files@),
        prompt@,
    ));
    r
}

/// The endpoint that lists the models.
pub open spec fn models_endpoint(base: Seq<char>) -> Seq<char> {
    if text::ends(base, "/chat/completions"@) {
        text::replaced(base, "/chat/completions"@, "/models"@)
    } else if text::ends(base, "/"@) {
        base + "models"@
    } else {
        base + "/models"@
    }
}

/// The endpoint that lists the models, given the endpoint for requests.
pub fn models_endpoint_text(base: &str) -> (r: String)
    ensures
        r@ == models_endpoint(base@),
{
    let s = to_chars(base);
    let chat = to_chars("/chat/completions");
    let slash = to_chars("/");
    if ends_with(s.as_slice(), chat.as_slice()) {
        let m = to_chars("/models");
        proof {
            reveal_strlit("/chat/completions");
        }
        let out = replace_all(s.as_slice(), chat.as_slice(), m.as_slice());
        from_chars(out.as_slice())
    } else if ends_with(s.as_slice(), slash.as_slice()) {
        let mut out = base.to_owned();
        out.append("models");
        out
    } else {
        let mut out = base.to_owned();
        out.append("/models");
        out
    }
}

} // verus!
