use faber::mcp::{add_server, parse_mcp_server, McpServerEntry};
use faber::options::{
    build_model_opts, build_openai_opts, choose_key, initialize_chat_messages, make_prompt_messages,
    make_session_tools, models_endpoint_text, parse_parameters, AgentConfig, NumberReading, Opts,
    ParamValue, AVOID_TOOLS_PROMPT, DEFAULT_ENDPOINT, DEFAULT_MODEL, TERMINATE_PROMPT,
    USE_TOOLS_PROMPT,
};
use faber::tools::ToolsCollection;

fn some(text: &str) -> Option<String> {
    Some(text.to_string())
}

fn strings(v: &[&str]) -> Vec<String> {
    v.iter().map(|s| s.to_string()).collect()
}

fn no_opts() -> Opts {
    Opts {
        max_tokens: None,
        model: None,
        endpoint: None,
        no_tools: false,
        unsafe_tools: false,
        tools: vec![],
        tool_choice: None,
        api_key: None,
        parameter: vec![],
        db_path: None,
        agent: None,
        server: None,
        server_key: None,
        server_key_file: None,
        mcp_servers: vec![],
    }
}

#[test]
fn the_command_line_comes_first() {
    let mut opts = no_opts();
    opts.model = some("cli");
    opts.parameter = strings(&["b=2"]);
    opts.no_tools = true;
    let mut config = no_opts();
    config.model = some("file");
    config.endpoint = some("e");
    config.max_tokens = Some(9);
    config.parameter = strings(&["a=1", "b=1"]);
    config.unsafe_tools = true;
    config.tools = strings(&["glob"]);
    config.agent = some("bob");
    config.server_key_file = some("k");
    opts.merge_with_config(config);
    assert_eq!(opts.model, some("cli"));
    assert_eq!(opts.endpoint, some("e"));
    assert_eq!(opts.max_tokens, Some(9));
    assert_eq!(opts.parameter, strings(&["a=1", "b=1", "b=2"]));
    assert!(opts.no_tools && opts.unsafe_tools);
    assert!(opts.tools.is_empty());
    assert_eq!(opts.agent, None);
    assert_eq!(opts.server_key_file, some("k"));
    let finite = [NumberReading::Finite; 3];
    let values = parse_parameters(&opts.parameter, &finite).unwrap();
    assert_eq!(values.get("a"), Some(&ParamValue::Number("1".to_string())));
    assert_eq!(values.get("b"), Some(&ParamValue::Number("2".to_string())));
    assert_eq!(values.len(), 2);
}

fn servers(list: &[&str]) -> Vec<McpServerEntry> {
    list.iter().map(|s| parse_mcp_server(s).unwrap()).collect()
}

fn named(list: &[McpServerEntry]) -> Vec<(String, Option<String>)> {
    list.iter().map(|s| (s.name.clone(), s.config.url.clone())).collect()
}

fn named_as(list: &[(&str, &str)]) -> Vec<(String, Option<String>)> {
    list.iter().map(|(n, u)| (n.to_string(), some(u))).collect()
}

#[test]
fn servers_of_the_command_line_join_those_of_the_file() {
    let mut opts = no_opts();
    opts.mcp_servers = servers(&["a=http://a", "b=http://own"]);
    let mut config = no_opts();
    config.mcp_servers = servers(&["b=http://file", "c=http://c"]);
    opts.merge_with_config(config);
    assert_eq!(
        named(&opts.mcp_servers),
        named_as(&[("b", "http://own"), ("c", "http://c"), ("a", "http://a")])
    );
    let mut opts = no_opts();
    let mut config = no_opts();
    config.mcp_servers = servers(&["c=http://c"]);
    opts.merge_with_config(config);
    assert_eq!(named(&opts.mcp_servers), named_as(&[("c", "http://c")]));
    opts.merge_with_config(no_opts());
    assert_eq!(named(&opts.mcp_servers), named_as(&[("c", "http://c")]));
    add_server(&mut opts.mcp_servers, parse_mcp_server("c=http://d").unwrap());
    assert_eq!(named(&opts.mcp_servers), named_as(&[("c", "http://d")]));
}

#[test]
fn requests_have_the_parameters() {
    let none = AgentConfig { model: None, endpoint: None, system_prompt: None };
    let mut opts = no_opts();
    opts.max_tokens = Some(5);
    opts.parameter = strings(&["t=1", "s=true", "t=2"]);
    let readings = [NumberReading::Finite, NumberReading::NotANumber, NumberReading::Finite];
    let r = build_model_opts(&opts, &none, &readings);
    assert_eq!(r.parameters.len(), 2);
    assert_eq!(r.parameters.get("t"), Some(&ParamValue::Number("2".to_string())));
    assert_eq!(r.parameters.get("s"), Some(&ParamValue::Bool(true)));
    assert_eq!(r.request.max_tokens, Some(5));
    assert_eq!(r.request.model, DEFAULT_MODEL);
    assert_eq!(r.request.endpoint, DEFAULT_ENDPOINT);
    opts.parameter = strings(&["t=1", "bad"]);
    let readings = [NumberReading::Finite, NumberReading::NotANumber];
    let r = build_model_opts(&opts, &none, &readings);
    assert_eq!(r.parameters.len(), 0);
    assert_eq!(r.request.max_tokens, Some(5));
}

#[test]
fn an_endpoint_chooses_its_own_model() {
    let mut opts = no_opts();
    opts.reset_model();
    assert_eq!(opts.model, None);
    opts.endpoint = some("e");
    opts.reset_model();
    assert_eq!(opts.model, some(""));
    opts.model = some("m");
    opts.reset_model();
    assert_eq!(opts.model, some("m"));
}

#[test]
fn keys_come_from_the_option_or_the_file() {
    assert_eq!(choose_key(&some("k"), &some("f")), some("k"));
    assert_eq!(choose_key(&None, &some("f\r\nrest\n")), some("f"));
    assert_eq!(choose_key(&None, &some("")), some(""));
    assert_eq!(choose_key(&None, &None), None);
}

#[test]
fn an_agent_overrides_the_options() {
    let none = AgentConfig { model: None, endpoint: None, system_prompt: None };
    let r = build_openai_opts(&no_opts(), &none);
    assert_eq!((r.model.as_str(), r.endpoint.as_str()), (DEFAULT_MODEL, DEFAULT_ENDPOINT));
    let mut opts = no_opts();
    opts.model = some("m");
    opts.api_key = some("k");
    opts.tool_choice = some("auto");
    let agent = AgentConfig { model: None, endpoint: some("ae"), system_prompt: None };
    let r = build_openai_opts(&opts, &agent);
    assert_eq!((r.model.as_str(), r.endpoint.as_str()), ("m", "ae"));
    assert_eq!((r.api_key, r.tool_choice), (some("k"), some("auto")));
}

#[test]
fn the_tools_of_a_session() {
    let names = |opts: &Opts| make_session_tools(opts).sorted_names();
    let mut opts = no_opts();
    assert!(!names(&opts).contains(&"run_command".to_string()));
    opts.unsafe_tools = true;
    assert!(names(&opts).contains(&"run_command".to_string()));
    opts.tools = strings(&["glob"]);
    assert_eq!(names(&opts), strings(&["glob"]));
    opts.no_tools = true;
    assert!(make_session_tools(&opts).is_empty());
}

#[test]
fn a_prompt_comes_after_its_files() {
    let none = ToolsCollection::new();
    let list = make_prompt_messages(&none, &strings(&["f1", "f2"]), "why?");
    let shown: Vec<(&str, &str)> =
        list.iter().map(|m| (m.role.as_str(), m.content.as_deref().unwrap())).collect();
    assert_eq!(
        shown,
        vec![("system", AVOID_TOOLS_PROMPT), ("system", "f1"), ("system", "f2"), ("user", "why?")]
    );
    let tools = make_session_tools(&no_opts());
    let list = initialize_chat_messages(&tools);
    assert_eq!(list[0].content, some(USE_TOOLS_PROMPT));
    assert_eq!(list[1].content, some(TERMINATE_PROMPT));
    assert_eq!(list.len(), 2);
}

#[test]
fn the_endpoint_that_lists_models() {
    let of = models_endpoint_text;
    assert_eq!(of("http://x/v1/chat/completions"), "http://x/v1/models");
    assert_eq!(of("http://x/v1/"), "http://x/v1/models");
    assert_eq!(of("http://x/v1"), "http://x/v1/models");
}
