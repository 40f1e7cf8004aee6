use faber::mcp::{
    add_server, base_url_text, call_params, call_text, choose_transport, parse_mcp_server, prefixed_tool_name,
    rpc_result, McpServerConfig, McpServerEntry, McpToolDef, McpTools, ServerListing, SseEvent,
    SseParser, ToolContent, Transport,
};

fn config(command: Option<&str>, url: Option<&str>, sse: Option<&str>) -> McpServerConfig {
    McpServerConfig {
        command: command.map(|s| s.to_string()),
        args: None,
        env: None,
        url: url.map(|s| s.to_string()),
        sse: sse.map(|s| s.to_string()),
        headers: None,
    }
}

fn entry(name: &str, url: &str) -> McpServerEntry {
    McpServerEntry { name: name.to_string(), config: config(None, Some(url), None) }
}

fn def(name: &str) -> McpToolDef {
    McpToolDef { name: name.to_string(), description: None, input_schema: None }
}

#[test]
fn endpoints_are_relative_to_the_server() {
    let endpoint = |url: &str| {
        let mut p = SseParser::for_server(url).unwrap();
        p.feed("event: endpoint");
        p.feed("data: /m");
        p.feed("")
    };
    let found = |url: &str| SseEvent::Endpoint(url.to_string());
    assert_eq!(endpoint("HTTP://Host:80/events?a=b"), found("http://host/m"));
    assert_eq!(endpoint("https://u:p@h:8443"), found("https://u:p@h:8443/m"));
    assert_eq!(
        SseParser::for_server("no url").err(),
        Some("relative URL without a base".to_string())
    );
    assert_eq!(base_url_text("http", "h:1"), "http://h:1");
}

#[test]
fn a_command_goes_before_a_url() {
    let c = config(Some("npx"), Some("http://a"), Some("http://b"));
    assert!(matches!(choose_transport("x", &c), Ok(Transport::Stdio(c)) if c == "npx"));
    let c = config(None, Some("http://a"), Some("http://b"));
    assert!(matches!(choose_transport("x", &c), Ok(Transport::Http(u)) if u == "http://a"));
    let c = config(None, None, Some("http://b"));
    assert!(matches!(choose_transport("x", &c), Ok(Transport::Sse(u)) if u == "http://b"));
    let e = choose_transport("x", &config(None, None, None)).err();
    assert_eq!(e, Some("MCP server 'x': must have 'command', 'url', or 'sse'".to_string()));
}

#[test]
fn servers_on_the_command_line() {
    let s = parse_mcp_server("search=http://localhost:3000/mcp").ok().unwrap();
    assert_eq!(s.name, "search");
    assert_eq!(s.config.url, Some("http://localhost:3000/mcp".to_string()));
    assert_eq!(s.config.sse, None);
    let s = parse_mcp_server("search=sse:http://localhost:3000/sse?a=b").ok().unwrap();
    assert_eq!(s.config.url, None);
    assert_eq!(s.config.sse, Some("http://localhost:3000/sse?a=b".to_string()));
    assert_eq!(
        parse_mcp_server("search").err(),
        Some("Invalid MCP server format: 'search'. Expected NAME=URL or NAME=sse:URL".to_string())
    );
}

#[test]
fn a_server_of_the_same_name_is_overridden() {
    let mut list = vec![entry("a", "1"), entry("b", "2")];
    add_server(&mut list, entry("a", "3"));
    add_server(&mut list, entry("c", "4"));
    let shown: Vec<(String, String)> =
        list.into_iter().map(|s| (s.name, s.config.url.unwrap())).collect();
    let wanted = [("a", "3"), ("b", "2"), ("c", "4")];
    assert_eq!(shown.len(), 3);
    for (got, want) in shown.iter().zip(wanted) {
        assert_eq!((got.0.as_str(), got.1.as_str()), want);
    }
}

#[test]
fn an_event_stream_gives_its_endpoint_once() {
    let mut p = SseParser::for_server("http://host:80/events?a=b").unwrap();
    assert_eq!(p.feed("event: endpoint"), SseEvent::Nothing);
    assert_eq!(p.feed("data: /messages?id=1"), SseEvent::Nothing);
    assert_eq!(p.feed(""), SseEvent::Endpoint("http://host/messages?id=1".to_string()));
    p.feed("event: endpoint");
    p.feed("data: /other");
    assert_eq!(p.feed(""), SseEvent::Nothing);
    p.feed("event: message");
    p.feed("data: {\"a\":");
    p.feed(": a comment");
    p.feed("data: 1}");
    assert_eq!(p.feed(""), SseEvent::Message("{\"a\":\n1}".to_string()));
    assert_eq!(p.feed(""), SseEvent::Nothing);
    let mut p = SseParser::for_server("http://host:80/events?a=b").unwrap();
    p.feed("event: endpoint");
    p.feed("data: https://elsewhere/x");
    assert_eq!(p.feed(""), SseEvent::Endpoint("https://elsewhere/x".to_string()));
}

#[test]
fn results_and_errors_of_a_server() {
    assert_eq!(rpc_result("s", None, Some("{}".to_string())), Ok("{}".to_string()));
    assert!(rpc_result("s", Some("bad".to_string()), None).unwrap_err().contains("bad"));
}

#[test]
fn only_texts_are_shown() {
    let part = |kind: &str, text: Option<&str>| ToolContent {
        content_type: kind.to_string(),
        text: text.map(|t| t.to_string()),
    };
    let parts = vec![
        part("text", Some("a")),
        part("image", Some("x")),
        part("text", None),
        part("text", Some("b")),
    ];
    assert_eq!(call_text(&parts), "a\nb");
    assert_eq!(call_text(&[]), "");
}

#[test]
fn tools_are_found_by_their_prefixed_names() {
    assert_eq!(prefixed_tool_name("fs", "read"), "mcp_fs_read");
    let mut tools = McpTools::new();
    assert!(!tools.has_tools());
    tools.add_server_tools("fs", 0, &[def("read"), def("write")]);
    tools.add_server_tools("web", 1, &[def("get")]);
    assert_eq!(tools.count(), 3);
    assert!(tools.has_tool("mcp_web_get"));
    assert!(!tools.has_tool("get"));
    assert_eq!(tools.find("mcp_web_get"), Ok((1, "get".to_string())));
    assert!(tools.find("mcp_web_put").is_err());
    let mut names = tools.tool_names();
    names.sort();
    assert_eq!(names, vec!["mcp_fs_read", "mcp_fs_write", "mcp_web_get"]);
}

#[test]
fn refreshing_forgets_tools_that_are_gone() {
    let mut tools = McpTools::new();
    tools.add_server_tools("a", 0, &[def("old")]);
    let listings = vec![
        ServerListing { server: "a".to_string(), tools: Some(vec![def("x"), def("y")]) },
        ServerListing { server: "b".to_string(), tools: None },
        ServerListing { server: "c".to_string(), tools: Some(vec![def("z")]) },
    ];
    assert_eq!(tools.refresh(&listings), 3);
    assert!(!tools.has_tool("mcp_a_old"));
    assert_eq!(tools.find("mcp_c_z"), Ok((2, "z".to_string())));
}

#[test]
fn a_tool_schema_is_that_of_a_function() {
    let mut tools = McpTools::new();
    let tool = McpToolDef {
        name: "read".to_string(),
        description: Some("Reads \"it\".".to_string()),
        input_schema: Some(r#"{"type":"object","required":["path"]}"#.to_string()),
    };
    tools.add_server_tools("fs", 0, &[tool, def("list")]);
    let schema = |name: &str| -> serde_json::Value {
        serde_json::from_str(&tools.table.get(name).unwrap().schema).unwrap()
    };
    let read = schema("mcp_fs_read");
    assert_eq!(read["type"], "function");
    assert_eq!(read["function"]["name"], "mcp_fs_read");
    assert_eq!(read["function"]["description"], "Reads \"it\".");
    assert_eq!(read["function"]["parameters"]["required"][0], "path");
    let all = tools.get_tool_schemas();
    assert_eq!(all.len(), 2);
    assert_eq!(all[0], tools.table.get("mcp_fs_read").unwrap().schema);
    let list = schema("mcp_fs_list");
    assert_eq!(list["function"]["description"], "");
    assert_eq!(list["function"]["parameters"]["type"], "object");
    let call: serde_json::Value =
        serde_json::from_str(&call_params("read", r#"{"path":"x"}"#)).unwrap();
    assert_eq!(call["name"], "read");
    assert_eq!(call["arguments"]["path"], "x");
}

#[test]
fn names_of_two_servers_may_collide() {
    assert_eq!(prefixed_tool_name("a", "b_c"), prefixed_tool_name("a_b", "c"));
    assert_ne!(prefixed_tool_name("a", "b"), prefixed_tool_name("a", "c"));
}
