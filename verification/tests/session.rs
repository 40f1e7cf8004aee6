use faber::commands::{parse_chat_command, ChatCommand};
use faber::messages::{make_message, FunctionCall, Message, ToolCall};
use faber::options::{AVOID_TOOLS_PROMPT, TERMINATE_PROMPT, USE_TOOLS_PROMPT};
use faber::session::{
    handle_chat_command, list_all_tools, list_session_tools, show_history, tool_names, AgentState,
    ChatAction, ChatReply, HELP_LINES,
};
use faber::tools::{initialize_tools, ToolsCollection};

fn strings(v: &[&str]) -> Vec<String> {
    v.iter().map(|s| s.to_string()).collect()
}

fn talk(n: usize) -> AgentState {
    AgentState {
        name: "me".to_string(),
        messages: (0..n).map(|i| make_message("user", i.to_string())).collect(),
    }
}

fn contents(list: &[Message]) -> Vec<String> {
    list.iter().map(|m| m.content.clone().unwrap()).collect()
}

fn said(line: &str) -> ChatReply {
    ChatReply { lines: strings(&[line]), action: ChatAction::Continue }
}

fn silent(action: ChatAction) -> ChatReply {
    ChatReply { lines: vec![], action }
}

fn run(agent: &mut AgentState, command: ChatCommand, has_db: bool) -> ChatReply {
    handle_chat_command(command, agent, &ToolsCollection::new(), None, has_db)
}

#[test]
fn limiting_keeps_the_last_messages() {
    let mut agent = talk(5);
    let reply = run(&mut agent, ChatCommand::Limit(2), true);
    assert_eq!(reply, said("Chat history limited to the last 2 messages."));
    assert_eq!(contents(&agent.messages), vec!["3", "4"]);
    let reply = run(&mut agent, ChatCommand::Limit(2), true);
    assert_eq!(reply, said("Chat history is already within the limit of 2."));
    assert_eq!(contents(&agent.messages), vec!["3", "4"]);
    let reply = run(&mut agent, ChatCommand::Limit(0), true);
    assert_eq!(reply.lines, vec!["Limit cannot be zero. Clearing history instead."]);
    assert_eq!(reply.action, ChatAction::ClearStored(vec![]));
    assert_eq!(contents(&agent.messages), vec![AVOID_TOOLS_PROMPT]);
}

#[test]
fn going_back_takes_messages_off_the_end() {
    let mut agent = talk(3);
    let reply = run(&mut agent, ChatCommand::Backtrace(0), false);
    assert_eq!(reply, said("Backtrace steps must be a positive number."));
    run(&mut agent, ChatCommand::Message("3".to_string()), false);
    run(&mut agent, ChatCommand::System("4".to_string()), false);
    assert_eq!(agent.messages.len(), 5);
    let reply = run(&mut agent, ChatCommand::Backtrace(2), false);
    assert_eq!(reply, said("Went back 2 steps in chat history."));
    assert_eq!(contents(&agent.messages), vec!["0", "1", "2"]);
    let reply = run(&mut agent, ChatCommand::Backtrace(4), false);
    assert_eq!(
        reply,
        said("Cannot go back 4 steps, history has only 3 messages. Clearing history.")
    );
    assert_eq!(contents(&agent.messages), vec![AVOID_TOOLS_PROMPT]);
}

#[test]
fn clearing_restores_the_system_prompts() {
    let tools = initialize_tools(false, None);
    let mut agent = talk(3);
    let reply = handle_chat_command(ChatCommand::Clear, &mut agent, &tools, None, true);
    let after = strings(&["Chat history cleared and system prompts restored."]);
    assert_eq!(reply, silent(ChatAction::ClearStored(after)));
    assert_eq!(contents(&agent.messages), vec![USE_TOOLS_PROMPT, TERMINATE_PROMPT]);
    let reply = run(&mut agent, ChatCommand::Clear, false);
    assert_eq!(reply, said("Chat history cleared and system prompts restored."));
    assert_eq!(contents(&agent.messages), vec![AVOID_TOOLS_PROMPT]);
}

#[test]
fn messages_are_sent_and_system_messages_kept() {
    let mut agent = talk(0);
    let reply = run(&mut agent, parse_chat_command("hello"), false);
    assert_eq!(reply, silent(ChatAction::Request));
    let reply = run(&mut agent, parse_chat_command("/system be brief"), false);
    assert_eq!(reply, said("System message added to conversation."));
    let roles: Vec<&str> = agent.messages.iter().map(|m| m.role.as_str()).collect();
    assert_eq!(roles, vec!["user", "system"]);
    assert_eq!(contents(&agent.messages), vec!["hello", "be brief"]);
    assert_eq!(run(&mut agent, ChatCommand::Quit, false), silent(ChatAction::Quit));
    assert_eq!(run(&mut agent, ChatCommand::Summarize, false), silent(ChatAction::Summarize));
    assert_eq!(run(&mut agent, ChatCommand::Empty, false), silent(ChatAction::Continue));
    assert_eq!(run(&mut agent, ChatCommand::Invalid("no".to_string()), false), said("no"));
    assert_eq!(agent.messages.len(), 2);
}

#[test]
fn the_help_names_every_command() {
    let reply = run(&mut talk(0), ChatCommand::Help, false);
    assert_eq!(reply.lines, HELP_LINES.to_vec());
    assert_eq!(reply.action, ChatAction::Continue);
    assert!(reply.lines.iter().any(|l| l.contains("/mcp-refresh")));
}

#[test]
fn agents_need_a_database() {
    let name = || "bob".to_string();
    let none = said("Database not configured.");
    let mut agent = talk(1);
    for command in [
        ChatCommand::Agents,
        ChatCommand::CreateAgent(name()),
        ChatCommand::SelectAgent(name()),
        ChatCommand::DeleteAgent(name()),
    ] {
        assert_eq!(run(&mut agent, command, false), none);
    }
    let mut ask = |c| run(&mut agent, c, true);
    assert_eq!(ask(ChatCommand::Agents), silent(ChatAction::ListAgents));
    assert_eq!(ask(ChatCommand::CreateAgent(name())), silent(ChatAction::CreateAgent(name())));
    assert_eq!(ask(ChatCommand::SelectAgent(name())), silent(ChatAction::FindAgent(name())));
    assert_eq!(ask(ChatCommand::DeleteAgent(name())), silent(ChatAction::DeleteAgent(name())));
}

#[test]
fn some_agents_are_protected() {
    let mut agent = talk(0);
    let mut ask = |c| run(&mut agent, c, true);
    assert_eq!(
        ask(ChatCommand::DeleteAgent("default".to_string())),
        said("Cannot delete the default agent.")
    );
    assert_eq!(
        ask(ChatCommand::DeleteAgent("me".to_string())),
        said("Cannot delete the active agent. Switch first with /select-agent.")
    );
    assert_eq!(
        ask(ChatCommand::SelectAgent("me".to_string())),
        said("Already on agent 'me'.")
    );
}

#[test]
fn the_conversation_is_shown() {
    assert_eq!(show_history(&[]), vec!["Chat history is empty."]);
    let call = |id: &str, name: &str, arguments: &str| ToolCall {
        index: None,
        id: id.to_string(),
        tool_type: "function".to_string(),
        function: FunctionCall { name: name.to_string(), arguments: arguments.to_string() },
    };
    let calling = Message {
        role: "assistant".to_string(),
        content: None,
        tool_call_id: None,
        name: None,
        tool_calls: Some(vec![call("c1", "glob", "{}"), call("c2", "read_file", "[]")]),
    };
    assert_eq!(
        show_history(&[make_message("user", "hi".to_string()), calling]),
        vec![
            "Current chat history:",
            "1: [user] hi",
            "2: [assistant] <no content>",
            "  Tool Calls:",
            "    2.1: glob (c1)",
            "      Args: {}",
            "    2.2: read_file (c2)",
            "      Args: []",
        ]
    );
}

#[test]
fn tools_are_listed_in_order() {
    let mut agent = talk(0);
    assert_eq!(run(&mut agent, ChatCommand::Tools, false), said("No tools available."));
    let tools = initialize_tools(false, Some(&strings(&["read_file", "glob"])));
    assert_eq!(tool_names(&tools).len(), 2);
    let mcp = strings(&["z_b", "z_a"]);
    let reply = handle_chat_command(ChatCommand::Tools, &mut agent, &tools, Some(&mcp), false);
    assert_eq!(
        reply.lines,
        vec!["Built-in tools:", "  glob", "  read_file", "MCP tools:", "  z_a", "  z_b"]
    );
    assert_eq!(list_session_tools(&tools, &[]), reply.lines[..3].to_vec());
    let all = list_all_tools(&mcp);
    assert_eq!(all[all.len() - 3..], strings(&["MCP tools:", "  z_a", "  z_b"]));
    assert!(all.iter().any(|l| l.contains("run_command") && l.contains("unsafe")));
}

#[test]
fn servers_are_asked_again_only_where_there_are_any() {
    let mut agent = talk(0);
    let tools = ToolsCollection::new();
    assert_eq!(
        run(&mut agent, ChatCommand::McpRefresh, false),
        said("No MCP servers configured.")
    );
    let reply = handle_chat_command(ChatCommand::McpRefresh, &mut agent, &tools, Some(&[]), false);
    assert_eq!(reply, silent(ChatAction::RefreshMcp));
}
