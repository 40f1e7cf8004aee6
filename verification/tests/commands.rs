use faber::commands::{parse_chat_command, ChatCommand};

#[test]
fn test_parse_chat_command_help() {
    assert!(matches!(parse_chat_command("/help"), ChatCommand::Help));
}

#[test]
fn test_parse_chat_command_quit() {
    assert!(matches!(parse_chat_command("/quit"), ChatCommand::Quit));
}

#[test]
fn test_parse_chat_command_clear() {
    assert!(matches!(parse_chat_command("/clear"), ChatCommand::Clear));
}

#[test]
fn test_parse_chat_command_show() {
    assert!(matches!(parse_chat_command("/show"), ChatCommand::Show));
}

#[test]
fn test_parse_chat_command_limit() {
    match parse_chat_command("/limit 5") {
        ChatCommand::Limit(n) => assert_eq!(n, 5),
        _ => panic!("expected Limit"),
    }
}

#[test]
fn test_parse_chat_command_limit_invalid() {
    assert!(matches!(
        parse_chat_command("/limit abc"),
        ChatCommand::Invalid(_)
    ));
}

#[test]
fn test_parse_chat_command_backtrace() {
    match parse_chat_command("/backtrace 3") {
        ChatCommand::Backtrace(n) => assert_eq!(n, 3),
        _ => panic!("expected Backtrace"),
    }
}

#[test]
fn test_parse_chat_command_system() {
    match parse_chat_command("/system be nice") {
        ChatCommand::System(msg) => assert_eq!(msg, "be nice"),
        _ => panic!("expected System"),
    }
}

#[test]
fn test_parse_chat_command_agents() {
    assert!(matches!(parse_chat_command("/agents"), ChatCommand::Agents));
}

#[test]
fn test_parse_chat_command_create_agent() {
    match parse_chat_command("/create-agent bob") {
        ChatCommand::CreateAgent(name) => assert_eq!(name, "bob"),
        _ => panic!("expected CreateAgent"),
    }
}

#[test]
fn test_parse_chat_command_select_agent() {
    match parse_chat_command("/select-agent bob") {
        ChatCommand::SelectAgent(name) => assert_eq!(name, "bob"),
        _ => panic!("expected SelectAgent"),
    }
}

#[test]
fn test_parse_chat_command_delete_agent() {
    match parse_chat_command("/delete-agent bob") {
        ChatCommand::DeleteAgent(name) => assert_eq!(name, "bob"),
        _ => panic!("expected DeleteAgent"),
    }
}

#[test]
fn test_parse_chat_command_mcp_refresh() {
    assert!(matches!(
        parse_chat_command("/mcp-refresh"),
        ChatCommand::McpRefresh
    ));
}

#[test]
fn test_parse_chat_command_tools() {
    assert!(matches!(parse_chat_command("/tools"), ChatCommand::Tools));
}

#[test]
fn test_parse_chat_command_message() {
    match parse_chat_command("hello world") {
        ChatCommand::Message(msg) => assert_eq!(msg, "hello world"),
        _ => panic!("expected Message"),
    }
}

#[test]
fn test_parse_chat_command_empty() {
    assert!(matches!(parse_chat_command(""), ChatCommand::Empty));
}

#[test]
fn test_parse_chat_command_unknown() {
    assert!(matches!(
        parse_chat_command("/unknown"),
        ChatCommand::Invalid(_)
    ));
}

#[test]
fn test_parse_chat_command_backslash_prefix() {
    assert!(matches!(parse_chat_command("\\help"), ChatCommand::Help));
}
