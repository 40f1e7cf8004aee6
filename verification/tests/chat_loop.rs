use faber::chat_loop::{
    after_first, after_second, after_summary, agent_claimed, agent_created, agent_deleted,
    agent_found, agent_header, agent_lines, agent_switched, check_claim,
    execute_scheduled_command, first_request, history_summarized, join_injections, mcp_refreshed,
    must_create, read_notification, request_failed, response_received, resume_messages,
    scheduled_messages, starting_agent, task_fired, warn_if_truncated, FirstStep, InputEvent,
    InputState, InputStep, Output, RequestEnd, RequestError, Retry, TRUNCATED_LINE,
};
use faber::messages::{make_message, Message};
use faber::options::{AgentConfig, AVOID_TOOLS_PROMPT};
use faber::session::{AgentState, ChatAction, ChatReply};
use faber::summarize::{SummaryReply, SummaryStep, SUMMARY_PREFIX};
use faber::tools::ToolsCollection;

fn strings(v: &[&str]) -> Vec<String> {
    v.iter().map(|s| s.to_string()).collect()
}

fn agent(name: &str) -> AgentState {
    AgentState { name: name.to_string(), messages: vec![make_message("user", "hi".to_string())] }
}

fn said(line: &str) -> ChatReply {
    ChatReply { lines: strings(&[line]), action: ChatAction::Continue }
}

fn silent(action: ChatAction) -> ChatReply {
    ChatReply { lines: vec![], action }
}

fn config(prompt: Option<&str>) -> AgentConfig {
    AgentConfig { model: None, endpoint: None, system_prompt: prompt.map(|p| p.to_string()) }
}

#[test]
fn texts_of_agents_have_a_heading() {
    assert_eq!(agent_header("bob"), "── bob ──");
    assert_eq!(agent_lines("a\r\nb\n"), vec!["  a", "  b", ""]);
    assert_eq!(agent_lines(""), vec![""]);
}

#[test]
fn a_session_starts_with_an_agent() {
    assert_eq!(starting_agent(&None), "default");
    assert_eq!(starting_agent(&Some("bob".to_string())), "bob");
    assert!(!must_create("default", false));
    assert!(!must_create("bob", true));
    assert!(must_create("bob", false));
    assert_eq!(check_claim("bob", true), Ok(()));
    assert_eq!(
        check_claim("bob", false),
        Err("Agent 'bob' is already claimed by another session.".to_string())
    );
    let tools = ToolsCollection::new();
    let begun = resume_messages(vec![], &tools, &config(Some("be brief")));
    let texts: Vec<&str> = begun.iter().map(|m| m.content.as_deref().unwrap()).collect();
    assert_eq!(texts, vec![AVOID_TOOLS_PROMPT, "be brief"]);
    let stored = vec![make_message("user", "hi".to_string())];
    let resumed = resume_messages(stored, &tools, &config(Some("be brief")));
    assert_eq!(resumed.len(), 1);
    assert_eq!(resumed[0].content, Some("hi".to_string()));
}

#[test]
fn agents_come_and_go() {
    let mut names = strings(&["a"]);
    let reply = agent_created("b", None, &mut names);
    assert_eq!(reply, said("Agent 'b' created. Use /select-agent b to switch."));
    assert_eq!(names, strings(&["a", "b"]));
    agent_created("b", None, &mut names);
    assert_eq!(names, strings(&["a", "b"]));
    let reply = agent_created("c", Some("taken".to_string()), &mut names);
    assert_eq!(reply, said("Failed to create agent: taken"));
    assert_eq!(names, strings(&["a", "b"]));
    assert_eq!(agent_deleted("z", false, &mut names), said("Agent 'z' not found."));
    assert_eq!(agent_deleted("a", true, &mut names), said("Agent 'a' deleted."));
    assert_eq!(names, strings(&["b"]));
}

#[test]
fn switching_takes_three_steps() {
    let name = || "bob".to_string();
    assert_eq!(agent_found(name(), true), silent(ChatAction::ClaimAgent(name())));
    assert_eq!(
        agent_found(name(), false),
        said("Agent 'bob' not found. Use /create-agent bob first.")
    );
    assert_eq!(agent_claimed(name(), true), silent(ChatAction::SwitchAgent(name())));
    assert_eq!(
        agent_claimed(name(), false),
        said("Agent 'bob' is already claimed by another session.")
    );
    let mut me = agent("me");
    let tools = ToolsCollection::new();
    let reply = agent_switched(&mut me, name(), &config(None), vec![], &tools);
    assert_eq!(reply, said("Switched to agent 'bob'.\n"));
    assert_eq!(me.name, "bob");
    assert_eq!(me.messages[0].content, Some(AVOID_TOOLS_PROMPT.to_string()));
}

#[test]
fn servers_answer_a_refresh() {
    assert_eq!(mcp_refreshed(Ok(3)), said("MCP tools refreshed: 3 tools available"));
    assert_eq!(mcp_refreshed(Err("x".to_string())), said("MCP refresh failed: x"));
}

#[test]
fn input_pauses_the_status_line() {
    let state = |prompt_shown, direct, paused| InputState { prompt_shown, direct, paused };
    let mut s = InputState::new();
    assert_eq!(s, state(false, true, false));
    let note = "  2 subagent(s) running in background...".to_string();
    assert_eq!(s.ask(2), (true, Some(note)));
    assert_eq!(s, state(true, false, true));
    assert_eq!(s.ask(2), (false, None));
    assert_eq!(s.take(InputEvent::Timeout), InputStep::Wait);
    assert_eq!(s, state(true, false, true));
    let line = InputEvent::Line("  hi \n".to_string());
    assert_eq!(s.take(line), InputStep::Process("hi".to_string()));
    assert_eq!(s, InputState::new());
    assert_eq!(s.ask(0), (true, None));
    assert_eq!(s.take(InputEvent::Interrupted), InputStep::Wait);
    assert_eq!(s, InputState::new());
    s.ask(0);
    assert_eq!(s.take(InputEvent::Eof), InputStep::Leave);
    assert_eq!(s, state(true, true, false));
    let failed = InputEvent::Failed("x".to_string());
    assert_eq!(s.take(failed), InputStep::Fail("x".to_string()));
    let mut s = state(true, false, true);
    assert_eq!(s.take(InputEvent::Disconnected), InputStep::Leave);
    assert_eq!(s, state(true, false, false));
}

#[test]
fn scheduled_commands_name_a_tool() {
    let call = execute_scheduled_command(r#"{"tool":"glob","arguments":{"pattern":"*"}}"#, -5);
    let call = call.unwrap();
    assert_eq!(call.id, "scheduled-task--5");
    assert_eq!(call.tool_type, "function");
    assert_eq!(call.function.name, "glob");
    assert_eq!(call.function.arguments, r#"{"pattern":"*"}"#);
    let arguments = |c: &str| execute_scheduled_command(c, 1).unwrap().function.arguments;
    assert_eq!(arguments(r#"{"tool":"glob"}"#), "{}");
    assert_eq!(arguments(r#"{"tool":"glob","arguments":null}"#), "null");
    assert_eq!(arguments(r#"{"tool":"glob","arguments":"{\"a\":1}"}"#), r#"{"a":1}"#);
    assert!(execute_scheduled_command("say hello", 1).is_none());
    assert!(execute_scheduled_command(r#"{"tool":""}"#, 1).is_none());
    assert!(execute_scheduled_command(r#"{"tool":3}"#, 1).is_none());
    assert!(execute_scheduled_command(r#"{"arguments":{}}"#, 1).is_none());
}

fn fired(active: &mut AgentState, owner: Option<&str>, has_db: bool) -> (Vec<Output>, usize) {
    let call = execute_scheduled_command(r#"{"tool":"glob"}"#, 7).unwrap();
    let (assistant, tool) = scheduled_messages(call, Err("no glob".to_string()));
    assert_eq!(assistant.role, "assistant");
    assert_eq!(assistant.tool_calls.as_ref().unwrap()[0].id, "scheduled-task-7");
    assert_eq!(tool.role, "tool");
    assert_eq!(tool.content, Some("error: no glob".to_string()));
    assert_eq!(tool.tool_call_id, Some("scheduled-task-7".to_string()));
    assert_eq!(tool.name, Some("glob".to_string()));
    let owner = owner.map(|o| o.to_string());
    let report = task_fired(active, owner, "cmd", assistant, tool, has_db);
    (report.output, report.stored.len())
}

#[test]
fn a_task_goes_to_its_agent() {
    let from = |a: &str, t: &str| Output::FromAgent(a.to_string(), t.to_string());
    let mut me = agent("me");
    let (output, stored) = fired(&mut me, Some("me"), true);
    let shown = vec![from("me", "Scheduled task fired: cmd"), from("me", "error: no glob")];
    assert_eq!(output, shown);
    assert_eq!((stored, me.messages.len()), (0, 3));
    let (output, stored) = fired(&mut me, None, true);
    assert_eq!(output[0], from("default", "Scheduled task fired: cmd"));
    assert_eq!((stored, me.messages.len()), (2, 3));
    let (_, stored) = fired(&mut me, Some("bob"), false);
    assert_eq!((stored, me.messages.len()), (0, 3));
    let call = execute_scheduled_command(r#"{"tool":"glob"}"#, 7).unwrap();
    let answer = make_message("tool", "found".to_string());
    let (_, tool) = scheduled_messages(call, Ok(answer));
    assert_eq!(tool.content, Some("found".to_string()));
}

#[test]
fn messages_from_agents_are_read() {
    let plain = read_notification("bob", "hello");
    assert_eq!((plain.shown.as_str(), plain.finished), ("hello", None));
    assert_eq!(plain.injection, "[Message from agent 'bob']: hello");
    let text = r#"{"type":"subagent_result","agent":"bob","response":"42"}"#;
    let result = read_notification("bob", text);
    assert_eq!((result.shown.as_str(), result.finished), ("42", Some("bob".to_string())));
    let text = r#"{"type":"subagent_result"}"#;
    let result = read_notification("bob", text);
    assert_eq!((result.shown.as_str(), result.finished), (text, None));
    let text = r#"{"type":"other","agent":"bob","response":"42"}"#;
    let result = read_notification("bob", text);
    assert_eq!((result.shown.as_str(), result.finished), (text, None));
    assert_eq!(join_injections(&[]), None);
    assert_eq!(join_injections(&strings(&["a", "b"])), Some("a\nb".to_string()));
}

fn failed(text: &str) -> RequestError {
    RequestError::Failed(text.to_string())
}

#[test]
fn a_conversation_that_does_not_fit_is_summarized_once() {
    let text = || "e".to_string();
    let line = "Context length exceeded, summarizing the conversation and retrying...";
    let said = |role: &str, t: &str| make_message(role, t.to_string());
    let mut agent = AgentState { name: "a".to_string(), messages: vec![said("user", "q")] };
    assert_eq!(first_request(&agent), agent.messages);

    let history = vec![said("system", "p"), said("user", "q"), said("tool", "work")];
    let (step, shown) = after_first::<u8>(RequestEnd::Overflowed(text(), history));
    assert_eq!(shown, Some(line.to_string()));
    let FirstStep::Summarize(mut job, retry) = step else { panic!("no summary") };
    assert_eq!(retry, Retry { error: text(), count: 3 });
    assert!(job.request()[1].content.as_ref().unwrap().contains("work"));
    let reply = SummaryReply::Answered(Some("short".to_string()));
    let SummaryStep::Done(summary) = job.step(reply) else { panic!("no summary") };
    let second = after_summary(&mut agent, retry, Ok(summary)).unwrap();
    assert_eq!(second.messages, agent.messages);
    assert_eq!(second.messages[0], said("system", "p"));
    assert!(second.messages[1].content.as_ref().unwrap().contains("short"));
    assert_eq!(second.messages[2], said("user", "q"));
    assert_eq!(second.lines[0], "Conversation summarized: 3 messages -> 3.");
}

#[test]
fn other_ends_of_a_request() {
    let text = || "e".to_string();
    let fail = |end| match after_first::<u8>(end) {
        (FirstStep::Fail(e), shown) => (e, shown.is_some()),
        _ => panic!("no failure"),
    };
    assert!(matches!(after_first(RequestEnd::Answered(7)), (FirstStep::Done(7), None)));
    assert_eq!(
        fail(RequestEnd::Interrupted(text())),
        (RequestError::Interrupted(text()), false)
    );
    assert_eq!(fail(RequestEnd::Failed(text())), (failed("e"), false));
    assert_eq!(
        fail(RequestEnd::Overflowed(text(), vec![])),
        (failed("e (summarization failed: Nothing to summarize.)"), true)
    );

    let messages = || vec![make_message("user", "q".to_string())];
    let mut agent = AgentState { name: "a".to_string(), messages: messages() };
    let retry = || Retry { error: text(), count: 1 };
    assert_eq!(
        after_summary(&mut agent, retry(), Err(failed("f"))),
        Err(failed("e (summarization failed: f)"))
    );
    let stopped = || RequestError::Interrupted("f".to_string());
    assert_eq!(after_summary(&mut agent, retry(), Err(stopped())), Err(stopped()));
    assert_eq!(agent.messages, messages());

    assert_eq!(after_second(RequestEnd::Answered(7)), Ok(7));
    assert_eq!(after_second::<u8>(RequestEnd::Overflowed(text(), vec![])), Err(failed("e")));
    assert_eq!(
        after_second::<u8>(RequestEnd::Interrupted(text())),
        Err(RequestError::Interrupted(text()))
    );
    assert_eq!(after_second::<u8>(RequestEnd::Failed(text())), Err(failed("e")));
}

#[test]
fn a_response_that_was_cut_off_is_warned_of() {
    assert_eq!(warn_if_truncated(Some("length")), Some(TRUNCATED_LINE.to_string()));
    assert_eq!(warn_if_truncated(Some("stop")), None);
    assert_eq!(warn_if_truncated(None), None);
    let mut me = agent("me");
    let history = vec![make_message("user", "a".to_string())];
    let warning = Output::Line(TRUNCATED_LINE.to_string());
    let answer = Output::FromAgent("me".to_string(), "b".to_string());
    let output = response_received(&mut me, history, Some("length"), Some("b"), true);
    assert_eq!(output, vec![warning, answer]);
    assert_eq!(me.messages[0].content, Some("a".to_string()));
    let output = response_received(&mut me, Vec::<Message>::new(), Some("stop"), Some("b"), false);
    assert!(output.is_empty());
    assert!(me.messages.is_empty());
    let failed = |injected| request_failed(RequestError::Failed("x".to_string()), injected);
    assert_eq!(failed(true), Some("Error processing notification: x".to_string()));
    assert_eq!(failed(false), Some("Error: x".to_string()));
    assert_eq!(request_failed(RequestError::Interrupted("x".to_string()), false), None);
}

#[test]
fn a_summary_is_shown() {
    let mut me = agent("me");
    let summary = format!("{}short", SUMMARY_PREFIX);
    let kept = vec![
        make_message("system", "p".to_string()),
        make_message("system", summary.clone()),
    ];
    let lines = history_summarized(&mut me, 9, kept);
    assert_eq!(lines, vec!["Conversation summarized: 9 messages -> 2.".to_string(), summary]);
    assert_eq!(me.messages.len(), 2);
    let lines = history_summarized(&mut me, 2, vec![]);
    assert_eq!(lines, vec!["Conversation summarized: 2 messages -> 0."]);
}
