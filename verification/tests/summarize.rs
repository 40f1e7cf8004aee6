use faber::dummy_llm::{post_request_dummy, DummyTurn};
use faber::messages::{make_message, FunctionCall, Message, ToolCall};
use faber::summarize::{
    is_summary, render_transcript, summarize_conversation, truncate, SummaryReply, SummaryStep,
    MAX_MESSAGE_CHARS, SUMMARY_PREFIX,
};

/// Summarizes a conversation with the answers of the dummy model.
fn summarized_by_dummy(messages: &[Message], keep_last_user: bool) -> Result<Vec<Message>, String> {
    let mut job = summarize_conversation(messages, keep_last_user)?;
    loop {
        let mut request = job.request();
        let reply = match post_request_dummy(&mut request, 0, false, false) {
            DummyTurn::TooLong(e) => SummaryReply::TooLong(e),
            DummyTurn::Interrupted(e) => SummaryReply::Failed(e),
            DummyTurn::CallTool(_) => panic!("no tools were offered"),
            DummyTurn::Finished(a) => SummaryReply::Answered(a.message.content),
        };
        match job.step(reply) {
            SummaryStep::Again => continue,
            SummaryStep::Done(list) => return Ok(list),
            SummaryStep::Failed(e) => return Err(e),
        }
    }
}

fn tool_call_message() -> Message {
    Message {
        role: "assistant".to_string(),
        content: None,
        tool_call_id: None,
        name: None,
        tool_calls: Some(vec![ToolCall {
            index: None,
            id: "call_1".to_string(),
            tool_type: "function".to_string(),
            function: FunctionCall {
                name: "read_file".to_string(),
                arguments: r#"{"path":"a.rs"}"#.to_string(),
            },
        }]),
    }
}

#[test]
fn truncate_respects_char_boundaries() {
    assert_eq!(truncate("héllo", 10), "héllo");
    assert_eq!(truncate("héllo", 2), "hé... [3 more characters]");
}

#[test]
fn transcript_shows_tool_calls_and_truncates_results() {
    let mut result = make_message("tool", "x".repeat(MAX_MESSAGE_CHARS + 50));
    result.name = Some("read_file".to_string());
    let transcript = render_transcript(&[
        make_message("user", "look at a.rs".to_string()),
        tool_call_message(),
        result,
    ]);
    assert!(transcript.contains("[user]\nlook at a.rs"));
    assert!(transcript.contains(r#"(called tool read_file with {"path":"a.rs"})"#));
    assert!(transcript.contains("[tool result: read_file]"));
    assert!(transcript.contains("... [50 more characters]"));
}

#[test]
fn summary_replaces_conversation_but_keeps_prompts() {
    let messages = vec![
        make_message("system", "be helpful".to_string()),
        make_message("user", "first".to_string()),
        make_message("assistant", "answer".to_string()),
        make_message("user", "second".to_string()),
    ];
    let summarized = summarized_by_dummy(&messages, false).unwrap();
    assert_eq!(summarized.len(), 2);
    assert_eq!(summarized[0].content.as_deref(), Some("be helpful"));
    assert!(is_summary(&summarized[1]));
}

#[test]
fn pending_user_message_is_kept_after_summary() {
    let messages = vec![
        make_message("user", "first".to_string()),
        make_message("assistant", "answer".to_string()),
        make_message("user", "second".to_string()),
    ];
    let summarized = summarized_by_dummy(&messages, true).unwrap();
    assert_eq!(summarized.len(), 2);
    assert!(is_summary(&summarized[0]));
    assert_eq!(summarized[1].role, "user");
    assert_eq!(summarized[1].content.as_deref(), Some("second"));
}

#[test]
fn earlier_summary_is_folded_into_the_new_one() {
    let messages = vec![
        make_message("system", format!("{}old facts", SUMMARY_PREFIX)),
        make_message("user", "more".to_string()),
    ];
    let summarized = summarized_by_dummy(&messages, false).unwrap();
    assert_eq!(summarized.iter().filter(|m| is_summary(m)).count(), 1);
    assert!(
        !summarized[0]
            .content
            .as_deref()
            .unwrap()
            .contains("old facts")
    );
}

#[test]
fn nothing_to_summarize() {
    let messages = vec![make_message("system", "be helpful".to_string())];
    assert!(summarized_by_dummy(&messages, false).is_err());
}

#[test]
fn oversized_transcript_is_shrunk_until_it_fits() {
    let messages: Vec<Message> = (0..200)
        .map(|i| make_message("user", format!("{} {}", i, "y".repeat(MAX_MESSAGE_CHARS))))
        .collect();
    let summarized = summarized_by_dummy(&messages, false).unwrap();
    assert_eq!(summarized.len(), 1);
    assert!(is_summary(&summarized[0]));
}
