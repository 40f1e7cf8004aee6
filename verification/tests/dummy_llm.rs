use faber::dummy_llm::{
    conversation_chars, is_dummy_model, last_user_message, make_long_text, make_normal_text,
    make_tool_call_response, parse_dummy_command, post_request_dummy, stream_chunks,
    DummyCommand, DummyTurn, CONTEXT_LIMIT_CHARS, MAX_LINES,
};
use faber::messages::{make_message, Message};

fn user(text: &str) -> Message {
    make_message("user", text.to_string())
}

#[test]
fn two_names_stand_for_the_built_in_model() {
    assert!(is_dummy_model("dummy"));
    assert!(is_dummy_model("test"));
    assert!(!is_dummy_model("Dummy"));
    assert!(!is_dummy_model("gpt"));
}

#[test]
fn commands_ask_for_a_number_of_lines() {
    assert_eq!(parse_dummy_command(" long "), DummyCommand::Long(50));
    assert_eq!(parse_dummy_command("long 7"), DummyCommand::Long(7));
    assert_eq!(parse_dummy_command("slow"), DummyCommand::Slow(20));
    assert_eq!(parse_dummy_command("slow   3"), DummyCommand::Slow(3));
    assert_eq!(parse_dummy_command("longer"), DummyCommand::Normal);
    assert_eq!(parse_dummy_command("long x"), DummyCommand::Normal);
    assert_eq!(parse_dummy_command("slow -1"), DummyCommand::Normal);
    assert_eq!(parse_dummy_command("hello"), DummyCommand::Normal);
    assert_eq!(DummyCommand::Slow(1).word_delay_ms(), 200);
    assert_eq!(DummyCommand::Long(1).word_delay_ms(), 15);
    assert!(!DummyCommand::Normal.forces_text());
    assert!(DummyCommand::Slow(1).forces_text());
}

#[test]
fn long_answers_are_bounded() {
    let text = make_long_text(12);
    assert_eq!(text.lines().count(), 12);
    assert!(text.starts_with("Line   1: The quick brown fox jumps over the lazy dog. "));
    assert!(text.lines().last().unwrap().starts_with("Line  12: "));
    assert_eq!(make_long_text(0), "");
    assert_eq!(make_long_text(MAX_LINES + 5).lines().count(), MAX_LINES);
}

#[test]
fn the_usual_answer_begins_with_a_section_of_the_turn() {
    let text = make_normal_text(5, 3);
    assert!(text.starts_with(
        "Dummy response #5 (conversation has 3 messages).\n\n## Observations\n\n"
    ));
    assert!(text.ends_with(
        "This was turn 5 of the conversation. 3 messages have been exchanged so far."
    ));
    let headings: Vec<&str> = text.lines().filter(|l| l.starts_with("## ")).collect();
    assert_eq!(
        headings,
        vec!["## Observations", "## Recommendations", "## Next steps", "## Analysis"]
    );
}

#[test]
fn every_other_turn_calls_a_tool() {
    let mut list = vec![user("hello")];
    match post_request_dummy(&mut list, 1, true, false) {
        DummyTurn::CallTool(a) => {
            let call = &a.message.tool_calls.as_ref().unwrap()[0];
            assert_eq!((call.id.as_str(), call.index), ("call_dummy_1", Some(0)));
            assert_eq!(call.function.name, "read_file");
            assert_eq!(a.finish_reason, "tool_calls");
        }
        _ => panic!("no tool was called"),
    }
    assert_eq!(list.len(), 2);
    list.push(make_message("tool", "result".to_string()));
    match post_request_dummy(&mut list, 1, true, false) {
        DummyTurn::Finished(a) => {
            assert_eq!(a.finish_reason, "stop");
            assert_eq!(a.usage.completion_tokens, Some(20));
            assert_eq!(a.usage.total_tokens, Some(30));
        }
        _ => panic!("the tool result was not answered"),
    }
    assert_eq!(list.len(), 4);
    let answers = |text: &str, turn, has_tools| {
        let mut list = vec![user(text)];
        matches!(post_request_dummy(&mut list, turn, has_tools, false), DummyTurn::Finished(_))
    };
    assert!(answers("hello", 2, true));
    assert!(answers("hello", 1, false));
    assert!(answers("long 2", 1, true));
    assert!(!answers("hello", 3, true));
}

#[test]
fn tools_are_called_in_turn() {
    let name = |turn| {
        make_tool_call_response(turn).message.tool_calls.unwrap()[0].function.name.clone()
    };
    let names: Vec<String> = (0..6).map(|i| name(2 * i + 1)).collect();
    assert_eq!(
        names,
        vec!["read_file", "write_file", "write_file", "run_command", "glob", "read_file"]
    );
}

#[test]
fn a_conversation_that_is_too_long_is_rejected() {
    let mut list = vec![user(&"x".repeat(CONTEXT_LIMIT_CHARS + 1))];
    assert_eq!(conversation_chars(&list), CONTEXT_LIMIT_CHARS + 1);
    match post_request_dummy(&mut list, 0, true, false) {
        DummyTurn::TooLong(e) => assert_eq!(
            e,
            "got API error code: 400: This model's maximum context length is 15000 characters, \
             however the request has 15001 characters (context_length_exceeded)"
        ),
        _ => panic!("it was not rejected"),
    }
    assert_eq!(list.len(), 1);
    match post_request_dummy(&mut list, 0, true, true) {
        DummyTurn::Interrupted(e) => assert_eq!(e, "Interrupted by user"),
        _ => panic!("it was not interrupted"),
    }
    let mut list = vec![user(&"x".repeat(CONTEXT_LIMIT_CHARS))];
    assert!(matches!(post_request_dummy(&mut list, 0, true, false), DummyTurn::Finished(_)));
}

#[test]
fn answers_are_streamed_word_by_word() {
    assert_eq!(stream_chunks("a  b\n\nc"), vec!["a ", "b ", "\n", "\n", "c ", "\n", ""]);
    assert_eq!(stream_chunks(""), vec!["\n", ""]);
    let list = vec![user("one"), user("two"), make_message("assistant", "three".to_string())];
    assert_eq!(last_user_message(&list), "two");
    assert_eq!(last_user_message(&[]), "");
}
