use faber::messages::Usage;
use faber::progress::{
    complete_text, framed_line, stream_ops, LineStreamer, ProgressAction, ResponseState,
    StatusUpdate, StreamOp,
};

fn text(t: &str) -> StreamOp {
    StreamOp::Text(t.to_string())
}

fn status(t: &str, anew: bool) -> ProgressAction {
    ProgressAction::Status(t.to_string(), anew)
}

fn print(t: &str) -> ProgressAction {
    ProgressAction::Print(t.to_string())
}

#[test]
fn lines_come_out_when_they_are_complete() {
    let mut s = LineStreamer::new();
    assert!(s.push("one").is_empty());
    assert_eq!(s.push(" more\ntwo\n\nthr"), vec!["one more", "two", ""]);
    assert_eq!(s.push("ee"), Vec::<String>::new());
    assert_eq!(s.push(""), vec!["three"]);
    assert_eq!(s.push(""), Vec::<String>::new());
}

#[test]
fn chunks_are_shown_as_they_come() {
    assert_eq!(stream_ops("a"), vec![text("a")]);
    assert_eq!(
        stream_ops("a\n\nb"),
        vec![text("a"), StreamOp::Break, text(""), StreamOp::Break, text("b")]
    );
    assert_eq!(stream_ops(""), vec![StreamOp::Close]);
}

#[test]
fn a_request_shows_its_progress() {
    let mut s = ResponseState::new();
    assert_eq!(
        s.update(StatusUpdate::Continuing { sent: 1234 }),
        vec![status("Waiting for response (1234 sent)", true)]
    );
    assert_eq!(s.update(StatusUpdate::Thinking), vec![status("Thinking", true)]);
    assert_eq!(
        s.update(StatusUpdate::StreamProcessing { bytes_read: 10, chunks_processed: 2 }),
        vec![status("Streaming (10 bytes, 2 chunks)", false)]
    );
    let accumulating = |arguments: &str| StatusUpdate::ToolAccumulating {
        name: "read_file".to_string(),
        arguments: arguments.to_string(),
    };
    assert_eq!(
        s.update(accumulating("{\"pa")),
        vec![status("Preparing read_file (4 chars)", false)]
    );
    assert_eq!(
        s.update(accumulating("{\"path\":\"a\",\"x")),
        vec![status("Preparing read_file(path=\"a\")", false)]
    );
}

#[test]
fn the_output_of_a_tool_is_framed() {
    let mut s = ResponseState::new();
    assert!(s.shows("x"));
    let start = StatusUpdate::ToolStart {
        name: "glob".to_string(),
        arguments: "{\"pattern\":\"*\"}".to_string(),
    };
    assert_eq!(
        s.update(start),
        vec![
            status("Running glob({\"pattern\":\"*\"})", true),
            print("── glob({\"pattern\":\"*\"}) ──"),
        ]
    );
    assert!(!s.shows("x"));
    assert!(s.shows(""));
    assert_eq!(framed_line("out"), "│ out");
    let done = StatusUpdate::ToolComplete { name: "glob".to_string(), secs: "0.3".to_string() };
    assert_eq!(s.update(done), vec![print("── glob done in 0.3s ──")]);
    assert!(s.shows("x"));
}

#[test]
fn after_the_end_nothing_more_is_done() {
    let mut s = ResponseState::new();
    let end = || StatusUpdate::Complete { usage: None, secs: "1.5".to_string() };
    assert_eq!(s.update(end()), vec![ProgressAction::Clear, print("Complete | 1.5s")]);
    assert!(s.update(end()).is_empty());
    assert!(s.update(StatusUpdate::Thinking).is_empty());
}

#[test]
fn token_counts_are_shown_where_they_are_known() {
    let usage = |a, b, c| {
        Some(Usage { prompt_tokens: a, completion_tokens: b, total_tokens: c })
    };
    assert_eq!(
        complete_text(usage(Some(1), Some(2), Some(3)), "0.1"),
        "Complete | Input: 1 > Output: 2 > Total: 3 | 0.1s"
    );
    assert_eq!(complete_text(usage(None, Some(2), None), "0.1"), "Complete | Output: 2 | 0.1s");
    assert_eq!(complete_text(usage(None, None, None), "0.1"), "Complete | 0.1s");
}
