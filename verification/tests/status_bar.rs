use faber::status_bar::{apply, build_status_line, LineOp, LineState};

/// The text without its color sequences: what takes up columns on the screen.
fn visible(s: &str) -> String {
    let mut out = String::new();
    let mut chars = s.chars();
    while let Some(c) = chars.next() {
        if c == '\x1b' {
            for c in chars.by_ref() {
                if c == 'm' {
                    break;
                }
            }
        } else {
            out.push(c);
        }
    }
    out
}

#[test]
fn test_apply_complete_line_from_empty_has_no_prefix() {
    let (bytes, state) = apply(LineState::Empty, LineOp::CompleteLine("done\n"));
    assert_eq!(bytes, "done\n");
    assert_eq!(state, LineState::Empty);
}

#[test]
fn test_apply_complete_line_erases_spinner() {
    let (bytes, state) = apply(LineState::Spinner, LineOp::CompleteLine("done\n"));
    assert_eq!(bytes, "\r\x1b[2Kdone\n");
    assert_eq!(state, LineState::Empty);
}

#[test]
fn test_apply_complete_line_closes_open_partial_with_newline() {
    let (bytes, state) = apply(LineState::Partial, LineOp::CompleteLine("done\n"));
    assert_eq!(bytes, "\ndone\n");
    assert_eq!(state, LineState::Empty);
}

#[test]
fn test_apply_partial_empty_text_is_a_no_op() {
    for state in [LineState::Empty, LineState::Spinner, LineState::Partial] {
        let (bytes, new_state) = apply(state, LineOp::Partial(""));
        assert_eq!(bytes, "");
        assert_eq!(new_state, state);
    }
}

#[test]
fn test_apply_partial_from_empty_just_writes_the_text() {
    let (bytes, state) = apply(LineState::Empty, LineOp::Partial("hi"));
    assert_eq!(bytes, "hi");
    assert_eq!(state, LineState::Partial);
}

#[test]
fn test_apply_partial_erases_spinner_first() {
    let (bytes, state) = apply(LineState::Spinner, LineOp::Partial("hi"));
    assert_eq!(bytes, "\r\x1b[2Khi");
    assert_eq!(state, LineState::Partial);
}

#[test]
fn test_apply_partial_continuing_an_open_line_just_appends() {
    let (bytes, state) = apply(LineState::Partial, LineOp::Partial("hi"));
    assert_eq!(bytes, "hi");
    assert_eq!(state, LineState::Partial);
}

#[test]
fn test_apply_newline_from_empty_writes_a_bare_newline() {
    let (bytes, state) = apply(LineState::Empty, LineOp::Newline);
    assert_eq!(bytes, "\n");
    assert_eq!(state, LineState::Empty);
}

#[test]
fn test_apply_newline_from_partial_appends_newline() {
    let (bytes, state) = apply(LineState::Partial, LineOp::Newline);
    assert_eq!(bytes, "\n");
    assert_eq!(state, LineState::Empty);
}

#[test]
fn test_apply_newline_from_spinner_erases_then_writes_newline() {
    let (bytes, state) = apply(LineState::Spinner, LineOp::Newline);
    assert_eq!(bytes, "\r\x1b[2K\n");
    assert_eq!(state, LineState::Empty);
}

#[test]
fn test_apply_finish_from_empty_is_a_no_op() {
    let (bytes, state) = apply(LineState::Empty, LineOp::Finish);
    assert_eq!(bytes, "");
    assert_eq!(state, LineState::Empty);
}

#[test]
fn test_apply_finish_from_partial_closes_it() {
    let (bytes, state) = apply(LineState::Partial, LineOp::Finish);
    assert_eq!(bytes, "\n");
    assert_eq!(state, LineState::Empty);
}

#[test]
fn test_apply_finish_from_spinner_is_a_no_op() {
    let (bytes, state) = apply(LineState::Spinner, LineOp::Finish);
    assert_eq!(bytes, "");
    assert_eq!(state, LineState::Spinner);
}

#[test]
fn test_apply_draw_spinner_from_empty() {
    let (bytes, state) = apply(LineState::Empty, LineOp::DrawSpinner("[spin]"));
    assert_eq!(bytes, "[spin]");
    assert_eq!(state, LineState::Spinner);
}

#[test]
fn test_apply_draw_spinner_erases_previous_frame() {
    let (bytes, state) = apply(LineState::Spinner, LineOp::DrawSpinner("[spin2]"));
    assert_eq!(bytes, "\r\x1b[2K[spin2]");
    assert_eq!(state, LineState::Spinner);
}

#[test]
fn test_apply_clear_spinner_erases_only_when_shown() {
    let (bytes, state) = apply(LineState::Spinner, LineOp::ClearSpinner);
    assert_eq!(bytes, "\r\x1b[2K");
    assert_eq!(state, LineState::Empty);

    for state_in in [LineState::Empty, LineState::Partial] {
        let (bytes, state_out) = apply(state_in, LineOp::ClearSpinner);
        assert_eq!(bytes, "");
        assert_eq!(state_out, state_in);
    }
}

#[test]
fn test_build_status_line_fits_keeps_two_tone_style() {
    let line = build_status_line(36, "⣾", "default", "Thinking", "1.2", "", 80);
    assert!(line.contains("\x1b[36m"));
    assert!(line.contains("\x1b[90m"));
    assert_eq!(visible(&line), " ⣾ default: Thinking │ 1.2s");
}

#[test]
fn test_build_status_line_includes_suffix_when_it_fits() {
    let line = build_status_line(36, "⣾", "default", "Thinking", "1.2", " (+2 more)", 80);
    assert_eq!(visible(&line), " ⣾ default: Thinking │ 1.2s (+2 more)");
}

#[test]
fn test_build_status_line_truncates_instead_of_wrapping() {
    let long_message = "Streaming (128829 bytes, 450 chunks)".repeat(3);
    let line = build_status_line(36, "⣾", "default", &long_message, "12.3", "", 40);
    let shown = visible(&line);
    assert!(
        shown.chars().count() <= 39,
        "visible line is {} chars, wider than the 40-column terminal: {:?}",
        shown.chars().count(),
        shown
    );
    assert!(shown.ends_with('…'));
    assert!(!shown.contains('\n'));
}

#[test]
fn test_build_status_line_never_exceeds_terminal_width() {
    let long_message = "x".repeat(500);
    for cols in [0usize, 1, 2, 10, 20, 40, 80, 200] {
        let line = build_status_line(
            36,
            "⣾",
            "agent-name",
            &long_message,
            "999.9",
            " (+9 more)",
            cols,
        );
        let width = visible(&line).chars().count();
        let budget = cols.saturating_sub(1).max(1);
        assert!(
            width <= budget,
            "cols={} allowed budget={} but produced a {}-char visible line: {:?}",
            cols,
            budget,
            width,
            line
        );
    }
}

#[test]
fn test_build_status_line_short_terminal_does_not_panic() {
    for cols in [0, 1, 2, 3] {
        let _ = build_status_line(36, "⣾", "default", "Thinking", "0.0", "", cols);
    }
}
