use base64::Engine;
use faber::kitty::{
    after_pdflatex, after_pdftocairo, answer_text_color, bwrap_isolation_flags, color_query_text,
    display_png, frame_encoded, kitty_image_escape_sequences, not_found_message,
    parse_osc4_reply, pdflatex_args, pdftocairo_args, reasoning_text_color, scale_color,
    take_reply_byte, ANSWER_TEXT_COLOR_FALLBACK, REASONING_TEXT_COLOR_FALLBACK, REPLY_LIMIT,
};
use faber::latex_doc::{full_latex_document, math_placeholder, math_placeholder_index};
use faber::latex_split::{split_latex_segments, LatexSplitter, StreamSegment};
use faber::status_bar::{
    build_status_line, more_suffix, shown_entry, spinner_char, tick, LineState, StatusEntries,
    CYCLE_TICKS, SPINNER_COUNT,
};

#[test]
fn an_image_is_framed() {
    assert_eq!(frame_encoded("abcd"), vec!["\u{1b}_Ga=T,f=100,m=0;abcd\u{1b}\\"]);
    assert_eq!(display_png(b""), None);
    let shown = display_png(b"Man").unwrap();
    assert_eq!(shown, "\u{1b}_Ga=T,f=100,m=0;TWFu\u{1b}\\\n");
    let png: Vec<u8> = (0..7000u32).map(|i| i as u8).collect();
    let payload: String = kitty_image_escape_sequences(&png)
        .iter()
        .map(|s| s.trim_end_matches("\u{1b}\\").split(';').nth(1).unwrap().to_string())
        .collect();
    assert_eq!(base64::engine::general_purpose::STANDARD.decode(payload).unwrap(), png);
}

#[test]
fn colors_are_asked_for_and_read() {
    assert_eq!(color_query_text(6), "\u{1b}]4;6;?\u{7}");
    let reply = b"\x1b]4;6;rgb:ffff/8080/0000\x07";
    let mut buf = Vec::new();
    let ends: Vec<bool> = reply.iter().map(|b| take_reply_byte(&mut buf, *b)).collect();
    assert_eq!(ends.iter().filter(|e| **e).count(), 1);
    assert_eq!(ends.last(), Some(&true));
    assert_eq!(answer_text_color(&buf), (255, 128, 0));
    assert_eq!(reasoning_text_color(&buf), REASONING_TEXT_COLOR_FALLBACK);
    assert_eq!(reasoning_text_color(b"\x1b]4;244;rgb:0000/0000/ffff\x1b\\"), (0, 0, 255));
    assert_eq!(answer_text_color(b""), ANSWER_TEXT_COLOR_FALLBACK);
    assert_eq!(parse_osc4_reply("\u{1b}]4;6;#é\u{7}".as_bytes(), 6), None);
    assert_eq!(scale_color((0, 257, 65535)), (0, 1, 255));
    let mut buf = vec![b'x'; REPLY_LIMIT];
    assert!(take_reply_byte(&mut buf, b'x'));
    let mut buf = vec![27];
    assert!(take_reply_byte(&mut buf, b'\\'));
    assert!(!take_reply_byte(&mut buf, b'\\'));
}

#[test]
fn the_latex_programs_are_called() {
    assert_eq!(
        pdflatex_args("/d", "/d/x.tex"),
        vec![
            "-interaction=nonstopmode",
            "-halt-on-error",
            "-output-directory",
            "/d",
            "/d/x.tex",
        ]
    );
    assert_eq!(
        pdftocairo_args("a.pdf", "a"),
        vec!["-png", "-transp", "-singlefile", "-r", "150", "a.pdf", "a"]
    );
    assert_eq!(
        bwrap_isolation_flags(),
        vec!["--unshare-all", "--die-with-parent", "--new-session", "--cap-drop", "ALL"]
    );
    assert_eq!(after_pdflatex(true, "x"), Ok(()));
    let log: String = (0..20).map(|i| format!("l{}\n\n", i)).collect();
    let error = after_pdflatex(false, &log).unwrap_err();
    assert!(error.starts_with("pdflatex failed to compile the LaTeX block:\nl5\nl6\n"));
    assert!(error.ends_with("\nl19"));
    assert_eq!(after_pdftocairo(true, "", true), Ok(()));
    assert_eq!(
        after_pdftocairo(false, "e\n", true),
        Err("pdftocairo failed to rasterize the rendered PDF:\ne".to_string())
    );
    assert_eq!(
        after_pdftocairo(true, "", false),
        Err("pdftocairo didn't produce a PNG file".to_string())
    );
    assert_eq!(not_found_message("bwrap", "install it"), "bwrap not found on PATH - install it");
}

#[test]
fn placeholders_come_back_up_to_the_last() {
    for index in [0, 1, 0xfffc, 0xfffd] {
        assert_eq!(math_placeholder_index(math_placeholder(index)), Some(index));
    }
    assert_eq!(math_placeholder_index(math_placeholder(0xfffe)), None);
    assert_eq!(math_placeholder_index('\u{effff}'), None);
    let document = full_latex_document("**a** $$x$$", (1, 2, 3));
    assert!(document.contains("\\textbf{a}"));
    assert!(document.contains("$$x$$"));
}

#[test]
fn splitting_loses_nothing_however_it_is_streamed() {
    let text = "a $$x$$ b \\(y\\) \\[z $ c";
    let whole = split_latex_segments(text);
    let content = |s: &StreamSegment| match s {
        StreamSegment::Text(t) => t.clone(),
        StreamSegment::Latex(t) => t.clone(),
    };
    assert_eq!(whole.iter().map(content).collect::<String>(), text);
    let mut splitter = LatexSplitter::new();
    let mut streamed = String::new();
    for c in text.chars() {
        for s in splitter.push(&c.to_string()) {
            streamed.push_str(&content(&s));
        }
    }
    for s in splitter.finish() {
        streamed.push_str(&content(&s));
    }
    assert_eq!(streamed, text);
}

#[test]
fn an_agent_has_its_color_in_the_status_line() {
    let line = build_status_line(35, "x", "bob", "busy", "1.0", "", 80);
    assert_eq!(
        line,
        "\u{1b}[36m x \u{1b}[35mbob\u{1b}[36m: busy \u{1b}[0m\u{1b}[90m│ 1.0s\u{1b}[0m"
    );
    let line = build_status_line(35, "x", "bob", "busy", "1.0", "", 10);
    assert_eq!(line, "\u{1b}[36m x bob: …\u{1b}[0m");
}

#[test]
fn the_entries_of_the_status_line() {
    let mut s = StatusEntries::new(true);
    s.set_agent_status("a", "one", true, 5);
    s.set_color(31);
    s.set_agent_status("b", "two", true, 6);
    s.set_agent_status("a", "three", false, 9);
    s.set_agent_color("b", 32);
    s.set_agent_color("z", 33);
    let shown: Vec<(&str, &str, u64, u8)> = s
        .entries
        .iter()
        .map(|e| (e.name.as_str(), e.message.as_str(), e.started_ms, e.color))
        .collect();
    assert_eq!(shown, vec![("a", "three", 5, 36), ("b", "two", 6, 32)]);
    s.set_agent_status("a", "four", true, 11);
    assert_eq!(s.entries[0].started_ms, 11);
    s.clear_agent_status("a");
    assert_eq!(s.entries.len(), 1);
    assert_eq!(s.entries[0].name, "b");
    let mut off = StatusEntries::new(false);
    off.set_agent_status("a", "one", true, 5);
    assert!(off.entries.is_empty());
}

#[test]
fn the_spinner_turns() {
    assert_eq!(shown_entry(0, 0, false), None);
    assert_eq!(shown_entry(0, 3, true), None);
    assert_eq!(shown_entry(99, 1, false), Some(0));
    assert_eq!(shown_entry(2 * CYCLE_TICKS + 1, 3, false), Some(2));
    assert_eq!(shown_entry(3 * CYCLE_TICKS, 3, false), Some(0));
    assert_eq!(spinner_char(0), "⣾");
    assert_eq!(spinner_char(SPINNER_COUNT), spinner_char(0));
    assert_ne!(spinner_char(1), spinner_char(2));
    assert_eq!(more_suffix(1), "");
    assert_eq!(more_suffix(3), " (+2 more)");
    let empty = |s| ("".to_string(), s);
    assert_eq!(tick(LineState::Partial, Some("x"), true), empty(LineState::Partial));
    assert_eq!(tick(LineState::Empty, None, false), empty(LineState::Empty));
    assert_eq!(tick(LineState::Empty, Some("x"), false).1, LineState::Spinner);
    assert_eq!(tick(LineState::Spinner, None, true).1, LineState::Empty);
}
