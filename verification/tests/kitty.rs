use base64::Engine;
use faber::kitty::{
    is_kitty_from_env, kitty_image_escape_sequences, parse_osc4_reply, tail_lines,
    whole_root_ro_bwrap_args, ANSWER_TEXT_ANSI_INDEX, ANSWER_TEXT_COLOR_FALLBACK,
    REASONING_TEXT_ANSI_INDEX, REASONING_TEXT_COLOR_FALLBACK,
};

#[test]
fn test_whole_root_ro_bwrap_args_binds_root_ro_and_cwd_rw() {
    let flags = whole_root_ro_bwrap_args("/tmp/scratch", "/usr/bin/pdflatex", None);
    assert!(!flags.contains(&"--clearenv".to_string()));

    let ro_pos = flags
        .windows(3)
        .position(|w| w == ["--ro-bind", "/", "/"])
        .expect("expected --ro-bind / /");
    let bind_pos = flags
        .windows(3)
        .position(|w| w == ["--bind", "/tmp/scratch", "/tmp/scratch"])
        .expect("expected --bind /tmp/scratch /tmp/scratch");
    assert!(bind_pos > ro_pos);

    assert_eq!(flags.last(), Some(&"/usr/bin/pdflatex".to_string()));
}

#[test]
fn test_whole_root_ro_bwrap_args_with_args_appends_them_after_the_command() {
    let flags = whole_root_ro_bwrap_args(
        "/tmp/scratch",
        "/usr/bin/pdftocairo",
        Some(&["-png".to_string(), "in.pdf".to_string()]),
    );
    let tail = &flags[flags.len() - 3..];
    assert_eq!(
        tail,
        &[
            "/usr/bin/pdftocairo".to_string(),
            "-png".to_string(),
            "in.pdf".to_string()
        ]
    );
}

#[test]
fn test_is_kitty_from_env_term_contains_kitty() {
    assert!(is_kitty_from_env(Some("xterm-kitty"), None));
}

#[test]
fn test_is_kitty_from_env_window_id_set() {
    assert!(is_kitty_from_env(Some("xterm-256color"), Some("1")));
}

#[test]
fn test_is_kitty_from_env_neither() {
    assert!(!is_kitty_from_env(Some("xterm-256color"), None));
    assert!(!is_kitty_from_env(None, None));
}

#[test]
fn test_kitty_image_escape_sequences_empty_png_is_empty() {
    assert!(kitty_image_escape_sequences(&[]).is_empty());
}

#[test]
fn test_kitty_image_escape_sequences_small_png_is_one_chunk() {
    let png = b"not a real png but small";
    let sequences = kitty_image_escape_sequences(png);
    assert_eq!(sequences.len(), 1);
    assert!(sequences[0].starts_with("\x1b_Ga=T,f=100,m=0;"));
    assert!(sequences[0].ends_with("\x1b\\"));

    let encoded = base64::engine::general_purpose::STANDARD.encode(png);
    assert!(sequences[0].contains(&encoded));
}

#[test]
fn test_kitty_image_escape_sequences_large_png_is_chunked_with_correct_more_flags() {
    let png = vec![0u8; 10_000];
    let sequences = kitty_image_escape_sequences(&png);
    assert!(sequences.len() > 1, "expected multiple chunks, got 1");

    for (i, seq) in sequences.iter().enumerate() {
        let is_last = i == sequences.len() - 1;
        if i == 0 {
            assert!(seq.starts_with("\x1b_Ga=T,f=100,m="));
        } else {
            assert!(seq.starts_with("\x1b_Gm="));
        }
        assert_eq!(seq.contains("m=0;"), is_last, "chunk {i}: {seq:?}");
        assert!(seq.ends_with("\x1b\\"));
    }

    let reassembled: String = sequences
        .iter()
        .map(|seq| {
            let payload_start = seq.find(';').unwrap() + 1;
            &seq[payload_start..seq.len() - 2] // strip trailing ESC \
        })
        .collect();
    let decoded = base64::engine::general_purpose::STANDARD
        .decode(reassembled)
        .unwrap();
    assert_eq!(decoded, png);
}

#[test]
fn test_tail_lines_keeps_only_the_last_n_nonempty_lines() {
    let text = "one\ntwo\n\nthree\nfour\nfive";
    assert_eq!(tail_lines(text, 2), "four\nfive");
    assert_eq!(tail_lines(text, 100), "one\ntwo\nthree\nfour\nfive");
}

#[test]
fn test_answer_and_reasoning_text_color_ansi_indices_are_distinct() {
    assert_ne!(ANSWER_TEXT_ANSI_INDEX, REASONING_TEXT_ANSI_INDEX);
}

#[test]
fn test_answer_and_reasoning_text_color_fallbacks_are_distinct() {
    assert_ne!(ANSWER_TEXT_COLOR_FALLBACK, REASONING_TEXT_COLOR_FALLBACK);
}

#[test]
fn test_parse_osc4_reply_bel_terminated() {
    let reply = b"\x1b]4;6;rgb:0000/ffff/ffff\x07";
    assert_eq!(parse_osc4_reply(reply, 6), Some((0, 255, 255)));
}

#[test]
fn test_parse_osc4_reply_st_terminated() {
    let reply = b"\x1b]4;6;rgb:8000/4000/2000\x1b\\";
    assert_eq!(parse_osc4_reply(reply, 6), Some((127, 63, 31)));
}

#[test]
fn test_parse_osc4_reply_wrong_index_is_rejected() {
    let reply = b"\x1b]4;3;rgb:ffff/ffff/ffff\x07";
    assert_eq!(parse_osc4_reply(reply, 6), None);
}

#[test]
fn test_parse_osc4_reply_garbage_is_rejected() {
    assert_eq!(parse_osc4_reply(b"not an osc4 reply at all", 6), None);
    assert_eq!(parse_osc4_reply(b"", 6), None);
}

#[test]
fn test_parse_osc4_reply_hash_format() {
    let reply = b"\x1b]4;6;#00ffff\x07";
    assert_eq!(parse_osc4_reply(reply, 6), Some((0, 254, 254)));
}
