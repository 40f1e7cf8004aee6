use faber::latex_split::{split_latex_segments, LatexSplitter, StreamSegment};

fn segments_latex(events: &[StreamSegment]) -> Vec<&str> {
    events
        .iter()
        .filter_map(|e| match e {
            StreamSegment::Latex(t) => Some(t.as_str()),
            StreamSegment::Text(_) => None,
        })
        .collect()
}

fn segments_concat(events: &[StreamSegment]) -> String {
    events
        .iter()
        .map(|e| match e {
            StreamSegment::Text(t) => t.as_str(),
            StreamSegment::Latex(t) => t.as_str(),
        })
        .collect()
}

#[test]
fn test_split_latex_segments_plain_text_is_one_text_segment() {
    let events = split_latex_segments("just plain text, no math here");
    assert_eq!(
        events,
        vec![StreamSegment::Text(
            "just plain text, no math here".to_string()
        )]
    );
}

#[test]
fn test_split_latex_segments_single_block() {
    let events = split_latex_segments("before \\[ x \\] after");
    assert_eq!(
        events,
        vec![
            StreamSegment::Text("before ".to_string()),
            StreamSegment::Latex("\\[ x \\]".to_string()),
            StreamSegment::Text(" after".to_string()),
        ]
    );
}

#[test]
fn test_split_latex_segments_bracket_dollar_and_paren_delimiters() {
    let text = "The answer is \\[ \\boxed{\\frac{N(N+1)}{2}} \\] and $$ x^2 $$ and \\( y \\).";
    let events = split_latex_segments(text);
    assert_eq!(
        segments_latex(&events),
        vec![
            "\\[ \\boxed{\\frac{N(N+1)}{2}} \\]",
            "$$ x^2 $$",
            "\\( y \\)"
        ]
    );
    assert_eq!(segments_concat(&events), text);
}

#[test]
fn test_split_latex_segments_no_math_is_one_text_segment() {
    let events = split_latex_segments("just plain text, no math here");
    assert_eq!(segments_latex(&events), Vec::<&str>::new());
    assert_eq!(segments_concat(&events), "just plain text, no math here");
}

#[test]
fn test_split_latex_segments_unterminated_delimiter_is_skipped_not_fatal() {
    let text = "stray \\( never closed here. later: \\[ \\boxed{x} \\]";
    let events = split_latex_segments(text);
    assert_eq!(segments_latex(&events), vec!["\\[ \\boxed{x} \\]"]);
    assert_eq!(segments_concat(&events), text);
}

#[test]
fn test_split_latex_segments_multiple_unterminated_delimiters_dont_compound() {
    let text = "\\( one. \\( two. valid: \\[ z \\]";
    let events = split_latex_segments(text);
    assert_eq!(segments_latex(&events), vec!["\\[ z \\]"]);
    assert_eq!(segments_concat(&events), text);
}

#[test]
fn test_split_latex_segments_unterminated_block_flushed_as_text_at_finish() {
    let mut splitter = LatexSplitter::new();
    let mut events = splitter.push("leading \\[ never closed");
    assert_eq!(events, vec![StreamSegment::Text("leading ".to_string())]);
    events.extend(splitter.finish());
    assert_eq!(segments_latex(&events), Vec::<&str>::new());
    assert_eq!(segments_concat(&events), "leading \\[ never closed");
}

#[test]
fn test_split_latex_segments_pending_dollar_and_backslash_resolve_later() {
    let mut splitter = LatexSplitter::new();
    assert_eq!(
        splitter.push("price is $"),
        vec![StreamSegment::Text("price is ".to_string())]
    );
    assert_eq!(
        splitter.push("5 today"),
        vec![StreamSegment::Text("$5 today".to_string())]
    );

    let mut splitter2 = LatexSplitter::new();
    assert_eq!(
        splitter2.push("note the \\"),
        vec![StreamSegment::Text("note the ".to_string())]
    );
    assert_eq!(
        splitter2.push("nother thing"),
        vec![StreamSegment::Text("\\nother thing".to_string())]
    );
}

#[test]
fn test_split_latex_segments_pending_dollar_resolves_into_a_real_block() {
    let mut splitter = LatexSplitter::new();
    assert_eq!(
        splitter.push("see: $"),
        vec![StreamSegment::Text("see: ".to_string())]
    );
    assert_eq!(
        splitter.push("$ x^2 $$ done"),
        vec![
            StreamSegment::Latex("$$ x^2 $$".to_string()),
            StreamSegment::Text(" done".to_string()),
        ]
    );
}

#[test]
fn test_split_latex_segments_byte_by_byte_matches_one_shot() {
    let text = "The answer is \\[ \\boxed{\\frac{N(N+1)}{2}} \\] and $$ x^2 $$ and \\( y \\). Also stray \\( unmatched, then more text.";
    let one_shot = split_latex_segments(text);

    let mut splitter = LatexSplitter::new();
    let mut streamed = Vec::new();
    for ch in text.chars() {
        streamed.extend(splitter.push(&ch.to_string()));
    }
    streamed.extend(splitter.finish());

    assert_eq!(segments_concat(&streamed), text);
    assert_eq!(segments_latex(&streamed), segments_latex(&one_shot));
}

#[test]
fn test_split_latex_segments_dollar_then_end_of_stream_is_flushed_literally() {
    let mut splitter = LatexSplitter::new();
    splitter.push("trailing dollar $");
    let events = splitter.finish();
    assert_eq!(events, vec![StreamSegment::Text("$".to_string())]);
}

#[test]
fn test_split_latex_segments_empty_input_is_empty() {
    assert!(split_latex_segments("").is_empty());
    let mut splitter = LatexSplitter::new();
    assert!(splitter.push("").is_empty());
    assert!(splitter.finish().is_empty());
}

#[test]
fn test_split_latex_segments_block_split_across_many_small_chunks() {
    let mut splitter = LatexSplitter::new();
    let mut events = Vec::new();
    for piece in ["before ", "\\", "[", " x ", "\\", "] after"] {
        events.extend(splitter.push(piece));
    }
    events.extend(splitter.finish());
    assert_eq!(
        events,
        vec![
            StreamSegment::Text("before ".to_string()),
            StreamSegment::Latex("\\[ x \\]".to_string()),
            StreamSegment::Text(" after".to_string()),
        ]
    );
}

#[test]
fn test_split_latex_segments_real_multi_block_response() {
    let text = "**Step\u{2011}by\u{2011}step reasoning**\n\n1. Let \\(S_N\\) be the sum of the first \\(N\\) positive integers:\n   \\[\n   S_N = 1+2+3+\\cdots+N.\n   \\]\n\n2. This is an arithmetic series with:\n   - first term \\(a_1 = 1\\),\n   - common difference \\(d = 1\\),\n   - number of terms \\(n = N\\),\n   - last term \\(a_N = N\\).\n\n3. For an arithmetic series, the sum can be found by pairing the first and last terms, the second and the second\u{2011}last terms, and so on:\n   \\[\n   S_N = \\frac{N}{2}\\,(a_1 + a_N).\n   \\]\n   This formula holds for both even and odd \\(N\\) and can be verified by direct pairing.\n\n4. Substitute \\(a_1 = 1\\) and \\(a_N = N\\):\n   \\[\n   S_N = \\frac{N}{2}\\,(1+N) = \\frac{N(N+1)}{2}.\n   \\]\n\n5. **Check by induction (optional):**\n   - Base case \\(N=1\\): \\(S_1 = 1 = \\frac{1\\cdot2}{2}\\).\n   - Inductive step: assuming \\(S_N = \\frac{N(N+1)}{2}\\), then\n     \\[\n     S_{N+1}=S_N+(N+1)=\\frac{N(N+1)}{2}+(N+1)=\\frac{(N+1)(N+2)}{2},\n     \\]\n     which matches the formula for \\(N+1\\). Thus the formula holds for all positive integers \\(N\\).\n\n\\[\n\\boxed{\\frac{N(N+1)}{2}}\n\\]\n";
    let events = split_latex_segments(text);
    let blocks = segments_latex(&events);
    assert_eq!(blocks.len(), 19, "found: {blocks:#?}");
    assert_eq!(blocks[0], "\\(S_N\\)");
    assert_eq!(blocks[2], "\\[\n   S_N = 1+2+3+\\cdots+N.\n   \\]");
    assert_eq!(blocks[18], "\\[\n\\boxed{\\frac{N(N+1)}{2}}\n\\]");
    assert_eq!(segments_concat(&events), text);
}
