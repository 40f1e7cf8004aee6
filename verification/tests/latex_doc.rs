use faber::latex_doc::{
    full_latex_document, latex_document, markdown_to_latex, math_placeholder,
    math_placeholder_index, push_escaped_char, push_escaped_with_math, tabular_column_spec,
    Alignment, FULL_DOCUMENT_MAX_WIDTH_PT,
};

#[test]
fn test_latex_document_sets_the_given_color_before_the_content() {
    let doc = latex_document("\\[ x \\]", (255, 0, 128));
    assert!(doc.contains("\\usepackage{xcolor}"));
    let color_pos = doc.find("\\color[RGB]{255,0,128}").unwrap();
    let content_pos = doc.find("\\[ x \\]").unwrap();
    assert!(
        color_pos < content_pos,
        "color command must come before the math content"
    );
}

#[test]
fn test_math_placeholder_roundtrips_through_its_index() {
    for i in [0, 1, 41, 6400, 65533] {
        assert_eq!(math_placeholder_index(math_placeholder(i)), Some(i));
    }
}

#[test]
fn test_math_placeholder_index_rejects_ordinary_characters() {
    for ch in ['a', ' ', '\\', '$', '{', '\u{FFFF}'] {
        assert_eq!(math_placeholder_index(ch), None);
    }
}

#[test]
fn test_push_escaped_char_escapes_every_latex_special_character() {
    let mut out = String::new();
    for ch in "\\{}$&%#_^~".chars() {
        push_escaped_char(&mut out, ch);
    }
    assert_eq!(
        out,
        "\\textbackslash{}\\{\\}\\$\\&\\%\\#\\_\\textasciicircum{}\\textasciitilde{}"
    );
}

#[test]
fn test_push_escaped_char_maps_common_unicode_punctuation() {
    let mut out = String::new();
    for ch in ['\u{2011}', '\u{2013}', '\u{2014}', '\u{2026}'] {
        push_escaped_char(&mut out, ch);
    }
    assert_eq!(out, "------\\ldots{}");
}

#[test]
fn test_push_escaped_char_passes_ordinary_characters_through() {
    let mut out = String::new();
    for ch in "hello world 123".chars() {
        push_escaped_char(&mut out, ch);
    }
    assert_eq!(out, "hello world 123");
}

#[test]
fn test_push_escaped_with_math_substitutes_placeholder_verbatim() {
    let math = ["\\(x\\)", "\\[y\\]"];
    let text = format!("a {} b {} c_1", math_placeholder(0), math_placeholder(1));
    let mut out = String::new();
    push_escaped_with_math(&mut out, &text, &math);
    assert_eq!(out, "a \\(x\\) b \\[y\\] c\\_1");
}

#[test]
fn test_tabular_column_spec_maps_alignment() {
    assert_eq!(tabular_column_spec(Alignment::Unset), 'l');
    assert_eq!(tabular_column_spec(Alignment::Left), 'l');
    assert_eq!(tabular_column_spec(Alignment::Center), 'c');
    assert_eq!(tabular_column_spec(Alignment::Right), 'r');
}

#[test]
fn test_markdown_to_latex_escapes_plain_text() {
    let out = markdown_to_latex("100% of $5 & change_1 #tag ~ok");
    assert_eq!(
        out.trim(),
        "100\\% of \\$5 \\& change\\_1 \\#tag \\textasciitilde{}ok"
    );
}

#[test]
fn test_markdown_to_latex_bold_and_italic() {
    let out = markdown_to_latex("**bold** and *italic* and _also italic_");
    assert!(out.contains("\\textbf{bold}"));
    assert!(out.contains("\\textit{italic}"));
    assert!(out.contains("\\textit{also italic}"));
}

#[test]
fn test_markdown_to_latex_inline_code_is_texttt_and_escaped() {
    let out = markdown_to_latex("call `foo_bar()` now");
    assert!(out.contains("\\texttt{foo\\_bar()}"), "got: {out:?}");
}

#[test]
fn test_markdown_to_latex_headers() {
    let out = markdown_to_latex("# Title\n\n## Subtitle\n\n### Sub-subtitle\n");
    assert!(out.contains("\\section*{Title}"));
    assert!(out.contains("\\subsection*{Subtitle}"));
    assert!(out.contains("\\subsubsection*{Sub-subtitle}"));
}

#[test]
fn test_markdown_to_latex_bullet_list() {
    let out = markdown_to_latex("- one\n- two\n- three\n");
    assert!(out.contains("\\begin{itemize}"));
    assert!(out.contains("\\end{itemize}"));
    assert!(out.contains("\\item one"));
    assert!(out.contains("\\item two"));
    assert!(out.contains("\\item three"));
}

#[test]
fn test_markdown_to_latex_numbered_list() {
    let out = markdown_to_latex("1. first\n2. second\n3. third\n");
    assert!(out.contains("\\begin{enumerate}"));
    assert!(out.contains("\\end{enumerate}"));
    assert!(out.contains("\\item first"));
    assert!(out.contains("\\item second"));
    assert!(out.contains("\\item third"));
}

#[test]
fn test_markdown_to_latex_nested_list() {
    let out = markdown_to_latex("- outer\n  - inner\n- outer2\n");
    assert_eq!(out.matches("\\begin{itemize}").count(), 2);
    assert_eq!(out.matches("\\end{itemize}").count(), 2);
    assert!(out.contains("\\item inner"));
}

#[test]
fn test_markdown_to_latex_blockquote() {
    let out = markdown_to_latex("> quoted text\n");
    assert!(out.contains("\\begin{quote}"));
    assert!(out.contains("quoted text"));
    assert!(out.contains("\\end{quote}"));
}

#[test]
fn test_markdown_to_latex_fenced_code_block_is_not_escaped() {
    let out = markdown_to_latex("```\nlet x = a_b & c;\n```\n");
    assert!(out.contains("\\begin{verbatim}"), "got: {out:?}");
    assert!(out.contains("let x = a_b & c;"), "got: {out:?}");
    assert!(out.contains("\\end{verbatim}"), "got: {out:?}");
}

#[test]
fn test_markdown_to_latex_horizontal_rule() {
    let out = markdown_to_latex("above\n\n---\n\nbelow\n");
    assert!(out.contains("\\hrulefill"));
}

#[test]
fn test_markdown_to_latex_hard_break_is_double_backslash() {
    let out = markdown_to_latex("line one  \nline two\n");
    assert!(out.contains("line one\\\\\nline two"), "got: {out:?}");
}

#[test]
fn test_markdown_to_latex_soft_break_becomes_a_space() {
    let out = markdown_to_latex("line one\nline two\n");
    assert!(out.contains("line one line two"), "got: {out:?}");
}

#[test]
fn test_markdown_to_latex_strikethrough() {
    let out = markdown_to_latex("~~gone~~");
    assert!(out.contains("\\sout{gone}"));
}

#[test]
fn test_markdown_to_latex_table() {
    let out = markdown_to_latex("| A | B |\n|:--|--:|\n| 1 | 2 |\n");
    assert!(out.contains("\\begin{tabular}{lr}"), "got: {out:?}");
    assert!(out.contains("A & B"));
    assert!(out.contains("\\hline"));
    assert!(out.contains("1 & 2"));
    assert!(out.contains("\\end{tabular}"));
}

#[test]
fn test_markdown_to_latex_link_renders_text_only() {
    let out = markdown_to_latex("see [the docs](https://example.com/) here");
    assert!(out.contains("see the docs here"));
    assert!(!out.contains("example.com"));
}

#[test]
fn test_markdown_to_latex_image_renders_alt_text_placeholder() {
    let out = markdown_to_latex("![a diagram](https://example.com/x.png)");
    assert!(out.contains("[image: a diagram]"), "got: {out:?}");
}

#[test]
fn test_markdown_to_latex_task_list() {
    let out = markdown_to_latex("- [ ] todo\n- [x] done\n");
    assert!(out.contains("$\\square$"));
    assert!(out.contains("$\\boxtimes$"));
}

#[test]
fn test_markdown_to_latex_preserves_inline_math_verbatim_mid_sentence() {
    let out = markdown_to_latex("the value \\(x^2\\) is positive");
    assert!(
        out.contains("the value \\(x^2\\) is positive"),
        "got: {out:?}"
    );
    let out2 = markdown_to_latex("here \\(a_1 + a^2\\) done");
    assert!(out2.contains("\\(a_1 + a^2\\)"), "got: {out2:?}");
}

#[test]
fn test_markdown_to_latex_preserves_display_math_block() {
    let out = markdown_to_latex("Result:\n\n\\[\n\\boxed{\\frac{N(N+1)}{2}}\n\\]\n");
    assert!(
        out.contains("\\[\n\\boxed{\\frac{N(N+1)}{2}}\n\\]"),
        "got: {out:?}"
    );
}

#[test]
fn test_markdown_to_latex_math_survives_inside_bold() {
    let out = markdown_to_latex("**Key term:** \\(S(N)\\) is the sum.");
    assert!(out.contains("\\textbf{Key term:}"));
    assert!(out.contains("\\(S(N)\\)"), "got: {out:?}");
}

#[test]
fn test_markdown_to_latex_real_model_response() {
    let text = "**Key term (bold):** The sum of the first N positive integers, denoted by \\(S(N)\\).\n\n**Step-by-step reasoning ( bullet list):**\n1. **Definition:** \\(S(N) = \\sum_{k=1}^{N} k\\).  (Inconcrete LaTeX formula)  \n2. **Arithmetic series formula:** \\(S(N) = \\frac{N}{2}(a_1 + a_N)\\).  (Intermediate LaTeX formula)  \n3. **Substitute endpoints:** With \\(a_1 = 1\\) and \\(a_N = N\\), this becomes \\(S(N) = \\frac{N}{2}(1 + N)\\).  (Intermediate LaTeX formula)  \n4. **Simplify:** \\(S(N) = \\frac{N(N+1)}{2}\\).  (Final LaTeX formula)\n\n**Numbered list of key equations:**\n1. \\(S(N) = \\sum_{k=1}^{N} k\\).  (Inconcrete LaTeX formula)  \n2. \\(S(N) = \\frac{N}{2}(1 + N)\\).  (Intermediate LaTeX formula)  \n3. \\(S(N) = \\frac{N(N+1)}{2}\\).  (Final LaTeX formula)\n\n**Display LaTeX formula (boxed final answer):**\n\\[\n\\boxed{S(N)=\\frac{N(N+1)}{2}}\n\\]\n";
    let out = markdown_to_latex(text);

    assert!(out.contains("\\textbf{Key term (bold):}"));
    assert!(out.contains("\\textbf{Display LaTeX formula (boxed final answer):}"));

    assert_eq!(out.matches("\\begin{enumerate}").count(), 2);
    assert_eq!(out.matches("\\end{enumerate}").count(), 2);
    assert!(out.contains("\\item \\textbf{Definition:}"));

    assert!(out.contains("\\(S(N) = \\sum_{k=1}^{N} k\\)"));
    assert!(out.contains("\\(a_1 = 1\\)"));

    assert!(out.contains("\\[\n\\boxed{S(N)=\\frac{N(N+1)}{2}}\n\\]"));

    assert!(
        out.contains("(Inconcrete LaTeX formula)\n\\item"),
        "got: {out:?}"
    );

    assert!(out.contains("With \\(a_1 = 1\\) and \\(a_N = N\\)"));
}

#[test]
fn test_markdown_to_latex_second_real_model_response() {
    let text = "To find the sum of the first \\(N\\) positive integers we want to evaluate  \n\n\\[\nS_N = 1+2+3+\\cdots+N .\n\\]\n\n**Step 1: Use the arithmetic\u{2011}series formula.**  \nThe numbers \\(1,2,\\dots,N\\) form an arithmetic progression with:\n\n- first term \\(a_1 = 1\\),\n- last term \\(a_N = N\\),\n- common difference \\(d = 1\\),\n- number of terms \\(n = N\\).\n\nFor any arithmetic progression, the sum of its first \\(n\\) terms is  \n\n\\[\nS_n = \\frac{n}{2}\\,(a_1 + a_n).\n\\]\n\nApplying this here:\n\n\\[\nS_N = \\frac{N}{2}\\,(1 + N).\n\\]\n\n**Step 2: Simplify the expression.**  \n\n\\[\nS_N = \\frac{N(N+1)}{2}.\n\\]\n\nThis formula works for every positive integer \\(N\\). (It can also be verified by induction, but the arithmetic\u{2011}series argument is sufficient for the sum.)\n\n\\[\n\\boxed{\\frac{N(N+1)}{2}}\n\\]\n";
    let out = markdown_to_latex(text);

    assert!(out.contains("\\[\nS_N = 1+2+3+\\cdots+N .\n\\]"));
    assert!(out.contains("\\[\nS_n = \\frac{n}{2}\\,(a_1 + a_n).\n\\]"));
    assert!(out.contains("\\[\nS_N = \\frac{N}{2}\\,(1 + N).\n\\]"));
    assert!(out.contains("\\[\n\\boxed{\\frac{N(N+1)}{2}}\n\\]"));

    assert!(out.contains("\\begin{itemize}"));
    assert!(out.contains("\\item first term \\(a_1 = 1\\),"));
    assert!(out.contains("\\end{itemize}"));

    assert!(out.contains("\\textbf{Step 1: Use the arithmetic-series formula.}"));
    assert!(out.contains("\\textbf{Step 2: Simplify the expression.}"));

    assert!(out.contains(
        "This formula works for every positive integer \\(N\\). (It can also be verified by induction, but the arithmetic-series argument is sufficient for the sum.)"
    ), "got: {out:?}");
}

#[test]
fn test_full_latex_document_uses_article_class_and_varwidth() {
    let doc = full_latex_document("# Hi\n", (1, 2, 3));
    assert!(doc.contains("class=article"));
    assert!(doc.contains(&format!("varwidth={}pt", FULL_DOCUMENT_MAX_WIDTH_PT)));
    assert!(doc.contains("\\usepackage[utf8]{inputenc}"));
    assert!(doc.contains("\\usepackage[normalem]{ulem}"));
    assert!(doc.contains("\\color[RGB]{1,2,3}"));
    assert!(doc.contains("\\section*{Hi}"));
}
