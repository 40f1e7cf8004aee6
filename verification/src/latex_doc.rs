//! LaTeX documents: one for a single math block, one for a whole Markdown response.

use vstd::prelude::*;
use pulldown_cmark::Event::{Code, DisplayMath, End, FootnoteReference, HardBreak, Html};
use pulldown_cmark::Event::{InlineHtml, InlineMath, Rule, SoftBreak, Start, TaskListMarker, Text};
use pulldown_cmark::{Options, Parser, Tag};
use crate::latex_doc::MarkdownEvent::{CodeText, Columns, DisplayFormula, Footnote, HardLine};
use crate::latex_doc::MarkdownEvent::{HtmlBlock, HtmlInline, InlineFormula, PlainText, Ruler};
use crate::latex_doc::MarkdownEvent::{SoftLine, TagEnd, TagStart, Task};
use crate::latex_split;
use crate::latex_split::{split_latex_segments, Segment, StreamSegment};
use crate::numbers;
use crate::numbers::decimal_text;
use crate::text;
use crate::text::{same, str_starts_with, to_chars};

verus! {

/// `char::from_u32` of std: the character with the given code, if it is a Unicode scalar value.
pub assume_specification[ char::from_u32 ](i: u32) -> (r: Option<char>)
    ensures
        match r {
            Some(c) => c as u32 == i,
            None => !(i <= 0xd7ff || 0xe000 <= i <= 0x10ffff),
        },
;

/// A text color: red, green, blue.
pub type Color = (u8, u8, u8);

/// `{r,g,b}`.
pub open spec fn color_args(c: (u8, u8, u8)) -> Seq<char> {
    "{"@ + numbers::decimal(c.0 as nat) + ","@ + numbers::decimal(c.1 as nat) + ","@
        + numbers::decimal(c.2 as nat) + "}"@
}

fn color_args_text(c: (u8, u8, u8)) -> (r: String)
    ensures
        r@ == color_args(c),
{
    let mut s = "{".to_owned();
    s.append(decimal_text(c.0 as u64).as_str());
    s.append(",");
    s.append(decimal_text(c.1 as u64).as_str());
    s.append(",");
    s.append(decimal_text(c.2 as u64).as_str());
    s.append("}");
    s
}

/// The document around one math block: a fixed start, the color, the block, and a fixed end.
pub open spec fn block_document(latex: Seq<char>, color: (u8, u8, u8)) -> Seq<char> {
    "\\documentclass[preview,border=2pt]{standalone}\n\\usepackage{amsmath}\n\\usepackage{amssymb}\n\\usepackage{xcolor}\n\\begin{document}\n\\color[RGB]"@
        + color_args(color) + "\n"@ + latex + "\n\\end{document}\n"@
}

/// Builds the standalone LaTeX document around `latex`, with its text in the given color.
pub fn latex_document(latex: &str, color: (u8, u8, u8)) -> (r: String)
    ensures
        r@ == block_document(latex@, color),
{
    let mut s =
        "\\documentclass[preview,border=2pt]{standalone}\n\\usepackage{amsmath}\n\\usepackage{amssymb}\n\\usepackage{xcolor}\n\\begin{document}\n\\color[RGB]".to_owned();
    s.append(color_args_text(color).as_str());
    s.append("\n");
    s.append(latex);
    s.append("\n\\end{document}\n");
    s
}

// ---------------------------------------------------------------------------
// Math placeholders
// ---------------------------------------------------------------------------

/// The first placeholder character: the start of the Supplementary Private Use Area-A.
pub const PLACEHOLDER_FIRST: u32 = 0xf0000;

/// The last character that is read as a placeholder.
pub const PLACEHOLDER_LAST: u32 = 0xffffd;

/// The number of placeholder characters that exist: those from the first to the last `char`.
pub const PLACEHOLDER_COUNT: usize = 0x20000;

/// The character that stands for the math block `index`.
pub open spec fn placeholder(index: int) -> char {
    (PLACEHOLDER_FIRST + index) as char
}

/// The math block that a character stands for.
pub open spec fn placeholder_index(c: char) -> Option<int> {
    if PLACEHOLDER_FIRST <= c as u32 <= PLACEHOLDER_LAST {
        Some(c as int - PLACEHOLDER_FIRST)
    } else {
        None
    }
}

/// The character that stands for the math block `index` while Markdown is parsed.
pub fn math_placeholder(index: usize) -> (r: char)
    requires
        index < PLACEHOLDER_COUNT,
    ensures
        r == placeholder(index as int),
{
    match char::from_u32(PLACEHOLDER_FIRST + index as u32) {
        Some(c) => {
            proof {
                vstd::utf8::char_u32_cast(c, (PLACEHOLDER_FIRST + index) as u32);
            }
            c
        },
        None => ' ',
    }
}

/// The math block that `ch` stands for, if it stands for one.
pub fn math_placeholder_index(ch: char) -> (r: Option<usize>)
    ensures
        match r {
            Some(i) => placeholder_index(ch) == Some(i as int),
            None => placeholder_index(ch) is None,
        },
{
    let c: u32 = ch as u32;
    if PLACEHOLDER_FIRST <= c && c <= PLACEHOLDER_LAST {
        Some((c - PLACEHOLDER_FIRST) as usize)
    } else {
        None
    }
}

/// A placeholder stands for the block it was made for, up to the last placeholder.
pub proof fn placeholder_round_trip(index: int)
    requires
        0 <= index <= PLACEHOLDER_LAST - PLACEHOLDER_FIRST,
    ensures
        placeholder_index(placeholder(index)) == Some(index),
{
}

// ---------------------------------------------------------------------------
// Escaping
// ---------------------------------------------------------------------------

/// A character of ordinary text as LaTeX source.
pub open spec fn escaped(ch: char) -> Seq<char> {
    if ch == '\\' {
        "\\textbackslash{}"@
    } else if ch == '{' {
        "\\{"@
    } else if ch == '}' {
        "\\}"@
    } else if ch == '$' {
        "\\$"@
    } else if ch == '&' {
        "\\&"@
    } else if ch == '%' {
        "\\%"@
    } else if ch == '#' {
        "\\#"@
    } else if ch == '_' {
        "\\_"@
    } else if ch == '^' {
        "\\textasciicircum{}"@
    } else if ch == '~' {
        "\\textasciitilde{}"@
    } else if ch == '\u{2011}' {
        seq!['-']
    } else if ch == '\u{2013}' {
        "--"@
    } else if ch == '\u{2014}' {
        "---"@
    } else if ch == '\u{2018}' || ch == '\u{2019}' {
        seq!['\'']
    } else if ch == '\u{201c}' || ch == '\u{201d}' {
        seq!['"']
    } else if ch == '\u{2026}' {
        "\\ldots{}"@
    } else {
        seq![ch]
    }
}

/// Appends a character of ordinary text as LaTeX source.
pub fn push_escaped_char(out: &mut String, ch: char)
    ensures
        final(out)@ == old(out)@ + escaped(ch),
{
    if ch == '\\' {
        out.append("\\textbackslash{}");
    } else if ch == '{' {
        out.append("\\{");
    } else if ch == '}' {
        out.append("\\}");
    } else if ch == '$' {
        out.append("\\$");
    } else if ch == '&' {
        out.append("\\&");
    } else if ch == '%' {
        out.append("\\%");
    } else if ch == '#' {
        out.append("\\#");
    } else if ch == '_' {
        out.append("\\_");
    } else if ch == '^' {
        out.append("\\textasciicircum{}");
    } else if ch == '~' {
        out.append("\\textasciitilde{}");
    } else if ch == '\u{2011}' {
        out.push('-');
    } else if ch == '\u{2013}' {
        out.append("--");
    } else if ch == '\u{2014}' {
        out.append("---");
    } else if ch == '\u{2018}' || ch == '\u{2019}' {
        out.push('\'');
    } else if ch == '\u{201c}' || ch == '\u{201d}' {
        out.push('"');
    } else if ch == '\u{2026}' {
        out.append("\\ldots{}");
    } else {
        out.push(ch);
    }
    assert(out@ =~= old(out)@ + escaped(ch));
}

/// The math block that `ch` stands for among `blocks`.
pub open spec fn block_for(ch: char, blocks: Seq<Seq<char>>) -> Option<Seq<char>> {
    match placeholder_index(ch) {
        Some(i) => if i < blocks.len() {
            Some(blocks[i])
        } else {
            None
        },
        None => None,
    }
}

/// A text as LaTeX source, with each placeholder replaced by its math block. Other characters are
/// escaped, or kept where `verbatim` holds.
pub open spec fn with_math(t: Seq<char>, blocks: Seq<Seq<char>>, verbatim: bool) -> Seq<char>
    decreases t.len(),
{
    if t.len() == 0 {
        Seq::empty()
    } else {
        with_math(t.drop_last(), blocks, verbatim) + match block_for(t.last(), blocks) {
            Some(b) => b,
            None => if verbatim {
                seq![t.last()]
            } else {
                escaped(t.last())
            },
        }
    }
}

/// The views of a list of text slices.
pub open spec fn slices(v: Seq<&str>) -> Seq<Seq<char>> {
    Seq::new(v.len(), |i: int| v[i]@)
}

fn push_with_math(out: &mut String, text: &str, math_blocks: &[&str], verbatim: bool)
    ensures
        final(out)@ == old(out)@ + with_math(text@, slices(math_blocks@), verbatim),
{
    let t = to_chars(text);
    let ghost blocks = slices(math_blocks@);
    let mut k: usize = 0;
    assert(out@ =~= old(out)@ + with_math(t@.take(0), blocks, verbatim));
    while k < t.len()
        invariant
            k <= t.len(),
            t@ == text@,
            blocks == slices(math_blocks@),
            out@ == old(out)@ + with_math(t@.take(k as int), blocks, verbatim),
        decreases t.len() - k,
    {
        let ch = t[k];
        let ghost before = out@;
        let ghost piece = with_math(t@.take(k + 1), blocks, verbatim);
        assert(t@.take(k + 1).drop_last() =~= t@.take(k as int));
        match math_placeholder_index(ch) {
            Some(i) if i < math_blocks.len() => {
                out.append(math_blocks[i]);
            },
            _ => {
                if verbatim {
                    out.push(ch);
                    assert(before.push(ch) =~= before + seq![ch]);
                } else {
                    push_escaped_char(out, ch);
                }
            },
        }
        assert(out@ =~= old(out)@ + piece);
        k += 1;
    }
    assert(t@.take(t@.len() as int) =~= t@);
}

/// Appends `text`, escaped, with each placeholder replaced by the math block it stands for.
pub fn push_escaped_with_math(out: &mut String, text: &str, math_blocks: &[&str])
    ensures
        final(out)@ == old(out)@ + with_math(text@, slices(math_blocks@), false),
{
    push_with_math(out, text, math_blocks, false);
}

/// Appends `text` as it is, with each placeholder replaced by the math block it stands for.
pub fn push_verbatim_with_math(out: &mut String, text: &str, math_blocks: &[&str])
    ensures
        final(out)@ == old(out)@ + with_math(text@, slices(math_blocks@), true),
{
    push_with_math(out, text, math_blocks, true);
}

// ---------------------------------------------------------------------------
// Markdown
// ---------------------------------------------------------------------------

/// The alignment of a table column.
#[derive(Clone, Copy, PartialEq, Eq, Structural, Debug)]
pub enum Alignment {
    Unset,
    Left,
    Center,
    Right,
}

/// The alignment with the given code: 1 for left, 2 for center, 3 for right.
pub open spec fn alignment_of(code: u8) -> Alignment {
    if code == 1 {
        Alignment::Left
    } else if code == 2 {
        Alignment::Center
    } else if code == 3 {
        Alignment::Right
    } else {
        Alignment::Unset
    }
}

/// The `tabular` column specifier for an alignment.
pub open spec fn column_spec(alignment: Alignment) -> char {
    match alignment {
        Alignment::Center => 'c',
        Alignment::Right => 'r',
        _ => 'l',
    }
}

/// Maps the alignment of a table column to the `tabular` column specifier. Without an alignment a
/// column is left-aligned.
pub fn tabular_column_spec(alignment: Alignment) -> (r: char)
    ensures
        r == column_spec(alignment),
{
    match alignment {
        Alignment::Left | Alignment::Unset => 'l',
        Alignment::Center => 'c',
        Alignment::Right => 'r',
    }
}

/// One step of a parsed Markdown text. A table comes with the alignment codes of its columns. Tags
/// are named as the parser names their ends, such as `Paragraph`, `Heading(H1)` or `List(true)`.
#[derive(Debug, PartialEq, Eq)]
pub enum MarkdownEvent {
    Columns(Vec<u8>),
    TagStart(String),
    TagEnd(String),
    PlainText(String),
    CodeText(String),
    InlineFormula(String),
    DisplayFormula(String),
    HtmlBlock,
    HtmlInline,
    Footnote,
    SoftLine,
    HardLine,
    Ruler,
    Task(bool),
}

/// What a Markdown event holds.
pub ghost enum Markup {
    Columns(Seq<u8>),
    TagStart(Seq<char>),
    TagEnd(Seq<char>),
    PlainText(Seq<char>),
    CodeText(Seq<char>),
    InlineFormula(Seq<char>),
    DisplayFormula(Seq<char>),
    HtmlBlock,
    HtmlInline,
    Footnote,
    SoftLine,
    HardLine,
    Ruler,
    Task(bool),
}

impl View for MarkdownEvent {
    type V = Markup;

    open spec fn view(&self) -> Markup {
        match self {
            MarkdownEvent::Columns(a) => Markup::Columns(a@),
            MarkdownEvent::TagStart(t) => Markup::TagStart(t@),
            MarkdownEvent::TagEnd(t) => Markup::TagEnd(t@),
            MarkdownEvent::PlainText(t) => Markup::PlainText(t@),
            MarkdownEvent::CodeText(t) => Markup::CodeText(t@),
            MarkdownEvent::InlineFormula(t) => Markup::InlineFormula(t@),
            MarkdownEvent::DisplayFormula(t) => Markup::DisplayFormula(t@),
            MarkdownEvent::HtmlBlock => Markup::HtmlBlock,
            MarkdownEvent::HtmlInline => Markup::HtmlInline,
            MarkdownEvent::Footnote => Markup::Footnote,
            MarkdownEvent::SoftLine => Markup::SoftLine,
            MarkdownEvent::HardLine => Markup::HardLine,
            MarkdownEvent::Ruler => Markup::Ruler,
            MarkdownEvent::Task(b) => Markup::Task(*b),
        }
    }
}

/// What a list of Markdown events holds.
pub open spec fn markup_views(v: Seq<MarkdownEvent>) -> Seq<Markup> {
    Seq::new(v.len(), |i: int| v[i]@)
}

/// The events that `pulldown_cmark` finds in a Markdown text, with tables, strikethrough and task
/// lists enabled.
pub uninterp spec fn markdown_events(text: Seq<char>) -> Seq<Markup>;

/// `pulldown_cmark::Parser::new_ext`: the events of a Markdown text with the extensions for tables,
/// strikethrough and task lists. They depend on the text alone. HTML and footnote references come
/// without their text; table columns come as the position of their alignment in the parser's list
/// of alignments (none, left, center, right).
#[verifier::external_body]
fn parse_markdown(text: &str) -> (r: Vec<MarkdownEvent>)
    ensures
        markup_views(r@) == markdown_events(text@),
{
    Parser::new_ext(
        text,
        Options::ENABLE_TABLES | Options::ENABLE_STRIKETHROUGH | Options::ENABLE_TASKLISTS,
    ).map(|e| match e {
        Start(Tag::Table(a)) => Columns(a.into_iter().map(|x| x as u8).collect()),
        Start(t) => TagStart(format!("{:?}", t.to_end())),
        End(t) => TagEnd(format!("{:?}", t)),
        Text(t) => PlainText(t.into_string()),
        Code(t) => CodeText(t.into_string()),
        InlineMath(t) => InlineFormula(t.into_string()),
        DisplayMath(t) => DisplayFormula(t.into_string()),
        Html(_) => HtmlBlock, InlineHtml(_) => HtmlInline, FootnoteReference(_) => Footnote,
        SoftBreak => SoftLine, HardBreak => HardLine, Rule => Ruler,
        TaskListMarker(b) => Task(b),
    }).collect()
}

/// A LaTeX body while it is written: the text so far, the cells in the current table row, and
/// whether a code block is open.
pub ghost struct Page {
    pub out: Seq<char>,
    pub column: int,
    pub verbatim: bool,
}

/// What the start of a tag writes.
pub open spec fn start_text(name: Seq<char>) -> Seq<char> {
    if name == "Heading(H1)"@ {
        "\\section*{"@
    } else if name == "Heading(H2)"@ {
        "\\subsection*{"@
    } else if text::begins(name, "Heading("@) {
        "\\subsubsection*{"@
    } else if text::begins(name, "BlockQuote("@) {
        "\\begin{quote}\n"@
    } else if name == "CodeBlock"@ {
        "\\begin{verbatim}\n"@
    } else if name == "List(true)"@ {
        "\\begin{enumerate}\n"@
    } else if name == "List(false)"@ {
        "\\begin{itemize}\n"@
    } else if name == "Item"@ {
        "\\item "@
    } else if name == "Emphasis"@ {
        "\\textit{"@
    } else if name == "Strong"@ {
        "\\textbf{"@
    } else if name == "Strikethrough"@ {
        "\\sout{"@
    } else if name == "Image"@ {
        "[image: "@
    } else {
        ""@
    }
}

/// What the end of a tag writes.
pub open spec fn end_text(name: Seq<char>) -> Seq<char> {
    if name == "Paragraph"@ {
        "\n\n"@
    } else if text::begins(name, "Heading("@) {
        "}\n\n"@
    } else if text::begins(name, "BlockQuote("@) {
        "\\end{quote}\n\n"@
    } else if name == "CodeBlock"@ {
        "\\end{verbatim}\n\n"@
    } else if name == "List(true)"@ {
        "\\end{enumerate}\n\n"@
    } else if name == "List(false)"@ {
        "\\end{itemize}\n\n"@
    } else if name == "Item"@ {
        "\n"@
    } else if name == "Emphasis"@ || name == "Strong"@ || name == "Strikethrough"@ {
        "}"@
    } else if name == "Image"@ {
        "]"@
    } else if name == "Table"@ {
        "\\end{tabular}\n\n"@
    } else if name == "TableHead"@ {
        "\\\\\n\\hline\n"@
    } else if name == "TableRow"@ {
        "\\\\\n"@
    } else {
        ""@
    }
}

/// The column specifiers of a table.
pub open spec fn column_specs(codes: Seq<u8>) -> Seq<char> {
    Seq::new(codes.len(), |i: int| column_spec(alignment_of(codes[i])))
}

/// One event written to the page.
pub open spec fn written(p: Page, e: Markup, blocks: Seq<Seq<char>>) -> Page {
    match e {
        Markup::Columns(codes) => Page {
            out: p.out + "\\begin{tabular}{"@ + column_specs(codes) + "}\n"@,
            ..p
        },
        Markup::TagStart(name) => if name == "TableCell"@ {
            Page {
                out: if p.column > 0 {
                    p.out + " & "@
                } else {
                    p.out
                },
                column: p.column + 1,
                ..p
            }
        } else {
            Page {
                out: p.out + start_text(name),
                verbatim: p.verbatim || name == "CodeBlock"@,
                ..p
            }
        },
        Markup::TagEnd(name) => Page {
            out: p.out + end_text(name),
            column: if name == "TableHead"@ || name == "TableRow"@ {
                0
            } else {
                p.column
            },
            verbatim: p.verbatim && name != "CodeBlock"@,
        },
        Markup::PlainText(t) => Page { out: p.out + with_math(t, blocks, p.verbatim), ..p },
        Markup::CodeText(t) => Page {
            out: p.out + "\\texttt{"@ + with_math(t, blocks, false) + "}"@,
            ..p
        },
        Markup::InlineFormula(t) | Markup::DisplayFormula(t) => Page {
            out: p.out + with_math(t, blocks, false),
            ..p
        },
        Markup::SoftLine => Page { out: p.out + " "@, ..p },
        Markup::HardLine => Page { out: p.out + "\\\\\n"@, ..p },
        Markup::Ruler => Page { out: p.out + "\\par\\noindent\\hrulefill\\par\n\n"@, ..p },
        Markup::Task(done) => Page {
            out: p.out + if done {
                "$\\boxtimes$ "@
            } else {
                "$\\square$ "@
            },
            ..p
        },
        Markup::HtmlBlock | Markup::HtmlInline | Markup::Footnote => p,
    }
}

/// All events written to an empty page.
pub open spec fn page(events: Seq<Markup>, blocks: Seq<Seq<char>>) -> Page
    decreases events.len(),
{
    if events.len() == 0 {
        Page { out: Seq::empty(), column: 0, verbatim: false }
    } else {
        written(page(events.drop_last(), blocks), events.last(), blocks)
    }
}

fn start_of_tag(name: &str) -> (r: &'static str)
    ensures
        r@ == start_text(name@),
{
    if same(name, "Heading(H1)") {
        "\\section*{"
    } else if same(name, "Heading(H2)") {
        "\\subsection*{"
    } else if str_starts_with(name, "Heading(") {
        "\\subsubsection*{"
    } else if str_starts_with(name, "BlockQuote(") {
        "\\begin{quote}\n"
    } else if same(name, "CodeBlock") {
        "\\begin{verbatim}\n"
    } else if same(name, "List(true)") {
        "\\begin{enumerate}\n"
    } else if same(name, "List(false)") {
        "\\begin{itemize}\n"
    } else if same(name, "Item") {
        "\\item "
    } else if same(name, "Emphasis") {
        "\\textit{"
    } else if same(name, "Strong") {
        "\\textbf{"
    } else if same(name, "Strikethrough") {
        "\\sout{"
    } else if same(name, "Image") {
        "[image: "
    } else {
        ""
    }
}

fn end_of_tag(name: &str) -> (r: &'static str)
    ensures
        r@ == end_text(name@),
{
    if same(name, "Paragraph") {
        "\n\n"
    } else if str_starts_with(name, "Heading(") {
        "}\n\n"
    } else if str_starts_with(name, "BlockQuote(") {
        "\\end{quote}\n\n"
    } else if same(name, "CodeBlock") {
        "\\end{verbatim}\n\n"
    } else if same(name, "List(true)") {
        "\\end{enumerate}\n\n"
    } else if same(name, "List(false)") {
        "\\end{itemize}\n\n"
    } else if same(name, "Item") {
        "\n"
    } else if same(name, "Emphasis") || same(name, "Strong") || same(name, "Strikethrough") {
        "}"
    } else if same(name, "Image") {
        "]"
    } else if same(name, "Table") {
        "\\end{tabular}\n\n"
    } else if same(name, "TableHead") {
        "\\\\\n\\hline\n"
    } else if same(name, "TableRow") {
        "\\\\\n"
    } else {
        ""
    }
}

fn push_column_specs(out: &mut String, codes: &[u8])
    ensures
        final(out)@ == old(out)@ + column_specs(codes@),
{
    let mut i: usize = 0;
    assert(out@ =~= old(out)@ + column_specs(codes@).take(0));
    while i < codes.len()
        invariant
            i <= codes.len(),
            out@ == old(out)@ + column_specs(codes@).take(i as int),
        decreases codes.len() - i,
    {
        let a = match codes[i] {
            1 => Alignment::Left,
            2 => Alignment::Center,
            3 => Alignment::Right,
            _ => Alignment::Unset,
        };
        out.push(tabular_column_spec(a));
        assert(old(out)@ + column_specs(codes@).take(i + 1) =~= (old(out)@ + column_specs(
            codes@,
        ).take(i as int)).push(column_specs(codes@)[i as int]));
        i += 1;
    }
    assert(column_specs(codes@).take(codes@.len() as int) =~= column_specs(codes@));
}

/// Writes the events of a Markdown text as a LaTeX body.
pub fn events_to_latex(events: &[MarkdownEvent], math_blocks: &[&str]) -> (r: String)
    ensures
        r@ == page(markup_views(events@), slices(math_blocks@)).out,
{
    let mut out = String::new();
    let mut column: usize = 0;
    let mut verbatim: bool = false;
    let ghost all = markup_views(events@);
    let ghost blocks = slices(math_blocks@);
    let mut k: usize = 0;
    while k < events.len()
        invariant
            k <= events.len(),
            column <= k,
            all == markup_views(events@),
            blocks == slices(math_blocks@),
            page(all.take(k as int), blocks) == (Page {
                out: out@,
                column: column as int,
                verbatim,
            }),
        decreases events.len() - k,
    {
        let ghost before = page(all.take(k as int), blocks);
        assert(all.take(k + 1).drop_last() =~= all.take(k as int));
        assert(all.take(k + 1).last() == events@[k as int]@);
        match &events[k] {
            MarkdownEvent::Columns(codes) => {
                out.append("\\begin{tabular}{");
                push_column_specs(&mut out, codes.as_slice());
                out.append("}\n");
            },
            MarkdownEvent::TagStart(name) => {
                if same(name.as_str(), "TableCell") {
                    if column > 0 {
                        out.append(" & ");
                    }
                    column += 1;
                } else {
                    out.append(start_of_tag(name.as_str()));
                    if same(name.as_str(), "CodeBlock") {
                        verbatim = true;
                    }
                }
            },
            MarkdownEvent::TagEnd(name) => {
                out.append(end_of_tag(name.as_str()));
                if same(name.as_str(), "TableHead") || same(name.as_str(), "TableRow") {
                    column = 0;
                }
                if same(name.as_str(), "CodeBlock") {
                    verbatim = false;
                }
            },
            MarkdownEvent::PlainText(t) => {
                push_with_math(&mut out, t.as_str(), math_blocks, verbatim);
            },
            MarkdownEvent::CodeText(t) => {
                out.append("\\texttt{");
                push_escaped_with_math(&mut out, t.as_str(), math_blocks);
                out.append("}");
            },
            MarkdownEvent::InlineFormula(t) | MarkdownEvent::DisplayFormula(t) => {
                push_escaped_with_math(&mut out, t.as_str(), math_blocks);
            },
            MarkdownEvent::SoftLine => {
                out.append(" ");
            },
            MarkdownEvent::HardLine => {
                out.append("\\\\\n");
            },
            MarkdownEvent::Ruler => {
                out.append("\\par\\noindent\\hrulefill\\par\n\n");
            },
            MarkdownEvent::Task(done) => {
                if *done {
                    out.append("$\\boxtimes$ ");
                } else {
                    out.append("$\\square$ ");
                }
            },
            MarkdownEvent::HtmlBlock | MarkdownEvent::HtmlInline | MarkdownEvent::Footnote => {},
        }
        assert(page(all.take(k + 1), blocks) == written(before, events@[k as int]@, blocks));
        k += 1;
    }
    assert(all.take(all.len() as int) =~= all);
    out
}

/// The math blocks among the segments.
pub open spec fn blocks_of(v: Seq<Segment>) -> Seq<Seq<char>>
    decreases v.len(),
{
    if v.len() == 0 {
        Seq::empty()
    } else {
        match v.last() {
            Segment::Text(_) => blocks_of(v.drop_last()),
            Segment::Latex(t) => blocks_of(v.drop_last()).push(t),
        }
    }
}

/// The segments as one text, with a placeholder for each math block.
pub open spec fn with_placeholders(v: Seq<Segment>) -> Seq<char>
    decreases v.len(),
{
    if v.len() == 0 {
        Seq::empty()
    } else {
        match v.last() {
            Segment::Text(t) => with_placeholders(v.drop_last()) + t,
            Segment::Latex(_) => with_placeholders(v.drop_last()).push(
                placeholder(blocks_of(v.drop_last()).len() as int),
            ),
        }
    }
}

/// The LaTeX body for a Markdown text with math blocks in it.
pub open spec fn latex_body(text: Seq<char>) -> Seq<char> {
    let v = latex_split::segments(text);
    page(markdown_events(with_placeholders(v)), blocks_of(v)).out
}

proof fn blocks_grow(v: Seq<Segment>, k: int)
    requires
        0 <= k <= v.len(),
    ensures
        blocks_of(v.take(k)).len() <= blocks_of(v).len(),
    decreases v.len() - k,
{
    if k == v.len() {
        assert(v.take(k) =~= v);
    } else {
        blocks_grow(v, k + 1);
        assert(v.take(k + 1).drop_last() =~= v.take(k));
    }
}

/// Takes the math blocks out of the segments and leaves a placeholder for each.
pub fn pull_out_math<'a>(parts: &'a [StreamSegment]) -> (r: (String, Vec<&'a str>))
    requires
        blocks_of(latex_split::segment_views(parts@)).len() <= PLACEHOLDER_COUNT,
    ensures
        r.0@ == with_placeholders(latex_split::segment_views(parts@)),
        slices(r.1@) == blocks_of(latex_split::segment_views(parts@)),
{
    let mut body = String::new();
    let mut blocks: Vec<&'a str> = Vec::new();
    let ghost v = latex_split::segment_views(parts@);
    let mut k: usize = 0;
    assert(slices(blocks@) =~= blocks_of(v.take(0)));
    while k < parts.len()
        invariant
            k <= parts.len(),
            v == latex_split::segment_views(parts@),
            blocks_of(v).len() <= PLACEHOLDER_COUNT,
            body@ == with_placeholders(v.take(k as int)),
            slices(blocks@) == blocks_of(v.take(k as int)),
        decreases parts.len() - k,
    {
        proof {
            assert(v.take(k + 1).drop_last() =~= v.take(k as int));
            assert(v.take(k + 1).last() == parts@[k as int]@);
            blocks_grow(v, k + 1);
        }
        match &parts[k] {
            StreamSegment::Text(t) => {
                body.append(t.as_str());
            },
            StreamSegment::Latex(t) => {
                let ghost before = blocks@;
                body.push(math_placeholder(blocks.len()));
                blocks.push(t.as_str());
                assert(slices(blocks@) =~= slices(before).push(t@));
            },
        }
        k += 1;
    }
    assert(v.take(v.len() as int) =~= v);
    (body, blocks)
}

/// Converts Markdown with math blocks in it to a LaTeX document body. The blocks are kept as they
/// are; everything else becomes the closest plain LaTeX, with literal text escaped.
pub fn markdown_to_latex(text: &str) -> (r: String)
    requires
        blocks_of(latex_split::segments(text@)).len() <= PLACEHOLDER_COUNT,
    ensures
        r@ == latex_body(text@),
{
    let parts = split_latex_segments(text);
    let (body, blocks) = pull_out_math(parts.as_slice());
    let events = parse_markdown(body.as_str());
    events_to_latex(events.as_slice(), blocks.as_slice())
}

/// The width that a whole response is wrapped to, in points.
pub const FULL_DOCUMENT_MAX_WIDTH_PT: u32 = 432;

/// The document around a LaTeX body.
pub open spec fn body_document(body: Seq<char>, color: (u8, u8, u8)) -> Seq<char> {
    "\\documentclass[preview,border=8pt,class=article,varwidth="@ + numbers::decimal(
        FULL_DOCUMENT_MAX_WIDTH_PT as nat,
    )
        + "pt]{standalone}\n\\usepackage[utf8]{inputenc}\n\\usepackage{amsmath}\n\\usepackage{amssymb}\n\\usepackage{xcolor}\n\\usepackage[normalem]{ulem}\n\\setlength{\\parindent}{0pt}\n\\setlength{\\parskip}{6pt}\n\\begin{document}\n\\color[RGB]"@
        + color_args(color) + "\n"@ + body + "\n\\end{document}\n"@
}

/// Builds the standalone LaTeX document for a whole Markdown response.
pub fn full_latex_document(markdown_text: &str, color: (u8, u8, u8)) -> (r: String)
    requires
        blocks_of(latex_split::segments(markdown_text@)).len() <= PLACEHOLDER_COUNT,
    ensures
        r@ == body_document(latex_body(markdown_text@), color),
{
    let body = markdown_to_latex(markdown_text);
    let mut s = "\\documentclass[preview,border=8pt,class=article,varwidth=".to_owned();
    s.append(decimal_text(FULL_DOCUMENT_MAX_WIDTH_PT as u64).as_str());
    s.append(
        "pt]{standalone}\n\\usepackage[utf8]{inputenc}\n\\usepackage{amsmath}\n\\usepackage{amssymb}\n\\usepackage{xcolor}\n\\usepackage[normalem]{ulem}\n\\setlength{\\parindent}{0pt}\n\\setlength{\\parskip}{6pt}\n\\begin{document}\n\\color[RGB]",
    );
    s.append(color_args_text(color).as_str());
    s.append("\n");
    s.append(body.as_str());
    s.append("\n\\end{document}\n");
    s
}

} // verus!
