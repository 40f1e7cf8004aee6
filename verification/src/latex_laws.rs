//! What holds of the LaTeX that a Markdown text becomes.

use vstd::prelude::*;
use crate::latex_doc;
use crate::latex_doc::Markup;
use crate::latex_split;
use crate::latex_split::Segment;
use crate::text;
use crate::words;

verus! {

// ---------------------------------------------------------------------------
// Pages
// ---------------------------------------------------------------------------

/// What is written stays: one more event only adds to the text.
pub proof fn pages_only_grow(events: Seq<Markup>, e: Markup, blocks: Seq<Seq<char>>)
    ensures
        ({
            let before = latex_doc::page(events, blocks).out;
            let after = latex_doc::page(events.push(e), blocks).out;
            before.len() <= after.len() && after.take(before.len() as int) == before
        }),
{
    assert(events.push(e).drop_last() =~= events);
    let before = latex_doc::page(events, blocks).out;
    let after = latex_doc::page(events.push(e), blocks).out;
    assert(after.take(before.len() as int) =~= before);
}

/// The start of a tag.
pub open spec fn starts(e: Markup, name: Seq<char>) -> bool {
    e matches Markup::TagStart(n) && n == name
}

/// The end of a tag.
pub open spec fn closes(e: Markup, name: Seq<char>) -> bool {
    e matches Markup::TagEnd(n) && n == name
}

/// The end of a table row, or of the head of a table.
pub open spec fn closes_row(e: Markup) -> bool {
    closes(e, "TableRow"@) || closes(e, "TableHead"@)
}

/// Every table cell is in a row that is closed.
pub open spec fn rows_closed(events: Seq<Markup>) -> bool {
    forall|i: int|
        0 <= i < events.len() && starts(#[trigger] events[i], "TableCell"@) ==> exists|j: int|
            i < j < events.len() && closes_row(#[trigger] events[j])
}

/// Every block of code is closed.
pub open spec fn code_closed(events: Seq<Markup>) -> bool {
    forall|i: int|
        0 <= i < events.len() && starts(#[trigger] events[i], "CodeBlock"@) ==> exists|j: int|
            i < j < events.len() && closes(#[trigger] events[j], "CodeBlock"@)
}

/// What may stand in a table cell: anything but cells, ends of rows and blocks of code.
pub open spec fn cell_content(events: Seq<Markup>) -> bool {
    forall|i: int|
        0 <= i < events.len() ==> !starts(#[trigger] events[i], "TableCell"@) && !closes_row(
            events[i],
        ) && !starts(events[i], "CodeBlock"@)
}

/// The events of table cells, one after the other.
pub open spec fn cell_events(cells: Seq<Seq<Markup>>) -> Seq<Markup>
    decreases cells.len(),
{
    if cells.len() == 0 {
        Seq::empty()
    } else {
        cell_events(cells.drop_last()) + seq![Markup::TagStart("TableCell"@)] + cells.last() + seq![
            Markup::TagEnd("TableCell"@),
        ]
    }
}

proof fn row_names_differ()
    ensures
        "TableCell"@ != "TableRow"@,
        "TableCell"@ != "TableHead"@,
        "TableRow"@ != "TableHead"@,
        "TableCell"@ != "CodeBlock"@,
        "TableRow"@ != "CodeBlock"@,
        "TableHead"@ != "CodeBlock"@,
{
    reveal_strlit("TableCell");
    reveal_strlit("TableRow");
    reveal_strlit("TableHead");
    reveal_strlit("CodeBlock");
    assert("TableCell"@[5] == 'C' && "TableRow"@[5] == 'R' && "TableHead"@[5] == 'H');
    assert("TableCell"@[0] == 'T' && "TableRow"@[0] == 'T' && "TableHead"@[0] == 'T');
    assert("CodeBlock"@[0] == 'C');
}

proof fn closed_rows_begin_anew(events: Seq<Markup>, blocks: Seq<Seq<char>>)
    requires
        rows_closed(events),
    ensures
        latex_doc::page(events, blocks).column == 0,
    decreases events.len(),
{
    if events.len() > 0 {
        let w = events.drop_last();
        let e = events.last();
        let n = events.len() - 1;
        assert(events[n] == e);
        if !closes_row(e) {
            assert forall|i: int| 0 <= i < w.len() && starts(
                #[trigger] w[i],
                "TableCell"@,
            ) implies exists|j: int| i < j < w.len() && closes_row(#[trigger] w[j]) by {
                assert(events[i] == w[i]);
                let j = choose|j: int| i < j < events.len() && closes_row(#[trigger] events[j]);
                assert(w[j] == events[j]);
            }
            assert(!starts(events[n], "TableCell"@));
            closed_rows_begin_anew(w, blocks);
        }
    }
}

proof fn closed_code_is_over(events: Seq<Markup>, blocks: Seq<Seq<char>>)
    requires
        code_closed(events),
    ensures
        !latex_doc::page(events, blocks).verbatim,
    decreases events.len(),
{
    row_names_differ();
    if events.len() > 0 {
        let w = events.drop_last();
        let e = events.last();
        let n = events.len() - 1;
        assert(events[n] == e);
        if !closes(e, "CodeBlock"@) {
            assert forall|i: int| 0 <= i < w.len() && starts(
                #[trigger] w[i],
                "CodeBlock"@,
            ) implies exists|j: int| i < j < w.len() && closes(#[trigger] w[j], "CodeBlock"@) by {
                assert(events[i] == w[i]);
                let j = choose|j: int|
                    i < j < events.len() && closes(#[trigger] events[j], "CodeBlock"@);
                assert(w[j] == events[j]);
            }
            assert(!starts(events[n], "CodeBlock"@));
            closed_code_is_over(w, blocks);
        }
    }
}

proof fn contents_are_written_alike(
    before: Seq<Markup>,
    content: Seq<Markup>,
    blocks: Seq<Seq<char>>,
)
    requires
        cell_content(content),
        !latex_doc::page(before, blocks).verbatim,
    ensures
        latex_doc::page(before + content, blocks).out == latex_doc::page(before, blocks).out
            + latex_doc::page(content, blocks).out,
        latex_doc::page(before + content, blocks).column == latex_doc::page(before, blocks).column,
        !latex_doc::page(before + content, blocks).verbatim,
        !latex_doc::page(content, blocks).verbatim,
    decreases content.len(),
{
    if content.len() == 0 {
        assert(before + content =~= before);
        let out = latex_doc::page(before, blocks).out;
        assert(out + Seq::<char>::empty() =~= out);
    } else {
        let w = content.drop_last();
        let e = content.last();
        assert(content[content.len() - 1] == e);
        assert forall|i: int| 0 <= i < w.len() implies !starts(#[trigger] w[i], "TableCell"@)
            && !closes_row(w[i]) && !starts(w[i], "CodeBlock"@) by {
            assert(content[i] == w[i]);
        }
        contents_are_written_alike(before, w, blocks);
        assert((before + content).drop_last() =~= before + w);
        assert((before + content).last() == e);
        let a = latex_doc::page(before + w, blocks);
        let b = latex_doc::page(w, blocks);
        let out = latex_doc::page(before, blocks).out;
        assert(latex_doc::written(a, e, blocks).out =~= out + latex_doc::written(
            b,
            e,
            blocks,
        ).out);
    }
}

proof fn cells_so_far(before: Seq<Markup>, cells: Seq<Seq<Markup>>, blocks: Seq<Seq<char>>)
    requires
        latex_doc::page(before, blocks).column == 0,
        !latex_doc::page(before, blocks).verbatim,
        forall|k: int| 0 <= k < cells.len() ==> cell_content(#[trigger] cells[k]),
    ensures
        latex_doc::page(before + cell_events(cells), blocks).out == latex_doc::page(
            before,
            blocks,
        ).out + words::joined(cell_texts(cells, blocks), " & "@),
        latex_doc::page(before + cell_events(cells), blocks).column == cells.len(),
        !latex_doc::page(before + cell_events(cells), blocks).verbatim,
    decreases cells.len(),
{
    row_names_differ();
    let out = latex_doc::page(before, blocks).out;
    let texts = cell_texts(cells, blocks);
    if cells.len() == 0 {
        assert(before + cell_events(cells) =~= before);
        assert(out + words::joined(texts, " & "@) =~= out);
    } else {
        let w = cells.drop_last();
        let c = cells.last();
        assert(cells[cells.len() - 1] == c);
        assert forall|k: int| 0 <= k < w.len() implies cell_content(#[trigger] w[k]) by {
            assert(cells[k] == w[k]);
        }
        cells_so_far(before, w, blocks);
        let some = cell_texts(w, blocks);
        assert(texts.drop_last() =~= some);
        assert(texts.last() == latex_doc::page(c, blocks).out);
        let e0 = before + cell_events(w);
        let start = Markup::TagStart("TableCell"@);
        let end = Markup::TagEnd("TableCell"@);
        let e1 = e0.push(start);
        assert(e1.drop_last() =~= e0);
        contents_are_written_alike(e1, c, blocks);
        let e2 = e1 + c;
        let e3 = e2.push(end);
        assert(e3.drop_last() =~= e2);
        assert(e3 =~= before + cell_events(cells));
        assert(latex_doc::end_text("TableCell"@) =~= Seq::<char>::empty()) by {
            end_of_a_cell();
        }
        let a = latex_doc::page(e0, blocks).out;
        let text = texts.last();
        if w.len() == 0 {
            assert(words::joined(some, " & "@) =~= Seq::<char>::empty());
            assert(words::joined(texts, " & "@) == text);
            assert(latex_doc::page(e3, blocks).out =~= out + text);
        } else {
            let left = words::joined(some, " & "@);
            assert(words::joined(texts, " & "@) == left + " & "@ + text);
            assert(latex_doc::page(e3, blocks).out =~= out + (left + " & "@ + text));
        }
    }
}

proof fn end_of_a_cell()
    ensures
        latex_doc::end_text("TableCell"@) =~= Seq::<char>::empty(),
        latex_doc::start_text("TableRow"@) =~= Seq::<char>::empty(),
        latex_doc::start_text("TableHead"@) =~= Seq::<char>::empty(),
        latex_doc::end_text("TableRow"@) == seq!['\\', '\\', '\n'],
        latex_doc::end_text("TableHead"@) == seq!['\\', '\\', '\n'] + "\\hline\n"@,
{
    row_names_differ();
    reveal_strlit("TableCell");
    reveal_strlit("TableRow");
    reveal_strlit("TableHead");
    reveal_strlit("Paragraph");
    reveal_strlit("Heading(");
    reveal_strlit("Heading(H1)");
    reveal_strlit("Heading(H2)");
    reveal_strlit("BlockQuote(");
    reveal_strlit("CodeBlock");
    reveal_strlit("List(true)");
    reveal_strlit("List(false)");
    reveal_strlit("Item");
    reveal_strlit("Emphasis");
    reveal_strlit("Strong");
    reveal_strlit("Strikethrough");
    reveal_strlit("Image");
    reveal_strlit("Table");
    reveal_strlit("");
    reveal_strlit("\\\\\n");
    reveal_strlit("\\\\\n\\hline\n");
    reveal_strlit("\\hline\n");
    assert("Heading("@[0] == 'H' && "BlockQuote("@[0] == 'B' && "TableCell"@[0] == 'T');
    assert("TableCell"@.take(8)[0] == 'T' && "TableRow"@.take(8)[0] == 'T');
    assert("TableHead"@.take(8)[0] == 'T');
    assert("Paragraph"@[0] == 'P' && "Heading(H1)"@[0] == 'H' && "Heading(H2)"@[0] == 'H');
    assert("CodeBlock"@[0] == 'C' && "List(true)"@[0] == 'L' && "List(false)"@[0] == 'L');
    assert("Item"@[0] == 'I' && "Emphasis"@[0] == 'E' && "Strong"@[0] == 'S');
    assert("Strikethrough"@[0] == 'S' && "Image"@[0] == 'I' && "Table"@.len() == 5);
    assert("TableRow"@[0] == 'T' && "TableHead"@[0] == 'T');
    if "TableCell"@.len() >= "BlockQuote("@.len() {
        assert("TableCell"@.take(11)[0] == 'T');
    }
    assert("\\\\\n\\hline\n"@ =~= seq!['\\', '\\', '\n'] + "\\hline\n"@);
    assert("\\\\\n"@ =~= seq!['\\', '\\', '\n']);
}

/// What each cell is written as, on a page of its own.
pub open spec fn cell_texts(cells: Seq<Seq<Markup>>, blocks: Seq<Seq<char>>) -> Seq<Seq<char>> {
    Seq::new(cells.len(), |k: int| latex_doc::page(cells[k], blocks).out)
}

/// A table row is written as its cells, in order, with one separator between each two and none
/// elsewhere, and the end of the row; the head of a table has a line below it. That holds of the
/// first row and of every later one, whatever rows and tables come before.
pub proof fn rows_hold_their_cells(
    before: Seq<Markup>,
    head: bool,
    cells: Seq<Seq<Markup>>,
    blocks: Seq<Seq<char>>,
)
    requires
        rows_closed(before),
        code_closed(before),
        forall|k: int| 0 <= k < cells.len() ==> cell_content(#[trigger] cells[k]),
    ensures
        ({
            let name = if head {
                "TableHead"@
            } else {
                "TableRow"@
            };
            let row = seq![Markup::TagStart(name)] + cell_events(cells) + seq![
                Markup::TagEnd(name),
            ];
            let end = if head {
                seq!['\\', '\\', '\n'] + "\\hline\n"@
            } else {
                seq!['\\', '\\', '\n']
            };
            &&& latex_doc::page(before + row, blocks).out == latex_doc::page(before, blocks).out
                + words::joined(cell_texts(cells, blocks), seq![' ', '&', ' ']) + end
            &&& rows_closed(before + row)
            &&& code_closed(before + row)
        }),
{
    row_names_differ();
    end_of_a_cell();
    let name = if head {
        "TableHead"@
    } else {
        "TableRow"@
    };
    assert(" & "@ =~= seq![' ', '&', ' ']) by {
        reveal_strlit(" & ");
    }
    closed_rows_begin_anew(before, blocks);
    closed_code_is_over(before, blocks);
    let e0 = before.push(Markup::TagStart(name));
    assert(e0.drop_last() =~= before);
    let out = latex_doc::page(before, blocks).out;
    assert(latex_doc::page(e0, blocks).out =~= out);
    cells_so_far(e0, cells, blocks);
    let e1 = e0 + cell_events(cells);
    let e2 = e1.push(Markup::TagEnd(name));
    assert(e2.drop_last() =~= e1);
    let row = seq![Markup::TagStart(name)] + cell_events(cells) + seq![Markup::TagEnd(name)];
    assert(e2 =~= before + row);
    let n = e2.len() - 1;
    assert(closes_row(e2[n]));
    assert forall|i: int| 0 <= i < e2.len() && starts(
        #[trigger] e2[i],
        "TableCell"@,
    ) implies exists|j: int| i < j < e2.len() && closes_row(#[trigger] e2[j]) by {
        assert(i < n && closes_row(e2[n]));
    }
    assert forall|i: int| 0 <= i < e2.len() && starts(
        #[trigger] e2[i],
        "CodeBlock"@,
    ) implies exists|j: int| i < j < e2.len() && closes(#[trigger] e2[j], "CodeBlock"@) by {
        if i < before.len() {
            assert(e2[i] == before[i]);
            let j = choose|j: int|
                i < j < before.len() && closes(#[trigger] before[j], "CodeBlock"@);
            assert(e2[j] == before[j]);
        } else if before.len() < i < n {
            no_code_in_cells(cells, i - before.len() - 1);
            assert(e2[i] == cell_events(cells)[i - before.len() - 1]);
        }
    }
}

proof fn no_code_in_cells(cells: Seq<Seq<Markup>>, i: int)
    requires
        forall|k: int| 0 <= k < cells.len() ==> cell_content(#[trigger] cells[k]),
        0 <= i < cell_events(cells).len(),
    ensures
        !starts(cell_events(cells)[i], "CodeBlock"@),
    decreases cells.len(),
{
    row_names_differ();
    let w = cells.drop_last();
    let a = cell_events(w);
    let c = cells.last();
    assert(cells[cells.len() - 1] == c);
    assert forall|k: int| 0 <= k < w.len() implies cell_content(#[trigger] w[k]) by {
        assert(cells[k] == w[k]);
    }
    if i < a.len() {
        no_code_in_cells(w, i);
    } else if a.len() < i < a.len() + 1 + c.len() {
        assert(cell_events(cells)[i] == c[i - a.len() - 1]);
    }
}

/// The start of a table names one column for each that the table has: centered, to the right, or
/// else to the left.
pub proof fn tables_have_their_columns(
    before: Seq<Markup>,
    codes: Seq<u8>,
    blocks: Seq<Seq<char>>,
)
    ensures
        latex_doc::page(before.push(Markup::Columns(codes)), blocks).out == latex_doc::page(
            before,
            blocks,
        ).out + "\\begin{tabular}{"@ + Seq::new(
            codes.len(),
            |i: int|
                if codes[i] == 2 {
                    'c'
                } else if codes[i] == 3 {
                    'r'
                } else {
                    'l'
                },
        ) + "}\n"@,
{
    assert(before.push(Markup::Columns(codes)).drop_last() =~= before);
    assert(latex_doc::column_specs(codes) =~= Seq::new(
        codes.len(),
        |i: int|
            if codes[i] == 2 {
                'c'
            } else if codes[i] == 3 {
                'r'
            } else {
                'l'
            },
    ));
}

proof fn tag_texts()
    ensures
        "\\section*{"@.last() == '{' && "\\section*{"@.len() == 10,
        "\\subsection*{"@.last() == '{' && "\\subsection*{"@.len() == 13,
        "\\subsubsection*{"@.last() == '{' && "\\subsubsection*{"@.len() == 16,
        "\\textit{"@.last() == '{' && "\\textit{"@.len() == 8,
        "\\textbf{"@.last() == '{' && "\\textbf{"@.len() == 8,
        "\\sout{"@.last() == '{' && "\\sout{"@.len() == 6,
        "\\item "@.last() == ' ',
        "[image: "@.last() == ' ',
        ""@.len() == 0,
        "}\n\n"@.len() == 3 && "}\n\n"@[0] == '}',
        "}"@.len() == 1 && "}"@[0] == '}',
        "]"@.len() == 1 && "]"@[0] == ']',
        "\n\n"@[0] == '\n' && "\n"@[0] == '\n',
        "\\end{tabular}\n\n"@[0] == '\\',
        "\\\\\n\\hline\n"@[0] == '\\',
        "\\\\\n"@[0] == '\\',
        "\\end{quote}\n\n"@ =~= "\\end{"@ + "quote"@ + "}\n\n"@,
        "\\end{verbatim}\n\n"@ =~= "\\end{"@ + "verbatim"@ + "}\n\n"@,
        "\\end{enumerate}\n\n"@ =~= "\\end{"@ + "enumerate"@ + "}\n\n"@,
        "\\end{itemize}\n\n"@ =~= "\\end{"@ + "itemize"@ + "}\n\n"@,
        "\\begin{quote}\n"@ =~= "\\begin{"@ + "quote"@ + "}\n"@,
        "\\begin{verbatim}\n"@ =~= "\\begin{"@ + "verbatim"@ + "}\n"@,
        "\\begin{enumerate}\n"@ =~= "\\begin{"@ + "enumerate"@ + "}\n"@,
        "\\begin{itemize}\n"@ =~= "\\begin{"@ + "itemize"@ + "}\n"@,
        "\\begin{"@.len() == 7 && "\\end{"@.len() == 5 && "\\end{"@[0] == '\\',
        "}\n"@.len() == 2 && "}\n"@[1] == '\n',
{
    reveal_strlit("\\section*{");
    reveal_strlit("\\subsection*{");
    reveal_strlit("\\subsubsection*{");
    reveal_strlit("\\textit{");
    reveal_strlit("\\textbf{");
    reveal_strlit("\\sout{");
    reveal_strlit("\\item ");
    reveal_strlit("[image: ");
    reveal_strlit("");
    reveal_strlit("}\n\n");
    reveal_strlit("}");
    reveal_strlit("]");
    reveal_strlit("\n\n");
    reveal_strlit("\n");
    reveal_strlit("\\end{tabular}\n\n");
    reveal_strlit("\\\\\n\\hline\n");
    reveal_strlit("\\\\\n");
    reveal_strlit("\\end{");
    reveal_strlit("\\begin{");
    reveal_strlit("}\n");
    reveal_strlit("quote");
    reveal_strlit("verbatim");
    reveal_strlit("enumerate");
    reveal_strlit("itemize");
    reveal_strlit("\\end{quote}\n\n");
    reveal_strlit("\\end{verbatim}\n\n");
    reveal_strlit("\\end{enumerate}\n\n");
    reveal_strlit("\\end{itemize}\n\n");
    reveal_strlit("\\begin{quote}\n");
    reveal_strlit("\\begin{verbatim}\n");
    reveal_strlit("\\begin{enumerate}\n");
    reveal_strlit("\\begin{itemize}\n");
}

proof fn tag_names()
    ensures
        text::begins("Heading(H1)"@, "Heading("@) && text::begins("Heading(H2)"@, "Heading("@),
        forall|name: Seq<char>|
            #![trigger text::begins(name, "Heading("@)]
            text::begins(name, "Heading("@) ==> name.len() > 0 && name[0] == 'H' && name
                != "Paragraph"@,
        forall|name: Seq<char>|
            #![trigger text::begins(name, "BlockQuote("@)]
            text::begins(name, "BlockQuote("@) ==> name.len() > 0 && name[0] == 'B' && name
                != "Paragraph"@,
        "CodeBlock"@[0] == 'C' && "List(true)"@[0] == 'L' && "List(false)"@[0] == 'L',
        "Item"@[0] == 'I' && "Emphasis"@[0] == 'E' && "Strong"@[0] == 'S' && "Image"@[0] == 'I',
        "Strikethrough"@[0] == 'S' && "Paragraph"@[0] == 'P' && "Heading(H1)"@[0] == 'H',
        "Heading(H2)"@[0] == 'H' && "Table"@[0] == 'T' && "TableRow"@[0] == 'T' && "TableHead"@[0]
            == 'T',
        "List(true)"@ != "List(false)"@ && "Strong"@ != "Strikethrough"@ && "Item"@ != "Image"@,
        "Heading(H1)"@ != "Heading(H2)"@,
{
    reveal_strlit("Heading(");
    reveal_strlit("BlockQuote(");
    reveal_strlit("Heading(H1)");
    reveal_strlit("Heading(H2)");
    reveal_strlit("CodeBlock");
    reveal_strlit("List(true)");
    reveal_strlit("List(false)");
    reveal_strlit("Item");
    reveal_strlit("Emphasis");
    reveal_strlit("Strong");
    reveal_strlit("Image");
    reveal_strlit("Strikethrough");
    reveal_strlit("Paragraph");
    reveal_strlit("Table");
    reveal_strlit("TableRow");
    reveal_strlit("TableHead");
    assert("Heading(H1)"@.take(8) =~= "Heading("@);
    assert("Heading(H2)"@.take(8) =~= "Heading("@);
    assert("List(true)"@.len() == 10 && "List(false)"@.len() == 11);
    assert("Strong"@.len() == 6 && "Strikethrough"@.len() == 13);
    assert("Item"@.len() == 4 && "Image"@.len() == 5);
    assert("Heading(H1)"@[9] == '1' && "Heading(H2)"@[9] == '2');
    assert forall|name: Seq<char>|
        #![trigger text::begins(name, "Heading("@)]
        text::begins(name, "Heading("@) implies name.len() > 0 && name[0] == 'H' && name
        != "Paragraph"@ by {
        assert("Heading("@[0] == name[0]);
    }
    assert forall|name: Seq<char>|
        #![trigger text::begins(name, "BlockQuote("@)]
        text::begins(name, "BlockQuote("@) implies name.len() > 0 && name[0] == 'B' && name
        != "Paragraph"@ by {
        assert("BlockQuote("@[0] == name[0]);
    }
}

/// What a tag opens, its end closes: a brace that the start leaves open is the first thing that
/// the end writes, and an environment is ended under the name that it began with.
pub proof fn tags_close_what_they_open(name: Seq<char>)
    ensures
        ({
            let s = latex_doc::start_text(name);
            let e = latex_doc::end_text(name);
            &&& (s.len() > 0 && s.last() == '{') == (e.len() > 0 && e[0] == '}')
            &&& "\\begin{"@.is_prefix_of(s) ==> e == "\\end{"@ + s.subrange(7, s.len() - 1) + seq![
                '\n',
                '\n',
            ]
        }),
{
    tag_texts();
    tag_names();
    reveal_strlit("\\begin{");
    reveal_strlit("\\section*{");
    reveal_strlit("\\subsection*{");
    reveal_strlit("\\subsubsection*{");
    reveal_strlit("\\textit{");
    reveal_strlit("\\textbf{");
    reveal_strlit("\\sout{");
    reveal_strlit("\\item ");
    reveal_strlit("[image: ");
    reveal_strlit("}\n\n");
    reveal_strlit("}\n");
    let s = latex_doc::start_text(name);
    let e = latex_doc::end_text(name);
    if "\\begin{"@.is_prefix_of(s) {
        assert(s.take(7) =~= "\\begin{"@);
        assert("\\begin{"@[0] == '\\' && "\\begin{"@[1] == 'b');
        assert(s.take(7)[0] == s[0] && s.take(7)[1] == s[1]);
        if text::begins(name, "BlockQuote("@) {
            assert(s.subrange(7, s.len() - 1) =~= "quote"@ + seq!['}']);
        } else if name == "CodeBlock"@ {
            assert(s.subrange(7, s.len() - 1) =~= "verbatim"@ + seq!['}']);
        } else if name == "List(true)"@ {
            assert(s.subrange(7, s.len() - 1) =~= "enumerate"@ + seq!['}']);
        } else {
            assert(s.subrange(7, s.len() - 1) =~= "itemize"@ + seq!['}']);
        }
        assert(e =~= "\\end{"@ + s.subrange(7, s.len() - 1) + seq!['\n', '\n']);
    }
}

/// Numbered lists are numbered, quotes are quoted, code is verbatim, and emphasis, strength and
/// deletion each have their command; headings are ranked by their level.
pub proof fn tags_have_their_meaning(name: Seq<char>)
    ensures
        ({
            let s = latex_doc::start_text(name);
            &&& name == "Heading(H1)"@ ==> s == "\\section*{"@
            &&& name == "Heading(H2)"@ ==> s == "\\subsection*{"@
            &&& "Heading("@.is_prefix_of(name) && name != "Heading(H1)"@ && name != "Heading(H2)"@
                ==> s == "\\subsubsection*{"@
            &&& "BlockQuote("@.is_prefix_of(name) ==> s == "\\begin{"@ + "quote"@ + "}\n"@
            &&& name == "CodeBlock"@ ==> s == "\\begin{"@ + "verbatim"@ + "}\n"@
            &&& name == "List(true)"@ ==> s == "\\begin{"@ + "enumerate"@ + "}\n"@
            &&& name == "List(false)"@ ==> s == "\\begin{"@ + "itemize"@ + "}\n"@
            &&& name == "Item"@ ==> s == "\\item "@
            &&& name == "Emphasis"@ ==> s == "\\textit{"@
            &&& name == "Strong"@ ==> s == "\\textbf{"@
            &&& name == "Strikethrough"@ ==> s == "\\sout{"@
        }),
{
    tag_texts();
    tag_names();
    reveal_strlit("Heading(");
    reveal_strlit("BlockQuote(");
    if "Heading("@.is_prefix_of(name) {
        assert(text::begins(name, "Heading("@));
    }
    if "BlockQuote("@.is_prefix_of(name) {
        assert(text::begins(name, "BlockQuote("@));
    }
}

// ---------------------------------------------------------------------------
// Texts
// ---------------------------------------------------------------------------

/// A text is written character by character.
pub proof fn texts_are_written_in_order(
    a: Seq<char>,
    b: Seq<char>,
    blocks: Seq<Seq<char>>,
    verbatim: bool,
)
    ensures
        latex_doc::with_math(a + b, blocks, verbatim) == latex_doc::with_math(a, blocks, verbatim)
            + latex_doc::with_math(b, blocks, verbatim),
    decreases b.len(),
{
    let x = latex_doc::with_math(a, blocks, verbatim);
    if b.len() == 0 {
        assert(a + b =~= a);
        assert(x + latex_doc::with_math(b, blocks, verbatim) =~= x);
    } else {
        texts_are_written_in_order(a, b.drop_last(), blocks, verbatim);
        assert((a + b).drop_last() =~= a + b.drop_last());
        assert(latex_doc::with_math(a + b, blocks, verbatim) =~= x + latex_doc::with_math(
            b,
            blocks,
            verbatim,
        ));
    }
}

/// A character that means something to LaTeX.
pub open spec fn special(c: char) -> bool {
    c == '\\' || c == '{' || c == '}' || c == '$' || c == '&' || c == '%' || c == '#' || c == '_'
        || c == '^' || c == '~'
}

/// A typographic sign that has a spelling of its own in LaTeX.
pub open spec fn typographic(c: char) -> bool {
    c == '\u{2011}' || c == '\u{2013}' || c == '\u{2014}' || c == '\u{2018}' || c == '\u{2019}'
        || c == '\u{201c}' || c == '\u{201d}' || c == '\u{2026}'
}

/// A character is written as itself, in code always. In other text, one that means something to
/// LaTeX is written behind a backslash or as a command, and typographic signs by their spelling.
/// The character that stands for a formula is written as the formula, to the letter.
pub proof fn characters_are_kept(c: char, blocks: Seq<Seq<char>>, verbatim: bool)
    ensures
        ({
            let w = latex_doc::with_math(seq![c], blocks, verbatim);
            let i = c as int - 0xf0000;
            let formula = 0 <= i < blocks.len() && i <= 0xfffd;
            &&& formula ==> w == blocks[i]
            &&& !formula && verbatim ==> w == seq![c]
            &&& !formula && !verbatim && !special(c) && !typographic(c) ==> w == seq![c]
            &&& !formula && !verbatim && special(c) && c != '\\' && c != '^' && c != '~' ==> w
                == seq!['\\', c]
            &&& !formula && !verbatim && c == '\\' ==> w == "\\textbackslash{}"@
            &&& !formula && !verbatim && c == '^' ==> w == "\\textasciicircum{}"@
            &&& !formula && !verbatim && c == '~' ==> w == "\\textasciitilde{}"@
        }),
{
    let s = seq![c];
    assert(s.drop_last() =~= Seq::<char>::empty());
    assert(s.last() == c);
    let e = latex_doc::with_math(s.drop_last(), blocks, verbatim);
    assert(e =~= Seq::<char>::empty());
    reveal_strlit("\\{");
    reveal_strlit("\\}");
    reveal_strlit("\\$");
    reveal_strlit("\\&");
    reveal_strlit("\\%");
    reveal_strlit("\\#");
    reveal_strlit("\\_");
    let w = latex_doc::with_math(s, blocks, verbatim);
    let i = c as int - 0xf0000;
    if 0 <= i < blocks.len() && i <= 0xfffd {
        assert(w =~= blocks[i]);
    } else if verbatim {
        assert(w =~= seq![c]);
    } else {
        assert(w =~= latex_doc::escaped(c));
        if special(c) && c != '\\' && c != '^' && c != '~' {
            assert(latex_doc::escaped(c) =~= seq!['\\', c]);
        }
    }
}

/// What a piece of text adds to the page: the text as code inside a block of code, and as ordinary
/// text elsewhere.
pub proof fn texts_reach_the_page(before: Seq<Markup>, t: Seq<char>, blocks: Seq<Seq<char>>)
    requires
        code_closed(before),
    ensures
        latex_doc::page(before.push(Markup::PlainText(t)), blocks).out == latex_doc::page(
            before,
            blocks,
        ).out + latex_doc::with_math(t, blocks, false),
        ({
            let code = before.push(Markup::TagStart("CodeBlock"@));
            latex_doc::page(code.push(Markup::PlainText(t)), blocks).out == latex_doc::page(
                code,
                blocks,
            ).out + latex_doc::with_math(t, blocks, true)
        }),
{
    row_names_differ();
    closed_code_is_over(before, blocks);
    assert(before.push(Markup::PlainText(t)).drop_last() =~= before);
    let code = before.push(Markup::TagStart("CodeBlock"@));
    assert(code.drop_last() =~= before);
    assert(code.push(Markup::PlainText(t)).drop_last() =~= code);
}

/// Code without formulas in it is written as it is.
pub proof fn code_is_kept(t: Seq<char>, blocks: Seq<Seq<char>>)
    requires
        forall|i: int|
            0 <= i < t.len() ==> !(0xf0000 <= (#[trigger] t[i]) as int <= 0xffffd),
    ensures
        latex_doc::with_math(t, blocks, true) == t,
    decreases t.len(),
{
    if t.len() > 0 {
        let w = t.drop_last();
        assert forall|i: int| 0 <= i < w.len() implies !(0xf0000 <= (#[trigger] w[i]) as int
            <= 0xffffd) by {
            assert(t[i] == w[i]);
        }
        code_is_kept(w, blocks);
        assert(t[t.len() - 1] == t.last());
        signs_have_numbers(t.last());
        assert(w + seq![t.last()] =~= t);
    } else {
        assert(t =~= Seq::empty());
    }
}

// ---------------------------------------------------------------------------
// Formulas
// ---------------------------------------------------------------------------

/// The segments of a text, one after the other.
pub open spec fn put_together(v: Seq<Segment>) -> Seq<char>
    decreases v.len(),
{
    if v.len() == 0 {
        Seq::empty()
    } else {
        put_together(v.drop_last()) + match v.last() {
            Segment::Text(t) => t,
            Segment::Latex(t) => t,
        }
    }
}

/// The texts among the segments hold no character that stands for a formula.
pub open spec fn without_signs(v: Seq<Segment>) -> bool {
    forall|k: int, i: int|
        0 <= k < v.len() && (#[trigger] v[k]) is Text && 0 <= i < v[k]->Text_0.len() ==> !(0xf0000
            <= (#[trigger] v[k]->Text_0[i]) as int <= 0xffffd)
}

proof fn signs_have_numbers(c: char)
    ensures
        0xf0000 <= c as int <= 0xffffd ==> latex_doc::placeholder_index(c) == Some(
            c as int - 0xf0000,
        ),
        !(0xf0000 <= c as int <= 0xffffd) ==> latex_doc::placeholder_index(c) is None,
{
}

proof fn later_formulas_do_not_matter(
    t: Seq<char>,
    a: Seq<Seq<char>>,
    b: Seq<Seq<char>>,
    verbatim: bool,
)
    requires
        a.len() <= b.len(),
        forall|i: int| 0 <= i < a.len() ==> a[i] == #[trigger] b[i],
        forall|i: int|
            0 <= i < t.len() ==> !(0xf0000 + a.len() <= (#[trigger] t[i]) as int <= 0xffffd),
    ensures
        latex_doc::with_math(t, a, verbatim) == latex_doc::with_math(t, b, verbatim),
    decreases t.len(),
{
    if t.len() > 0 {
        let w = t.drop_last();
        assert forall|i: int| 0 <= i < w.len() implies !(0xf0000 + a.len() <= (
        #[trigger] w[i]) as int <= 0xffffd) by {
            assert(t[i] == w[i]);
        }
        later_formulas_do_not_matter(w, a, b, verbatim);
        let c = t[t.len() - 1];
        signs_have_numbers(c);
        assert(latex_doc::block_for(c, a) == latex_doc::block_for(c, b)) by {
            let i = c as int - 0xf0000;
            if 0 <= i < a.len() {
                assert(a[i] == b[i]);
            }
        }
    }
}

proof fn signs_are_below(v: Seq<Segment>, i: int)
    requires
        without_signs(v),
        latex_doc::blocks_of(v).len() <= 0xfffe,
        0 <= i < latex_doc::with_placeholders(v).len(),
    ensures
        !(0xf0000 + latex_doc::blocks_of(v).len() <= latex_doc::with_placeholders(v)[i] as int
            <= 0xffffd),
    decreases v.len(),
{
    let w = v.drop_last();
    let n = latex_doc::with_placeholders(w).len();
    assert forall|k: int, j: int|
        0 <= k < w.len() && (#[trigger] w[k]) is Text && 0 <= j
            < w[k]->Text_0.len() implies !(0xf0000 <= (#[trigger] w[k]->Text_0[j]) as int
        <= 0xffffd) by {
        assert(v[k] == w[k]);
        assert(!(0xf0000 <= v[k]->Text_0[j] as int <= 0xffffd));
    }
    if i < n {
        signs_are_below(w, i);
    } else {
        let last = v[v.len() - 1];
        match last {
            Segment::Text(t) => {
                assert(latex_doc::with_placeholders(v)[i] == t[i - n]);
                assert(!(0xf0000 <= v[v.len() - 1]->Text_0[i - n] as int <= 0xffffd));
            },
            Segment::Latex(_) => {},
        }
    }
}

/// A formula that is taken out of a text comes back, to the letter and in its place: with every
/// sign replaced by what it stands for, the text reads as before.
pub proof fn formulas_come_back(v: Seq<Segment>)
    requires
        without_signs(v),
        latex_doc::blocks_of(v).len() <= 0xfffe,
    ensures
        latex_doc::with_math(latex_doc::with_placeholders(v), latex_doc::blocks_of(v), true)
            == put_together(v),
    decreases v.len(),
{
    if v.len() > 0 {
        let w = v.drop_last();
        let last = v[v.len() - 1];
        let a = latex_doc::blocks_of(w);
        let b = latex_doc::blocks_of(v);
        let t = latex_doc::with_placeholders(w);
        assert forall|k: int, j: int|
            0 <= k < w.len() && (#[trigger] w[k]) is Text && 0 <= j
                < w[k]->Text_0.len() implies !(0xf0000 <= (#[trigger] w[k]->Text_0[j]) as int
            <= 0xffffd) by {
            assert(v[k] == w[k]);
            assert(!(0xf0000 <= v[k]->Text_0[j] as int <= 0xffffd));
        }
        formulas_come_back(w);
        assert forall|i: int| 0 <= i < t.len() implies !(0xf0000 + a.len() <= (
        #[trigger] t[i]) as int <= 0xffffd) by {
            signs_are_below(w, i);
        }
        later_formulas_do_not_matter(t, a, b, true);
        match last {
            Segment::Text(x) => {
                assert forall|i: int| 0 <= i < x.len() implies !(0xf0000 <= (
                #[trigger] x[i]) as int <= 0xffffd) by {
                    assert(!(0xf0000 <= v[v.len() - 1]->Text_0[i] as int <= 0xffffd));
                }
                code_is_kept(x, b);
                texts_are_written_in_order(t, x, b, true);
            },
            Segment::Latex(x) => {
                let c = latex_doc::placeholder(a.len() as int);
                characters_are_kept(c, b, true);
                texts_are_written_in_order(t, seq![c], b, true);
                assert(t + seq![c] =~= t.push(c));
                assert(b[a.len() as int] == x);
            },
        }
    }
}

proof fn glued_is_put_together(v: Seq<Segment>)
    ensures
        latex_split::glued(v) == put_together(v),
    decreases v.len(),
{
    if v.len() == 1 {
        assert(v.skip(1) =~= Seq::empty());
        assert(v.drop_last() =~= Seq::empty());
        assert(put_together(v.drop_last()) =~= Seq::<char>::empty());
        assert(latex_split::glued(v.skip(1)) =~= Seq::<char>::empty());
        assert(latex_split::glued(v) =~= put_together(v));
    } else if v.len() > 1 {
        let mid = v.skip(1).drop_last();
        glued_is_put_together(v.skip(1));
        glued_is_put_together(v.drop_last());
        glued_is_put_together(mid);
        assert(v.drop_last().skip(1) =~= mid);
        assert(v.drop_last()[0] == v[0]);
        assert(v.skip(1).last() == v.last());
        assert(latex_split::glued(v) =~= put_together(v));
    }
}

proof fn parts_are_in_the_whole(v: Seq<Segment>, k: int, i: int) -> (j: int)
    requires
        0 <= k < v.len(),
        v[k] is Text,
        0 <= i < v[k]->Text_0.len(),
    ensures
        0 <= j < put_together(v).len(),
        put_together(v)[j] == v[k]->Text_0[i],
    decreases v.len(),
{
    let w = v.drop_last();
    if k < w.len() {
        assert(w[k] == v[k]);
        parts_are_in_the_whole(w, k, i)
    } else {
        assert(v.last() == v[k]);
        let j = put_together(w).len() + i;
        assert(put_together(v)[j] == v[k]->Text_0[i]);
        j
    }
}

/// Taking the formulas out of a text and putting them back gives the text again, unless it holds a
/// character that stands for a formula, or more formulas than there are such characters.
pub proof fn texts_come_back(s: Seq<char>)
    requires
        forall|i: int| 0 <= i < s.len() ==> !(0xf0000 <= (#[trigger] s[i]) as int <= 0xffffd),
        latex_doc::blocks_of(latex_split::segments(s)).len() <= 0xfffe,
    ensures
        ({
            let v = latex_split::segments(s);
            latex_doc::with_math(latex_doc::with_placeholders(v), latex_doc::blocks_of(v), true)
                == s
        }),
{
    let v = latex_split::segments(s);
    latex_split::splitting_loses_nothing(s);
    glued_is_put_together(v);
    assert forall|k: int, i: int|
        0 <= k < v.len() && (#[trigger] v[k]) is Text && 0 <= i
            < v[k]->Text_0.len() implies !(0xf0000 <= (#[trigger] v[k]->Text_0[i]) as int
        <= 0xffffd) by {
        let j = parts_are_in_the_whole(v, k, i);
        assert(s[j] == v[k]->Text_0[i]);
    }
    formulas_come_back(v);
}

/// A formula is what stands between two delimiters of the same kind, the delimiters included, and
/// ends at the first closing delimiter.
pub open spec fn delimited(t: Seq<char>) -> bool {
    let n = t.len() as int;
    &&& n >= 4
    &&& {
        ||| t[0] == '$' && t[1] == '$' && t[n - 2] == '$' && t[n - 1] == '$' && (forall|i: int|
            2 <= i < n - 2 ==> !(#[trigger] t[i] == '$' && t[i + 1] == '$'))
        ||| t[0] == '\\' && t[1] == '[' && t[n - 2] == '\\' && t[n - 1] == ']' && (forall|i: int|
            2 <= i < n - 2 ==> !(#[trigger] t[i] == '\\' && t[i + 1] == ']'))
        ||| t[0] == '\\' && t[1] == '(' && t[n - 2] == '\\' && t[n - 1] == ')' && (forall|i: int|
            2 <= i < n - 2 ==> !(#[trigger] t[i] == '\\' && t[i + 1] == ')'))
    }
}

proof fn blocks_are_delimited(s: Seq<char>, i: int)
    requires
        latex_split::block_end(s, i) is Some,
    ensures
        i < latex_split::block_end(s, i)->0 <= s.len() ==> delimited(
            s.subrange(i, latex_split::block_end(s, i)->0),
        ),
{
    let d = latex_split::opens_at(s, i)->0;
    let p = latex_split::closing(d);
    text::find_is_first(s, p, i + 2);
    let e = text::find(s, p, i + 2)->0;
    if i < e + 2 <= s.len() {
        let t = s.subrange(i, e + 2);
        assert(text::occurs_at(s, p, e));
        assert(s.subrange(e, e + 2) =~= p);
        assert(s[e] == s.subrange(e, e + 2)[0] && s[e + 1] == s.subrange(e, e + 2)[1]);
        assert forall|k: int| 2 <= k < t.len() - 2 implies !(#[trigger] t[k] == p[0] && t[k + 1]
            == p[1]) by {
            assert(!text::occurs_at(s, p, i + k));
            if t[k] == p[0] && t[k + 1] == p[1] {
                assert(s.subrange(i + k, i + k + 2) =~= p);
            }
        }
    }
}

proof fn formulas_from(s: Seq<char>, start: int, pos: int)
    ensures
        forall|k: int|
            0 <= k < latex_split::segments_from(s, start, pos).len() && (
            #[trigger] latex_split::segments_from(s, start, pos)[k]) is Latex ==> delimited(
                latex_split::segments_from(s, start, pos)[k]->Latex_0,
            ),
    decreases s.len() - pos,
{
    let i = latex_split::next_open(s, pos);
    if 0 <= start <= pos <= i < s.len() {
        match latex_split::block_end(s, i) {
            Some(e) => {
                if i < e <= s.len() {
                    blocks_are_delimited(s, i);
                    formulas_from(s, e, e);
                }
            },
            None => {
                formulas_from(s, start, i + 1);
            },
        }
    }
}

/// Every formula that is found in a text is delimited.
pub proof fn formulas_are_delimited(s: Seq<char>, k: int)
    requires
        0 <= k < latex_split::segments(s).len(),
        latex_split::segments(s)[k] is Latex,
    ensures
        delimited(latex_split::segments(s)[k]->Latex_0),
{
    formulas_from(s, 0, 0);
}

/// Every formula is found: what starts with an opening delimiter that is closed later begins with
/// a formula.
pub proof fn closed_formulas_are_found(
    open: Seq<char>,
    close: Seq<char>,
    body: Seq<char>,
    rest: Seq<char>,
)
    requires
        ({
            ||| open == seq!['\\', '['] && close == seq!['\\', ']']
            ||| open == seq!['\\', '('] && close == seq!['\\', ')']
            ||| open == seq!['$', '$'] && close == seq!['$', '$']
        }),
    ensures
        ({
            let found = latex_split::segments(open + body + close + rest);
            found.len() > 0 && found[0] is Latex
        }),
{
    let s = open + body + close + rest;
    let at = 2 + body.len() as int;
    assert(s[0] == open[0] && s[1] == open[1]);
    assert(latex_split::opens_at(s, 0) is Some);
    assert(latex_split::closing(latex_split::opens_at(s, 0)->0) =~= close);
    assert(latex_split::next_open(s, 0) == 0);
    assert(s.subrange(at, at + 2) =~= close);
    assert(text::occurs_at(s, close, at));
    text::find_is_first(s, close, 2);
    let e = latex_split::block_end(s, 0)->0;
    assert(s.subrange(0, 0) =~= Seq::<char>::empty());
    assert(latex_split::segments_from(s, 0, 0) =~= latex_split::text_run(s.subrange(0, 0)) + seq![
        Segment::Latex(s.subrange(0, e)),
    ] + latex_split::segments_from(s, e, e));
}

/// The document around a body holds the body, between its beginning and its end.
pub proof fn documents_hold_their_body(body: Seq<char>, color: (u8, u8, u8))
    ensures
        exists|head: Seq<char>|
            #[trigger] latex_doc::body_document(body, color).len() == head.len() + body.len()
                + "\n\\end{document}\n"@.len() && latex_doc::body_document(body, color) == head + body
                + "\n\\end{document}\n"@,
{
    let tail = "\n\\end{document}\n"@;
    let all = latex_doc::body_document(body, color);
    let head = all.take(all.len() - body.len() - tail.len());
    assert(all =~= head + body + tail);
}

/// Code within a line is set in its type, and a formula is written by its text.
pub proof fn code_and_formulas_add_their_text(
    before: Seq<Markup>,
    t: Seq<char>,
    blocks: Seq<Seq<char>>,
)
    ensures
        latex_doc::page(before.push(Markup::CodeText(t)), blocks).out == latex_doc::page(
            before,
            blocks,
        ).out + "\\texttt{"@ + latex_doc::with_math(t, blocks, false) + "}"@,
        latex_doc::page(before.push(Markup::InlineFormula(t)), blocks).out == latex_doc::page(
            before,
            blocks,
        ).out + latex_doc::with_math(t, blocks, false),
        latex_doc::page(before.push(Markup::DisplayFormula(t)), blocks).out == latex_doc::page(
            before,
            blocks,
        ).out + latex_doc::with_math(t, blocks, false),
{
    one_more(before, Markup::CodeText(t), blocks);
    one_more(before, Markup::InlineFormula(t), blocks);
    one_more(before, Markup::DisplayFormula(t), blocks);
}

/// A break that is only in the text is a blank, one that is meant is kept, and a rule is drawn.
pub proof fn breaks_add_their_text(before: Seq<Markup>, blocks: Seq<Seq<char>>)
    ensures
        latex_doc::page(before.push(Markup::SoftLine), blocks).out == latex_doc::page(
            before,
            blocks,
        ).out + " "@,
        latex_doc::page(before.push(Markup::HardLine), blocks).out == latex_doc::page(
            before,
            blocks,
        ).out + "\\\\\n"@,
        latex_doc::page(before.push(Markup::Ruler), blocks).out == latex_doc::page(
            before,
            blocks,
        ).out + "\\par\\noindent\\hrulefill\\par\n\n"@,
{
    one_more(before, Markup::SoftLine, blocks);
    one_more(before, Markup::HardLine, blocks);
    one_more(before, Markup::Ruler, blocks);
}

/// A task shows whether it is done.
pub proof fn tasks_show_whether_they_are_done(before: Seq<Markup>, blocks: Seq<Seq<char>>)
    ensures
        latex_doc::page(before.push(Markup::Task(true)), blocks).out == latex_doc::page(
            before,
            blocks,
        ).out + "$\\boxtimes$ "@,
        latex_doc::page(before.push(Markup::Task(false)), blocks).out == latex_doc::page(
            before,
            blocks,
        ).out + "$\\square$ "@,
{
    one_more(before, Markup::Task(true), blocks);
    one_more(before, Markup::Task(false), blocks);
}

/// HTML and references to footnotes add nothing.
pub proof fn other_markup_adds_nothing(before: Seq<Markup>, blocks: Seq<Seq<char>>)
    ensures
        latex_doc::page(before.push(Markup::HtmlBlock), blocks) == latex_doc::page(before, blocks),
        latex_doc::page(before.push(Markup::HtmlInline), blocks) == latex_doc::page(before, blocks),
        latex_doc::page(before.push(Markup::Footnote), blocks) == latex_doc::page(before, blocks),
{
    one_more(before, Markup::HtmlBlock, blocks);
    one_more(before, Markup::HtmlInline, blocks);
    one_more(before, Markup::Footnote, blocks);
}

proof fn one_more(before: Seq<Markup>, e: Markup, blocks: Seq<Seq<char>>)
    ensures
        latex_doc::page(before.push(e), blocks) == latex_doc::written(
            latex_doc::page(before, blocks),
            e,
            blocks,
        ),
{
    assert(before.push(e).drop_last() =~= before);
}

/// A paragraph ends with an empty line, and a table with its environment.
pub proof fn ends_add_their_text(before: Seq<Markup>, blocks: Seq<Seq<char>>)
    ensures
        latex_doc::page(before.push(Markup::TagEnd("Paragraph"@)), blocks).out == latex_doc::page(
            before,
            blocks,
        ).out + seq!['\n', '\n'],
        latex_doc::page(before.push(Markup::TagEnd("Table"@)), blocks).out == latex_doc::page(
            before,
            blocks,
        ).out + "\\end{tabular}\n\n"@,
{
    one_more(before, Markup::TagEnd("Paragraph"@), blocks);
    one_more(before, Markup::TagEnd("Table"@), blocks);
    assert("\n\n"@ =~= seq!['\n', '\n']) by {
        reveal_strlit("\n\n");
    }
    assert(latex_doc::end_text("Table"@) == "\\end{tabular}\n\n"@) by {
        tag_names();
        reveal_strlit("Table");
    }
}

/// Typographic signs are written by what stands for them in LaTeX.
pub proof fn signs_are_spelled(c: char)
    requires
        typographic(c),
    ensures
        ({
            let w = latex_doc::with_math(seq![c], Seq::empty(), false);
            &&& c == '\u{2011}' ==> w == seq!['-']
            &&& c == '\u{2013}' ==> w == seq!['-', '-']
            &&& c == '\u{2014}' ==> w == seq!['-', '-', '-']
            &&& c == '\u{2018}' || c == '\u{2019}' ==> w == seq!['\'']
            &&& c == '\u{201c}' || c == '\u{201d}' ==> w == seq!['"']
            &&& c == '\u{2026}' ==> w == "\\ldots{}"@
        }),
{
    let s = seq![c];
    let none = Seq::<Seq<char>>::empty();
    assert(s.drop_last() =~= Seq::<char>::empty());
    assert(s.last() == c);
    assert(latex_doc::with_math(s.drop_last(), none, false) =~= Seq::<char>::empty());
    reveal_strlit("--");
    reveal_strlit("---");
    assert("--"@ =~= seq!['-', '-']);
    assert("---"@ =~= seq!['-', '-', '-']);
    assert(latex_doc::with_math(s, none, false) =~= latex_doc::escaped(c));
}

proof fn opens_nowhere(s: Seq<char>, i: int)
    requires
        0 <= i <= s.len(),
        forall|k: int| 0 <= k < s.len() ==> #[trigger] latex_split::opens_at(s, k) is None,
    ensures
        latex_split::next_open(s, i) == s.len(),
    decreases s.len() - i,
{
    if i < s.len() {
        opens_nowhere(s, i + 1);
    }
}

/// A text without the start of a formula is read as it is, and nothing is put back.
pub proof fn texts_without_formulas_are_read_as_they_are(s: Seq<char>)
    requires
        forall|i: int|
            0 <= i < s.len() - 1 ==> !(#[trigger] s[i] == '$' && s[i + 1] == '$') && !(s[i] == '\\'
                && (s[i + 1] == '[' || s[i + 1] == '(')),
    ensures
        latex_doc::latex_body(s) == latex_doc::page(
            latex_doc::markdown_events(s),
            Seq::empty(),
        ).out,
{
    assert forall|k: int| 0 <= k < s.len() implies #[trigger] latex_split::opens_at(s, k) is None by {
        if k < s.len() - 1 {
            assert(!(s[k] == '$' && s[k + 1] == '$'));
        }
    }
    opens_nowhere(s, 0);
    let v = latex_split::segments(s);
    assert(s.skip(0) =~= s);
    assert(v =~= latex_split::text_run(s));
    let none = Seq::<Segment>::empty();
    assert(latex_doc::with_placeholders(none) =~= Seq::<char>::empty());
    assert(latex_doc::blocks_of(none) =~= Seq::<Seq<char>>::empty());
    if s.len() > 0 {
        assert(v.drop_last() =~= none);
        assert(v.last() == Segment::Text(s));
        assert(latex_doc::with_placeholders(v) =~= s);
        assert(latex_doc::blocks_of(v) =~= Seq::<Seq<char>>::empty());
    } else {
        assert(v =~= none);
        assert(latex_doc::with_placeholders(v) =~= s);
    }
}

/// The document around a formula holds it between its beginning and its end.
pub proof fn formula_documents_hold_the_formula(latex: Seq<char>, other: Seq<char>, color: (u8, u8, u8))
    ensures
        ({
            let a = latex_doc::block_document(latex, color);
            let b = latex_doc::block_document(other, color);
            let tail = "\n\\end{document}\n"@;
            let n = a.len() - latex.len() - tail.len();
            &&& n >= 0 && a.skip(n) == latex + tail
            &&& n <= b.len() && b.take(n) == a.take(n)
        }),
{
    let a = latex_doc::block_document(latex, color);
    let b = latex_doc::block_document(other, color);
    let tail = "\n\\end{document}\n"@;
    let n = a.len() - latex.len() - tail.len();
    assert(a.skip(n) =~= latex + tail);
    assert(b.take(n) =~= a.take(n));
}

/// An opening delimiter that nothing closes.
pub open spec fn open_formula(u: Seq<char>) -> bool {
    &&& u.len() >= 2
    &&& {
        ||| u[0] == '$' && u[1] == '$' && forall|i: int|
            2 <= i < u.len() - 1 ==> !(#[trigger] u[i] == '$' && u[i + 1] == '$')
        ||| u[0] == '\\' && u[1] == '[' && forall|i: int|
            2 <= i < u.len() - 1 ==> !(#[trigger] u[i] == '\\' && u[i + 1] == ']')
        ||| u[0] == '\\' && u[1] == '(' && forall|i: int|
            2 <= i < u.len() - 1 ==> !(#[trigger] u[i] == '\\' && u[i + 1] == ')')
    }
}

/// While a text streams in, nothing is held back but a formula that is not closed yet, or one
/// character that may begin a delimiter.
pub proof fn little_is_held_back(s: Seq<char>)
    ensures
        ({
            let u = latex_split::unsettled(s);
            ||| u.len() == 0
            ||| u.len() == 1 && (u[0] == '$' || u[0] == '\\')
            ||| open_formula(u)
        }),
    decreases s.len(),
{
    latex_split::next_open_bounds(s, 0);
    let i = latex_split::next_open(s, 0);
    let u = latex_split::unsettled(s);
    if i < s.len() {
        let d = latex_split::opens_at(s, i)->0;
        let p = latex_split::closing(d);
        text::find_is_first(s, p, i + 2);
        match latex_split::block_end(s, i) {
            Some(e) => {
                assert(text::occurs_at(s, p, e - 2));
                little_is_held_back(s.skip(e));
            },
            None => {
                assert(u =~= s.skip(i));
                assert forall|k: int| 2 <= k < u.len() - 1 implies !(#[trigger] u[k] == p[0] && u[k
                    + 1] == p[1]) by {
                    assert(!text::occurs_at(s, p, i + k));
                    if u[k] == p[0] && u[k + 1] == p[1] {
                        assert(s.subrange(i + k, i + k + 2) =~= p);
                    }
                }
                assert(u[0] == s[i] && u[1] == s[i + 1]);
            },
        }
    }
}

} // verus!
