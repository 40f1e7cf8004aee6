//! What holds of files that are read and written.

use vstd::prelude::*;
use vstd::utf8::*;
use crate::file_tools;
use crate::numbers;
use crate::replacing;
use crate::text;
use crate::text_laws;
use crate::words;
use crate::write_file;
use crate::write_file::{WriteFileParams, WriteKind};

verus! {

/// A whole write leaves the new text in the file, whatever it held.
pub proof fn whole_writes_leave_the_content(p: WriteFileParams, existing: Seq<u8>)
    requires
        p.old_content is None,
        p.offset is None,
        p.start_line is None,
    ensures
        write_file::write_kind(p) == Ok::<WriteKind, Seq<char>>(WriteKind::Whole),
        write_file::edited(p, WriteKind::Whole, existing) matches Ok(b) && valid_utf8(b)
            && decode_utf8(b) == p.content@,
{
    encode_utf8_valid_utf8(p.content@);
    encode_utf8_decode_utf8(p.content@);
}

/// A request is accepted just where it asks for one way to write, and gives the whole of a range.
pub proof fn requests_ask_for_one_way(p: WriteFileParams)
    ensures
        write_file::write_kind(p) is Ok <==> {
            &&& !(p.old_content is Some && p.offset is Some)
            &&& !(p.old_content is Some && p.start_line is Some)
            &&& !(p.offset is Some && p.start_line is Some)
            &&& p.offset is Some ==> p.length is Some
            &&& p.start_line is Some ==> p.end_line is Some
        },
        write_file::write_kind(p) matches Ok(k) ==> {
            &&& k == WriteKind::Search <==> p.old_content is Some
            &&& k == WriteKind::Offset <==> p.offset is Some
            &&& k == WriteKind::Lines <==> p.start_line is Some
        },
{
}

/// A write at an offset replaces the bytes of its range and no others. It is refused just where
/// the range is not within the file.
pub proof fn offset_writes_keep_the_other_bytes(
    before: Seq<u8>,
    middle: Seq<u8>,
    after: Seq<u8>,
    content: Seq<char>,
)
    ensures
        write_file::spliced(
            before + middle + after,
            before.len() as int,
            middle.len() as int,
            content,
        ) matches Ok(b) && b == before + encode_utf8(content) + after,
        forall|offset: int, length: int|
            0 <= offset && 0 <= length ==> ((
            #[trigger] write_file::spliced(before, offset, length, content)) is Err <==> offset
                + length > before.len()),
{
    let all = before + middle + after;
    let i = before.len() as int;
    let j = i + middle.len();
    assert(all.take(i) =~= before);
    assert(all.skip(j) =~= after);
}

/// The lines before, in and behind a range, and whether a line feed follows the last.
pub open spec fn file_of(
    before: Seq<Seq<char>>,
    middle: Seq<Seq<char>>,
    after: Seq<Seq<char>>,
    ended: bool,
) -> bool {
    let all = before + middle + after;
    &&& text_laws::all_lines(all)
    &&& middle.len() > 0
    &&& ended || all.last().len() > 0
}

/// A write to a range of lines replaces those lines and no others, and keeps the line feed at the
/// end of the file.
pub proof fn line_writes_keep_the_other_lines(
    before: Seq<Seq<char>>,
    middle: Seq<Seq<char>>,
    after: Seq<Seq<char>>,
    ended: bool,
    new: Seq<Seq<char>>,
    new_ended: bool,
)
    requires
        file_of(before, middle, after, ended),
        text_laws::all_lines(new),
        new.len() > 0,
        new_ended || new.last().len() > 0,
    ensures
        write_file::relined(
            encode_utf8(text_laws::as_text(before + middle + after, ended)),
            before.len() as int + 1,
            (before.len() + middle.len()) as int,
            text_laws::as_text(new, new_ended),
        ) matches Ok(b) && b == encode_utf8(
            text_laws::as_text(before + new + after, ended),
        ),
{
    let all = before + middle + after;
    let s = text_laws::as_text(all, ended);
    let start = before.len() as int + 1;
    let end = (before.len() + middle.len()) as int;
    encode_utf8_valid_utf8(s);
    encode_utf8_decode_utf8(s);
    text_laws::lines_come_back(all, ended);
    text_laws::lines_come_back(new, new_ended);
    assert(all.take(start - 1) =~= before);
    assert(all.skip(end) =~= after);
    assert("\n"@ =~= seq!['\n']) by {
        reveal_strlit("\n");
    }
    let body = words::joined(before + new + after, seq!['\n']);
    assert(body + seq!['\n'] =~= body.push('\n'));
    assert(body + Seq::<char>::empty() =~= body);
    if !ended {
        text_ends(all);
    }
}

proof fn text_ends(v: Seq<Seq<char>>)
    requires
        text_laws::all_lines(v),
        v.len() > 0,
        v.last().len() > 0,
    ensures
        text_laws::as_text(v, false).len() > 0,
        text_laws::as_text(v, false).last() != '\n',
{
    let s = words::joined(v, seq!['\n']);
    assert(s + Seq::<char>::empty() =~= s);
    assert(text_laws::one_line(v[v.len() - 1]));
    let last = v.last();
    assert(last[last.len() - 1] != '\n');
    if v.len() > 1 {
        assert(s =~= words::joined(v.drop_last(), seq!['\n']) + seq!['\n'] + last);
    }
}

/// Reading a range of lines gives just those lines.
pub proof fn line_reads_give_the_lines(
    before: Seq<Seq<char>>,
    middle: Seq<Seq<char>>,
    after: Seq<Seq<char>>,
    ended: bool,
    start: usize,
    end: usize,
    total: usize,
)
    requires
        file_of(before, middle, after, ended),
        start == before.len() + 1,
        end == before.len() + middle.len(),
    ensures
        file_tools::read_report(
            text_laws::as_text(before + middle + after, ended),
            Some(start),
            Some(end),
            total,
        ).content == Some(words::joined(middle, seq!['\n'])),
        before.len() == 0 ==> file_tools::read_report(
            text_laws::as_text(before + middle + after, ended),
            None,
            Some(end),
            total,
        ).content == Some(words::joined(middle, seq!['\n'])),
        after.len() == 0 ==> file_tools::read_report(
            text_laws::as_text(before + middle + after, ended),
            Some(start),
            None,
            total,
        ).content == Some(words::joined(middle, seq!['\n'])),
{
    let all = before + middle + after;
    text_laws::lines_come_back(all, ended);
    assert(all.subrange(start - 1, end as int) =~= middle);
    assert("\n"@ =~= seq!['\n']) by {
        reveal_strlit("\n");
    }
}

/// A range that starts within the file may end behind its end: what there is of it is read. One
/// that starts at no line, behind the last line, or behind its own end is refused.
pub proof fn ranges_are_cut_at_the_end(
    contents: Seq<char>,
    start: usize,
    end: usize,
    total: usize,
)
    ensures
        ({
            let n = words::lines(contents).len();
            let r = file_tools::read_report(contents, Some(start), Some(end), total);
            &&& (r.content is Some) == (1 <= start <= n && start <= end)
            &&& (r.error is Some) == !(r.content is Some)
            &&& 1 <= start <= n && end >= n ==> r.content == (file_tools::read_report(
                contents,
                Some(start),
                None,
                total,
            )).content
        }),
{
}

/// Searching and replacing works on the matches from the left: what stands between them stays, and
/// the new text takes the place of each. It is refused where there is no match, and where there
/// are several and only one is asked for.
pub proof fn searches_replace_the_matches(
    path: Seq<char>,
    existing: Seq<u8>,
    old_text: Seq<char>,
    content: Seq<char>,
    every: bool,
    parts: Seq<Seq<char>>,
)
    requires
        valid_utf8(existing),
        old_text.len() > 0,
        old_text != content,
        replacing::is_cut(decode_utf8(existing), old_text, parts),
    ensures
        write_file::searched(path, existing, old_text, content, every) is Ok <==> parts.len() == 2
            || (every && parts.len() > 2),
        write_file::searched(path, existing, old_text, content, every) matches Ok(b) ==> {
            &&& valid_utf8(b)
            &&& decode_utf8(b) == words::joined(parts, content)
        },
{
    let s = decode_utf8(existing);
    replacing::replacing_fills_the_cuts(s, old_text, content, parts);
    encode_utf8_valid_utf8(text::replaced(s, old_text, content));
    encode_utf8_decode_utf8(text::replaced(s, old_text, content));
    if parts.len() == 2 {
        let a = parts[0];
        let b = parts[1];
        assert(parts =~= seq![a] + seq![b]);
        text_laws::joined_first(a, seq![b], old_text);
        text_laws::joined_first(a, seq![b], content);
        assert(s =~= a + old_text + b);
        let n = a.len() as int;
        assert(replacing::stands_first(parts[0] + old_text, old_text, n));
        assert(replacing::stands_first(s, old_text, n)) by {
            assert forall|k: int| 0 <= k < old_text.len() implies s[n + k]
                == #[trigger] old_text[k] by {
                assert((a + old_text)[n + k] == old_text[k]);
            }
            assert forall|j: int| j < n implies !#[trigger] replacing::stands(s, old_text, j) by {
                if replacing::stands(s, old_text, j) {
                    assert(replacing::stands(a + old_text, old_text, j)) by {
                        assert forall|k: int| 0 <= k < old_text.len() implies (a + old_text)[j + k]
                            == #[trigger] old_text[k] by {
                            assert(s[j + k] == old_text[k]);
                        }
                    }
                }
            }
        }
        replacing::replacing_once_keeps_the_rest(s, old_text, content, n);
        assert(s.take(n) =~= a);
        assert(s.skip(n + old_text.len()) =~= b);
        encode_utf8_valid_utf8(text::replaced_first(s, old_text, content));
        encode_utf8_decode_utf8(text::replaced_first(s, old_text, content));
    }
}

/// A file mode is octal behind a zero, or behind `0o`, and hexadecimal behind `0x`; without a zero
/// before it, it is decimal.
pub proof fn modes_are_read(n: u32)
    ensures
        n > 0 ==> write_file::mode_value(seq!['0'] + numbers::in_radix(n as nat, 8)) == Some(
            n as nat,
        ),
        write_file::mode_value(seq!['0', 'o'] + numbers::in_radix(n as nat, 8)) == Some(n as nat),
        write_file::mode_value(seq!['0', 'x'] + numbers::in_radix(n as nat, 16)) == Some(n as nat),
        write_file::mode_value(numbers::decimal(n as nat)) == Some(n as nat),
{
    let o = numbers::in_radix(n as nat, 8);
    let x = numbers::in_radix(n as nat, 16);
    let d = numbers::decimal(n as nat);
    let max = u32::MAX as nat;
    numbers::numbers_are_read_back(n as nat, 8, max);
    numbers::numbers_are_read_back(n as nat, 16, max);
    numbers::numbers_are_read_back(n as nat, 10, max);
    first_digit(n as nat, 8);
    first_digit(n as nat, 10);
    let a = seq!['0'] + o;
    let b = seq!['0', 'o'] + o;
    let c = seq!['0', 'x'] + x;
    assert(a.take(1) =~= seq!['0']);
    assert(a.skip(1) =~= o);
    assert(a.take(2)[1] == o[0] && seq!['0', 'o'][1] == 'o' && seq!['0', 'x'][1] == 'x');
    assert(b.take(2) =~= seq!['0', 'o']);
    assert(b.skip(2) =~= o);
    assert(c.take(2) =~= seq!['0', 'x']);
    assert(c.take(2)[1] == 'x');
    assert(c.skip(2) =~= x);
    if d.len() >= 1 {
        assert(d.take(1)[0] == d[0]);
    }
    if d.len() >= 2 {
        assert(d.take(2)[0] == d[0]);
    }
    assert(seq!['0'][0] == '0' && seq!['0', 'o'][0] == '0' && seq!['0', 'x'][0] == '0');
}

proof fn first_digit(n: nat, radix: nat)
    requires
        radix == 8 || radix == 10,
    ensures
        numbers::in_radix(n, radix).len() > 0,
        '0' <= numbers::in_radix(n, radix)[0] <= '9',
        n > 0 ==> numbers::in_radix(n, radix)[0] != '0',
        n == 0 ==> numbers::in_radix(n, radix).len() == 1,
    decreases n,
{
    if n >= radix {
        assert(0 < n / radix < n) by (nonlinear_arith)
            requires
                n >= radix,
                radix >= 2,
        ;
        first_digit(n / radix, radix);
        let s = numbers::in_radix(n, radix);
        assert(s[0] == numbers::in_radix(n / radix, radix)[0]);
    }
}

} // verus!
