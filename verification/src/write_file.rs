//! The `write_file` tool: whole files, and edits by search, byte offset or line range.

use vstd::prelude::*;
use vstd::utf8::*;
use crate::context::ToolContext;
use crate::numbers;
use crate::numbers::{decimal_text, octal_text, parse_unsigned, usize_text};
use crate::text;
use crate::text::{
    count_matches, find_from, from_chars, piece, push_piece, replace_all, same, to_chars,
};
use crate::words;
use crate::words::{join, split_lines, text_lines};

verus! {

/// What std says is wrong with bytes that are not UTF-8.
pub uninterp spec fn utf8_fault_of(bytes: Seq<u8>) -> Seq<char>;

/// `std::str::from_utf8`: the text that some bytes encode, or its error as a text where they are
/// not UTF-8. The error depends on the bytes alone.
#[verifier::external_body]
pub(crate) fn utf8_text(bytes: &[u8]) -> (r: Result<String, String>)
    ensures
        match r {
            Ok(s) => encode_utf8(s@) == bytes@,
            Err(e) => !valid_utf8(bytes@) && e@ == utf8_fault_of(bytes@),
        },
{
    match std::str::from_utf8(bytes) {
        Ok(s) => Ok(s.to_owned()),
        Err(e) => Err(e.to_string()),
    }
}

/// The arguments of `write_file`.
pub struct WriteFileParams {
    pub path: String,
    pub content: String,
    pub mode: String,
    pub offset: Option<u64>,
    pub length: Option<u64>,
    pub start_line: Option<u64>,
    pub end_line: Option<u64>,
    pub old_content: Option<String>,
    pub replace_all: Option<bool>,
}

/// The file mode where none is given.
pub fn default_file_mode() -> (r: String)
    ensures
        r@ == "0644"@,
{
    "0644".to_owned()
}

/// What `write_file` reports.
pub struct WriteFileResult {
    pub path: String,
    pub bytes_written: usize,
    pub mode: String,
    pub created: bool,
    pub operation: String,
    pub message: String,
}

/// The number that a file mode gives: octal after `0o` or `0`, hexadecimal after `0x`, else
/// decimal.
pub open spec fn mode_value(mode: Seq<char>) -> Option<nat> {
    let max = u32::MAX as nat;
    if text::begins(mode, seq!['0', 'o']) {
        numbers::read_unsigned(mode.skip(2), 8, max)
    } else if text::begins(mode, seq!['0', 'x']) {
        numbers::read_unsigned(mode.skip(2), 16, max)
    } else if text::begins(mode, seq!['0']) && mode.len() > 1 {
        numbers::read_unsigned(mode.skip(1), 8, max)
    } else {
        numbers::read_unsigned(mode, 10, max)
    }
}

/// The error for a file mode that gives no number.
pub open spec fn mode_error(mode: Seq<char>) -> Seq<char> {
    "Invalid file mode format: '"@ + mode
        + "'. Expected octal (0644, 0o644), hex (0x1a4), or decimal"@
}

fn parse_mode(mode: &str) -> (r: Result<u32, String>)
    ensures
        match r {
            Ok(v) => mode_value(mode@) == Some(v as nat),
            Err(e) => mode_value(mode@) is None && e@ == mode_error(mode@),
        },
{
    let s = to_chars(mode);
    let n: usize = s.len();
    let (skip, radix): (usize, u64) = if n >= 2 && s[0] == '0' && s[1] == 'o' {
        (2, 8)
    } else if n >= 2 && s[0] == '0' && s[1] == 'x' {
        (2, 16)
    } else if n > 1 && s[0] == '0' {
        (1, 8)
    } else {
        (0, 10)
    };
    let digits = piece(s.as_slice(), skip, n);
    proof {
        assert(digits@ =~= mode@.skip(skip as int));
        assert(mode@.skip(0) =~= mode@);
        if n >= 2 {
            assert(mode@.take(2) =~= seq![mode@[0], mode@[1]]);
            assert(seq![mode@[0], mode@[1]] =~= seq!['0', 'o'] <==> mode@[0] == '0' && mode@[1]
                == 'o') by {
                if seq![mode@[0], mode@[1]] =~= seq!['0', 'o'] {
                    assert(seq![mode@[0], mode@[1]][0] == seq!['0', 'o'][0]);
                    assert(seq![mode@[0], mode@[1]][1] == seq!['0', 'o'][1]);
                }
            }
            assert(seq![mode@[0], mode@[1]] =~= seq!['0', 'x'] <==> mode@[0] == '0' && mode@[1]
                == 'x') by {
                if seq![mode@[0], mode@[1]] =~= seq!['0', 'x'] {
                    assert(seq![mode@[0], mode@[1]][0] == seq!['0', 'x'][0]);
                    assert(seq![mode@[0], mode@[1]][1] == seq!['0', 'x'][1]);
                }
            }
        }
        if n >= 1 {
            assert(mode@.take(1) =~= seq![mode@[0]]);
            assert(seq![mode@[0]] =~= seq!['0'] <==> mode@[0] == '0') by {
                if seq![mode@[0]] =~= seq!['0'] {
                    assert(seq![mode@[0]][0] == seq!['0'][0]);
                }
            }
        }
    }
    match parse_unsigned(digits.as_slice(), radix, u32::MAX as u64) {
        Some(v) => Ok(v as u32),
        None => {
            let mut e = "Invalid file mode format: '".to_owned();
            e.append(mode);
            e.append("'. Expected octal (0644, 0o644), hex (0x1a4), or decimal");
            Err(e)
        },
    }
}

/// The way a file is written.
#[derive(Clone, Copy, PartialEq, Eq, Structural, Debug)]
pub enum WriteKind {
    Whole,
    Search,
    Offset,
    Lines,
}

/// The way that the arguments ask for, or why they do not go together.
pub open spec fn write_kind(p: WriteFileParams) -> Result<WriteKind, Seq<char>> {
    if p.old_content is Some && (p.offset is Some || p.start_line is Some) {
        Err("Cannot combine old_content with offset or start_line parameters"@)
    } else if p.offset is Some && p.start_line is Some {
        Err("Cannot combine offset with start_line parameters"@)
    } else if p.offset is Some && p.length is None {
        Err("offset requires length to be specified"@)
    } else if p.start_line is Some && p.end_line is None {
        Err("start_line requires end_line to be specified"@)
    } else if p.old_content is Some {
        Ok(WriteKind::Search)
    } else if p.offset is Some {
        Ok(WriteKind::Offset)
    } else if p.start_line is Some {
        Ok(WriteKind::Lines)
    } else {
        Ok(WriteKind::Whole)
    }
}

/// A checked request: the file mode and the way to write.
pub open spec fn write_plan(p: WriteFileParams) -> Result<(nat, WriteKind), Seq<char>> {
    match mode_value(p.mode@) {
        None => Err(mode_error(p.mode@)),
        Some(m) => match write_kind(p) {
            Err(e) => Err(e),
            Ok(k) => Ok((m, k)),
        },
    }
}

/// Checks the arguments before any file is touched.
pub fn plan_write(p: &WriteFileParams) -> (r: Result<(u32, WriteKind), String>)
    ensures
        match r {
            Ok(v) => write_plan(*p) == Ok::<(nat, WriteKind), Seq<char>>((v.0 as nat, v.1)),
            Err(e) => write_plan(*p) == Err::<(nat, WriteKind), Seq<char>>(e@),
        },
{
    let mode = match parse_mode(p.mode.as_str()) {
        Ok(m) => m,
        Err(e) => {
            return Err(e);
        },
    };
    let has_offset = p.offset.is_some();
    let has_start_line = p.start_line.is_some();
    let has_old_content = p.old_content.is_some();
    if has_old_content && (has_offset || has_start_line) {
        return Err("Cannot combine old_content with offset or start_line parameters".to_owned());
    }
    if has_offset && has_start_line {
        return Err("Cannot combine offset with start_line parameters".to_owned());
    }
    if has_offset && p.length.is_none() {
        return Err("offset requires length to be specified".to_owned());
    }
    if has_start_line && p.end_line.is_none() {
        return Err("start_line requires end_line to be specified".to_owned());
    }
    let kind = if has_old_content {
        WriteKind::Search
    } else if has_offset {
        WriteKind::Offset
    } else if has_start_line {
        WriteKind::Lines
    } else {
        WriteKind::Whole
    };
    Ok((mode, kind))
}

// ---------------------------------------------------------------------------
// Edits
// ---------------------------------------------------------------------------

/// The bytes after a search-and-replace, or why it is refused.
pub open spec fn searched(
    path: Seq<char>,
    existing: Seq<u8>,
    old_text: Seq<char>,
    content: Seq<char>,
    every: bool,
) -> Result<Seq<u8>, Seq<char>> {
    let s = decode_utf8(existing);
    let n = text::match_count(s, old_text, 0);
    if !valid_utf8(existing) {
        Err("File contains invalid UTF-8, cannot use search-and-replace mode"@)
    } else if old_text == content {
        Err("old_content and content are identical, nothing to replace"@)
    } else if n == 0 {
        Err("old_content not found in file '"@ + path + "'"@)
    } else if n > 1 && !every {
        Err(
            "old_content matches "@ + numbers::decimal(n) + " times in '"@ + path
                + "'. Set replace_all=true or provide more context to make it unique"@,
        )
    } else if every {
        Ok(encode_utf8(text::replaced(s, old_text, content)))
    } else {
        Ok(encode_utf8(text::replaced_first(s, old_text, content)))
    }
}

/// The bytes after `length` bytes from `offset` on are replaced, or why that is refused.
pub open spec fn spliced(
    existing: Seq<u8>,
    offset: int,
    length: int,
    content: Seq<char>,
) -> Result<Seq<u8>, Seq<char>> {
    if offset > existing.len() {
        Err(
            "offset "@ + numbers::decimal(offset as nat) + " is beyond file size "@
                + numbers::decimal(existing.len()),
        )
    } else if offset + length > existing.len() {
        Err(
            "offset ("@ + numbers::decimal(offset as nat) + ") + length ("@ + numbers::decimal(
                length as nat,
            ) + ") = "@ + numbers::decimal((offset + length) as nat) + " exceeds file size "@
                + numbers::decimal(existing.len()),
        )
    } else {
        Ok(existing.take(offset) + encode_utf8(content) + existing.skip(offset + length))
    }
}

/// The bytes after the lines from `start` to `end`, counted from one, are replaced, or why that is
/// refused.
pub open spec fn relined(
    existing: Seq<u8>,
    start: int,
    end: int,
    content: Seq<char>,
) -> Result<Seq<u8>, Seq<char>> {
    let s = decode_utf8(existing);
    let v = words::lines(s);
    if !valid_utf8(existing) {
        Err("File contains invalid UTF-8, cannot use line-number mode"@)
    } else if start == 0 {
        Err("start_line is 1-based, cannot be 0"@)
    } else if end < start {
        Err(
            "end_line ("@ + numbers::decimal(end as nat) + ") must be >= start_line ("@
                + numbers::decimal(start as nat) + ")"@,
        )
    } else if start > v.len() {
        Err(
            "start_line "@ + numbers::decimal(start as nat) + " exceeds file line count "@
                + numbers::decimal(v.len()),
        )
    } else if end > v.len() {
        Err(
            "end_line "@ + numbers::decimal(end as nat) + " exceeds file line count "@
                + numbers::decimal(v.len()),
        )
    } else {
        let body = words::joined(v.take(start - 1) + words::lines(content) + v.skip(end), "\n"@);
        Ok(
            encode_utf8(
                if s.len() > 0 && s.last() == '\n' {
                    body.push('\n')
                } else {
                    body
                },
            ),
        )
    }
}

/// The name of an edit.
pub open spec fn operation_name(kind: WriteKind) -> Seq<char> {
    match kind {
        WriteKind::Search => "patch_search_replace"@,
        WriteKind::Offset => "patch_offset"@,
        WriteKind::Lines => "patch_lines"@,
        WriteKind::Whole => "overwrite"@,
    }
}

/// The name of an edit as it is shown.
pub open spec fn operation_label(kind: WriteKind) -> Seq<char> {
    match kind {
        WriteKind::Search => "PATCH (search & replace)"@,
        WriteKind::Offset => "PATCH (byte offset)"@,
        WriteKind::Lines => "PATCH (line range)"@,
        WriteKind::Whole => "OVERWRITE"@,
    }
}

/// The bytes that `write_file` leaves in a file that held `existing`.
pub open spec fn edited(p: WriteFileParams, kind: WriteKind, existing: Seq<u8>) -> Result<
    Seq<u8>,
    Seq<char>,
> {
    match kind {
        WriteKind::Search => searched(
            p.path@,
            existing,
            p.old_content->0@,
            p.content@,
            p.replace_all == Some(true),
        ),
        WriteKind::Offset => spliced(
            existing,
            p.offset->0 as int,
            p.length->0 as int,
            p.content@,
        ),
        WriteKind::Lines => relined(
            existing,
            p.start_line->0 as int,
            p.end_line->0 as int,
            p.content@,
        ),
        WriteKind::Whole => Ok(encode_utf8(p.content@)),
    }
}

fn copy_bytes(out: &mut Vec<u8>, bytes: &[u8], i: usize, j: usize)
    requires
        i <= j <= bytes@.len(),
    ensures
        final(out)@ == old(out)@ + bytes@.subrange(i as int, j as int),
{
    let mut k: usize = i;
    assert(out@ =~= old(out)@ + bytes@.subrange(i as int, i as int));
    while k < j
        invariant
            i <= k <= j <= bytes@.len(),
            out@ == old(out)@ + bytes@.subrange(i as int, k as int),
        decreases j - k,
    {
        out.push(bytes[k]);
        assert(old(out)@ + bytes@.subrange(i as int, k + 1) =~= (old(out)@ + bytes@.subrange(
            i as int,
            k as int,
        )).push(bytes@[k as int]));
        k += 1;
    }
}

fn bytes_of(s: &str) -> (r: Vec<u8>)
    ensures
        r@ == encode_utf8(s@),
{
    let b = s.as_bytes();
    let mut out: Vec<u8> = Vec::new();
    copy_bytes(&mut out, b, 0, b.len());
    assert(Seq::<u8>::empty() + b@.subrange(0, b@.len() as int) =~= b@);
    out
}

fn edit_by_search(
    path: &str,
    existing: &[u8],
    old_text: &str,
    content: &str,
    every: bool,
) -> (r: Result<Vec<u8>, String>)
    requires
        existing@.len() < usize::MAX,
    ensures
        match r {
            Ok(b) => searched(path@, existing@, old_text@, content@, every) == Ok::<
                Seq<u8>,
                Seq<char>,
            >(b@),
            Err(e) => searched(path@, existing@, old_text@, content@, every) == Err::<
                Seq<u8>,
                Seq<char>,
            >(e@),
        },
{
    let s = match utf8_text(existing) {
        Ok(s) => s,
        Err(_) => {
            return Err("File contains invalid UTF-8, cannot use search-and-replace mode".to_owned());
        },
    };
    proof {
        encode_utf8_decode_utf8(s@);
        encode_utf8_valid_utf8(s@);
        chars_fit_bytes(s@);
    }
    if same(old_text, content) {
        return Err("old_content and content are identical, nothing to replace".to_owned());
    }
    let chars = to_chars(s.as_str());
    let p = to_chars(old_text);
    let c = to_chars(content);
    let n = count_matches(chars.as_slice(), p.as_slice());
    if n == 0 {
        let mut e = "old_content not found in file '".to_owned();
        e.append(path);
        e.append("'");
        return Err(e);
    }
    if n > 1 && !every {
        let mut e = "old_content matches ".to_owned();
        e.append(usize_text(n).as_str());
        e.append(" times in '");
        e.append(path);
        e.append("'. Set replace_all=true or provide more context to make it unique");
        return Err(e);
    }
    let out = if every {
        replace_all(chars.as_slice(), p.as_slice(), c.as_slice())
    } else {
        replace_once(chars.as_slice(), p.as_slice(), c.as_slice())
    };
    let t = from_chars(out.as_slice());
    Ok(bytes_of(t.as_str()))
}

/// `s` with `r` in place of the first match of `p`.
pub fn replace_once(s: &[char], p: &[char], r: &[char]) -> (out: Vec<char>)
    ensures
        out@ == text::replaced_first(s@, p@, r@),
{
    let n: usize = s.len();
    let mut out: Vec<char> = Vec::new();
    match find_from(s, p, 0) {
        None => {
            push_piece(&mut out, s, 0, n);
            assert(out@ =~= s@);
        },
        Some(i) => {
            push_piece(&mut out, s, 0, i);
            text::push_all(&mut out, r);
            push_piece(&mut out, s, i + p.len(), n);
            assert(out@ =~= s@.take(i as int) + r@ + s@.skip(i + p@.len()));
        },
    }
    out
}

/// A text has no more characters than bytes.
pub proof fn chars_fit_bytes(s: Seq<char>)
    ensures
        s.len() <= encode_utf8(s).len(),
    decreases s.len(),
{
    if s.len() > 0 {
        chars_fit_bytes(s.drop_first());
    }
}

fn edit_by_offset(existing: &[u8], offset: u64, length: u64, content: &str) -> (r: Result<
    Vec<u8>,
    String,
>)
    requires
        offset <= existing@.len() ==> offset + length <= u64::MAX,
    ensures
        match r {
            Ok(b) => spliced(existing@, offset as int, length as int, content@) == Ok::<
                Seq<u8>,
                Seq<char>,
            >(b@),
            Err(e) => spliced(existing@, offset as int, length as int, content@) == Err::<
                Seq<u8>,
                Seq<char>,
            >(e@),
        },
{
    let size: u64 = existing.len() as u64;
    if offset > size {
        let mut e = "offset ".to_owned();
        e.append(decimal_text(offset).as_str());
        e.append(" is beyond file size ");
        e.append(decimal_text(size).as_str());
        return Err(e);
    }
    if offset + length > size {
        let mut e = "offset (".to_owned();
        e.append(decimal_text(offset).as_str());
        e.append(") + length (");
        e.append(decimal_text(length).as_str());
        e.append(") = ");
        e.append(decimal_text(offset + length).as_str());
        e.append(" exceeds file size ");
        e.append(decimal_text(size).as_str());
        return Err(e);
    }
    let mut out: Vec<u8> = Vec::new();
    let insert = content.as_bytes();
    copy_bytes(&mut out, existing, 0, offset as usize);
    copy_bytes(&mut out, insert, 0, insert.len());
    copy_bytes(&mut out, existing, (offset + length) as usize, existing.len());
    assert(out@ =~= existing@.take(offset as int) + encode_utf8(content@) + existing@.skip(
        offset + length,
    ));
    Ok(out)
}

fn append_lines(out: &mut Vec<String>, lines: &[String], i: usize, j: usize)
    requires
        i <= j <= lines@.len(),
    ensures
        words::views(final(out)@) == words::views(old(out)@) + words::views(lines@).subrange(
            i as int,
            j as int,
        ),
{
    let mut k: usize = i;
    assert(words::views(out@) =~= words::views(old(out)@) + words::views(lines@).subrange(
        i as int,
        i as int,
    ));
    while k < j
        invariant
            i <= k <= j <= lines@.len(),
            words::views(out@) == words::views(old(out)@) + words::views(lines@).subrange(
                i as int,
                k as int,
            ),
        decreases j - k,
    {
        let line = lines[k].clone();
        proof {
            words::views_push(out@, line);
            assert(words::views(lines@).subrange(i as int, k + 1) =~= words::views(lines@).subrange(
                i as int,
                k as int,
            ).push(line@));
            assert((words::views(old(out)@) + words::views(lines@).subrange(
                i as int,
                k as int,
            )).push(line@) =~= words::views(old(out)@) + words::views(lines@).subrange(
                i as int,
                k as int,
            ).push(line@));
        }
        out.push(line);
        k += 1;
    }
}

fn edit_by_lines(existing: &[u8], start: u64, end: u64, content: &str) -> (r: Result<
    Vec<u8>,
    String,
>)
    ensures
        match r {
            Ok(b) => relined(existing@, start as int, end as int, content@) == Ok::<
                Seq<u8>,
                Seq<char>,
            >(b@),
            Err(e) => relined(existing@, start as int, end as int, content@) == Err::<
                Seq<u8>,
                Seq<char>,
            >(e@),
        },
{
    let s = match utf8_text(existing) {
        Ok(s) => s,
        Err(_) => {
            return Err("File contains invalid UTF-8, cannot use line-number mode".to_owned());
        },
    };
    proof {
        encode_utf8_decode_utf8(s@);
        encode_utf8_valid_utf8(s@);
    }
    let chars = to_chars(s.as_str());
    let lines = split_lines(chars.as_slice());
    let ghost v = words::views(lines@);
    assert(v.len() == lines@.len());
    let count: u64 = lines.len() as u64;
    if start == 0 {
        return Err("start_line is 1-based, cannot be 0".to_owned());
    }
    if end < start {
        let mut e = "end_line (".to_owned();
        e.append(decimal_text(end).as_str());
        e.append(") must be >= start_line (");
        e.append(decimal_text(start).as_str());
        e.append(")");
        return Err(e);
    }
    if start > count {
        let mut e = "start_line ".to_owned();
        e.append(decimal_text(start).as_str());
        e.append(" exceeds file line count ");
        e.append(decimal_text(count).as_str());
        return Err(e);
    }
    if end > count {
        let mut e = "end_line ".to_owned();
        e.append(decimal_text(end).as_str());
        e.append(" exceeds file line count ");
        e.append(decimal_text(count).as_str());
        return Err(e);
    }
    let mut new_lines: Vec<String> = Vec::new();
    let inserted = text_lines(content);
    append_lines(&mut new_lines, lines.as_slice(), 0, (start - 1) as usize);
    append_lines(&mut new_lines, inserted.as_slice(), 0, inserted.len());
    append_lines(&mut new_lines, lines.as_slice(), end as usize, lines.len());
    assert(words::views(new_lines@) =~= v.take(start - 1) + words::lines(content@) + v.skip(
        end as int,
    ));
    let mut body = join(new_lines.as_slice(), "\n");
    let n: usize = chars.len();
    if n > 0 && chars[n - 1] == '\n' {
        body.push('\n');
    }
    Ok(bytes_of(body.as_str()))
}

/// Applies the edit to the bytes that the file holds.
pub fn edit_file(p: &WriteFileParams, kind: WriteKind, existing: &[u8]) -> (r: Result<
    Vec<u8>,
    String,
>)
    requires
        write_kind(*p) == Ok::<WriteKind, Seq<char>>(kind),
        existing@.len() < usize::MAX,
        kind == WriteKind::Offset && p.offset->0 <= existing@.len() ==> p.offset->0 + p.length->0
            <= u64::MAX,
    ensures
        match r {
            Ok(b) => edited(*p, kind, existing@) == Ok::<Seq<u8>, Seq<char>>(b@),
            Err(e) => edited(*p, kind, existing@) == Err::<Seq<u8>, Seq<char>>(e@),
        },
{
    match kind {
        WriteKind::Search => {
            let every = match p.replace_all {
                Some(b) => b,
                None => false,
            };
            match &p.old_content {
                Some(old_text) => edit_by_search(
                    p.path.as_str(),
                    existing,
                    old_text.as_str(),
                    p.content.as_str(),
                    every,
                ),
                None => Ok(Vec::new()),
            }
        },
        WriteKind::Offset => {
            match (p.offset, p.length) {
                (Some(o), Some(l)) => edit_by_offset(existing, o, l, p.content.as_str()),
                _ => Ok(Vec::new()),
            }
        },
        WriteKind::Lines => {
            match (p.start_line, p.end_line) {
                (Some(a), Some(b)) => edit_by_lines(existing, a, b, p.content.as_str()),
                _ => Ok(Vec::new()),
            }
        },
        WriteKind::Whole => Ok(bytes_of(p.content.as_str())),
    }
}

/// The error where an edit is asked for a file that cannot be opened.
pub fn must_exist_message(path: &str) -> (r: String)
    ensures
        r@ == "File '"@ + path@ + "' must exist for partial writes"@,
{
    let mut s = "File '".to_owned();
    s.append(path);
    s.append("' must exist for partial writes");
    s
}

// ---------------------------------------------------------------------------
// Reports
// ---------------------------------------------------------------------------

/// The operation that a report names.
pub open spec fn reported_operation(kind: WriteKind, created: bool) -> Seq<char> {
    if kind == WriteKind::Whole && created {
        "create"@
    } else {
        operation_name(kind)
    }
}

/// The operation that is shown.
pub open spec fn shown_operation(kind: WriteKind, created: bool) -> Seq<char> {
    if kind == WriteKind::Whole && created {
        "CREATE"@
    } else {
        operation_label(kind)
    }
}

/// The message of a report.
pub open spec fn report_message(path: Seq<char>, kind: WriteKind, created: bool) -> Seq<char> {
    "File '"@ + path + (if kind != WriteKind::Whole {
        "' patched successfully"@
    } else if created {
        "' created successfully"@
    } else {
        "' overwritten successfully"@
    })
}

/// The lines that a write prints.
pub open spec fn report_lines(
    path: Seq<char>,
    kind: WriteKind,
    created: bool,
    mode: nat,
    bytes_written: nat,
) -> Seq<Seq<char>> {
    seq![
        "\u{1f4dd} "@ + report_message(path, kind, created),
        "   Path: "@ + path,
        "   Bytes written: "@ + numbers::decimal(bytes_written),
        "   File mode: "@ + numbers::in_radix(mode, 8),
        "   Operation: "@ + shown_operation(kind, created),
    ]
}

/// Reports a finished write, and prints it.
pub fn report_write(
    ctx: &mut ToolContext,
    path: &str,
    kind: WriteKind,
    created: bool,
    file_mode: u32,
    bytes_written: usize,
) -> (r: WriteFileResult)
    ensures
        r.path@ == path@,
        r.bytes_written == bytes_written,
        r.mode@ == numbers::in_radix(file_mode as nat, 8),
        r.created == (created && kind == WriteKind::Whole),
        r.operation@ == reported_operation(kind, created),
        r.message@ == report_message(path@, kind, created),
        words::views(final(ctx).lines@) == words::views(old(ctx).lines@) + report_lines(
            path@,
            kind,
            created,
            file_mode as nat,
            bytes_written as nat,
        ),
        final(ctx).has_db == old(ctx).has_db,
        final(ctx).agent_name == old(ctx).agent_name,
{
    let mut message = "File '".to_owned();
    message.append(path);
    let (operation, label) = match kind {
        WriteKind::Search => ("patch_search_replace", "PATCH (search & replace)"),
        WriteKind::Offset => ("patch_offset", "PATCH (byte offset)"),
        WriteKind::Lines => ("patch_lines", "PATCH (line range)"),
        WriteKind::Whole => if created {
            ("create", "CREATE")
        } else {
            ("overwrite", "OVERWRITE")
        },
    };
    let whole = match kind {
        WriteKind::Whole => true,
        _ => false,
    };
    if !whole {
        message.append("' patched successfully");
    } else if created {
        message.append("' created successfully");
    } else {
        message.append("' overwritten successfully");
    }
    let mode = octal_text(file_mode);
    let ghost before = words::views(ctx.lines@);
    ctx.println_pair("\u{1f4dd} ", message.as_str());
    ctx.println_pair("   Path: ", path);
    ctx.println_pair("   Bytes written: ", usize_text(bytes_written).as_str());
    ctx.println_pair("   File mode: ", mode.as_str());
    ctx.println_pair("   Operation: ", label);
    assert(words::views(ctx.lines@) =~= before + report_lines(
        path@,
        kind,
        created,
        file_mode as nat,
        bytes_written as nat,
    ));
    WriteFileResult {
        path: path.to_owned(),
        bytes_written,
        mode,
        created: created && whole,
        operation: operation.to_owned(),
        message,
    }
}

/// The `write_file` tool on a file that holds `existing`: the bytes that it is to hold, and the
/// report on them. `created` says whether the file was made for it. Nothing is printed where the
/// request is refused.
pub fn tool_write_file(
    ctx: &mut ToolContext,
    p: &WriteFileParams,
    existing: &[u8],
    created: bool,
) -> (r: Result<(Vec<u8>, WriteFileResult), String>)
    requires
        existing@.len() < usize::MAX,
        write_kind(*p) == Ok::<WriteKind, Seq<char>>(WriteKind::Offset) && p.offset->0
            <= existing@.len() ==> p.offset->0 + p.length->0 <= u64::MAX,
    ensures
        match write_plan(*p) {
            Err(f) => r matches Err(e) && e@ == f,
            Ok((mode, kind)) => match edited(*p, kind, existing@) {
                Err(f) => r matches Err(e) && e@ == f,
                Ok(bytes) => {
                    &&& r is Ok
                    &&& r->Ok_0.0@ == bytes
                    &&& r->Ok_0.1.path@ == p.path@
                    &&& r->Ok_0.1.bytes_written == bytes.len()
                    &&& r->Ok_0.1.mode@ == numbers::in_radix(mode, 8)
                    &&& r->Ok_0.1.created == (created && kind == WriteKind::Whole)
                    &&& r->Ok_0.1.operation@ == reported_operation(kind, created)
                    &&& r->Ok_0.1.message@ == report_message(p.path@, kind, created)
                    &&& words::views(final(ctx).lines@) == words::views(old(ctx).lines@)
                        + report_lines(p.path@, kind, created, mode, bytes.len())
                },
            },
        },
        r is Err ==> words::views(final(ctx).lines@) == words::views(old(ctx).lines@),
        final(ctx).has_db == old(ctx).has_db,
        final(ctx).agent_name == old(ctx).agent_name,
{
    let (mode, kind) = match plan_write(p) {
        Ok(plan) => plan,
        Err(e) => {
            return Err(e);
        },
    };
    let bytes = match edit_file(p, kind, existing) {
        Ok(b) => b,
        Err(e) => {
            return Err(e);
        },
    };
    let report = report_write(ctx, p.path.as_str(), kind, created, mode, bytes.len());
    Ok((bytes, report))
}

} // verus!
