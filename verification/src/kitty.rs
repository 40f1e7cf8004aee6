//! Showing images in a Kitty terminal, and the toolchain that renders LaTeX to them.

use vstd::prelude::*;
use vstd::utf8::*;
use base64::Engine;
use crate::numbers;
use crate::numbers::decimal_text;
use crate::text;
use crate::text::{from_chars, piece, str_contains, to_chars};
use crate::words;
use crate::words::{join, text_lines, trim_text};

verus! {

/// Whether the environment is that of a Kitty terminal: `TERM` names it, or it has set a window id.
pub fn is_kitty_from_env(term: Option<&str>, kitty_window_id: Option<&str>) -> (r: bool)
    ensures
        r == ((term matches Some(t) && text::contains(t@, "kitty"@)) || kitty_window_id is Some),
{
    let named = match term {
        Some(t) => str_contains(t, "kitty"),
        None => false,
    };
    named || kitty_window_id.is_some()
}

// ---------------------------------------------------------------------------
// Graphics protocol
// ---------------------------------------------------------------------------

/// The most payload characters that one escape sequence carries.
pub const CHUNK_SIZE: usize = 4096;

/// The base64 text of some bytes, in the standard alphabet with padding.
pub uninterp spec fn base64_of(bytes: Seq<u8>) -> Seq<char>;

/// `base64::Engine::encode` of the `STANDARD` engine: the base64 text of `bytes`, four characters
/// for every three bytes begun, all of them ASCII.
#[verifier::external_body]
fn base64_text(bytes: &[u8]) -> (r: String)
    requires
        bytes@.len() <= usize::MAX / 4,
    ensures
        r@ == base64_of(bytes@),
        r@.len() == (bytes@.len() + 2) / 3 * 4,
        is_ascii_chars(r@),
{
    base64::engine::general_purpose::STANDARD.encode(bytes)
}

/// The escape sequence that carries one chunk: the first one also says what to do with the image.
pub open spec fn sequence(first: bool, more: bool, chunk: Seq<char>) -> Seq<char> {
    "\x1b_G"@ + (if first {
        "a=T,f=100,m="@
    } else {
        "m="@
    }) + (if more {
        "1"@
    } else {
        "0"@
    }) + ";"@ + chunk + "\x1b\\"@
}

/// Where the chunk that begins at `offset` ends.
pub open spec fn chunk_end(len: int, offset: int) -> int {
    if offset + CHUNK_SIZE < len {
        offset + CHUNK_SIZE
    } else {
        len
    }
}

/// The escape sequences for the encoded text from `offset` on.
pub open spec fn sequences_from(encoded: Seq<char>, offset: int) -> Seq<Seq<char>>
    decreases encoded.len() - offset,
{
    if 0 <= offset < encoded.len() {
        let end = chunk_end(encoded.len() as int, offset);
        seq![sequence(offset == 0, end < encoded.len(), encoded.subrange(offset, end))]
            + sequences_from(encoded, end)
    } else {
        Seq::empty()
    }
}

/// The payloads of the escape sequences for the encoded text from `offset` on.
pub open spec fn payloads_from(encoded: Seq<char>, offset: int) -> Seq<Seq<char>>
    decreases encoded.len() - offset,
{
    if 0 <= offset < encoded.len() {
        let end = chunk_end(encoded.len() as int, offset);
        seq![encoded.subrange(offset, end)] + payloads_from(encoded, end)
    } else {
        Seq::empty()
    }
}

fn sequence_text(first: bool, more: bool, chunk: &str) -> (r: String)
    ensures
        r@ == sequence(first, more, chunk@),
{
    let mut s = "\x1b_G".to_owned();
    if first {
        s.append("a=T,f=100,m=");
    } else {
        s.append("m=");
    }
    if more {
        s.append("1");
    } else {
        s.append("0");
    }
    s.append(";");
    s.append(chunk);
    s.append("\x1b\\");
    s
}

/// Frames an encoded image as escape sequences of limited length.
pub fn frame_encoded(encoded: &str) -> (r: Vec<String>)
    ensures
        words::views(r@) == sequences_from(encoded@, 0),
{
    let chars = to_chars(encoded);
    let mut out: Vec<String> = Vec::new();
    let mut offset: usize = 0;
    let n: usize = chars.len();
    assert(words::views(out@) + sequences_from(encoded@, 0) =~= sequences_from(encoded@, 0));
    while offset < n
        invariant
            offset <= n,
            n == chars@.len(),
            chars@ == encoded@,
            words::views(out@) + sequences_from(encoded@, offset as int) == sequences_from(
                encoded@,
                0,
            ),
        decreases n - offset,
    {
        let end: usize = if n - offset > CHUNK_SIZE {
            offset + CHUNK_SIZE
        } else {
            n
        };
        let p = piece(chars.as_slice(), offset, end);
        let chunk = from_chars(p.as_slice());
        let s = sequence_text(offset == 0, end < n, chunk.as_str());
        let ghost before = out@;
        out.push(s);
        proof {
            words::views_push(before, s);
            assert(words::views(before) + (seq![s@] + sequences_from(encoded@, end as int))
                =~= words::views(out@) + sequences_from(encoded@, end as int));
        }
        offset = end;
    }
    assert(words::views(out@) + sequences_from(encoded@, offset as int) =~= words::views(out@));
    out
}

/// The escape sequences that transmit and show `png`, one per chunk of its base64 text.
pub fn kitty_image_escape_sequences(png: &[u8]) -> (r: Vec<String>)
    requires
        png@.len() <= usize::MAX / 4,
    ensures
        words::views(r@) == sequences_from(base64_of(png@), 0),
        r@.len() == 0 <==> png@.len() == 0,
        forall|i: int|
            0 <= i < payloads_from(base64_of(png@), 0).len() ==> encode_utf8(
                #[trigger] payloads_from(base64_of(png@), 0)[i],
            ).len() <= CHUNK_SIZE,
{
    let encoded = base64_text(png);
    let r = frame_encoded(encoded.as_str());
    assert(words::views(r@).len() == r@.len());
    proof {
        payloads_are_ascii(encoded@, 0);
        payloads_are_the_encoded_text(encoded@, 0);
        assert forall|i: int| 0 <= i < payloads_from(encoded@, 0).len() implies encode_utf8(
            #[trigger] payloads_from(encoded@, 0)[i],
        ).len() <= CHUNK_SIZE by {
            is_ascii_chars_encode_utf8(payloads_from(encoded@, 0)[i]);
        }
    }
    r
}

proof fn payloads_are_ascii(encoded: Seq<char>, offset: int)
    requires
        0 <= offset <= encoded.len(),
        is_ascii_chars(encoded),
    ensures
        forall|i: int|
            0 <= i < payloads_from(encoded, offset).len() ==> is_ascii_chars(
                #[trigger] payloads_from(encoded, offset)[i],
            ),
    decreases encoded.len() - offset,
{
    if offset < encoded.len() {
        let end = chunk_end(encoded.len() as int, offset);
        payloads_are_ascii(encoded, end);
        assert forall|i: int| 0 <= i < payloads_from(encoded, offset).len() implies is_ascii_chars(
            #[trigger] payloads_from(encoded, offset)[i],
        ) by {
            if i > 0 {
                assert(payloads_from(encoded, offset)[i] == payloads_from(encoded, end)[i - 1]);
            }
        }
    }
}

/// Every escape sequence carries its payload, and the payloads one after the other are the encoded
/// text: an image is transmitted whole.
pub proof fn payloads_are_the_encoded_text(encoded: Seq<char>, offset: int)
    requires
        0 <= offset <= encoded.len(),
    ensures
        words::joined(payloads_from(encoded, offset), Seq::empty()) == encoded.skip(offset),
        payloads_from(encoded, offset).len() == sequences_from(encoded, offset).len(),
        forall|i: int|
            0 <= i < payloads_from(encoded, offset).len() ==> {
                &&& 0 < (#[trigger] payloads_from(encoded, offset)[i]).len() <= CHUNK_SIZE
                &&& sequences_from(encoded, offset)[i] == sequence(
                    offset == 0 && i == 0,
                    i + 1 < payloads_from(encoded, offset).len(),
                    payloads_from(encoded, offset)[i],
                )
            },
    decreases encoded.len() - offset,
{
    if offset < encoded.len() {
        let end = chunk_end(encoded.len() as int, offset);
        payloads_are_the_encoded_text(encoded, end);
        let head = encoded.subrange(offset, end);
        let rest = payloads_from(encoded, end);
        joined_cons(head, rest);
        assert(head + encoded.skip(end) =~= encoded.skip(offset));
        let all = payloads_from(encoded, offset);
        let seqs = sequences_from(encoded, offset);
        assert(end < encoded.len() ==> rest.len() > 0);
        assert forall|i: int| 0 <= i < all.len() implies {
            &&& 0 < (#[trigger] all[i]).len() <= CHUNK_SIZE
            &&& seqs[i] == sequence(offset == 0 && i == 0, i + 1 < all.len(), all[i])
        } by {
            if i > 0 {
                assert(all[i] == rest[i - 1]);
                assert(seqs[i] == sequences_from(encoded, end)[i - 1]);
            }
        }
    } else {
        assert(encoded.skip(offset) =~= Seq::<char>::empty());
    }
}

proof fn joined_cons(head: Seq<char>, rest: Seq<Seq<char>>)
    ensures
        words::joined(seq![head] + rest, Seq::empty()) == head + words::joined(rest, Seq::empty()),
    decreases rest.len(),
{
    let all = seq![head] + rest;
    let none = Seq::<char>::empty();
    if rest.len() == 0 {
        assert(all =~= seq![head]);
        assert(head + none =~= head);
    } else {
        assert(all.drop_last() =~= seq![head] + rest.drop_last());
        joined_cons(head, rest.drop_last());
        if rest.len() == 1 {
            assert(rest.drop_last() =~= Seq::<Seq<char>>::empty());
            assert(words::joined(rest.drop_last(), none) =~= none);
            assert(head + none + none + rest[0] =~= head + rest[0]);
        } else {
            let a = words::joined(rest.drop_last(), none);
            assert(head + a + none + rest.last() =~= head + (a + none + rest.last()));
        }
    }
}

// ---------------------------------------------------------------------------
// Terminal colors
// ---------------------------------------------------------------------------

/// The palette index of the answer text: cyan.
pub const ANSWER_TEXT_ANSI_INDEX: u8 = 6;

/// The answer color where the terminal does not tell its own.
pub const ANSWER_TEXT_COLOR_FALLBACK: (u8, u8, u8) = (0, 205, 205);

/// The palette index of the reasoning text: a middle grey.
pub const REASONING_TEXT_ANSI_INDEX: u8 = 244;

/// The reasoning color where the terminal does not tell its own.
pub const REASONING_TEXT_COLOR_FALLBACK: (u8, u8, u8) = (128, 128, 128);

/// The longest reply that is read from a terminal.
pub const REPLY_LIMIT: usize = 64;

/// The query for the color with a palette index: OSC 4.
pub open spec fn color_query(index: u8) -> Seq<char> {
    "\x1b]4;"@ + numbers::decimal(index as nat) + ";?\x07"@
}

/// The escape sequence that asks a terminal for the color with a palette index.
pub fn color_query_text(index: u8) -> (r: String)
    ensures
        r@ == color_query(index),
{
    let mut s = "\x1b]4;".to_owned();
    s.append(decimal_text(index as u64).as_str());
    s.append(";?\x07");
    s
}

/// Takes one byte of a terminal's reply; says whether reading ends: at BEL, at `ESC \`, or when the
/// reply is too long.
pub fn take_reply_byte(buf: &mut Vec<u8>, byte: u8) -> (done: bool)
    ensures
        final(buf)@ == old(buf)@.push(byte),
        done == (byte == 7 || (byte == 92 && old(buf)@.len() > 0 && old(buf)@.last() == 27) || old(
            buf,
        )@.len() + 1 > REPLY_LIMIT),
{
    let n: usize = buf.len();
    let terminated = byte == 7 || (byte == 92 && n > 0 && buf[n - 1] == 27);
    buf.push(byte);
    terminated || buf.len() > REPLY_LIMIT
}

/// The bytes of an ASCII text.
pub open spec fn ascii_bytes(s: Seq<char>) -> Seq<u8> {
    vstd::utf8::encode_utf8(s)
}

/// `bytes` begins with `p`.
pub open spec fn bytes_begin(bytes: Seq<u8>, p: Seq<u8>) -> bool {
    p.len() <= bytes.len() && bytes.take(p.len() as int) == p
}

/// `bytes` without the terminator of a reply: BEL, or else `ESC \`.
pub open spec fn unterminated(bytes: Seq<u8>) -> Seq<u8> {
    if bytes.len() >= 1 && bytes.last() == 7 {
        bytes.drop_last()
    } else if bytes.len() >= 2 && bytes.last() == 92 && bytes[bytes.len() - 2] == 27 {
        bytes.take(bytes.len() - 2)
    } else {
        bytes
    }
}

/// The color text in a reply to the query for `index`.
pub open spec fn reply_color(buf: Seq<u8>, index: u8) -> Option<Seq<u8>> {
    let prefix = ascii_bytes("\x1b]4;"@ + numbers::decimal(index as nat) + ";"@);
    if bytes_begin(buf, prefix) {
        Some(unterminated(buf.skip(prefix.len() as int)))
    } else {
        None
    }
}

/// The color that `xterm_color` reads from an X11 color text: 16 bits each of red, green and blue.
pub uninterp spec fn x11_color(bytes: Seq<u8>) -> Option<(u16, u16, u16)>;

/// A color text that may be read: one with a leading `#` holds ASCII alone.
pub open spec fn readable_color(bytes: Seq<u8>) -> bool {
    bytes.len() > 0 && bytes[0] == 35 ==> forall|i: int|
        0 <= i < bytes.len() ==> #[trigger] bytes[i] < 128
}

/// `xterm_color::Color::parse`: the color of an X11 color text, which depends on the text alone.
/// A text after `#` is cut into thirds, so it must not hold characters of several bytes.
#[verifier::external_body]
fn parse_color(bytes: &[u8]) -> (r: Option<(u16, u16, u16)>)
    requires
        readable_color(bytes@),
    ensures
        r == x11_color(bytes@),
{
    match xterm_color::Color::parse(bytes) {
        Ok(c) => Some((c.red, c.green, c.blue)),
        Err(_) => None,
    }
}

/// A 16-bit channel in 8 bits, rounded down.
pub open spec fn scaled(c: u16) -> u8 {
    (c * 255 / 65535) as u8
}

/// A color with 16-bit channels in 8 bits each.
pub fn scale_color(c: (u16, u16, u16)) -> (r: (u8, u8, u8))
    ensures
        r == (scaled(c.0), scaled(c.1), scaled(c.2)),
{
    let red: u32 = c.0 as u32 * 255 / 65535;
    let green: u32 = c.1 as u32 * 255 / 65535;
    let blue: u32 = c.2 as u32 * 255 / 65535;
    (red as u8, green as u8, blue as u8)
}

fn slice_of(bytes: &[u8], i: usize, j: usize) -> (r: Vec<u8>)
    requires
        i <= j <= bytes@.len(),
    ensures
        r@ == bytes@.subrange(i as int, j as int),
{
    let mut r: Vec<u8> = Vec::new();
    let mut k: usize = i;
    while k < j
        invariant
            i <= k <= j <= bytes@.len(),
            r@ == bytes@.subrange(i as int, k as int),
        decreases j - k,
    {
        r.push(bytes[k]);
        assert(bytes@.subrange(i as int, k + 1) == bytes@.subrange(i as int, k as int).push(
            bytes@[k as int],
        ));
        k += 1;
    }
    r
}

/// The color text in a reply to the query for `index`, without its terminator.
pub fn reply_color_bytes(buf: &[u8], index: u8) -> (r: Option<Vec<u8>>)
    ensures
        match r {
            Some(b) => reply_color(buf@, index) == Some(b@),
            None => reply_color(buf@, index) is None,
        },
{
    let mut head = "\x1b]4;".to_owned();
    head.append(decimal_text(index as u64).as_str());
    head.append(";");
    let prefix = head.as_str().as_bytes();
    let n: usize = buf.len();
    let m: usize = prefix.len();
    if m > n {
        return None;
    }
    let mut i: usize = 0;
    while i < m
        invariant
            i <= m <= n,
            n == buf@.len(),
            m == prefix@.len(),
            prefix@ == ascii_bytes("\x1b]4;"@ + numbers::decimal(index as nat) + ";"@),
            forall|j: int| 0 <= j < i ==> buf@[j] == prefix@[j],
        decreases m - i,
    {
        if buf[i] != prefix[i] {
            assert(buf@.take(m as int)[i as int] != prefix@[i as int]);
            return None;
        }
        i += 1;
    }
    assert(buf@.take(m as int) =~= prefix@);
    let ghost body = buf@.skip(m as int);
    let end: usize = if n - m >= 1 && buf[n - 1] == 7 {
        n - 1
    } else if n - m >= 2 && buf[n - 1] == 92 && buf[n - 2] == 27 {
        n - 2
    } else {
        n
    };
    let r = slice_of(buf, m, end);
    assert(r@ =~= unterminated(body));
    Some(r)
}

/// The color that a reply to the query for `index` gives.
pub open spec fn osc4_color(buf: Seq<u8>, index: u8) -> Option<(u8, u8, u8)> {
    match reply_color(buf, index) {
        Some(b) => if readable_color(b) {
            match x11_color(b) {
                Some(c) => Some((scaled(c.0), scaled(c.1), scaled(c.2))),
                None => None,
            }
        } else {
            None
        },
        None => None,
    }
}

fn is_readable_color(bytes: &[u8]) -> (r: bool)
    ensures
        r == readable_color(bytes@),
{
    if bytes.len() == 0 || bytes[0] != 35 {
        return true;
    }
    let mut i: usize = 0;
    while i < bytes.len()
        invariant
            i <= bytes@.len(),
            bytes@.len() > 0,
            bytes@[0] == 35,
            forall|j: int| 0 <= j < i ==> #[trigger] bytes@[j] < 128,
        decreases bytes@.len() - i,
    {
        if bytes[i] >= 128 {
            assert(!(bytes@[i as int] < 128));
            return false;
        }
        i += 1;
    }
    true
}

/// Reads the reply to the color query for `index`: `ESC ] 4 ; index ; color`, ended by BEL or
/// `ESC \`.
pub fn parse_osc4_reply(buf: &[u8], index: u8) -> (r: Option<(u8, u8, u8)>)
    ensures
        r == osc4_color(buf@, index),
{
    match reply_color_bytes(buf, index) {
        Some(body) => {
            if !is_readable_color(body.as_slice()) {
                return None;
            }
            match parse_color(body.as_slice()) {
                Some(c) => Some(scale_color(c)),
                None => None,
            }
        },
        None => None,
    }
}

/// The color to render math of an answer in: what the terminal replied, or else the fallback.
pub fn answer_text_color(reply: &[u8]) -> (r: (u8, u8, u8))
    ensures
        r == (match osc4_color(reply@, ANSWER_TEXT_ANSI_INDEX) {
            Some(c) => c,
            None => ANSWER_TEXT_COLOR_FALLBACK,
        }),
{
    match parse_osc4_reply(reply, ANSWER_TEXT_ANSI_INDEX) {
        Some(c) => c,
        None => ANSWER_TEXT_COLOR_FALLBACK,
    }
}

/// The color to render math of the reasoning in: what the terminal replied, or else the fallback.
pub fn reasoning_text_color(reply: &[u8]) -> (r: (u8, u8, u8))
    ensures
        r == (match osc4_color(reply@, REASONING_TEXT_ANSI_INDEX) {
            Some(c) => c,
            None => REASONING_TEXT_COLOR_FALLBACK,
        }),
{
    match parse_osc4_reply(reply, REASONING_TEXT_ANSI_INDEX) {
        Some(c) => c,
        None => REASONING_TEXT_COLOR_FALLBACK,
    }
}

// ---------------------------------------------------------------------------
// The rendering toolchain
// ---------------------------------------------------------------------------

/// The lines that hold more than white space.
pub open spec fn dark_lines(v: Seq<Seq<char>>) -> Seq<Seq<char>>
    decreases v.len(),
{
    if v.len() == 0 {
        Seq::empty()
    } else if words::trimmed(v.last()).len() > 0 {
        dark_lines(v.drop_last()).push(v.last())
    } else {
        dark_lines(v.drop_last())
    }
}

/// The last `n` items of a list, or all of them.
pub open spec fn last_items(v: Seq<Seq<char>>, n: int) -> Seq<Seq<char>> {
    if v.len() > n {
        v.skip(v.len() - n)
    } else {
        v
    }
}

/// The last `n` lines of `s` that hold more than white space, joined with line breaks.
#[verifier::spinoff_prover]
#[verifier::rlimit(40)]
pub fn tail_lines(s: &str, n: usize) -> (r: String)
    ensures
        r@ == words::joined(last_items(dark_lines(words::lines(s@)), n as int), "\n"@),
{
    let all = text_lines(s);
    let ghost v = words::views(all@);
    let mut dark: Vec<String> = Vec::new();
    let mut i: usize = 0;
    assert(words::views(dark@) =~= dark_lines(v.take(0)));
    while i < all.len()
        invariant
            i <= all.len(),
            v == words::views(all@),
            words::views(dark@) == dark_lines(v.take(i as int)),
        decreases all.len() - i,
    {
        let ghost before = dark@;
        assert(v.take(i + 1).drop_last() =~= v.take(i as int));
        assert(v.take(i + 1).last() == all@[i as int]@);
        let t = trim_text(all[i].as_str());
        if !t.as_str().is_empty() {
            let line = all[i].clone();
            dark.push(line);
            proof {
                words::views_push(before, line);
            }
        }
        i += 1;
    }
    assert(v.take(v.len() as int) =~= v);
    let start: usize = if dark.len() > n { dark.len() - n } else { 0 };
    let mut last: Vec<String> = Vec::new();
    let mut k: usize = start;
    assert(words::views(last@) =~= words::views(dark@).subrange(start as int, start as int));
    while k < dark.len()
        invariant
            start <= k <= dark.len(),
            words::views(last@) == words::views(dark@).subrange(start as int, k as int),
        decreases dark.len() - k,
    {
        let ghost before = last@;
        let line = dark[k].clone();
        last.push(line);
        proof {
            words::views_push(before, line);
            assert(words::views(dark@).subrange(start as int, k + 1) =~= words::views(
                dark@,
            ).subrange(start as int, k as int).push(dark@[k as int]@));
        }
        k += 1;
    }
    assert(words::views(last@) =~= last_items(words::views(dark@), n as int));
    join(last.as_slice(), "\n")
}

fn push_arg(out: &mut Vec<String>, arg: &str)
    ensures
        words::views(final(out)@) == words::views(old(out)@).push(arg@),
{
    let s = arg.to_owned();
    proof {
        words::views_push(out@, s);
    }
    out.push(s);
}

/// The sandbox flags that isolate a command: no shared namespaces, so no network, and no
/// capabilities.
pub open spec fn isolation_flags() -> Seq<Seq<char>> {
    seq!["--unshare-all"@, "--die-with-parent"@, "--new-session"@, "--cap-drop"@, "ALL"@]
}

/// The sandbox flags that isolate a command.
pub fn bwrap_isolation_flags() -> (r: Vec<String>)
    ensures
        words::views(r@) == isolation_flags(),
{
    let mut r: Vec<String> = Vec::new();
    push_arg(&mut r, "--unshare-all");
    push_arg(&mut r, "--die-with-parent");
    push_arg(&mut r, "--new-session");
    push_arg(&mut r, "--cap-drop");
    push_arg(&mut r, "ALL");
    assert(words::views(r@) =~= isolation_flags());
    r
}

/// The command and its arguments.
pub open spec fn command_line(command: Seq<char>, args: Option<Seq<Seq<char>>>) -> Seq<Seq<char>> {
    seq![command] + match args {
        Some(a) => a,
        None => Seq::empty(),
    }
}

/// The sandbox arguments: isolation, the whole root read-only, `cwd` writable on top of it, and the
/// command with its arguments last.
pub open spec fn whole_root_args(
    cwd: Seq<char>,
    command: Seq<char>,
    args: Option<Seq<Seq<char>>>,
) -> Seq<Seq<char>> {
    isolation_flags() + seq!["--ro-bind"@, "/"@, "/"@, "--bind"@, cwd, cwd] + command_line(
        command,
        args,
    )
}

/// The views of optional arguments.
pub open spec fn arg_views(args: Option<&[String]>) -> Option<Seq<Seq<char>>> {
    match args {
        Some(a) => Some(words::views(a@)),
        None => None,
    }
}

/// Builds the sandbox arguments for the LaTeX toolchain.
pub fn whole_root_ro_bwrap_args(cwd: &str, command: &str, args: Option<&[String]>) -> (r: Vec<
    String,
>)
    ensures
        words::views(r@) == whole_root_args(cwd@, command@, arg_views(args)),
{
    let mut r = bwrap_isolation_flags();
    push_arg(&mut r, "--ro-bind");
    push_arg(&mut r, "/");
    push_arg(&mut r, "/");
    push_arg(&mut r, "--bind");
    push_arg(&mut r, cwd);
    push_arg(&mut r, cwd);
    push_arg(&mut r, command);
    let ghost head = words::views(r@);
    assert(head =~= isolation_flags() + seq![
        "--ro-bind"@,
        "/"@,
        "/"@,
        "--bind"@,
        cwd@,
        cwd@,
    ] + seq![command@]);
    match args {
        Some(a) => {
            let mut i: usize = 0;
            assert(head =~= head + words::views(a@).take(0));
            while i < a.len()
                invariant
                    i <= a@.len(),
                    words::views(r@) == head + words::views(a@).take(i as int),
                decreases a@.len() - i,
            {
                push_arg(&mut r, a[i].as_str());
                assert(head + words::views(a@).take(i + 1) =~= (head + words::views(a@).take(
                    i as int,
                )).push(a@[i as int]@));
                i += 1;
            }
            assert(words::views(a@).take(a@.len() as int) =~= words::views(a@));
        },
        None => {},
    }
    assert(words::views(r@) =~= whole_root_args(cwd@, command@, arg_views(args)));
    r
}

/// The arguments of `pdflatex` for a document in `dir`.
pub open spec fn pdflatex_arguments(dir: Seq<char>, tex_path: Seq<char>) -> Seq<Seq<char>> {
    seq!["-interaction=nonstopmode"@, "-halt-on-error"@, "-output-directory"@, dir, tex_path]
}

/// The arguments of `pdflatex` for a document in `dir`.
pub fn pdflatex_args(dir: &str, tex_path: &str) -> (r: Vec<String>)
    ensures
        words::views(r@) == pdflatex_arguments(dir@, tex_path@),
{
    let mut r: Vec<String> = Vec::new();
    push_arg(&mut r, "-interaction=nonstopmode");
    push_arg(&mut r, "-halt-on-error");
    push_arg(&mut r, "-output-directory");
    push_arg(&mut r, dir);
    push_arg(&mut r, tex_path);
    assert(words::views(r@) =~= pdflatex_arguments(dir@, tex_path@));
    r
}

/// The arguments of `pdftocairo`: one page as a transparent PNG at 150 dpi.
pub open spec fn pdftocairo_arguments(pdf_path: Seq<char>, png_prefix: Seq<char>) -> Seq<
    Seq<char>,
> {
    seq!["-png"@, "-transp"@, "-singlefile"@, "-r"@, "150"@, pdf_path, png_prefix]
}

/// The arguments of `pdftocairo`.
pub fn pdftocairo_args(pdf_path: &str, png_prefix: &str) -> (r: Vec<String>)
    ensures
        words::views(r@) == pdftocairo_arguments(pdf_path@, png_prefix@),
{
    let mut r: Vec<String> = Vec::new();
    push_arg(&mut r, "-png");
    push_arg(&mut r, "-transp");
    push_arg(&mut r, "-singlefile");
    push_arg(&mut r, "-r");
    push_arg(&mut r, "150");
    push_arg(&mut r, pdf_path);
    push_arg(&mut r, png_prefix);
    assert(words::views(r@) =~= pdftocairo_arguments(pdf_path@, png_prefix@));
    r
}

/// How many lines of a tool's log an error shows.
pub const LOG_LINES: usize = 15;

/// The end of a tool's log.
pub open spec fn log_tail(log: Seq<char>) -> Seq<char> {
    words::joined(last_items(dark_lines(words::lines(log)), LOG_LINES as int), "\n"@)
}

/// What follows from a run of `pdflatex`: an error with the end of its output where it failed.
pub fn after_pdflatex(success: bool, stdout: &str) -> (r: Result<(), String>)
    ensures
        r is Ok <==> success,
        r matches Err(e) ==> e@ == "pdflatex failed to compile the LaTeX block:\n"@ + log_tail(
            stdout@,
        ),
{
    if success {
        Ok(())
    } else {
        let mut s = "pdflatex failed to compile the LaTeX block:\n".to_owned();
        s.append(tail_lines(stdout, LOG_LINES).as_str());
        Err(s)
    }
}

/// What follows from a run of `pdftocairo`: an error where it failed or left no image.
pub fn after_pdftocairo(success: bool, stderr: &str, image_exists: bool) -> (r: Result<(), String>)
    ensures
        r is Ok <==> success && image_exists,
        r matches Err(e) ==> e@ == (if !success {
            "pdftocairo failed to rasterize the rendered PDF:\n"@ + log_tail(stderr@)
        } else {
            "pdftocairo didn't produce a PNG file"@
        }),
{
    if !success {
        let mut s = "pdftocairo failed to rasterize the rendered PDF:\n".to_owned();
        s.append(tail_lines(stderr, LOG_LINES).as_str());
        Err(s)
    } else if !image_exists {
        Err("pdftocairo didn't produce a PNG file".to_owned())
    } else {
        Ok(())
    }
}

/// The error where a program is not on the search path.
pub fn not_found_message(program: &str, hint: &str) -> (r: String)
    ensures
        r@ == program@ + " not found on PATH - "@ + hint@,
{
    let mut s = program.to_owned();
    s.append(" not found on PATH - ");
    s.append(hint);
    s
}

/// What is written to the terminal to show `png`: its escape sequences and a line break, or nothing
/// for an empty image.
pub fn display_png(png: &[u8]) -> (r: Option<String>)
    requires
        png@.len() <= usize::MAX / 4,
    ensures
        r is None <==> png@.len() == 0,
        r matches Some(s) ==> s@ == words::joined(sequences_from(base64_of(png@), 0), ""@) + "\n"@,
{
    let sequences = kitty_image_escape_sequences(png);
    if sequences.len() == 0 {
        return None;
    }
    let mut s = join(sequences.as_slice(), "");
    s.append("\n");
    Some(s)
}

} // verus!
