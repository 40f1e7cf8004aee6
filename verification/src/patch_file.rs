//! The `patch_file` tool: a batch of search-and-replace edits, all applied or none.

use vstd::prelude::*;
use vstd::utf8::*;
use crate::context::ToolContext;
use crate::numbers;
use crate::numbers::{usize_text, wide_text};
use crate::patch_preview;
use crate::patch_preview::{find_landing, preview_at};
use crate::replacing;
use crate::session::push_line;
use crate::text;
use crate::text::{count_matches, find_from, from_chars, replace_all, same, to_chars};
use crate::words;
use crate::write_file::{replace_once, utf8_text};

verus! {

/// One search-and-replace edit.
pub struct Edit {
    pub old_content: String,
    pub new_content: String,
    pub replace_all: bool,
}

/// What `patch_file` reports.
pub struct PatchFileResult {
    pub path: String,
    pub edits_applied: usize,
    pub replacements: u128,
    pub bytes_before: usize,
    pub bytes_after: usize,
    pub bytes_written: usize,
    pub message: String,
    /// For each edit, the numbered lines around the place where it landed.
    pub preview: Vec<String>,
}

/// The start of every error about the edit with the given number.
pub open spec fn edit_label(n: nat) -> Seq<char> {
    "edit "@ + numbers::decimal(n) + ": "@
}

/// The text after one edit and the number of replacements, or why the edit is refused. An edit of
/// a single place needs one match, and matches that overlap count as several.
pub open spec fn after_edit(path: Seq<char>, s: Seq<char>, e: Edit, n: nat) -> Result<
    (Seq<char>, nat),
    Seq<char>,
> {
    let old_text = e.old_content@;
    let new_text = e.new_content@;
    if old_text.len() == 0 {
        Err(edit_label(n) + "old_content must not be empty"@)
    } else if old_text == new_text {
        Err(edit_label(n) + "old_content and new_content are identical"@)
    } else {
        match text::find(s, old_text, 0) {
            None => Err(edit_label(n) + "old_content not found in '"@ + path + "'"@),
            Some(first) => if e.replace_all {
                Ok((text::replaced(s, old_text, new_text), text::match_count(s, old_text, 0)))
            } else if text::find(s, old_text, first + 1) is Some {
                Err(
                    edit_label(n) + "old_content matches multiple times in '"@ + path
                        + "'. Set replace_all=true or provide more context to make it unique"@,
                )
            } else {
                Ok((text::replaced_first(s, old_text, new_text), 1))
            },
        }
    }
}

/// The text after the first `k` edits, each on the result of those before it, and the number of
/// replacements; or the error of the first edit that is refused.
pub open spec fn after_edits(path: Seq<char>, s: Seq<char>, edits: Seq<Edit>, k: int) -> Result<
    (Seq<char>, nat),
    Seq<char>,
>
    decreases k,
{
    if k <= 0 {
        Ok((s, 0))
    } else {
        match after_edits(path, s, edits, k - 1) {
            Err(e) => Err(e),
            Ok((t, n)) => match after_edit(path, t, edits[k - 1], k as nat) {
                Err(e) => Err(e),
                Ok((u, m)) => Ok((u, n + m)),
            },
        }
    }
}

/// A patch with an edit that is refused is refused as a whole, with the error of that edit.
pub proof fn refused_stays_refused(path: Seq<char>, s: Seq<char>, edits: Seq<Edit>, k: int, m: int)
    requires
        0 <= k <= m,
        after_edits(path, s, edits, k) is Err,
    ensures
        after_edits(path, s, edits, m) == after_edits(path, s, edits, k),
    decreases m - k,
{
    if k < m {
        refused_stays_refused(path, s, edits, k, m - 1);
    }
}

fn label_text(n: usize) -> (r: String)
    ensures
        r@ == edit_label(n as nat),
{
    let mut s = "edit ".to_owned();
    s.append(usize_text(n).as_str());
    s.append(": ");
    s
}

fn apply_edit(path: &str, s: &[char], e: &Edit, n: usize) -> (r: Result<
    (Vec<char>, usize, usize),
    String,
>)
    ensures
        match r {
            Ok(v) => {
                &&& after_edit(path@, s@, *e, n as nat) == Ok::<(Seq<char>, nat), Seq<char>>(
                    (v.0@, v.1 as nat),
                )
                &&& text::find(s@, e.old_content@, 0) == Some(v.2 as int)
                &&& v.2 <= v.0@.len()
            },
            Err(m) => after_edit(path@, s@, *e, n as nat) == Err::<(Seq<char>, nat), Seq<char>>(
                m@,
            ),
        },
{
    let old_text = to_chars(e.old_content.as_str());
    let new_text = to_chars(e.new_content.as_str());
    if old_text.len() == 0 {
        let mut m = label_text(n);
        m.append("old_content must not be empty");
        return Err(m);
    }
    if same(e.old_content.as_str(), e.new_content.as_str()) {
        let mut m = label_text(n);
        m.append("old_content and new_content are identical");
        return Err(m);
    }
    let len: usize = s.len();
    let first: usize = match find_from(s, old_text.as_slice(), 0) {
        Some(i) => i,
        None => {
            let mut m = label_text(n);
            m.append("old_content not found in '");
            m.append(path);
            m.append("'");
            return Err(m);
        },
    };
    if e.replace_all {
        let count = count_matches(s, old_text.as_slice());
        let t = replace_all(s, old_text.as_slice(), new_text.as_slice());
        proof {
            patch_preview::landing_within(s@, old_text@, new_text@, 0, 0, first as int);
        }
        Ok((t, count, first))
    } else {
        if find_from(s, old_text.as_slice(), first + 1).is_some() {
            let mut m = label_text(n);
            m.append("old_content matches multiple times in '");
            m.append(path);
            m.append("'. Set replace_all=true or provide more context to make it unique");
            return Err(m);
        }
        Ok((replace_once(s, old_text.as_slice(), new_text.as_slice()), 1, first))
    }
}

/// The text after the first `k` edits.
pub open spec fn text_after(path: Seq<char>, s: Seq<char>, edits: Seq<Edit>, k: int) -> Seq<char> {
    after_edits(path, s, edits, k)->Ok_0.0
}

/// Where the edit at position `k` landed, in the text after the first `m` edits: at its first
/// match, which later edits may move.
pub open spec fn landing(path: Seq<char>, s: Seq<char>, edits: Seq<Edit>, k: int, m: int) -> int
    decreases m,
{
    if m <= k + 1 || m <= 0 {
        text::find(text_after(path, s, edits, k), edits[k].old_content@, 0)->Some_0
    } else {
        patch_preview::landed(
            text_after(path, s, edits, m - 1),
            edits[m - 1].old_content@,
            edits[m - 1].new_content@,
            0,
            0,
            landing(path, s, edits, k, m - 1),
        )
    }
}

/// What a patch makes of a file that holds `original`: the new bytes and the number of
/// replacements, or why it is refused.
pub open spec fn patched(path: Seq<char>, original: Seq<u8>, edits: Seq<Edit>) -> Result<
    (Seq<u8>, nat),
    Seq<char>,
> {
    if !valid_utf8(original) {
        Err("File '"@ + path + "' contains invalid UTF-8"@)
    } else {
        match after_edits(path, decode_utf8(original), edits, edits.len() as int) {
            Err(e) => Err(e),
            Ok((t, n)) => Ok((encode_utf8(t), n)),
        }
    }
}

/// Checks that a patch holds edits at all.
pub fn check_edits(edits: &[Edit]) -> (r: Result<(), String>)
    ensures
        r is Ok <==> edits@.len() > 0,
        r matches Err(e) ==> e@ == "edits must contain at least one edit"@,
{
    if edits.len() == 0 {
        Err("edits must contain at least one edit".to_owned())
    } else {
        Ok(())
    }
}

proof fn moves_within(path: Seq<char>, s: Seq<char>, e: Edit, n: nat, pos: int)
    requires
        after_edit(path, s, e, n) is Ok,
        0 <= pos <= s.len(),
    ensures
        0 <= patch_preview::landed(s, e.old_content@, e.new_content@, 0, 0, pos)
            <= after_edit(path, s, e, n)->Ok_0.0.len(),
{
    let p = e.old_content@;
    let r = e.new_content@;
    patch_preview::landing_within(s, p, r, 0, 0, pos);
    if !e.replace_all {
        let i = text::find(s, p, 0)->Some_0;
        text::find_is_first(s, p, 0);
        text::find_is_first(s, p, i + 1);
        text::find_is_first(s, p, i + p.len());
        assert(text::find(s, p, i + p.len()) is None) by {
            if let Some(j) = text::find(s, p, i + p.len()) {
                assert(text::occurs_at(s, p, j));
            }
        }
        assert(text::replaced_from(s, p, r, i + p.len(), i + p.len()) == s.skip(i + p.len()));
        assert(s.subrange(0, i) =~= s.take(i));
        assert(text::replaced(s, p, r) == text::replaced_first(s, p, r));
    }
}

fn move_spots(spots: Vec<usize>, s: &[char], e: &Edit, len: usize) -> (r: Vec<usize>)
    requires
        e.old_content@.len() > 0,
        forall|j: int| 0 <= j < spots@.len() ==> #[trigger] spots@[j] <= s@.len(),
        forall|pos: int|
            0 <= pos <= s@.len() ==> 0 <= #[trigger] patch_preview::landed(
                s@,
                e.old_content@,
                e.new_content@,
                0,
                0,
                pos,
            ) <= len,
    ensures
        r@.len() == spots@.len(),
        forall|j: int|
            0 <= j < r@.len() ==> #[trigger] r@[j] == patch_preview::landed(
                s@,
                e.old_content@,
                e.new_content@,
                0,
                0,
                spots@[j] as int,
            ) && r@[j] <= len,
{
    let old_text = to_chars(e.old_content.as_str());
    let new_text = to_chars(e.new_content.as_str());
    let mut out: Vec<usize> = Vec::new();
    let mut j: usize = 0;
    while j < spots.len()
        invariant
            j <= spots@.len(),
            out@.len() == j,
            old_text@ == e.old_content@,
            new_text@ == e.new_content@,
            e.old_content@.len() > 0,
            forall|j: int| 0 <= j < spots@.len() ==> #[trigger] spots@[j] <= s@.len(),
            forall|pos: int|
                0 <= pos <= s@.len() ==> 0 <= #[trigger] patch_preview::landed(
                    s@,
                    e.old_content@,
                    e.new_content@,
                    0,
                    0,
                    pos,
                ) <= len,
            forall|i: int|
                0 <= i < j ==> #[trigger] out@[i] == patch_preview::landed(
                    s@,
                    e.old_content@,
                    e.new_content@,
                    0,
                    0,
                    spots@[i] as int,
                ) && out@[i] <= len,
        decreases spots@.len() - j,
    {
        assert(spots@[j as int] <= s@.len());
        assert(patch_preview::landed(s@, old_text@, new_text@, 0, 0, spots@[j as int] as int)
            <= len);
        let q = find_landing(s, old_text.as_slice(), new_text.as_slice(), spots[j]);
        out.push(q);
        j += 1;
    }
    out
}

/// Applies every edit in memory: the new text, the number of replacements, and where each edit
/// landed in the new text.
pub fn apply_edits(path: &str, original: &[u8], edits: &[Edit]) -> (r: Result<
    (String, u128, Vec<usize>),
    String,
>)
    ensures
        match r {
            Ok(v) => {
                &&& patched(path@, original@, edits@) == Ok::<(Seq<u8>, nat), Seq<char>>(
                    (encode_utf8(v.0@), v.1 as nat),
                )
                &&& v.2@.len() == edits@.len()
                &&& forall|j: int|
                    0 <= j < edits@.len() ==> #[trigger] v.2@[j] == landing(
                        path@,
                        decode_utf8(original@),
                        edits@,
                        j,
                        edits@.len() as int,
                    ) && v.2@[j] <= v.0@.len()
            },
            Err(m) => patched(path@, original@, edits@) == Err::<(Seq<u8>, nat), Seq<char>>(m@),
        },
{
    let s = match utf8_text(original) {
        Ok(s) => s,
        Err(_) => {
            let mut m = "File '".to_owned();
            m.append(path);
            m.append("' contains invalid UTF-8");
            return Err(m);
        },
    };
    proof {
        encode_utf8_decode_utf8(s@);
        encode_utf8_valid_utf8(s@);
    }
    let mut t = to_chars(s.as_str());
    let mut total: u128 = 0;
    let mut spots: Vec<usize> = Vec::new();
    let mut k: usize = 0;
    let n: usize = edits.len();
    while k < n
        invariant
            k <= n,
            n == edits@.len(),
            n <= 0xffff_ffff_ffff_ffff,
            total <= k * 0x1_0000_0000_0000_0000,
            s@ == decode_utf8(original@),
            valid_utf8(original@),
            after_edits(path@, s@, edits@, k as int) == Ok::<(Seq<char>, nat), Seq<char>>(
                (t@, total as nat),
            ),
            spots@.len() == k,
            forall|j: int|
                0 <= j < k ==> #[trigger] spots@[j] == landing(path@, s@, edits@, j, k as int)
                    && spots@[j] <= t@.len(),
        decreases n - k,
    {
        match apply_edit(path, t.as_slice(), &edits[k], k + 1) {
            Ok(v) => {
                let ghost before = spots@;
                let ghost old_len = t@.len();
                proof {
                    assert forall|pos: int| 0 <= pos <= t@.len() implies 0
                        <= #[trigger] patch_preview::landed(
                        t@,
                        edits@[k as int].old_content@,
                        edits@[k as int].new_content@,
                        0,
                        0,
                        pos,
                    ) <= v.0@.len() by {
                        moves_within(path@, t@, edits@[k as int], (k + 1) as nat, pos);
                    }
                }
                spots = move_spots(spots, t.as_slice(), &edits[k], v.0.len());
                spots.push(v.2);
                proof {
                    assert forall|j: int| 0 <= j < k + 1 implies #[trigger] spots@[j] == landing(
                        path@,
                        s@,
                        edits@,
                        j,
                        k + 1,
                    ) && spots@[j] <= v.0@.len() by {
                        if j < k {
                            assert(before[j] == landing(path@, s@, edits@, j, k as int));
                        }
                    }
                }
                t = v.0;
                total = total + v.1 as u128;
            },
            Err(m) => {
                proof {
                    refused_stays_refused(path@, s@, edits@, k + 1, n as int);
                }
                return Err(m);
            },
        }
        k += 1;
    }
    Ok((from_chars(t.as_slice()), total, spots))
}

// ---------------------------------------------------------------------------
// Writing back only what changed
// ---------------------------------------------------------------------------

/// The number of bytes at the start in which `a` and `b` agree.
pub open spec fn common_start(a: Seq<u8>, b: Seq<u8>, i: int) -> int
    decreases a.len() - i,
{
    if 0 <= i < a.len() && i < b.len() && a[i] == b[i] {
        common_start(a, b, i + 1)
    } else {
        i
    }
}

/// Where the bytes that differ end, looking back from `end`, in two lists of one length.
pub open spec fn differing_end(a: Seq<u8>, b: Seq<u8>, start: int, end: int) -> int
    decreases end - start,
{
    if start < end <= a.len() && a[end - 1] == b[end - 1] {
        differing_end(a, b, start, end - 1)
    } else {
        end
    }
}

/// The region that must be written to turn `original` into `new`: from the first byte that differs
/// to the last one, or to the end where the length changes.
pub open spec fn changed_region(original: Seq<u8>, new: Seq<u8>) -> (int, int) {
    let start = common_start(original, new, 0);
    let end = if original.len() == new.len() {
        differing_end(original, new, start, new.len() as int)
    } else {
        new.len() as int
    };
    (start, end)
}

/// A file after `data` is written at position `pos`.
pub open spec fn written_at(file: Seq<u8>, pos: int, data: Seq<u8>) -> Seq<u8> {
    file.take(pos) + data + (if pos + data.len() < file.len() {
        file.skip(pos + data.len())
    } else {
        Seq::empty()
    })
}

/// A file after its length is set: cut off, or filled up with zeros.
pub open spec fn resized(file: Seq<u8>, len: int) -> Seq<u8> {
    if len <= file.len() {
        file.take(len)
    } else {
        file + Seq::new((len - file.len()) as nat, |i: int| 0u8)
    }
}

/// A file after the region is written, unless it is empty, and the length is set, where it changes.
pub open spec fn rewritten(original: Seq<u8>, new: Seq<u8>, region: (int, int)) -> Seq<u8> {
    let body = if region.0 < region.1 {
        written_at(original, region.0, new.subrange(region.0, region.1))
    } else {
        original
    };
    if new.len() != original.len() {
        resized(body, new.len() as int)
    } else {
        body
    }
}

proof fn common_start_facts(a: Seq<u8>, b: Seq<u8>, i: int)
    requires
        0 <= i <= a.len(),
        i <= b.len(),
    ensures
        i <= common_start(a, b, i) <= a.len(),
        common_start(a, b, i) <= b.len(),
        forall|j: int| i <= j < common_start(a, b, i) ==> a[j] == b[j],
        common_start(a, b, i) < a.len() && common_start(a, b, i) < b.len() ==> a[common_start(
            a,
            b,
            i,
        )] != b[common_start(a, b, i)],
    decreases a.len() - i,
{
    if i < a.len() && i < b.len() && a[i] == b[i] {
        common_start_facts(a, b, i + 1);
    }
}

proof fn differing_end_facts(a: Seq<u8>, b: Seq<u8>, start: int, end: int)
    requires
        0 <= start <= end <= a.len(),
        a.len() == b.len(),
    ensures
        start <= differing_end(a, b, start, end) <= end,
        forall|j: int| differing_end(a, b, start, end) <= j < end ==> a[j] == b[j],
        start < differing_end(a, b, start, end) ==> a[differing_end(a, b, start, end) - 1]
            != b[differing_end(a, b, start, end) - 1],
    decreases end - start,
{
    if start < end && a[end - 1] == b[end - 1] {
        differing_end_facts(a, b, start, end - 1);
    }
}

/// Writing only the changed region leaves exactly the new bytes in the file.
pub proof fn rewriting_gives_the_new_bytes(original: Seq<u8>, new: Seq<u8>)
    ensures
        rewritten(original, new, changed_region(original, new)) == new,
{
    let (start, end) = changed_region(original, new);
    common_start_facts(original, new, 0);
    if original.len() == new.len() {
        differing_end_facts(original, new, start, new.len() as int);
    }
    let out = rewritten(original, new, changed_region(original, new));
    assert(original.take(start) =~= new.take(start));
    assert(out =~= new);
}

/// The changed region holds no unchanged byte at its start, nor at its end where the length is
/// kept; it is empty where nothing changed.
pub proof fn changed_region_is_tight(original: Seq<u8>, new: Seq<u8>)
    ensures
        ({
            let (start, end) = changed_region(original, new);
            &&& 0 <= start <= end <= new.len()
            &&& start <= original.len()
            &&& start < original.len() && start < new.len() ==> original[start] != new[start]
            &&& original.len() == new.len() && start < end ==> original[end - 1] != new[end - 1]
            &&& original == new ==> start == end
        }),
{
    let (start, end) = changed_region(original, new);
    common_start_facts(original, new, 0);
    if original.len() == new.len() {
        differing_end_facts(original, new, start, new.len() as int);
    }
}

/// The region of `new` that has to be written over `original`.
pub fn region_to_write(original: &[u8], new: &[u8]) -> (r: (usize, usize))
    ensures
        (r.0 as int, r.1 as int) == changed_region(original@, new@),
        r.0 <= r.1 <= new@.len(),
{
    let n: usize = original.len();
    let m: usize = new.len();
    let mut start: usize = 0;
    while start < n && start < m && original[start] == new[start]
        invariant
            start <= n,
            start <= m,
            n == original@.len(),
            m == new@.len(),
            common_start(original@, new@, 0) == common_start(original@, new@, start as int),
        decreases n - start,
    {
        start += 1;
    }
    let mut end: usize = m;
    if n == m {
        while end > start && original[end - 1] == new[end - 1]
            invariant
                start <= end <= m,
                n == m,
                n == original@.len(),
                m == new@.len(),
                differing_end(original@, new@, start as int, m as int) == differing_end(
                    original@,
                    new@,
                    start as int,
                    end as int,
                ),
            decreases end - start,
        {
            end -= 1;
        }
    }
    (start, end)
}

// ---------------------------------------------------------------------------
// Where the edits landed
// ---------------------------------------------------------------------------

/// The numbered lines around the places where edits landed.
pub open spec fn previews(text: Seq<char>, edits: Seq<Edit>, spots: Seq<usize>) -> Seq<Seq<char>> {
    Seq::new(
        spots.len(),
        |j: int| patch_preview::preview(text, spots[j] as int, edits[j].new_content@),
    )
}

/// The numbered lines around the places where edits landed.
pub fn preview_edits(text: &str, edits: &[Edit], spots: &[usize]) -> (r: Vec<String>)
    requires
        edits@.len() == spots@.len(),
        forall|j: int| 0 <= j < spots@.len() ==> #[trigger] spots@[j] <= text@.len(),
    ensures
        words::views(r@) == previews(text@, edits@, spots@),
{
    let chars = to_chars(text);
    let ghost all = previews(text@, edits@, spots@);
    let mut out: Vec<String> = Vec::new();
    let mut j: usize = 0;
    assert(words::views(out@) =~= all.take(0));
    while j < spots.len()
        invariant
            j <= spots@.len(),
            chars@ == text@,
            edits@.len() == spots@.len(),
            all == previews(text@, edits@, spots@),
            forall|j: int| 0 <= j < spots@.len() ==> #[trigger] spots@[j] <= text@.len(),
            words::views(out@) == all.take(j as int),
        decreases spots@.len() - j,
    {
        assert(spots@[j as int] <= text@.len());
        let p = preview_at(chars.as_slice(), spots[j], edits[j].new_content.as_str());
        push_line(&mut out, p);
        assert(all.take(j + 1) =~= all.take(j as int).push(all[j as int]));
        j += 1;
    }
    assert(all.take(all.len() as int) =~= all);
    out
}

// ---------------------------------------------------------------------------
// Reports
// ---------------------------------------------------------------------------

/// The message of a report.
pub open spec fn patch_message(path: Seq<char>) -> Seq<char> {
    "File '"@ + path + "' patched successfully"@
}

/// The lines that a patch prints.
pub open spec fn patch_lines(
    path: Seq<char>,
    edits: nat,
    replacements: nat,
    before: nat,
    after: nat,
    written: nat,
) -> Seq<Seq<char>> {
    seq![
        "\u{1f4dd} "@ + patch_message(path),
        "   Path: "@ + path,
        "   Edits: "@ + numbers::decimal(edits) + " ("@ + numbers::decimal(replacements)
            + " replacements)"@,
        "   Bytes: "@ + numbers::decimal(before) + " -> "@ + numbers::decimal(after) + " ("@
            + numbers::decimal(written) + " written)"@,
    ]
}

/// Reports a finished patch, and prints it.
pub fn report_patch(
    ctx: &mut ToolContext,
    path: &str,
    edits: usize,
    replacements: u128,
    bytes_before: usize,
    bytes_after: usize,
    region: (usize, usize),
    preview: Vec<String>,
) -> (r: PatchFileResult)
    requires
        region.0 <= region.1,
    ensures
        r.path@ == path@,
        r.edits_applied == edits,
        r.replacements == replacements,
        r.bytes_before == bytes_before,
        r.bytes_after == bytes_after,
        r.bytes_written == region.1 - region.0,
        r.message@ == patch_message(path@),
        r.preview == preview,
        words::views(final(ctx).lines@) == words::views(old(ctx).lines@) + patch_lines(
            path@,
            edits as nat,
            replacements as nat,
            bytes_before as nat,
            bytes_after as nat,
            (region.1 - region.0) as nat,
        ),
        final(ctx).has_db == old(ctx).has_db,
        final(ctx).agent_name == old(ctx).agent_name,
{
    let written: usize = region.1 - region.0;
    let mut message = "File '".to_owned();
    message.append(path);
    message.append("' patched successfully");
    let ghost before = words::views(ctx.lines@);
    ctx.println_pair("\u{1f4dd} ", message.as_str());
    ctx.println_pair("   Path: ", path);
    let mut line = "   Edits: ".to_owned();
    line.append(usize_text(edits).as_str());
    line.append(" (");
    line.append(wide_text(replacements).as_str());
    line.append(" replacements)");
    ctx.println(line.as_str());
    let mut line = "   Bytes: ".to_owned();
    line.append(usize_text(bytes_before).as_str());
    line.append(" -> ");
    line.append(usize_text(bytes_after).as_str());
    line.append(" (");
    line.append(usize_text(written).as_str());
    line.append(" written)");
    ctx.println(line.as_str());
    assert(words::views(ctx.lines@) =~= before + patch_lines(
        path@,
        edits as nat,
        replacements as nat,
        bytes_before as nat,
        bytes_after as nat,
        written as nat,
    ));
    PatchFileResult {
        path: path.to_owned(),
        edits_applied: edits,
        replacements,
        bytes_before,
        bytes_after,
        bytes_written: written,
        message,
        preview,
    }
}

/// A patch that is ready to be written: the new text, the region of its bytes that differs from the
/// file, and the report.
pub struct PatchedFile {
    pub text: String,
    pub region: (usize, usize),
    pub result: PatchFileResult,
}

/// The previews of all edits of a patch.
pub open spec fn patch_previews(
    path: Seq<char>,
    original: Seq<u8>,
    edits: Seq<Edit>,
    new: Seq<char>,
) -> Seq<Seq<char>> {
    Seq::new(
        edits.len(),
        |j: int|
            patch_preview::preview(
                new,
                landing(path, decode_utf8(original), edits, j, edits.len() as int),
                edits[j].new_content@,
            ),
    )
}

/// The `patch_file` tool on a file that holds `original`: the new text, what of it is to be
/// written, and the report. Nothing is printed where the patch is refused.
pub fn tool_patch_file(ctx: &mut ToolContext, path: &str, original: &[u8], edits: &[Edit]) -> (r:
    Result<PatchedFile, String>)
    ensures
        match r {
            Ok(f) => {
                let new = encode_utf8(f.text@);
                let region = changed_region(original@, new);
                &&& edits@.len() > 0
                &&& patched(path@, original@, edits@) == Ok::<(Seq<u8>, nat), Seq<char>>(
                    (new, f.result.replacements as nat),
                )
                &&& (f.region.0 as int, f.region.1 as int) == region
                &&& f.result.path@ == path@
                &&& f.result.edits_applied == edits@.len()
                &&& f.result.bytes_before == original@.len()
                &&& f.result.bytes_after == new.len()
                &&& f.result.bytes_written == region.1 - region.0
                &&& f.result.message@ == patch_message(path@)
                &&& words::views(f.result.preview@) == patch_previews(
                    path@,
                    original@,
                    edits@,
                    f.text@,
                )
                &&& words::views(final(ctx).lines@) == words::views(old(ctx).lines@) + patch_lines(
                    path@,
                    edits@.len(),
                    f.result.replacements as nat,
                    original@.len(),
                    new.len(),
                    (region.1 - region.0) as nat,
                )
            },
            Err(e) => {
                &&& words::views(final(ctx).lines@) == words::views(old(ctx).lines@)
                &&& if edits@.len() == 0 {
                    e@ == "edits must contain at least one edit"@
                } else {
                    patched(path@, original@, edits@) == Err::<(Seq<u8>, nat), Seq<char>>(e@)
                }
            },
        },
        final(ctx).has_db == old(ctx).has_db,
        final(ctx).agent_name == old(ctx).agent_name,
{
    match check_edits(edits) {
        Ok(_) => {},
        Err(e) => {
            return Err(e);
        },
    }
    let (text, replacements, spots) = match apply_edits(path, original, edits) {
        Ok(v) => v,
        Err(e) => {
            return Err(e);
        },
    };
    let new = text.as_str().as_bytes();
    let region = region_to_write(original, new);
    let preview = preview_edits(text.as_str(), edits, spots.as_slice());
    assert(words::views(preview@) =~= patch_previews(path@, original@, edits@, text@));
    let result = report_patch(
        ctx,
        path,
        edits.len(),
        replacements,
        original.len(),
        new.len(),
        region,
        preview,
    );
    Ok(PatchedFile { text, region, result })
}

// ---------------------------------------------------------------------------
// What a patch does to a file
// ---------------------------------------------------------------------------

/// An edit of one place changes that place and nothing else: where its text stands in the file just
/// once, the new file reads as before up to there, then as the new text, then as before again.
pub proof fn single_edits_change_one_place(
    path: Seq<char>,
    original: Seq<u8>,
    e: Edit,
    i: int,
)
    requires
        valid_utf8(original),
        !e.replace_all,
        e.old_content@.len() > 0,
        e.old_content@ != e.new_content@,
        replacing::stands(decode_utf8(original), e.old_content@, i),
        forall|j: int|
            #[trigger] replacing::stands(decode_utf8(original), e.old_content@, j) ==> j == i,
    ensures
        ({
            let s = decode_utf8(original);
            match patched(path, original, seq![e]) {
                Ok((bytes, n)) => {
                    &&& valid_utf8(bytes)
                    &&& decode_utf8(bytes) == s.take(i) + e.new_content@ + s.skip(
                        i + e.old_content@.len(),
                    )
                    &&& n == 1
                },
                Err(_) => false,
            }
        }),
{
    let s = decode_utf8(original);
    let p = e.old_content@;
    replacing::searching_gives_the_first_place(s, p);
    assert(replacing::stands_first(s, p, i));
    second_place(s, p, i);
    replacing::replacing_once_keeps_the_rest(s, p, e.new_content@, i);
    one_edit(path, s, e);
    encode_utf8_valid_utf8(text::replaced_first(s, p, e.new_content@));
    encode_utf8_decode_utf8(text::replaced_first(s, p, e.new_content@));
}

/// An edit of every place changes the matches, from the left, and nothing else: what the file reads
/// between the matches stays, with the new text in place of each match, and each counts.
pub proof fn edits_of_all_places_keep_the_rest(
    path: Seq<char>,
    original: Seq<u8>,
    e: Edit,
    parts: Seq<Seq<char>>,
)
    requires
        valid_utf8(original),
        e.replace_all,
        e.old_content@.len() > 0,
        e.old_content@ != e.new_content@,
        replacing::is_cut(decode_utf8(original), e.old_content@, parts),
        parts.len() > 1,
    ensures
        match patched(path, original, seq![e]) {
            Ok((bytes, n)) => {
                &&& valid_utf8(bytes)
                &&& decode_utf8(bytes) == words::joined(parts, e.new_content@)
                &&& n == parts.len() - 1
            },
            Err(_) => false,
        },
{
    let s = decode_utf8(original);
    let p = e.old_content@;
    replacing::replacing_fills_the_cuts(s, p, e.new_content@, parts);
    one_edit(path, s, e);
    encode_utf8_valid_utf8(text::replaced(s, p, e.new_content@));
    encode_utf8_decode_utf8(text::replaced(s, p, e.new_content@));
}

/// An edit is refused just where the file is no text, where its text is empty or is to be replaced
/// by itself, where the file does not hold it, or where it stands in more than one place and only
/// one is to be changed.
pub proof fn edits_are_refused(path: Seq<char>, original: Seq<u8>, e: Edit)
    ensures
        ({
            let s = decode_utf8(original);
            let p = e.old_content@;
            patched(path, original, seq![e]) is Err <==> {
                ||| !valid_utf8(original)
                ||| p.len() == 0
                ||| p == e.new_content@
                ||| forall|i: int| !#[trigger] replacing::stands(s, p, i)
                ||| !e.replace_all && exists|i: int, j: int|
                    i < j && #[trigger] replacing::stands(s, p, i) && #[trigger] replacing::stands(
                        s,
                        p,
                        j,
                    )
            }
        }),
{
    let s = decode_utf8(original);
    let p = e.old_content@;
    replacing::searching_gives_the_first_place(s, p);
    one_edit(path, s, e);
    if let Some(i) = text::find(s, p, 0) {
        assert(replacing::stands_first(s, p, i));
        second_place(s, p, i);
        if text::find(s, p, i + 1) is None {
            assert forall|a: int, b: int|
                a < b && #[trigger] replacing::stands(s, p, a) implies !#[trigger] replacing::stands(
                s,
                p,
                b,
            ) by {
                assert(a >= i);
            }
        } else {
            let j = text::find(s, p, i + 1)->0;
            assert(replacing::stands(s, p, i) && replacing::stands(s, p, j) && i < j);
        }
    }
}

/// A batch does what its edits do one after the other, and stands or falls as a whole: without
/// edits the file stays, and one more edit works on the bytes that those before it leave.
pub proof fn batches_are_edits_in_turn(
    path: Seq<char>,
    original: Seq<u8>,
    edits: Seq<Edit>,
    e: Edit,
)
    ensures
        valid_utf8(original) ==> patched(path, original, Seq::empty()) == Ok::<
            (Seq<u8>, nat),
            Seq<char>,
        >((original, 0)),
        match patched(path, original, edits) {
            Err(m) => patched(path, original, edits.push(e)) == Err::<(Seq<u8>, nat), Seq<char>>(m),
            Ok((bytes, n)) => match patched(path, bytes, seq![e]) {
                Err(_) => patched(path, original, edits.push(e)) is Err,
                Ok((new, m)) => patched(path, original, edits.push(e)) == Ok::<
                    (Seq<u8>, nat),
                    Seq<char>,
                >((new, n + m)),
            },
        },
{
    let s = decode_utf8(original);
    let all = edits.push(e);
    let k = edits.len() as int;
    if valid_utf8(original) {
        decode_utf8_encode_utf8(original);
        same_prefix(path, s, edits, all, k);
        if let Ok((t, n)) = after_edits(path, s, edits, k) {
            encode_utf8_valid_utf8(t);
            encode_utf8_decode_utf8(t);
            one_edit(path, t, e);
        }
    }
}

proof fn same_prefix(path: Seq<char>, s: Seq<char>, a: Seq<Edit>, b: Seq<Edit>, k: int)
    requires
        k <= a.len() <= b.len(),
        forall|i: int| 0 <= i < a.len() ==> a[i] == #[trigger] b[i],
    ensures
        after_edits(path, s, a, k) == after_edits(path, s, b, k),
    decreases k,
{
    if k > 0 {
        same_prefix(path, s, a, b, k - 1);
        assert(a[k - 1] == b[k - 1]);
    }
}

proof fn one_edit(path: Seq<char>, s: Seq<char>, e: Edit)
    ensures
        after_edits(path, s, seq![e], 1) == after_edit(path, s, e, 1),
{
    assert(after_edits(path, s, seq![e], 0) == Ok::<(Seq<char>, nat), Seq<char>>((s, 0)));
    if let Ok((t, n)) = after_edit(path, s, e, 1) {
        assert(0 + n == n);
    }
}

proof fn second_place(s: Seq<char>, p: Seq<char>, i: int)
    requires
        replacing::stands(s, p, i),
    ensures
        match text::find(s, p, i + 1) {
            Some(j) => i < j && replacing::stands(s, p, j),
            None => forall|j: int| i < j ==> !#[trigger] replacing::stands(s, p, j),
        },
{
    text::find_is_first(s, p, i + 1);
    assert forall|j: int| #[trigger] replacing::stands(s, p, j) == text::occurs_at(s, p, j) by {
        replacing::stands_is_occurs(s, p, j);
    }
    match text::find(s, p, i + 1) {
        Some(j) => {
            replacing::stands_is_occurs(s, p, j);
        },
        None => {
            assert forall|j: int| i < j implies !#[trigger] replacing::stands(s, p, j) by {
                assert(!text::occurs_at(s, p, j));
            }
        },
    }
}

} // verus!
