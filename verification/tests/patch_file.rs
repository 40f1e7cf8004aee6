use faber::context::ToolContext;
use faber::patch_file::{tool_patch_file, Edit, PatchFileResult};

/// A file with a name.
struct TestFile {
    path: &'static str,
    bytes: Vec<u8>,
}

impl TestFile {
    fn new(path: &'static str, content: &str) -> Self {
        TestFile { path, bytes: content.as_bytes().to_vec() }
    }

    fn text(&self) -> String {
        String::from_utf8(self.bytes.clone()).unwrap()
    }

    /// Applies edits, and writes only the region that changed.
    fn patch(&mut self, edits: Vec<Edit>) -> Result<PatchFileResult, String> {
        let mut ctx = ToolContext::new();
        let file = tool_patch_file(&mut ctx, self.path, &self.bytes, &edits)?;
        let (new, region) = (file.text.as_bytes(), file.region);
        self.bytes.resize(new.len(), 0);
        self.bytes[region.0..region.1].copy_from_slice(&new[region.0..region.1]);
        Ok(file.result)
    }
}

fn edit(old_content: &str, new_content: &str) -> Edit {
    Edit {
        old_content: old_content.to_string(),
        new_content: new_content.to_string(),
        replace_all: false,
    }
}

fn edit_all(old_content: &str, new_content: &str) -> Edit {
    Edit {
        old_content: old_content.to_string(),
        new_content: new_content.to_string(),
        replace_all: true,
    }
}

#[test]
fn test_patch_file_multiple_edits() {
    let path = "_test_pf_multi.tmp";
    let mut file = TestFile::new(path, "one\ntwo\nthree\n");
    let res = file.patch(vec![edit("one", "1"), edit("three", "THREE!")]).unwrap();
    assert_eq!(res.edits_applied, 2);
    assert_eq!(res.replacements, 2);
    assert_eq!(file.text(), "1\ntwo\nTHREE!\n");
}

#[test]
fn test_patch_file_edits_apply_in_order() {
    let path = "_test_pf_order.tmp";
    let mut file = TestFile::new(path, "alpha\n");
    file.patch(vec![edit("alpha", "beta"), edit("beta", "gamma")]).unwrap();
    assert_eq!(file.text(), "gamma\n");
}

#[test]
fn test_patch_file_is_atomic() {
    let path = "_test_pf_atomic.tmp";
    let mut file = TestFile::new(path, "keep me\nchange me\n");
    let err = file.patch(vec![edit("change me", "changed"), edit("missing", "x")]).err().unwrap();
    assert!(err.contains("edit 2"));
    assert_eq!(file.text(), "keep me\nchange me\n");
}

#[test]
fn test_patch_file_ambiguous_match() {
    let path = "_test_pf_ambiguous.tmp";
    let mut file = TestFile::new(path, "aa bb aa\n");
    let err = file.patch(vec![edit("aa", "x")]).err().unwrap();
    assert!(err.contains("multiple times"));
    assert_eq!(file.text(), "aa bb aa\n");
}

#[test]
fn test_patch_file_overlapping_match_is_ambiguous() {
    let path = "_test_pf_overlap.tmp";
    let mut file = TestFile::new(path, "aaa\n");
    assert!(file.patch(vec![edit("aa", "x")]).is_err());
}

#[test]
fn test_patch_file_replace_all() {
    let path = "_test_pf_all.tmp";
    let mut file = TestFile::new(path, "aa bb aa cc aa\n");
    let res = file.patch(vec![edit_all("aa", "X")]).unwrap();
    assert_eq!(res.replacements, 3);
    assert_eq!(file.text(), "X bb X cc X\n");
}

#[test]
fn test_patch_file_shrinks_and_grows() {
    let path = "_test_pf_resize.tmp";
    let mut file = TestFile::new(path, "head\nmiddle part\ntail\n");
    let res = file.patch(vec![edit("middle part\n", "")]).unwrap();
    assert_eq!(res.bytes_after, 10);
    assert_eq!(file.text(), "head\ntail\n");
    file.patch(vec![edit("head\n", "a much longer head\n")]).unwrap();
    assert_eq!(file.text(), "a much longer head\ntail\n");
}

#[test]
fn test_patch_file_writes_only_changed_bytes() {
    let path = "_test_pf_minimal.tmp";
    let mut file = TestFile::new(path, "prefix XXXX suffix\n");
    let res = file.patch(vec![edit("XXXX", "YYYY")]).unwrap();
    assert_eq!(res.bytes_written, 4);
    assert_eq!(file.text(), "prefix YYYY suffix\n");
}

#[test]
fn test_patch_file_unicode() {
    let path = "_test_pf_unicode.tmp";
    let mut file = TestFile::new(path, "héllo wörld\n");
    file.patch(vec![edit("wörld", "monde")]).unwrap();
    assert_eq!(file.text(), "héllo monde\n");
}

#[test]
fn test_patch_file_rejects_bad_input() {
    let path = "_test_pf_bad.tmp";
    let mut file = TestFile::new(path, "content\n");
    assert!(file.patch(vec![]).is_err());
    assert!(file.patch(vec![edit("", "x")]).is_err());
    assert!(file.patch(vec![edit("content", "content")]).is_err());
    let mut missing = TestFile::new("_test_pf_missing.tmp", "");
    assert!(missing.patch(vec![edit("a", "b")]).is_err());
    assert_eq!(file.text(), "content\n");
}

#[test]
fn test_patch_file_replace_all_not_found() {
    let path = "_test_pf_all_missing.tmp";
    let mut file = TestFile::new(path, "abc\n");
    let err = file.patch(vec![edit_all("zzz", "x")]).err().unwrap();
    assert!(err.contains("not found"));
    assert_eq!(file.text(), "abc\n");
}

#[test]
fn test_patch_file_replace_all_deletes() {
    let path = "_test_pf_all_delete.tmp";
    let mut file = TestFile::new(path, "a-b-c-d\n");
    let res = file.patch(vec![edit_all("-", "")]).unwrap();
    assert_eq!(res.bytes_after, 5);
    assert_eq!(file.text(), "abcd\n");
}

#[test]
fn test_patch_file_edits_that_cancel_out_write_nothing() {
    let path = "_test_pf_cancel.tmp";
    let mut file = TestFile::new(path, "one two\n");
    let res = file.patch(vec![edit("one", "1"), edit("1", "one")]).unwrap();
    assert_eq!(res.edits_applied, 2);
    assert_eq!(res.bytes_written, 0);
    assert_eq!(file.text(), "one two\n");
}

#[test]
fn test_patch_file_same_length_edits_write_only_the_changed_span() {
    let path = "_test_pf_span.tmp";
    let mut file = TestFile::new(path, "AAAA----------------BBBB\n");
    let res = file.patch(vec![edit("AAAA", "aaaa"), edit("BBBB", "bbbb")]).unwrap();
    assert_eq!(res.bytes_written, 24);
    assert_eq!(file.text(), "aaaa----------------bbbb\n");

    let res = file.patch(vec![edit("aaaa", "AAAA")]).unwrap();
    assert_eq!(res.bytes_written, 4);
}

#[test]
fn test_patch_file_growing_edit_writes_from_first_change_to_end() {
    let path = "_test_pf_grow_tail.tmp";
    let mut file = TestFile::new(path, "keep keep keep X tail\n");
    let res = file.patch(vec![edit("X", "XYZ")]).unwrap();
    assert_eq!(res.bytes_written, 8);
    assert_eq!(file.text(), "keep keep keep XYZ tail\n");
}

#[test]
fn test_patch_file_multiline_and_crlf() {
    let path = "_test_pf_crlf.tmp";
    let mut file = TestFile::new(path, "fn a() {\r\n    1\r\n}\r\nfn b() {\r\n    2\r\n}\r\n");
    file.patch(vec![edit("fn a() {\r\n    1\r\n}\r\n", "fn a() {\r\n    42\r\n}\r\n")]).unwrap();
    assert_eq!(
        file.text(),
        "fn a() {\r\n    42\r\n}\r\nfn b() {\r\n    2\r\n}\r\n"
    );
}

#[test]
fn test_patch_file_empty_file_cannot_match() {
    let path = "_test_pf_empty.tmp";
    let mut file = TestFile::new(path, "");
    assert!(file.patch(vec![edit("a", "b")]).is_err());
    assert_eq!(file.text(), "");
}

#[test]
fn test_patch_file_large_file() {
    let path = "_test_pf_large.tmp";
    let line = "The quick brown fox jumps over the lazy dog.\n";
    let original = line.repeat(20_000);
    let mut file = TestFile::new(path, &original);
    let res = file.patch(vec![edit_all("quick", "slow"), edit_all("lazy", "energetic")]).unwrap();
    assert_eq!(res.replacements, 40_000);
    assert_eq!(
        file.text(),
        "The slow brown fox jumps over the energetic dog.\n".repeat(20_000)
    );
}
