use faber::agents::{agent_ansi_code, agent_color_index, AGENT_ANSI_CODES};
use faber::commands::complete;
use faber::history::{DbHistory, SearchDirection};
use faber::numbers::{
    decimal_text, octal_text, parse_signed, parse_unsigned, parse_usize, signed_text, wide_text,
};
use faber::order::{cut_at, sorted, text_le};
use faber::store::report_gc;
use faber::table::Table;
use faber::text::{
    count_matches, find_from, flatten_line, from_chars, replace_all, same, str_contains,
    str_starts_with, to_chars,
};
use faber::words::{join, split_words, text_lines, trim_text};

fn strings(v: &[&str]) -> Vec<String> {
    v.iter().map(|s| s.to_string()).collect()
}

#[test]
fn texts_are_searched_and_replaced() {
    let s = to_chars("aXbXXc");
    let p = to_chars("X");
    assert_eq!(find_from(&s, &p, 2), Some(3));
    assert_eq!(find_from(&s, &p, 5), None);
    assert_eq!(count_matches(&s, &p), 3);
    assert_eq!(from_chars(&replace_all(&s, &p, &to_chars("--"))), "a--b----c");
    assert_eq!(count_matches(&to_chars("aaaa"), &to_chars("aa")), 2);
    assert_eq!(count_matches(&to_chars("ab"), &[]), "ab".matches("").count());
    assert_eq!(from_chars(&replace_all(&to_chars("ab"), &[], &['-'])), "ab".replace("", "-"));
    assert_eq!(from_chars(&flatten_line(&to_chars("a\nb\tc"))).contains('\n'), false);
    assert!(same("é", "é") && !same("e", "é"));
    assert!(str_starts_with("abc", "ab") && !str_starts_with("abc", "b"));
    assert!(str_contains("abc", "bc") && !str_contains("abc", "ac"));
}

#[test]
fn texts_are_cut_into_words_and_lines() {
    for text in ["", " a  b\u{a0}c ", "\u{3000}x\u{2028}y", "one"] {
        assert_eq!(split_words(&to_chars(text)), text.split_whitespace().collect::<Vec<_>>());
        assert_eq!(trim_text(text), text.trim());
    }
    for text in ["", "\n", "a\r\nb", "a\rb\n\nc\n", "x\r"] {
        assert_eq!(text_lines(text), text.lines().collect::<Vec<_>>());
    }
    assert_eq!(join(&strings(&["a", "b", "c"]), ", "), "a, b, c");
    assert_eq!(join(&[], ", "), "");
}

#[test]
fn numbers_read_back() {
    assert_eq!(decimal_text(u64::MAX), u64::MAX.to_string());
    assert_eq!(wide_text(u128::MAX), u128::MAX.to_string());
    assert_eq!(octal_text(0o644), "644");
    for n in [0, -1, 42, i64::MIN, i64::MAX] {
        assert_eq!(signed_text(n), n.to_string());
        assert_eq!(parse_signed(&signed_text(n)), Some(n));
    }
    for text in ["", "+", "-", "+7", "007", "1x", "18446744073709551616", " 1", "٣"] {
        assert_eq!(parse_usize(&to_chars(text)), text.parse::<usize>().ok());
        assert_eq!(parse_signed(text), text.parse::<i64>().ok());
    }
    assert_eq!(parse_unsigned(&to_chars("777"), 8, u32::MAX as u64), Some(0o777));
    assert_eq!(parse_unsigned(&to_chars("8"), 8, u32::MAX as u64), None);
    assert_eq!(parse_unsigned(&to_chars("300"), 10, 255), None);
}

#[test]
fn texts_are_put_in_order() {
    let words = strings(&["b", "", "é", "ab", "a", "Z", "a"]);
    let mut want = words.clone();
    want.sort();
    assert_eq!(sorted(&words), want);
    assert!(text_le("a", "a") && text_le("a", "b") && !text_le("b", "a") && text_le("a", "aa"));
    assert_eq!(cut_at("aé", 2), "a");
    assert_eq!(cut_at("aé", 3), "aé");
}

#[test]
fn a_table_keeps_one_value_under_a_name() {
    let mut t: Table<u32> = Table::new();
    t.set("a".to_string(), 1);
    t.set("b".to_string(), 2);
    t.set("a".to_string(), 3);
    assert_eq!((t.len(), t.get("a"), t.get("c")), (2, Some(&3), None));
    assert!(t.remove("a") && !t.remove("a"));
    assert!(!t.contains_key("a") && t.contains_key("b"));
}

#[test]
fn agents_keep_their_colors() {
    assert_eq!(agent_color_index("bob"), agent_color_index("bob"));
    assert_eq!(agent_ansi_code("bob"), AGENT_ANSI_CODES[agent_color_index("bob")]);
}

#[test]
fn commands_and_agents_are_completed() {
    let agents = strings(&["bob", "bill", "ann"]);
    assert_eq!(complete("/cr", 3, &agents), (0, strings(&["/create-agent"])));
    let line = "/select-agent b";
    let (start, found) = complete(line, line.len(), &agents);
    assert_eq!(&line[start..], "b");
    assert_eq!(found, strings(&["bob", "bill"]));
}

#[test]
fn a_history_is_bounded() {
    let mut h = DbHistory::new();
    h.set_max_len(2);
    for line in ["a", "b", "c"] {
        h.add(line);
    }
    assert_eq!(h.len(), 2);
    assert_eq!(h.get(0, SearchDirection::Forward).unwrap().entry, "b");
    h.set_max_len(1);
    assert_eq!(h.len(), 1);
    assert_eq!(h.get(0, SearchDirection::Forward).unwrap().entry, "c");
}

#[test]
fn collected_agents_are_reported() {
    let none = report_gc(&[]);
    let two = report_gc(&strings(&["a", "b"]));
    assert_eq!(none.len(), 1);
    assert!(two.iter().any(|l| l.contains("2")));
    assert!(two.iter().any(|l| l.contains("a")) && two.iter().any(|l| l.contains("b")));
}
