use wt_extract::copy::{plan_table_copy, size_records_to_copy};
use wt_extract::text::{
    chars_of, concat_str, contains_str, is_index_table, string_of, strip_quotes, table_uri, trim_chars,
    white_space,
};

#[test]
fn strip_quotes_removes_every_double_quote() {
    assert_eq!(strip_quotes("\"zips.zips\""), "zips.zips");
    assert_eq!(strip_quotes("a\"b\"\"c"), "abc");
    assert_eq!(strip_quotes("plain"), "plain");
    assert_eq!(strip_quotes(""), "");
    assert_eq!(strip_quotes("\"\""), "");
}

#[test]
fn strip_quotes_twice_is_strip_quotes_once() {
    for s in ["\"x\"", "a\"\"b", "none", "\"é\""] {
        let once = strip_quotes(s);
        assert_eq!(strip_quotes(&once), once);
        assert!(!once.contains('"'));
    }
}

#[test]
fn white_space_follows_unicode() {
    for c in ['\t', '\n', '\u{0b}', '\u{0c}', '\r', ' ', '\u{85}', '\u{a0}', '\u{1680}', '\u{2000}', '\u{200a}', '\u{2028}', '\u{2029}', '\u{202f}', '\u{205f}', '\u{3000}'] {
        assert!(white_space(c), "{:?}", c);
        assert_eq!(white_space(c), c.is_whitespace());
    }
    for c in ['a', '\u{200b}', '\u{08}', '\u{0e}', '_', '\u{feff}'] {
        assert!(!white_space(c), "{:?}", c);
        assert_eq!(white_space(c), c.is_whitespace());
    }
}

#[test]
fn trim_chars_agrees_with_str_trim() {
    for s in ["  a b  ", "\t\u{3000}x\u{a0}", "", "   ", "no", " \u{200b} "] {
        let t = trim_chars(&s.chars().collect());
        let got: String = t.into_iter().collect();
        assert_eq!(got, s.trim());
    }
}

#[test]
fn chars_round_trip() {
    let s = "café.ünïcode";
    assert_eq!(string_of(&chars_of(s)), s);
    assert_eq!(chars_of(s).len(), 12);
}

#[test]
fn contains_str_finds_substrings() {
    assert!(contains_str("index-1--2", "index-"));
    assert!(contains_str("abc", ""));
    assert!(contains_str("abc", "abc"));
    assert!(!contains_str("ab", "abc"));
    assert!(!contains_str("indexx-", "index-"));
    assert!(contains_str("xxindex-", "index-"));
}

#[test]
fn index_tables_are_told_by_name() {
    assert!(is_index_table("index-1--6029584474346476962"));
    assert!(is_index_table("zips/index-3--2"));
    assert!(!is_index_table("collection-0--6029584474346476962"));
    assert!(!is_index_table("_mdb_catalog"));
}

#[test]
fn table_uri_prefixes_table() {
    assert_eq!(table_uri("collection-0--1"), "table:collection-0--1");
    assert_eq!(table_uri(""), "table:");
    assert_eq!(concat_str("ab", "cd"), "abcd");
    assert_eq!(table_uri("_mdb_catalog").len(), 18);
}

#[test]
fn table_copy_plans() {
    let c = plan_table_copy("collection-2--5");
    assert_eq!(c.uri, "table:collection-2--5");
    assert!(!c.keyed_by_bytes);
    let i = plan_table_copy("index-3--5");
    assert_eq!(i.uri, "table:index-3--5");
    assert!(i.keyed_by_bytes);
}

#[test]
fn size_records_follow_size_storer_creation() {
    assert_eq!(size_records_to_copy("table:collection-2--9", true), vec!["table:_mdb_catalog".to_string(), "table:collection-2--9".to_string()]);
    assert_eq!(size_records_to_copy("table:collection-2--9", false), vec!["table:collection-2--9".to_string()]);
}
