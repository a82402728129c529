use supervisor_core::json::JsonValue;
use supervisor_core::json_ops::json_same;
use supervisor_core::order::{key_precedes, rank_order, RankKey};
use supervisor_core::table::Table;
use supervisor_core::text::{is_edge_char, is_space_char, path_basename, split_words, summarize_text};

fn key(major: i64, minor: i64, label: &str) -> RankKey {
    RankKey { major, minor, label: label.to_string() }
}

#[test]
fn summarize_text_trims_and_cuts_to_the_limit() {
    assert_eq!(summarize_text("  hello  ", 5), "hello");
    assert_eq!(summarize_text("  hello!  ", 5), "hello");
    assert_eq!(summarize_text("", 0), "");
    assert_eq!(summarize_text("héllo wörld", 4), "héll");
    assert_eq!(summarize_text(&"z".repeat(300), 240).chars().count(), 240);
}

#[test]
fn words_are_runs_without_white_space() {
    assert_eq!(split_words("  one\ttwo\n three  "), vec!["one", "two", "three"]);
    assert_eq!(split_words("   "), Vec::<String>::new());
    assert_eq!(split_words("a\u{2003}b"), vec!["a", "b"]);
}

#[test]
fn basename_is_the_last_component() {
    assert_eq!(path_basename("/tmp/ws-1"), Some("ws-1".to_string()));
    assert_eq!(path_basename("/tmp/ws-1///"), Some("ws-1".to_string()));
    assert_eq!(path_basename("plain"), Some("plain".to_string()));
    assert_eq!(path_basename("/"), None);
    assert_eq!(path_basename(""), None);
    assert_eq!(path_basename("a/.."), None);
    assert_eq!(path_basename("/tmp/ws/."), Some("ws".to_string()));
    assert_eq!(path_basename("/tmp/ws/.//"), Some("ws".to_string()));
    assert_eq!(path_basename("."), None);
    assert_eq!(path_basename("./"), None);
    assert_eq!(path_basename("/."), None);
    assert_eq!(path_basename("../ws"), Some("ws".to_string()));
    assert_eq!(path_basename("/tmp/.ws"), Some(".ws".to_string()));
}

#[test]
fn white_space_and_punctuation_are_told_apart() {
    for c in [' ', '\t', '\n', '\r', '\u{0b}', '\u{0c}', '\u{85}', '\u{a0}', '\u{1680}', '\u{2000}', '\u{200a}', '\u{2028}', '\u{2029}', '\u{202f}', '\u{205f}', '\u{3000}'] {
        assert!(is_space_char(c), "{c:?}");
        assert_eq!(is_space_char(c), c.is_whitespace());
    }
    for c in ['a', '0', '_', '\u{200b}', '\u{feff}', '!'] {
        assert!(!is_space_char(c), "{c:?}");
    }
    for code in 0u32..0x3100 {
        if let Some(c) = char::from_u32(code) {
            assert_eq!(is_space_char(c), c.is_whitespace(), "{code:#x}");
            assert_eq!(is_edge_char(c), c.is_whitespace() || c.is_ascii_punctuation(), "{code:#x}");
        }
    }
}

#[test]
fn ranking_orders_by_major_minor_label_and_keeps_ties_in_place() {
    let keys = vec![key(1, 0, "b"), key(2, 0, "z"), key(1, 5, "c"), key(1, 0, "a"), key(1, 0, "b")];
    assert_eq!(rank_order(&keys), vec![1, 2, 3, 0, 4]);
    assert_eq!(rank_order(&vec![]), Vec::<usize>::new());
    assert!(key_precedes(&key(0, 0, "a"), &key(0, 0, "ab")));
    assert!(key_precedes(&key(0, 0, "Z"), &key(0, 0, "a")));
    assert!(key_precedes(&key(0, 0, "z"), &key(0, 0, "é")));
    assert!(!key_precedes(&key(0, 0, "a"), &key(0, 0, "a")));
    assert!(key_precedes(&key(0, 1, "z"), &key(0, 0, "a")));
}

#[test]
fn table_keeps_one_entry_per_key_in_the_order_of_the_keys() {
    let mut table: Table<i64> = Table::new();
    assert!(table.is_empty());
    table.put("b".to_string(), 1);
    table.put("a".to_string(), 2);
    table.put("b".to_string(), 3);
    table.put("ab".to_string(), 4);
    assert_eq!(table.len(), 3);
    assert_eq!(table.get("b"), Some(&3));
    assert_eq!(table.position("a"), Some(0));
    assert_eq!(table.key_at(0), "a");
    assert_eq!(table.key_at(1), "ab");
    assert_eq!(table.key_at(2), "b");
    assert_eq!(*table.value_at(0), 2);
    table.retain_marked(&vec![true, false, false]);
    assert_eq!(table.len(), 1);
    assert!(!table.contains_key("b"));
    table.remove("missing");
    table.remove("a");
    assert!(table.is_empty());
}

#[test]
fn json_values_compare_by_what_they_state() {
    assert!(json_same(&JsonValue::Int(5), &JsonValue::Uint(5)));
    assert!(!json_same(&JsonValue::Int(-5), &JsonValue::Uint(5)));
    assert!(!json_same(&JsonValue::Text("5".to_string()), &JsonValue::Int(5)));
    let a = JsonValue::Array(vec![JsonValue::Null, JsonValue::Bool(true)]);
    assert!(json_same(&a, &a.clone()));
    assert!(!json_same(&a, &JsonValue::Array(vec![JsonValue::Null])));
    assert_eq!(JsonValue::Int(7).as_u64(), Some(7));
    assert_eq!(JsonValue::Int(-7).as_u64(), None);
    assert_eq!(JsonValue::Uint(u64::MAX).as_i64(), None);
    assert_eq!(JsonValue::Decimal("1.5".to_string()).as_i64(), None);
    assert_eq!(JsonValue::Decimal("1.5".to_string()).compact_text(), "1.5");
    assert_eq!(JsonValue::Text("a\"b".to_string()).compact_text(), "\"a\\\"b\"");
    assert_eq!(JsonValue::empty_object().compact_text(), "{}");
}
