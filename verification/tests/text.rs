use buzz_host::files::{join_path, search};
use buzz_host::json::Json;
use buzz_host::lists::{has_text, join_texts, sort_texts, split_text};
use buzz_host::quoting::{shell_quote, xml_escape};
use buzz_host::table::Table;
use buzz_host::text::{
    chars_of, comes_first, contains, decimal_text, first_word, same, text_of, trim,
};

fn list(texts: &[&str]) -> Vec<String> {
    texts.iter().map(|s| s.to_string()).collect()
}

#[test]
fn the_plist_escapes_a_path_that_would_break_the_xml() {
    assert_eq!(xml_escape("/a & b/<c>"), "/a &amp; b/&lt;c&gt;");
}

#[test]
fn quoting_leaves_everything_else_alone() {
    assert_eq!(shell_quote(""), "''");
    assert_eq!(shell_quote("$HOME `x` \\ \"y\""), "'$HOME `x` \\ \"y\"'");
    assert_eq!(shell_quote("''"), r"''\'''\'''");
    assert_eq!(xml_escape("\"plain\" 'text'"), "\"plain\" 'text'");
    assert_eq!(xml_escape("&amp;"), "&amp;amp;");
}

#[test]
fn trimming_takes_white_space_of_every_kind() {
    assert_eq!(trim("\u{3000}\t a b \r\n\u{a0}\u{85}"), "a b");
    assert_eq!(trim(" \n "), "");
    assert_eq!(trim("\u{200b}x"), "\u{200b}x");
}

#[test]
fn the_first_word_ends_at_white_space() {
    assert_eq!(first_word("  codex-acp --x"), Some("codex-acp".to_string()));
    assert_eq!(first_word("one"), Some("one".to_string()));
    assert_eq!(first_word(" \t"), None);
    assert_eq!(first_word(""), None);
}

#[test]
fn texts_are_searched_and_ordered_by_character() {
    assert!(contains("a state = running b", "state = running"));
    assert!(!contains("state = runnin", "state = running"));
    assert!(contains("", ""));
    assert!(same("a", "a"));
    assert!(!same("a", "b"));
    assert!(comes_first("a", "ab"));
    assert!(comes_first("a", "a"));
    assert!(!comes_first("b", "ab"));
    assert_eq!(text_of(&chars_of("äöü")), "äöü");
}

#[test]
fn numbers_are_written_in_decimal() {
    assert_eq!(decimal_text(0), "0");
    assert_eq!(decimal_text(501), "501");
    assert_eq!(decimal_text(-7), "-7");
    assert_eq!(decimal_text(i64::MIN), "-9223372036854775808");
}

#[test]
fn splitting_undoes_joining() {
    let parts = list(&["/a", "", "/b"]);
    assert_eq!(join_texts(&parts, ":"), "/a::/b");
    assert_eq!(split_text("/a::/b", ':'), parts);
    assert_eq!(split_text("", ':'), list(&[""]));
    assert_eq!(join_texts(&list(&[]), ":"), "");
    assert!(has_text(&parts, ""));
    assert!(!has_text(&parts, "/c"));
}

#[test]
fn sorting_keeps_every_text() {
    assert_eq!(
        sort_texts(list(&["b", "a-2", "a", "b", "é", "z"])),
        list(&["a", "a-2", "b", "b", "z", "é"])
    );
}

#[test]
fn paths_are_joined_with_one_slash() {
    assert_eq!(join_path("/home/uni", "bin"), "/home/uni/bin");
    assert_eq!(join_path("/", "bin"), "/bin");
    assert_eq!(join_path("", "bin"), "bin");
    assert_eq!(join_path("/home/uni", "/bin"), "/bin");
    assert_eq!(join_path("a", ""), "a/");
}

#[test]
fn a_search_ends_at_the_first_that_is_there() {
    let places = list(&["a", "b", "c"]);
    assert_eq!(search(&places, &|p: &str| p != "a"), Some(1));
    assert_eq!(search(&places, &|_: &str| false), None);
}

#[test]
fn a_table_files_one_value_under_each_key() {
    let mut t: Table<String> = Table::new();
    t.set("a", "1");
    t.set("b", "2");
    t.set("a", "3");
    assert_eq!(t.text_at("a"), Some("3"));
    assert_eq!(t.text_at("c"), None);
    let mut over: Table<String> = Table::new();
    over.set("b", "4");
    over.set("c", "5");
    t.overlay(&over);
    assert_eq!(t.get("b"), Some(&"4".to_string()));
    let mut entries = t.entries().clone();
    entries.sort();
    let wanted = [("a", "3"), ("b", "4"), ("c", "5")];
    assert_eq!(entries, wanted.map(|(k, v)| (k.to_string(), v.to_string())));
}

#[test]
fn json_is_read_and_written() {
    let text = r#"{"a":[null,true,-1,2.5,"x"],"b":{}}"#;
    let value = Json::parse(text).unwrap();
    assert_eq!(value.to_text(), text);
    let items = value.get("a").unwrap().as_array().unwrap();
    assert_eq!(items[2].as_i64(), Some(-1));
    assert_eq!(items[3].as_i64(), None);
    assert_eq!(items[4].as_i64(), None);
    assert_eq!(items[4].as_str(), Some("x"));
    assert_eq!(items[0].as_str(), None);
    assert!(value.get("b").unwrap().as_object().is_some());
    assert!(value.get("b").unwrap().as_array().is_none());
    assert!(value.get("c").is_none());
    assert!(items[4].get("x").is_none());
    let big = Json::parse("9223372036854775808").unwrap();
    assert_eq!(big.as_i64(), None);
    assert_eq!(Json::parse("").unwrap_err(), "EOF while parsing a value at line 1 column 0");
    let twice = Json::parse(r#"{"a":1,"a":2}"#).unwrap();
    assert_eq!(twice.get("a").unwrap().as_i64(), Some(2));
}
