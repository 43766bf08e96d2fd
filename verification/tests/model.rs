use contents_exporter::front_matter::{FieldMap, FrontMatter};
use contents_exporter::key_values::{parse_fields, parse_line, unquote};
use contents_exporter::path::{basename, join_path, remote, scheme_char};
use contents_exporter::text::{blank, find_char, split_lines, trimmed};

fn pair(key: &str, value: &str) -> Option<(String, String)> {
    Some((key.to_string(), value.to_string()))
}

#[test]
fn field_map_sets_gets_and_removes() {
    let mut fields = FieldMap::new();
    assert_eq!(fields.get("a"), None);
    assert!(!fields.contains_key("a"));
    fields.insert("a".to_string(), "1".to_string());
    fields.insert("b".to_string(), "2".to_string());
    fields.insert("a".to_string(), "3".to_string());
    assert_eq!(fields.get("a"), Some("3".to_string()));
    assert_eq!(fields.get("b"), Some("2".to_string()));
    assert!(fields.contains_key("a"));
    fields.remove("a");
    assert_eq!(fields.get("a"), None);
    fields.remove("a");
    assert_eq!(fields.get("b"), Some("2".to_string()));
}

#[test]
fn known_keys_are_taken_out_of_the_fields() {
    let mut fields = FieldMap::new();
    fields.insert("title".to_string(), "T".to_string());
    fields.insert("published_at".to_string(), "2024-01-01".to_string());
    fields.insert("emoji".to_string(), "x".to_string());
    let model = FrontMatter::new(fields);
    assert_eq!(model.title(), "T");
    assert_eq!(model.published_at(), "2024-01-01");
    assert_eq!(model.custom("emoji"), Some("x".to_string()));
    assert_eq!(model.custom("title"), None);
    assert_eq!(model.custom("published_at"), None);
}

#[test]
fn absent_keys_are_empty() {
    let model = FrontMatter::new(FieldMap::new());
    assert_eq!(model.title(), "");
    assert_eq!(model.published_at(), "");
    assert_eq!(model.custom("title"), None);
    let mut fields = FieldMap::new();
    fields.insert("published_at".to_string(), "2024".to_string());
    let model = FrontMatter::new(fields);
    assert_eq!(model.title(), "");
    assert_eq!(model.published_at(), "2024");
}

#[test]
fn find_char_gives_the_first_position_or_the_length() {
    assert_eq!(find_char("a=b=c", '='), 1);
    assert_eq!(find_char("=", '='), 0);
    assert_eq!(find_char("abc", '='), 3);
    assert_eq!(find_char("", '='), 0);
    assert_eq!(find_char("日本=語", '='), 2);
}

#[test]
fn trimmed_strips_blanks_at_both_ends() {
    assert_eq!(trimmed("  a b \t\r"), "a b");
    assert_eq!(trimmed("a"), "a");
    assert_eq!(trimmed(" \t "), "");
    assert_eq!(trimmed(""), "");
    assert_eq!(trimmed("\na\n"), "\na\n");
    assert!(blank(' ') && blank('\t') && blank('\r'));
    assert!(!blank('\n') && !blank('a'));
}

#[test]
fn split_lines_cuts_at_line_feeds() {
    assert_eq!(split_lines("a\nb"), vec!["a".to_string(), "b".to_string()]);
    assert_eq!(split_lines("a\n"), vec!["a".to_string(), "".to_string()]);
    assert_eq!(split_lines(""), vec!["".to_string()]);
    assert_eq!(split_lines("\n\n"), vec!["".to_string(), "".to_string(), "".to_string()]);
    assert_eq!(split_lines("é\r\nü"), vec!["é\r".to_string(), "ü".to_string()]);
}

#[test]
fn basename_gives_the_last_component() {
    assert_eq!(basename("./img/pic.png"), Some("pic.png".to_string()));
    assert_eq!(basename("pic.png"), Some("pic.png".to_string()));
    assert_eq!(basename("/usr/bin/"), Some("bin".to_string()));
    assert_eq!(basename("tmp/foo.txt"), Some("foo.txt".to_string()));
    assert_eq!(basename("foo.txt/."), Some("foo.txt".to_string()));
    assert_eq!(basename("foo.txt/.//"), Some("foo.txt".to_string()));
    assert_eq!(basename("../a"), Some("a".to_string()));
    assert_eq!(basename("a/..."), Some("...".to_string()));
    assert_eq!(basename("a/.b"), Some(".b".to_string()));
    assert_eq!(basename("a/b."), Some("b.".to_string()));
}

#[test]
fn basename_is_absent_without_a_file_name() {
    assert_eq!(basename("foo.txt/.."), None);
    assert_eq!(basename(".."), None);
    assert_eq!(basename("/"), None);
    assert_eq!(basename(""), None);
    assert_eq!(basename("."), None);
    assert_eq!(basename("./"), None);
    assert_eq!(basename("././"), None);
    assert_eq!(basename("a/../"), None);
}

#[test]
fn basename_agrees_with_the_standard_library() {
    for path in [
        "./img/pic.png", "/usr/bin/", "foo.txt/.", "foo.txt/.//", "foo.txt/..", "/", "", ".",
        "./", "..", "a//b", "a/./b/.", "/.", "/..", "a/b/../c", "...", ".a", "a.", "//a//",
    ] {
        let expected =
            std::path::Path::new(path).file_name().map(|name| name.to_str().unwrap().to_string());
        assert_eq!(basename(path), expected, "{}", path);
    }
}

#[test]
fn join_path_puts_one_slash_between() {
    assert_eq!(join_path(".", "articles"), "./articles");
    assert_eq!(join_path("a/b", "c"), "a/b/c");
    assert_eq!(join_path("a/", "c"), "a/c");
    assert_eq!(join_path("", "c"), "c");
    assert_eq!(join_path("/", "c"), "/c");
    assert_eq!(join_path("a", ""), "a/");
}

#[test]
fn remote_links_begin_with_a_scheme_or_two_slashes() {
    assert!(remote("https://example.com/pic.png"));
    assert!(remote("ftp://example.com/pic.png"));
    assert!(remote("x-a.b+c:rest"));
    assert!(remote("//example.com"));
    assert!(!remote("./img/pic.png"));
    assert!(!remote("/img/pic.png"));
    assert!(!remote("img/a:b.png"));
    assert!(!remote(":a"));
    assert!(!remote("a b:c"));
    assert!(!remote(""));
    assert!(!remote("/"));
    assert!(scheme_char('a') && scheme_char('Z') && scheme_char('5') && scheme_char('+'));
    assert!(!scheme_char('/') && !scheme_char(' ') && !scheme_char('é'));
}

#[test]
fn parse_line_reads_key_and_value() {
    assert_eq!(parse_line("title=\"Hello\""), pair("title", "Hello"));
    assert_eq!(parse_line("  title =  \"Hello\"  \r"), pair("title", "Hello"));
    assert_eq!(parse_line("a=b=c"), pair("a", "b=c"));
    assert_eq!(parse_line("a="), pair("a", ""));
    assert_eq!(parse_line("a = bare"), pair("a", "bare"));
    assert_eq!(parse_line("a = \""), pair("a", "\""));
    assert_eq!(parse_line("a = \"\""), pair("a", ""));
    assert_eq!(parse_line("a = \"x\" y"), pair("a", "\"x\" y"));
    assert_eq!(parse_line("+++"), None);
    assert_eq!(parse_line(""), None);
    assert_eq!(parse_line(" = x"), None);
    assert_eq!(parse_line("title: x"), None);
    assert_eq!(unquote("\"a\""), "a");
    assert_eq!(unquote("\"a"), "\"a");
    assert_eq!(unquote("\""), "\"");
}

#[test]
fn parse_fields_lets_the_later_line_count() {
    let fields = parse_fields("+++\na = \"1\"\nb = \"2\"\na = \"3\"\n+++\n");
    assert_eq!(fields.get("a"), Some("3".to_string()));
    assert_eq!(fields.get("b"), Some("2".to_string()));
    assert_eq!(fields.get("+++"), None);
    assert_eq!(parse_fields("").get("a"), None);
}

fn sorted(mut keys: Vec<String>) -> Vec<String> {
    keys.sort();
    keys
}

#[test]
fn field_map_counts_and_lists_its_keys() {
    let mut fields = FieldMap::new();
    assert_eq!(fields.len(), 0);
    assert!(fields.keys().is_empty());
    fields.insert("a".to_string(), "1".to_string());
    fields.insert("b".to_string(), "2".to_string());
    fields.insert("a".to_string(), "3".to_string());
    fields.insert("c".to_string(), "4".to_string());
    assert_eq!(fields.len(), 3);
    assert_eq!(sorted(fields.keys()), vec!["a".to_string(), "b".to_string(), "c".to_string()]);
    fields.remove("b");
    fields.remove("missing");
    assert_eq!(fields.len(), 2);
    assert_eq!(sorted(fields.keys()), vec!["a".to_string(), "c".to_string()]);
    fields.remove("a");
    fields.remove("c");
    assert_eq!(fields.len(), 0);
    fields.insert("a".to_string(), "5".to_string());
    assert_eq!(fields.keys(), vec!["a".to_string()]);
    assert_eq!(fields.get("a"), Some("5".to_string()));
}

#[test]
fn normalizing_loses_no_field() {
    let mut fields = FieldMap::new();
    fields.insert("title".to_string(), "T".to_string());
    fields.insert("published_at".to_string(), "2024-01-01".to_string());
    fields.insert("emoji".to_string(), "x".to_string());
    fields.insert("type".to_string(), "tech".to_string());
    assert_eq!(fields.len(), 4);
    let model = FrontMatter::new(fields);
    assert_eq!(model.custom_len(), 2);
    assert_eq!(sorted(model.custom_keys()), vec!["emoji".to_string(), "type".to_string()]);
    assert_eq!(model.custom("type"), Some("tech".to_string()));

    let mut fields = FieldMap::new();
    fields.insert("title".to_string(), "T".to_string());
    fields.insert("emoji".to_string(), "x".to_string());
    let model = FrontMatter::new(fields);
    assert_eq!(model.custom_len(), 1);
    assert_eq!(model.custom_keys(), vec!["emoji".to_string()]);
    assert_eq!(FrontMatter::new(FieldMap::new()).custom_len(), 0);
}

#[test]
fn parse_fields_counts_each_key_once() {
    let fields = parse_fields("+++\na = \"1\"\nb = \"2\"\na = \"3\"\n+++\n");
    assert_eq!(fields.len(), 2);
    assert_eq!(sorted(fields.keys()), vec!["a".to_string(), "b".to_string()]);
}
