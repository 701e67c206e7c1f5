use rclone_mounts_core::error::Error;
use rclone_mounts_core::rclone_config::Document;

const SAMPLE: &str = "\
; top of file comment
[work]
type = smb
host = files.example.com
user = alice

# personal stuff
[home]
type = webdav
url = https://dav.example.org

[empty]
";

#[test]
fn round_trip_preserves_bytes() {
    let doc = Document::parse(SAMPLE).unwrap();
    assert_eq!(doc.render(), SAMPLE);
}

#[test]
fn sections_listed_in_order() {
    let doc = Document::parse(SAMPLE).unwrap();
    assert_eq!(doc.sections(), vec!["work", "home", "empty"]);
}

#[test]
fn get_existing_key() {
    let doc = Document::parse(SAMPLE).unwrap();
    assert_eq!(doc.get("work", "host"), Some("files.example.com"));
    assert_eq!(doc.get("home", "type"), Some("webdav"));
}

#[test]
fn section_entries_returns_all_keys_in_order() {
    let doc = Document::parse(SAMPLE).unwrap();
    assert_eq!(
        doc.section_entries("work"),
        vec![("type", "smb"), ("host", "files.example.com"), ("user", "alice")]
    );
    assert!(doc.section_entries("empty").is_empty());
    assert!(doc.section_entries("nope").is_empty());
}

#[test]
fn get_missing_returns_none() {
    let doc = Document::parse(SAMPLE).unwrap();
    assert_eq!(doc.get("work", "nonexistent"), None);
    assert_eq!(doc.get("nosuchsection", "anything"), None);
}

#[test]
fn set_updates_existing_key_in_place() {
    let mut doc = Document::parse(SAMPLE).unwrap();
    doc.set("work", "host", "new.example.com").unwrap();
    assert_eq!(doc.get("work", "host"), Some("new.example.com"));
    assert!(doc.render().contains("; top of file comment"));
    assert_eq!(doc.get("home", "url"), Some("https://dav.example.org"));
}

#[test]
fn set_inserts_new_key_into_existing_section() {
    let mut doc = Document::parse(SAMPLE).unwrap();
    doc.set("work", "domain", "EXAMPLE").unwrap();
    let out = doc.render();
    let work_idx = out.find("[work]").unwrap();
    let home_idx = out.find("[home]").unwrap();
    let domain_idx = out.find("domain = EXAMPLE").unwrap();
    assert!(work_idx < domain_idx && domain_idx < home_idx);
}

#[test]
fn set_creates_new_section_at_end() {
    let mut doc = Document::parse(SAMPLE).unwrap();
    doc.set("backup", "type", "drive").unwrap();
    let out = doc.render();
    assert!(out.ends_with("[backup]\ntype = drive\n"));
}

#[test]
fn remove_section_drops_keys_but_leaves_neighbors() {
    let mut doc = Document::parse(SAMPLE).unwrap();
    doc.remove_section("work");
    let out = doc.render();
    assert!(!out.contains("[work]"));
    assert!(!out.contains("files.example.com"));
    assert!(out.contains("[home]"));
    assert!(out.contains("[empty]"));
}

#[test]
fn parse_handles_no_trailing_newline() {
    let input = "[only]\nkey = value";
    let doc = Document::parse(input).unwrap();
    assert_eq!(doc.get("only", "key"), Some("value"));
}

#[test]
fn parse_handles_spaces_around_equals() {
    let doc = Document::parse("[s]\nk1=v1\nk2 =v2\nk3= v3\nk4 = v4\n").unwrap();
    assert_eq!(doc.get("s", "k1"), Some("v1"));
    assert_eq!(doc.get("s", "k2"), Some("v2"));
    assert_eq!(doc.get("s", "k3"), Some("v3"));
    assert_eq!(doc.get("s", "k4"), Some("v4"));
}

#[test]
fn parse_handles_both_comment_styles() {
    let input = "; semicolon\n# hash\n[s]\nk = v\n";
    let doc = Document::parse(input).unwrap();
    assert_eq!(doc.render(), input);
}

#[test]
fn get_after_set_reads_the_new_value() {
    let mut doc = Document::parse(SAMPLE).unwrap();
    doc.set("home", "user", "bob").unwrap();
    assert_eq!(doc.get("home", "user"), Some("bob"));
    doc.set("fresh", "k", "v").unwrap();
    assert_eq!(doc.get("fresh", "k"), Some("v"));
}

#[test]
fn set_leaves_other_keys_alone() {
    let mut doc = Document::parse(SAMPLE).unwrap();
    doc.set("work", "host", "changed.example.com").unwrap();
    doc.set("work", "domain", "EXAMPLE").unwrap();
    doc.set("backup", "type", "drive").unwrap();
    assert_eq!(doc.get("work", "type"), Some("smb"));
    assert_eq!(doc.get("work", "user"), Some("alice"));
    assert_eq!(doc.get("home", "type"), Some("webdav"));
    assert_eq!(doc.get("home", "url"), Some("https://dav.example.org"));
    assert_eq!(doc.get("empty", "type"), None);
}

#[test]
fn remove_section_keeps_other_values() {
    let mut doc = Document::parse(SAMPLE).unwrap();
    doc.remove_section("home");
    assert_eq!(doc.get("home", "url"), None);
    assert_eq!(doc.get("work", "host"), Some("files.example.com"));
    assert_eq!(doc.sections(), vec!["work", "empty"]);
}

#[test]
fn remove_section_collapses_trailing_blanks() {
    let mut doc = Document::parse("[a]\nk = v\n\n[b]\nx = y\n\n").unwrap();
    doc.remove_section("b");
    assert_eq!(doc.render(), "[a]\nk = v\n\n");
}

#[test]
fn remove_unknown_section_changes_nothing() {
    let mut doc = Document::parse(SAMPLE).unwrap();
    doc.remove_section("nope");
    assert_eq!(doc.render(), SAMPLE);
}

#[test]
fn new_section_is_separated_by_a_blank_line() {
    let mut doc = Document::parse("[a]\nk = v\n").unwrap();
    doc.set("b", "x", "y").unwrap();
    assert_eq!(doc.render(), "[a]\nk = v\n\n[b]\nx = y\n");
    let mut empty = Document::default();
    empty.set("b", "x", "y").unwrap();
    assert_eq!(empty.render(), "[b]\nx = y\n");
}

#[test]
fn new_key_goes_before_trailing_blank_lines() {
    let mut doc = Document::parse("[a]\nk = v\n\n[b]\n").unwrap();
    doc.set("a", "n", "m").unwrap();
    assert_eq!(doc.render(), "[a]\nk = v\nn = m\n\n[b]\n");
}

#[test]
fn values_are_trimmed_and_keys_kept_verbatim() {
    let doc = Document::parse("[s]\n  key   =   spaced value  \r\n").unwrap();
    assert_eq!(doc.get("s", "key"), Some("spaced value"));
    assert_eq!(doc.render(), "[s]\n  key   =   spaced value  \r\n");
}

#[test]
fn section_names_are_trimmed() {
    let doc = Document::parse("[ spaced ]\nk = v\n").unwrap();
    assert_eq!(doc.sections(), vec!["spaced"]);
}

#[test]
fn first_duplicate_section_wins() {
    let doc = Document::parse("[a]\nk = 1\n[a]\nk = 2\n").unwrap();
    assert_eq!(doc.get("a", "k"), Some("1"));
}

#[test]
fn unparseable_line_is_a_config_parse_error() {
    let input = "[s]\nthis line has no equals sign\n";
    assert!(!Document::parse_message_splits_char(input));
    let err = Document::parse(input).unwrap_err();
    match err {
        Error::ConfigParse(m) => {
            assert!(m.starts_with("near \"this line has no equals sign\\n\""));
        }
        other => panic!("expected ConfigParse, got {other:?}"),
    }
}

#[test]
fn parse_error_quotes_at_most_forty_bytes() {
    let input = "[s]\n0123456789012345678901234567890123456789XYZ\n";
    let err = Document::parse(input).unwrap_err();
    match err {
        Error::ConfigParse(m) => {
            assert!(m.starts_with("near \"0123456789012345678901234567890123456789\""));
        }
        other => panic!("expected ConfigParse, got {other:?}"),
    }
}

#[test]
fn parse_message_that_would_split_a_character_is_detected() {
    let input = format!("{}é more", "a".repeat(39));
    assert!(Document::parse_message_splits_char(&input));
    assert!(!Document::parse_message_splits_char(SAMPLE));
}

#[test]
fn unclosed_section_header_is_rejected() {
    assert!(Document::parse("[broken\nk = v\n").is_err());
    assert!(Document::parse("= no key\n").is_err());
}

#[test]
fn blank_lines_with_spaces_keep_their_text() {
    let doc = Document::parse("[a]\n   \nk = v\n \n").unwrap();
    assert_eq!(doc.render(), "[a]\n   \nk = v\n \n");
    let one = Document::parse(" \n").unwrap();
    assert_eq!(one.render(), " \n");
}

#[test]
fn control_characters_are_refused_by_set() {
    let mut d = Document::default();
    let err = d.set("a", "k", "v\n[evil]").unwrap_err();
    assert!(matches!(err, Error::ConfigParse(_)));
    assert_eq!(d.render(), "");
    assert!(d.set("a\tb", "k", "v").is_err());
    assert!(d.set("a", "k\u{7f}", "v").is_err());
    assert!(d.set("a", "k", "tab\there").is_err());
    assert_eq!(d.render(), "");
    assert!(d.set("a", "k", "fine value").is_ok());
    assert_eq!(d.render(), "[a]\nk = fine value\n");
}

#[test]
fn set_after_an_unterminated_last_line_keeps_lines_apart() {
    let mut d = Document::parse("[only]\nkey = value").unwrap();
    d.set("only", "k2", "v2").unwrap();
    let r = Document::parse(&d.render()).unwrap();
    assert_eq!(r.get("only", "key"), Some("value"));
    assert_eq!(r.get("only", "k2"), Some("v2"));

    let mut e = Document::parse("[a]\nx = 1").unwrap();
    e.set("b", "y", "2").unwrap();
    let r = Document::parse(&e.render()).unwrap();
    assert_eq!(r.get("a", "x"), Some("1"));
    assert_eq!(r.get("b", "y"), Some("2"));
}

#[test]
fn parse_error_snippet_is_escaped() {
    let err = Document::parse("[s]\nbad \"quote\"\ttab\n").unwrap_err();
    match err {
        Error::ConfigParse(m) => {
            assert!(m.starts_with("near \"bad \\\"quote\\\"\\ttab\\n\""), "{m}");
        }
        other => panic!("expected ConfigParse, got {other:?}"),
    }
    let err = Document::parse("[s]\n\u{1}x\n").unwrap_err();
    match err {
        Error::ConfigParse(m) => assert!(m.starts_with("near \"\\u{1}x\\n\""), "{m}"),
        other => panic!("expected ConfigParse, got {other:?}"),
    }
}

#[test]
fn set_and_remove_keep_the_section_list_in_order() {
    let mut d = Document::parse("# top\n[a]\nk = 1\n\n# about b\n[b]\nx = 2\n[c]\ny = 3\n").unwrap();
    d.set("b", "z", "9").unwrap();
    assert_eq!(d.sections(), vec!["a", "b", "c"]);
    assert_eq!(d.section_entries("a"), vec![("k", "1")]);
    assert_eq!(d.section_entries("c"), vec![("y", "3")]);
    d.set("new", "n", "v").unwrap();
    assert_eq!(d.sections(), vec!["a", "b", "c", "new"]);
    assert_eq!(d.section_entries("c"), vec![("y", "3")]);
    d.remove_section("b");
    assert_eq!(d.sections(), vec!["a", "c", "new"]);
    assert!(d.render().starts_with("# top\n[a]\nk = 1\n\n# about b\n[c]\n"));
}
