use slipbox_core::events::locate_metadata;
use slipbox_core::events::StructuralEvent;
use slipbox_core::paths::extension;
use slipbox_core::paths::file_name;
use slipbox_core::paths::file_stem;
use slipbox_core::paths::path_is_md;
use slipbox_core::text::split_lines;
use slipbox_core::text::split_ws;
use slipbox_core::text::strip_edges;
use slipbox_core::text::trim;
use slipbox_core::Error;
use slipbox_core::State;

#[test]
fn tokenize_bracketed_quoted_list() {
    let tags = State::_parse_tag_text("tags: [rust, \"systems\", design,]").unwrap();
    assert_eq!(
        tags,
        vec![String::from("rust"), String::from("systems"), String::from("design")]
    );
}

#[test]
fn tokenize_merges_declaration_lines() {
    let tags = State::_parse_tag_text("tags: a b\ntags: c").unwrap();
    assert_eq!(tags, vec![String::from("a"), String::from("b"), String::from("c")]);
}

#[test]
fn tokenize_empty_brackets_keeps_empty_tag() {
    let tags = State::_parse_tag_text("tags: []").unwrap();
    assert_eq!(tags, vec![String::new()]);
}

#[test]
fn comma_inside_token_is_kept() {
    let tags = State::_parse_tag_text("tags: a,b").unwrap();
    assert_eq!(tags, vec![String::from("a,b")]);
}

#[test]
fn bare_tag_line_without_tokens_is_rejected() {
    match State::_parse_tag_text("tags:") {
        Err(Error::MetaDataError(m)) => assert_eq!(m, "Must specify at least one tag."),
        _ => panic!("expected a metadata failure"),
    }
    match State::_parse_tag_text("tags:   \ntags:\t") {
        Err(Error::MetaDataError(_)) => {}
        _ => panic!("expected a metadata failure"),
    }
}

#[test]
fn unicode_whitespace_splits_tags() {
    let tags = State::_parse_tag_text("tags: a\u{2003}b").unwrap();
    assert_eq!(tags, vec![String::from("a"), String::from("b")]);
}

#[test]
fn unicode_whitespace_is_trimmed_around_marker() {
    let tags = State::_parse_tag_text("\u{00A0}tags: x").unwrap();
    assert_eq!(tags, vec![String::from("x")]);
}

#[test]
fn missing_tag_line_is_rejected() {
    match State::_parse_tag_text("title: x\n") {
        Err(Error::MetaDataError(m)) => assert_eq!(m, "Must specify at least one tag."),
        _ => panic!("expected a metadata failure"),
    }
}

#[test]
fn tag_marker_is_case_sensitive() {
    assert!(matches!(State::_parse_tag_text("Tags: a"), Err(Error::MetaDataError(_))));
}

#[test]
fn parse_tags_without_metadata_block_fails() {
    match State::_parse_tags("# Heading\nNo metadata.\n") {
        Err(Error::MetaDataError(m)) => {
            assert_eq!(m, "Incorrectly formatted metadata tags or missing entirely.")
        }
        _ => panic!("expected a metadata failure"),
    }
}

#[test]
fn parse_tags_reads_yaml_style_block() {
    let tags = State::_parse_tags("---\ntags: one two\ntags: three\n---\n# Body\n").unwrap();
    assert_eq!(tags, vec![String::from("one"), String::from("two"), String::from("three")]);
}

#[test]
fn parse_tags_reads_pluses_style_block() {
    let tags = State::_parse_tags("+++\ntags: alpha\n+++\n").unwrap();
    assert_eq!(tags, vec![String::from("alpha")]);
}

#[test]
fn locator_skips_block_start_events() {
    let events = vec![
        StructuralEvent::MetadataStart,
        StructuralEvent::Text(String::from("tags: x\n")),
        StructuralEvent::Other,
    ];
    assert_eq!(locate_metadata(&events), Some(String::from("tags: x\n")));
}

#[test]
fn locator_rejects_other_leading_events() {
    assert_eq!(locate_metadata(&vec![StructuralEvent::Other]), None);
    assert_eq!(locate_metadata(&vec![]), None);
    assert_eq!(locate_metadata(&vec![StructuralEvent::MetadataStart]), None);
}

#[test]
fn path_components_are_derived() {
    assert_eq!(file_name("./tests/vault"), Some(String::from("vault")));
    assert_eq!(file_name("/"), None);
    assert_eq!(file_name(""), None);
    assert_eq!(file_name("foo/."), Some(String::from("foo")));
    assert_eq!(file_name("foo/./"), Some(String::from("foo")));
    assert_eq!(file_name("."), None);
    assert_eq!(file_name("foo/.."), None);
    assert_eq!(file_stem("notes/TestNote01.md"), Some(String::from("TestNote01")));
    assert_eq!(extension("notes/TestNote01.md"), Some(String::from("md")));
    assert_eq!(extension("notes/README"), None);
}

#[test]
fn md_extension_is_case_sensitive() {
    assert!(path_is_md("a/b.md"));
    assert!(!path_is_md("a/b.MD"));
    assert!(!path_is_md("a/b.txt"));
    assert!(!path_is_md("a/md"));
}

#[test]
fn text_primitives_behave() {
    assert_eq!(trim("  a b\t"), "a b");
    assert_eq!(strip_edges("\",]x[\""), "x");
    assert_eq!(split_lines("a\nb\n"), vec![String::from("a"), String::from("b"), String::new()]);
    assert_eq!(split_ws("  a  bb "), vec![String::from("a"), String::from("bb")]);
}
