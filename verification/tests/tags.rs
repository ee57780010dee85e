use soundcloud_archiver::tags::parse_tags;

fn strings(list: &[&str]) -> Vec<String> {
    list.iter().map(|s| s.to_string()).collect()
}

#[test]
fn tags_are_split_at_spaces() {
    assert_eq!(parse_tags("one two"), strings(&["one", "two"]));
}

#[test]
fn quoted_tag_keeps_its_spaces() {
    assert_eq!(parse_tags("\"a b\" c"), strings(&["a b", "c"]));
}

#[test]
fn escaped_quote_is_literal() {
    assert_eq!(parse_tags("a\\\"b"), strings(&["a\"b"]));
}

#[test]
fn empty_tag_list_has_no_tags() {
    assert!(parse_tags("").is_empty());
}

#[test]
fn repeated_spaces_make_no_empty_tags() {
    assert_eq!(parse_tags("  a   b  "), strings(&["a", "b"]));
    assert!(parse_tags("   ").is_empty());
}

#[test]
fn other_escaped_character_keeps_the_backslash() {
    assert_eq!(parse_tags("a\\nb"), strings(&["a\\nb"]));
    assert_eq!(parse_tags("a\\ b"), strings(&["a\\ b"]));
    assert_eq!(parse_tags("a\\\\b"), strings(&["a\\\\b"]));
}

#[test]
fn escaped_quote_inside_quotes() {
    assert_eq!(parse_tags("\"a \\\" b\" c"), strings(&["a \" b", "c"]));
}

#[test]
fn trailing_backslash_is_dropped() {
    assert_eq!(parse_tags("ab\\"), strings(&["ab"]));
}

#[test]
fn unclosed_quote_runs_to_the_end() {
    assert_eq!(parse_tags("x \"a b"), strings(&["x", "a b"]));
}

#[test]
fn quotes_join_adjacent_parts() {
    assert_eq!(parse_tags("ab\"c d\"e f"), strings(&["abc de", "f"]));
    assert!(parse_tags("\"\"").is_empty());
}

#[test]
fn tags_of_other_scripts() {
    assert_eq!(parse_tags("héllo wörld"), strings(&["héllo", "wörld"]));
}
