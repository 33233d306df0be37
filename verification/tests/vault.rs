//! Tests of front-matter stripping.

use memory_stream::admin::vault::strip_frontmatter;

#[test]
fn strips_normal_frontmatter() {
    let input = "---\ntitle: Hello\ncategory: test\n---\n\nBody content";
    assert_eq!(strip_frontmatter(input), "Body content");
}

#[test]
fn no_frontmatter_returns_original() {
    let input = "# Hello\n\nBody content";
    assert_eq!(strip_frontmatter(input), input);
}

#[test]
fn windows_crlf_line_endings() {
    let input = "---\r\ntitle: Hello\r\ncategory: test\r\n---\r\n\r\nBody content";
    assert_eq!(strip_frontmatter(input), "Body content");
}

#[test]
fn no_closing_delimiter_returns_original() {
    let input = "---\ntitle: Hello\nBody that goes on";
    assert_eq!(strip_frontmatter(input), input);
}

#[test]
fn empty_frontmatter() {
    let input = "---\n---\n\nBody content";
    assert_eq!(strip_frontmatter(input), "Body content");
}

#[test]
fn horizontal_rule_in_body_not_confused() {
    let input = "---\ntitle: Test\n---\n\nSome text\n\n---\n\nMore text";
    assert_eq!(strip_frontmatter(input), "Some text\n\n---\n\nMore text");
}

#[test]
fn leading_whitespace_before_frontmatter() {
    let input = "  ---\ntitle: Test\n---\nBody";
    assert_eq!(strip_frontmatter(input), "Body");
}

#[test]
fn frontmatter_with_no_body() {
    let input = "---\ntitle: Test\n---";
    assert_eq!(strip_frontmatter(input), "");
}

#[test]
fn frontmatter_with_trailing_spaces_on_delimiter() {
    let input = "---\ntitle: Test\n---   \n\nBody";
    assert_eq!(strip_frontmatter(input), "Body");
}

#[test]
fn body_with_dash_line() {
    let input = "---\ntitle: Test\n---\n\nLine before\n\n---\n\nLine after";
    assert_eq!(strip_frontmatter(input), "Line before\n\n---\n\nLine after");
}

#[test]
fn frontmatter_with_colons_in_values() {
    let input = "---\ntitle: \"A: B\"\ncategory: \"x:y\"\n---\n\nContent";
    assert_eq!(strip_frontmatter(input), "Content");
}

#[test]
fn content_starting_with_three_dashes_but_not_frontmatter() {
    let input = "---dash\nNot frontmatter";
    assert_eq!(strip_frontmatter(input), input);
}

#[test]
fn frontmatter_value_containing_dashes() {
    let input = "---\ntitle: Some --- Title\n---\n\nBody";
    assert_eq!(strip_frontmatter(input), "Body");
}

#[test]
fn trailing_carriage_return_on_last_delimiter() {
    assert_eq!(strip_frontmatter("---\na: b\n---\r"), "");
}
