//! One-parse extraction of cards: table of contents, links, excerpt and
//! front matter.

use memory_stream::ms_ast::document::{parse_document, parse_document_with, DEFAULT_EXCERPT_LIMIT};
use memory_stream::ms_ast::events::ParseOptions;

fn tree_text(doc: &memory_stream::ms_ast::document::ParsedDocument) -> String {
    format!("{:?}", doc.ast)
}

#[test]
fn test_parse_document_basic() {
    let md = "# Rust 学习\n\n这是一篇关于 **Rust** 的笔记。\n\n## 所有权\n\nRust 的所有权机制是核心特性。";
    let doc = parse_document(md).unwrap();

    assert_eq!(doc.toc.len(), 1);
    assert_eq!(doc.toc[0].text, "Rust 学习");
    assert_eq!(doc.toc[0].children.len(), 1);
    assert_eq!(doc.toc[0].children[0].text, "所有权");

    assert!(doc.excerpt.contains("这是一篇关于"));
    assert!(doc.excerpt.contains("Rust"));

    assert!(doc.outgoing_links.is_empty());

    assert!(!tree_text(&doc).is_empty());
}

#[test]
fn test_parse_document_wikilinks() {
    let md = "参见 [[Rust 入门]] 和 [[Go 并发]]，也看 [[Rust 入门]]（重复）。";
    let doc = parse_document(md).unwrap();
    assert_eq!(doc.outgoing_links, vec!["Rust 入门", "Go 并发"]);
}

#[test]
fn test_parse_document_wikilink_not_in_code() {
    let md = "```js\nconst s = \"[[FakeLink]]\";\n```\n\n真实链接是 [[RealLink]]。\n";
    let doc = parse_document(md).unwrap();
    assert_eq!(doc.outgoing_links, vec!["RealLink"]);
    assert!(!doc.excerpt.contains("FakeLink"));
}

#[test]
fn test_parse_document_excerpt_limit() {
    let md = "这是一段很长的文本，用于测试摘要截断功能是否正常工作。";
    let doc = parse_document_with(md, &ParseOptions::default(), 10).unwrap();
    assert!(doc.excerpt.chars().count() <= 10);
    assert!(doc.excerpt.starts_with("这是一段很长的文"));
}

#[test]
fn test_parse_document_excerpt_skips_headings() {
    let md = "# 大标题\n\n正文内容。\n";
    let doc = parse_document(md).unwrap();
    assert!(!doc.excerpt.contains("大标题"));
    assert!(doc.excerpt.contains("正文内容"));
}

#[test]
fn test_parse_document_empty() {
    let doc = parse_document("").unwrap();
    assert!(doc.toc.is_empty());
    assert!(doc.outgoing_links.is_empty());
    assert!(doc.excerpt.is_empty());
}

#[test]
fn test_frontmatter_stripped_from_ast() {
    let md = "---\nuuid: abc-123\ntitle: 测试卡片\ncategory: 默认\n---\n\n## 正文标题\n\n这是正文内容。";
    let doc = parse_document(md).unwrap();

    assert!(!tree_text(&doc).contains("uuid"));
    assert!(!tree_text(&doc).contains("abc-123"));
    assert!(!tree_text(&doc).contains("category"));

    assert_eq!(doc.toc.len(), 1);
    assert_eq!(doc.toc[0].text, "正文标题");

    assert!(!doc.excerpt.contains("uuid"));
    assert!(doc.excerpt.contains("正文内容"));
}

#[test]
fn test_frontmatter_raw_captured() {
    let md = "---\nuuid: abc-123\ntitle: 测试\n---\n\n正文";
    let doc = parse_document(md).unwrap();
    assert!(doc.frontmatter.contains("uuid: abc-123"));
    assert!(doc.frontmatter.contains("title: 测试"));
    assert!(!doc.frontmatter.contains("---"));
}

#[test]
fn test_no_frontmatter() {
    let md = "# 没有前置信息\n\n纯正文。";
    let doc = parse_document(md).unwrap();
    assert!(doc.frontmatter.is_empty());
    assert_eq!(doc.toc.len(), 1);
    assert_eq!(doc.toc[0].text, "没有前置信息");
}

#[test]
fn test_malformed_frontmatter_fallback() {
    let md = "---\nuuid: abc\n## 标题\n正文";
    let doc = parse_document(md).unwrap();
    assert!(doc.frontmatter.is_empty());
    assert!(!tree_text(&doc).is_empty());
}

#[test]
fn test_frontmatter_crlf() {
    let md = "---\r\nuuid: abc\r\ntitle: CRLF\r\n---\r\n\r\n## 正文\r\n\r\n内容。";
    let doc = parse_document(md).unwrap();
    assert!(doc.frontmatter.contains("uuid: abc"));
    assert!(doc.frontmatter.contains("title: CRLF"));
    assert!(!tree_text(&doc).contains("uuid"));
    assert_eq!(doc.toc.len(), 1);
    assert_eq!(doc.toc[0].text, "正文");
}

#[test]
fn front_matter_is_exactly_the_text_between_the_dash_lines() {
    let doc = parse_document("---\na: 1\nb: 2\n---\nbody").unwrap();
    assert_eq!(doc.frontmatter, "a: 1\nb: 2");
    assert_eq!(doc.excerpt, "body");
}

#[test]
fn links_are_listed_once_in_order_of_first_use() {
    let doc = parse_document("[[b]] [[a]] [[b]] [[c]] [[a]]").unwrap();
    assert_eq!(doc.outgoing_links, vec!["b", "a", "c"]);
}

#[test]
fn excerpt_is_cut_at_the_limit_in_characters() {
    let doc = parse_document_with("abcdef", &ParseOptions::default(), 4).unwrap();
    assert_eq!(doc.excerpt, "abcd");
    let doc = parse_document_with("abc", &ParseOptions::default(), 0).unwrap();
    assert_eq!(doc.excerpt, "");
    assert_eq!(DEFAULT_EXCERPT_LIMIT, 200);
}

#[test]
fn headings_anywhere_are_collected() {
    let doc = parse_document("> # Quoted\n\n- item\n\n## Second").unwrap();
    assert_eq!(doc.toc.len(), 1);
    assert_eq!(doc.toc[0].text, "Quoted");
    assert_eq!(doc.toc[0].children[0].text, "Second");
}
