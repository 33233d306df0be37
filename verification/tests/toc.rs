//! Tests of table-of-contents extraction.

use memory_stream::ms_ast::node::AstNode;
use memory_stream::ms_ast::toc::{extract_toc, extract_toc_flat, TocNode};
use memory_stream::ms_ast::visitor::generate_slug;

    fn heading(level: u8, text: &str) -> AstNode {
    AstNode::Heading {
        level,
        status: None,
        children: vec![AstNode::Text {
            value: text.to_string(),
        }],
    }
}

fn root(children: Vec<AstNode>) -> AstNode {
    AstNode::Root { children }
}

#[test]
fn test_single_heading() {
    let ast = root(vec![heading(1, "Hello")]);
    let toc = extract_toc(&ast);
    assert_eq!(toc.len(), 1);
    assert_eq!(toc[0].level, 1);
    assert_eq!(toc[0].text, "Hello");
    assert_eq!(toc[0].slug, "hello");
}

#[test]
fn test_nested_headings() {
    let ast = root(vec![
        heading(1, "A"),
        heading(2, "A.1"),
        heading(2, "A.2"),
        heading(3, "A.2.1"),
        heading(1, "B"),
    ]);
    let toc = extract_toc(&ast);
    assert_eq!(toc.len(), 2);
    assert_eq!(toc[0].text, "A");
    assert_eq!(toc[0].children.len(), 2);
    assert_eq!(toc[0].children[0].text, "A.1");
    assert_eq!(toc[0].children[1].text, "A.2");
    assert_eq!(toc[0].children[1].children.len(), 1);
    assert_eq!(toc[0].children[1].children[0].text, "A.2.1");
    assert_eq!(toc[1].text, "B");
}

#[test]
fn test_no_headings() {
    let ast = root(vec![AstNode::Paragraph {
        children: vec![AstNode::Text {
            value: "just text".to_string(),
        }],
    }]);
    let toc = extract_toc(&ast);
    assert!(toc.is_empty());
}

#[test]
fn test_empty_root() {
    let ast = root(vec![]);
    let toc = extract_toc(&ast);
    assert!(toc.is_empty());
}

#[test]
fn test_flat_extraction() {
    let ast = root(vec![
        heading(1, "One"),
        heading(2, "Two"),
        heading(3, "Three"),
    ]);
    let flat = extract_toc_flat(&ast);
    assert_eq!(flat.len(), 3);
    assert_eq!(flat[0].level, 1);
    assert_eq!(flat[1].level, 2);
    assert_eq!(flat[2].level, 3);
}

#[test]
fn toc_test_slug_english() {
    assert_eq!(generate_slug("Hello World"), "hello-world");
}

#[test]
fn toc_test_slug_chinese() {
    assert_eq!(generate_slug("核心技术"), "核心技术");
}

#[test]
fn toc_test_slug_mixed() {
    assert_eq!(generate_slug("Rust 学习笔记"), "rust-学习笔记");
}

#[test]
fn toc_test_slug_special_chars() {
    assert_eq!(generate_slug("Hello! @World# 2024"), "hello-world-2024");
}

#[test]
fn toc_test_slug_empty() {
    assert_eq!(generate_slug("!!!"), "heading");
}

#[test]
fn test_heading_with_formatted_children() {
    let ast = root(vec![AstNode::Heading {
        level: 2,
        status: None,
        children: vec![
            AstNode::Text {
                value: "Hello ".to_string(),
            },
            AstNode::Strong {
                children: vec![AstNode::Text {
                    value: "World".to_string(),
                }],
            },
        ],
    }]);
    let toc = extract_toc(&ast);
    assert_eq!(toc[0].text, "Hello World");
}

#[test]
fn test_flat_heading_inside_blockquote() {
    let ast = root(vec![
        heading(1, "Outside"),
        AstNode::Blockquote {
            children: vec![heading(3, "Inside Quote")],
        },
    ]);
    let toc = extract_toc(&ast);
    assert_eq!(toc.len(), 1);
    assert_eq!(toc[0].text, "Outside");
}

