//! Tests of the core Markdown parser and wikilink extraction.

use memory_stream::ast_core::AstNode;
use memory_stream::md_parser::{extract_wikilinks, parse_markdown, tree_from_events};
use memory_stream::ms_ast::events::{MdEvent, MdTag};

fn get_first_child(ast: &AstNode) -> &AstNode {
    match ast {
        AstNode::Root { children } => children.first().expect("AST 树为空"),
        _ => panic!("解析出的根节点不是 Root"),
    }
}

#[test]
fn lib_test_parse_heading() {
    let md = "### 这是一个三级标题";
    let ast = parse_markdown(md).unwrap();
    match get_first_child(&ast) {
        AstNode::Heading { level, children } => {
            assert_eq!(*level, 3);
            assert_eq!(children.len(), 1);
            if let AstNode::Text { value } = &children[0] {
                assert_eq!(value, "这是一个三级标题");
            } else {
                panic!("标题子节点不是 Text");
            }
        }
        _ => panic!("未能正确解析出 Heading 节点"),
    }
}

#[test]
fn lib_test_parse_inline_formatting() {
    let md = "正常**加粗***斜体*";
    let ast = parse_markdown(md).unwrap();
    if let AstNode::Paragraph { children } = get_first_child(&ast) {
        assert_eq!(children.len(), 3, "应该被解析为 3 个独立的行内节点");
        assert!(matches!(children[0], AstNode::Text { .. }));
        assert!(matches!(children[1], AstNode::Strong { .. }));
        assert!(matches!(children[2], AstNode::Emphasis { .. }));
    } else {
        panic!("未能正确解析出 Paragraph 节点");
    }
}

#[test]
fn lib_test_parse_code_block() {
    let md = "```rust\nfn main() {}\n```";
    let ast = parse_markdown(md).unwrap();
    if let AstNode::CodeBlock { language, value } = get_first_child(&ast) {
        assert_eq!(language.as_deref(), Some("rust"));
        assert_eq!(value.trim(), "fn main() {}");
    } else {
        panic!("未能正确解析出 CodeBlock 节点");
    }
}

#[test]
fn lib_test_parse_complex_list() {
    let md = "- 核心**引擎**";
    let ast = parse_markdown(md).unwrap();
    if let AstNode::List { ordered, children, .. } = get_first_child(&ast) {
        assert!(!(*ordered));
        assert_eq!(children.len(), 1);
        if let AstNode::ListItem { children: item_children } = &children[0] {
            assert!(!item_children.is_empty());
        } else {
            panic!("List 子节点不是 ListItem");
        }
    } else {
        panic!("未能正确解析出 List 节点");
    }
}

#[test]
fn lib_test_parse_link() {
    let md = "[点击这里](https://example.com)";
    let ast = parse_markdown(md).unwrap();
    if let AstNode::Paragraph { children } = get_first_child(&ast) {
        assert_eq!(children.len(), 1);
        if let AstNode::Link { url, children } = &children[0] {
            assert_eq!(url, "https://example.com");
            assert_eq!(children.len(), 1);
            if let AstNode::Text { value } = &children[0] {
                assert_eq!(value, "点击这里");
            } else {
                panic!("Link 子节点不是 Text");
            }
        } else {
            panic!("未能正确解析出 Link 节点");
        }
    } else {
        panic!("未能正确解析出 Paragraph 节点");
    }
}

#[test]
fn lib_test_parse_image() {
    let md = "![这是一张图片](https://example.com/img.png)";
    let ast = parse_markdown(md).unwrap();
    if let AstNode::Paragraph { children } = get_first_child(&ast) {
        assert_eq!(children.len(), 1);
        if let AstNode::Image { url, alt } = &children[0] {
            assert_eq!(url, "https://example.com/img.png");
            assert_eq!(alt, "这是一张图片");
        } else {
            panic!("未能正确解析出 Image 节点");
        }
    } else {
        panic!("未能正确解析出 Paragraph 节点");
    }
}

#[test]
fn test_extract_basic() {
    let result = extract_wikilinks("text [[Card A]] and [[Card B]] end").unwrap();
    assert_eq!(result, vec!["Card A", "Card B"]);
}

#[test]
fn test_extract_dedup() {
    let result = extract_wikilinks("[[Duplicate]] [[Duplicate]]").unwrap();
    assert_eq!(result, vec!["Duplicate"]);
}

#[test]
fn test_extract_spaces() {
    let result = extract_wikilinks("[[Card With Spaces]]").unwrap();
    assert_eq!(result, vec!["Card With Spaces"]);
}

#[test]
fn test_extract_unicode() {
    let result = extract_wikilinks("[[Émoji 🎉]]").unwrap();
    assert_eq!(result, vec!["Émoji 🎉"]);
}

#[test]
fn test_extract_empty() {
    assert!(extract_wikilinks("").unwrap().is_empty());
}

#[test]
fn test_extract_nested_brackets() {
    let result = extract_wikilinks("[[Outer [[Inner]]]]").unwrap();
    assert_eq!(result, vec!["Outer [[Inner"]);
}

#[test]
fn test_extract_none() {
    assert!(extract_wikilinks("No wikilinks here").unwrap().is_empty());
}

#[test]
fn test_extract_self_reference() {
    let result = extract_wikilinks("[[Same Card]]").unwrap();
    assert_eq!(result, vec!["Same Card"]);
}

#[test]
fn test_extract_parentheses_in_name() {
    let result = extract_wikilinks("[[矩阵(Matrix)特征值]]").unwrap();
    assert_eq!(result, vec!["矩阵(Matrix)特征值"]);
}

#[test]
fn test_extract_brackets_in_name() {
    let result = extract_wikilinks("[[some]thing]]").unwrap();
    assert_eq!(result, vec!["some]thing"]);
}

// ── further cases ──

#[test]
fn inline_code_becomes_backticked_text() {
    let ast = parse_markdown("a `b`").unwrap();
    if let AstNode::Paragraph { children } = get_first_child(&ast) {
        assert_eq!(children.len(), 2);
        assert!(matches!(&children[1], AstNode::Text { value } if value.as_str() == "`b`"));
    } else {
        panic!("expected a paragraph");
    }
}

#[test]
fn table_alignments_are_kept() {
    let ast = parse_markdown("| a | b |\n|:--|--:|\n| 1 | 2 |").unwrap();
    if let AstNode::Table { alignments, children } = get_first_child(&ast) {
        assert_eq!(alignments.len(), 2);
        assert_eq!(children.len(), 2);
    } else {
        panic!("expected a table");
    }
}

#[test]
fn event_streams_fold_into_trees() {
    let evs = vec![
        (MdEvent::Start(MdTag::Paragraph), 0, 5),
        (MdEvent::Text("hello".to_string()), 0, 5),
        (MdEvent::End { code_block: false }, 0, 5),
    ];
    let tree = tree_from_events(&evs).unwrap();
    match tree {
        AstNode::Root { children } => assert_eq!(children.len(), 1),
        _ => panic!("expected a root"),
    }
    let open = vec![(MdEvent::Start(MdTag::Paragraph), 0, 1)];
    assert!(tree_from_events(&open).is_err());
    assert!(tree_from_events(&Vec::new()).is_ok());
}
