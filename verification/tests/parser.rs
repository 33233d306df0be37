//! Tests of the Markdown parser.

use memory_stream::ms_ast::error::MSError;
use memory_stream::ms_ast::node::{AdmonitionKind, AstNode, TaskStatus};
use memory_stream::ms_ast::parser::{extract_links, parse_markdown, parse_markdown_with, ParseOptions};
use memory_stream::ms_ast::toc::extract_toc;

fn get_first_child(ast: &AstNode) -> &AstNode {
    match ast {
        AstNode::Root { children } => children.first().expect("AST 树为空"),
        _ => panic!("解析出的根节点不是 Root"),
    }
}

#[test]
fn parser_test_parse_heading() {
    let md = "### 这是一个三级标题";
    let ast = parse_markdown(md).unwrap();
    let first_node = get_first_child(&ast);

    match first_node {
        AstNode::Heading { level, children, .. } => {
            assert_eq!(*level, 3);
            assert_eq!(children.len(), 1);
            if let AstNode::Text { value } = &children[0] {
                assert_eq!(value, "这是一个三级标题");
            } else {
                panic!("标题子节点不是 Text");
            }
        }
        _ => panic!("未能正确解析出 Heading 节点"),
    }
}

#[test]
fn parser_test_parse_inline_formatting() {
    let md = "正常**加粗***斜体*";
    let ast = parse_markdown(md).unwrap();
    let first_node = get_first_child(&ast);

    if let AstNode::Paragraph { children } = first_node {
        assert_eq!(children.len(), 3, "应该被解析为 3 个独立的行内节点");
        assert!(matches!(children[0], AstNode::Text { .. }));
        assert!(matches!(children[1], AstNode::Strong { .. }));
        assert!(matches!(children[2], AstNode::Emphasis { .. }));
    } else {
        panic!("未能正确解析出 Paragraph 节点");
    }
}

#[test]
fn parser_test_parse_code_block() {
    let md = "```rust\nfn main() {}\n```";
    let ast = parse_markdown(md).unwrap();
    let first_node = get_first_child(&ast);

    if let AstNode::CodeBlock { language, value } = first_node {
        assert_eq!(language.as_deref(), Some("rust"));
        assert_eq!(value.trim(), "fn main() {}");
    } else {
        panic!("未能正确解析出 CodeBlock 节点");
    }
}

#[test]
fn parser_test_parse_complex_list() {
    let md = "- 核心**引擎**";
    let ast = parse_markdown(md).unwrap();
    let first_node = get_first_child(&ast);

    if let AstNode::List { ordered, children, .. } = first_node {
        assert!(!(*ordered));
        assert_eq!(children.len(), 1);
        if let AstNode::ListItem { children: item_children } = &children[0] {
            assert!(!item_children.is_empty());
        } else {
            panic!("List 子节点不是 ListItem");
        }
    } else {
        panic!("未能正确解析出 List 节点");
    }
}

#[test]
fn parser_test_parse_link() {
    let md = "[点击这里](https://example.com)";
    let ast = parse_markdown(md).unwrap();
    let first_node = get_first_child(&ast);

    if let AstNode::Paragraph { children } = first_node {
        assert_eq!(children.len(), 1);
        if let AstNode::Link { url, children } = &children[0] {
            assert_eq!(url, "https://example.com");
            assert_eq!(children.len(), 1);
            if let AstNode::Text { value } = &children[0] {
                assert_eq!(value, "点击这里");
            } else {
                panic!("Link 子节点不是 Text");
            }
        } else {
            panic!("未能正确解析出 Link 节点");
        }
    } else {
        panic!("未能正确解析出 Paragraph 节点");
    }
}

#[test]
fn parser_test_parse_image() {
    let md = "![这是一张图片](https://example.com/img.png)";
    let ast = parse_markdown(md).unwrap();
    let first_node = get_first_child(&ast);

    if let AstNode::Paragraph { children } = first_node {
        assert_eq!(children.len(), 1);
        if let AstNode::Image { url, alt } = &children[0] {
            assert_eq!(url, "https://example.com/img.png");
            assert_eq!(alt, "这是一张图片");
        } else {
            panic!("未能正确解析出 Image 节点");
        }
    } else {
        panic!("未能正确解析出 Paragraph 节点");
    }
}

#[test]
fn test_parse_options_default_all_enabled() {
    let opts = ParseOptions::default();
    assert!(opts.gfm_tables);
    assert!(opts.tasklists);
    assert!(opts.strikethrough);
    assert!(opts.smart_punctuation);
    assert!(opts.math);
    assert!(opts.footnotes);
    assert!(opts.definition_list);
}

#[test]
fn test_parse_with_minimal_options() {
    let opts = ParseOptions {
        gfm_tables: false,
        tasklists: false,
        strikethrough: false,
        smart_punctuation: false,
        math: false,
        footnotes: false,
        definition_list: false,
    };
    let md = "# Hello\n\nParagraph text";
    let ast = parse_markdown_with(md, &opts).unwrap();
    match ast {
        AstNode::Root { children } => {
            assert_eq!(children.len(), 2);
        }
        _ => panic!("根节点不是 Root"),
    }
}

#[test]
fn test_parse_with_default_matches_parse_markdown() {
    let md = "## 标题\n\n- 列表项\n\n```\ncode\n```";
    let ast_default = parse_markdown(md).unwrap();
    let ast_explicit = parse_markdown_with(md, &ParseOptions::default()).unwrap();
    assert_eq!(ast_default, ast_explicit);
}

#[test]
fn test_parse_link_as_structured_node() {
    let md = "Hello [[World]]!";
    let ast = parse_markdown(md).unwrap();
    let first_node = get_first_child(&ast);

    if let AstNode::Paragraph { children } = first_node {
        assert_eq!(children.len(), 3);
        assert!(matches!(&children[0], AstNode::Text { value } if value.as_str() == "Hello "));
        assert!(matches!(
            &children[1],
            AstNode::Wikilink { target, alias } if target.as_str() == "World" && alias.is_none()
        ));
        assert!(matches!(&children[2], AstNode::Text { value } if value.as_str() == "!"));
    } else {
        panic!("未能正确解析出 Paragraph 节点");
    }
}

#[test]
fn test_parse_link_not_expanded_in_code_block() {
    let md = "```js\nconst s = \"[[World]]\";\n```";
    let ast = parse_markdown(md).unwrap();
    let first_node = get_first_child(&ast);

    if let AstNode::CodeBlock { value, .. } = first_node {
        assert!(value.contains("[[World]]"));
    } else {
        panic!("未能正确解析出 CodeBlock 节点");
    }
}

#[test]
fn test_parse_cloze() {
    let md = "操作系统 ??进程?? 和 ??线程??";
    let ast = parse_markdown(md).unwrap();
    let first_node = get_first_child(&ast);

    if let AstNode::Paragraph { children } = first_node {
        assert_eq!(children.len(), 4);
        assert!(matches!(&children[0], AstNode::Text { value } if value.as_str() == "操作系统 "));
        assert!(matches!(&children[2], AstNode::Text { value } if value.as_str() == " 和 "));
        if let AstNode::Cloze { children: inner } = &children[1] {
            assert_eq!(inner.len(), 1);
            assert!(matches!(&inner[0], AstNode::Text { value } if value.as_str() == "进程"));
        } else {
            panic!("children[1] 不是 Cloze");
        }
        if let AstNode::Cloze { children: inner } = &children[3] {
            assert!(matches!(&inner[0], AstNode::Text { value } if value.as_str() == "线程"));
        } else {
            panic!("children[3] 不是 Cloze");
        }
    } else {
        panic!("未能正确解析出 Paragraph 节点");
    }
}

#[test]
fn test_parse_concept_ref() {
    let md = "复习 @TCP三次握手 和 @进程间通信";
    let ast = parse_markdown(md).unwrap();
    let first_node = get_first_child(&ast);

    if let AstNode::Paragraph { children } = first_node {
        assert_eq!(children.len(), 4);
        assert!(matches!(&children[0], AstNode::Text { value } if value.as_str() == "复习 "));
        assert!(matches!(&children[1], AstNode::ConceptRef { term } if term.as_str() == "TCP三次握手"));
        assert!(matches!(&children[2], AstNode::Text { value } if value.as_str() == " 和 "));
        assert!(matches!(&children[3], AstNode::ConceptRef { term } if term.as_str() == "进程间通信"));
    } else {
        panic!("未能正确解析出 Paragraph 节点");
    }
}

#[test]
fn test_concept_ref_skips_email() {
    let md = "联系 user@example.com 和 @HTTP协议";
    let ast = parse_markdown(md).unwrap();
    let first_node = get_first_child(&ast);

    if let AstNode::Paragraph { children } = first_node {
        assert_eq!(children.len(), 2);
        assert!(matches!(&children[0], AstNode::Text { value } if value.as_str() == "联系 user@example.com 和 "));
        assert!(matches!(&children[1], AstNode::ConceptRef { term } if term.as_str() == "HTTP协议"));
    } else {
        panic!("未能正确解析出 Paragraph 节点");
    }
}

#[test]
fn test_parse_heading_status_done() {
    let md = "## [x] 已掌握";
    let ast = parse_markdown(md).unwrap();
    let first_node = get_first_child(&ast);

    match first_node {
        AstNode::Heading { level, children, status } => {
            assert_eq!(*level, 2);
            assert_eq!(*status, Some(TaskStatus::Done));
            assert_eq!(children.len(), 1);
            assert!(matches!(&children[0], AstNode::Text { value } if value.as_str() == "已掌握"));
        }
        _ => panic!("未能正确解析出 Heading 节点"),
    }
}

#[test]
fn test_parse_heading_status_undone() {
    let md = "### [ ] 待复习";
    let ast = parse_markdown(md).unwrap();
    let first_node = get_first_child(&ast);

    match first_node {
        AstNode::Heading { level, status, .. } => {
            assert_eq!(*level, 3);
            assert_eq!(*status, Some(TaskStatus::Undone));
        }
        _ => panic!("未能正确解析出 Heading 节点"),
    }
}

#[test]
fn test_parse_heading_status_unclear() {
    let md = "#### [~] 不确定";
    let ast = parse_markdown(md).unwrap();
    let first_node = get_first_child(&ast);

    match first_node {
        AstNode::Heading { level, status, .. } => {
            assert_eq!(*level, 4);
            assert_eq!(*status, Some(TaskStatus::Unclear));
        }
        _ => panic!("未能正确解析出 Heading 节点"),
    }
}

#[test]
fn test_parse_heading_no_status() {
    let md = "## 普通标题";
    let ast = parse_markdown(md).unwrap();
    let first_node = get_first_child(&ast);

    match first_node {
        AstNode::Heading { level, status, .. } => {
            assert_eq!(*level, 2);
            assert!(status.is_none());
        }
        _ => panic!("未能正确解析出 Heading 节点"),
    }
}

#[test]
fn test_parse_admonition_warning() {
    let md = "> [!warning] 注意";
    let ast = parse_markdown(md).unwrap();
    let first_node = get_first_child(&ast);

    match first_node {
        AstNode::Admonition { kind, children } => {
            assert_eq!(*kind, AdmonitionKind::Warning);
            if let Some(AstNode::Paragraph { children: para_children }) = children.first() {
                if let Some(AstNode::Text { value }) = para_children.first() {
                    assert_eq!(value.as_str(), "注意");
                }
            } else {
                panic!("Admonition 首子节点不是 Paragraph");
            }
        }
        _ => panic!("未能正确解析出 Admonition 节点"),
    }
}

#[test]
fn test_parse_admonition_tip() {
    let md = "> [!tip] 用这个方法更快";
    let ast = parse_markdown(md).unwrap();
    let first_node = get_first_child(&ast);

    match first_node {
        AstNode::Admonition { kind, .. } => {
            assert_eq!(*kind, AdmonitionKind::Tip);
        }
        _ => panic!("未能正确解析出 Admonition 节点"),
    }
}

#[test]
fn test_parse_admonition_question() {
    let md = "> [!question] 为什么";
    let ast = parse_markdown(md).unwrap();
    let first_node = get_first_child(&ast);

    match first_node {
        AstNode::Admonition { kind, .. } => {
            assert_eq!(*kind, AdmonitionKind::Question);
        }
        _ => panic!("未能正确解析出 Admonition 节点"),
    }
}

#[test]
fn test_parse_blockquote_not_admonition() {
    let md = "> 普通引用";
    let ast = parse_markdown(md).unwrap();
    let first_node = get_first_child(&ast);

    match first_node {
        AstNode::Blockquote { .. } => {}
        _ => panic!("应该解析为 Blockquote"),
    }
}

#[test]
fn test_parse_mixed_syntax() {
    let md = "复习 @OS，参考 [[进程管理]]，记住 ??死锁条件??";
    let ast = parse_markdown(md).unwrap();
    let first_node = get_first_child(&ast);

    if let AstNode::Paragraph { children } = first_node {
        assert!(children.len() >= 5);
        assert!(matches!(&children[0], AstNode::Text { value } if value.as_str() == "复习 "));
        assert!(matches!(&children[1], AstNode::ConceptRef { term } if term.as_str() == "OS"));
        assert!(matches!(&children[2], AstNode::Text { value } if value.as_str() == "，参考 "));
        assert!(matches!(&children[3], AstNode::Wikilink { .. }));
    } else {
        panic!("未能正确解析出 Paragraph 节点");
    }
}

#[test]
fn test_with_real_parser() {
    let md = r"# Main

## Section A

### Sub A1

## Section B
";
    let ast = parse_markdown(md).unwrap();
    let toc = extract_toc(&ast);
    assert_eq!(toc.len(), 1);
    assert_eq!(toc[0].text, "Main");
    assert_eq!(toc[0].children.len(), 2);
    assert_eq!(toc[0].children[0].text, "Section A");
    assert_eq!(toc[0].children[0].children.len(), 1);
    assert_eq!(toc[0].children[0].children[0].text, "Sub A1");
    assert_eq!(toc[0].children[1].text, "Section B");
}

// ── further cases ──

#[test]
fn wikilink_alias_is_trimmed() {
    let ast = parse_markdown("见 [[ 进程 | 进程概念 ]]").unwrap();
    if let AstNode::Paragraph { children } = get_first_child(&ast) {
        assert_eq!(children.len(), 2);
        assert!(matches!(
            &children[1],
            AstNode::Wikilink { target, alias: Some(a) } if target.as_str() == "进程" && a.as_str() == "进程概念"
        ));
    } else {
        panic!("expected a paragraph");
    }
}

#[test]
fn blank_wikilink_stays_text() {
    let ast = parse_markdown("a [[ ]] b").unwrap();
    if let AstNode::Paragraph { children } = get_first_child(&ast) {
        assert_eq!(children.len(), 3);
        assert!(matches!(&children[1], AstNode::Text { value } if value.as_str() == "[[ ]]"));
    } else {
        panic!("expected a paragraph");
    }
}

#[test]
fn admonition_with_empty_rest_drops_text() {
    let ast = parse_markdown("> [!tip]\n> body").unwrap();
    match get_first_child(&ast) {
        AstNode::Admonition { kind, children } => {
            assert_eq!(*kind, AdmonitionKind::Tip);
            assert_eq!(children.len(), 1);
        }
        other => panic!("expected an admonition, got {:?}", other),
    }
}

#[test]
fn code_inside_image_alt_is_refused() {
    let r = parse_markdown("![a `b` c](x.png)");
    assert_eq!(
        r,
        Err(MSError::InvalidOperation("Cannot push child to leaf node \"Image\"".to_string()))
    );
}

#[test]
fn inline_code_and_math() {
    let ast = parse_markdown("x `y` $z$").unwrap();
    if let AstNode::Paragraph { children } = get_first_child(&ast) {
        assert_eq!(children.len(), 4);
        assert!(matches!(&children[1], AstNode::InlineCode { value } if value.as_str() == "y"));
        assert!(matches!(&children[3], AstNode::Math { value, inline: true } if value.as_str() == "z"));
    } else {
        panic!("expected a paragraph");
    }
}

#[test]
fn empty_document_is_empty_root() {
    assert_eq!(parse_markdown("").unwrap(), AstNode::Root { children: vec![] });
}

#[test]
fn extract_links_trims_and_dedups() {
    let links = extract_links("[[A]] and [[ B ]] and [[A|x]] and [[  ]]").unwrap();
    assert_eq!(links, vec!["A".to_string(), "B".to_string()]);
}

#[test]
fn extract_links_keeps_parentheses() {
    let links = extract_links("see [[矩阵(Matrix)特征值]]").unwrap();
    assert_eq!(links, vec!["矩阵(Matrix)特征值".to_string()]);
}

#[test]
fn extract_links_none() {
    assert!(extract_links("no links here").unwrap().is_empty());
}
