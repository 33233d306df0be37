//! Tests of tree traversal and plain-text extraction.

use memory_stream::ms_ast::node::{AdmonitionKind, AlignType, AstNode};
use memory_stream::ms_ast::visitor::{collect_plain_text, generate_slug, is_cjk, walk, AstVisitor};

    fn heading(level: u8, text: &str) -> AstNode {
    AstNode::Heading {
        level,
        status: None,
        children: vec![AstNode::Text {
            value: text.to_string(),
        }],
    }
}

fn root(children: Vec<AstNode>) -> AstNode {
    AstNode::Root { children }
}

// ── Visitor 测试 ──

/// 统计所有文本节点数量。
struct TextNodeCounter {
    count: usize,
}

impl AstVisitor for TextNodeCounter {
    fn visit_text(&mut self, _value: &str) {
        self.count += 1;
    }
    fn visit_root(&mut self, _children: &[AstNode]) -> bool {
        true
    }
    fn visit_heading(&mut self, _level: u8, _children: &[AstNode]) -> bool {
        true
    }
    fn visit_paragraph(&mut self, _children: &[AstNode]) -> bool {
        true
    }
    fn visit_blockquote(&mut self, _children: &[AstNode]) -> bool {
        true
    }
    fn visit_list(&mut self, _ordered: bool, _start: Option<u64>, _children: &[AstNode]) -> bool {
        true
    }
    fn visit_list_item(&mut self, _children: &[AstNode]) -> bool {
        true
    }
    fn visit_strong(&mut self, _children: &[AstNode]) -> bool {
        true
    }
    fn visit_emphasis(&mut self, _children: &[AstNode]) -> bool {
        true
    }
    fn visit_link(&mut self, _url: &str, _children: &[AstNode]) -> bool {
        true
    }
    fn visit_table(&mut self, _alignments: &[Option<AlignType>], _children: &[AstNode]) -> bool {
        true
    }
    fn visit_table_head(&mut self, _children: &[AstNode]) -> bool {
        true
    }
    fn visit_table_row(&mut self, _children: &[AstNode]) -> bool {
        true
    }
    fn visit_table_cell(&mut self, _children: &[AstNode]) -> bool {
        true
    }
    fn visit_strikethrough(&mut self, _children: &[AstNode]) -> bool {
        true
    }
    fn visit_footnote_definition(&mut self, _name: &str, _children: &[AstNode]) -> bool {
        true
    }
    fn visit_definition_list(&mut self, _children: &[AstNode]) -> bool {
        true
    }
    fn visit_definition_list_title(&mut self, _children: &[AstNode]) -> bool {
        true
    }
    fn visit_definition_list_definition(&mut self, _children: &[AstNode]) -> bool {
        true
    }
    fn visit_cloze(&mut self, _children: &[AstNode]) -> bool {
        true
    }
    fn visit_admonition(&mut self, _kind: &AdmonitionKind, _children: &[AstNode]) -> bool {
        true
    }
    fn visit_concept_ref(&mut self, _term: &str) {}
    fn visit_wikilink(&mut self, _target: &str, _alias: Option<&str>) {}
    fn visit_inline_code(&mut self, _value: &str) {}
    fn visit_code_block(&mut self, _language: Option<&str>, _value: &str) {}
    fn visit_image(&mut self, _url: &str, _alt: &str) {}
    fn visit_math(&mut self, _value: &str, _inline: bool) {}
    fn visit_thematic_break(&mut self) {}
    fn visit_task_list_marker(&mut self, _checked: bool) {}
    fn visit_footnote_link(&mut self, _name: &str) {}
}

#[test]
fn test_visitor_counts_text_nodes() {
    let ast = root(vec![
        AstNode::Paragraph {
            children: vec![
                AstNode::Text {
                    value: "hello".to_string(),
                },
                AstNode::Strong {
                    children: vec![AstNode::Text {
                        value: "world".to_string(),
                    }],
                },
            ],
        },
        AstNode::Paragraph {
            children: vec![AstNode::Text {
                value: "end".to_string(),
            }],
        },
    ]);

    let mut counter = TextNodeCounter { count: 0 };
    walk(&mut counter, &ast);
    assert_eq!(counter.count, 3);
}

/// 只收集标题，跳过其他节点。
struct HeadingCollector {
    headings: Vec<(u8, String)>,
}

impl AstVisitor for HeadingCollector {
    fn visit_heading(&mut self, level: u8, children: &[AstNode]) -> bool {
        let text = collect_plain_text(children);
        self.headings.push((level, text));
        // 不递归子节点 — 已经提取了文本
        false
    }
    fn visit_root(&mut self, _children: &[AstNode]) -> bool {
        true
    }
    fn visit_paragraph(&mut self, _children: &[AstNode]) -> bool {
        true
    }
    fn visit_blockquote(&mut self, _children: &[AstNode]) -> bool {
        true
    }
    fn visit_list(&mut self, _ordered: bool, _start: Option<u64>, _children: &[AstNode]) -> bool {
        true
    }
    fn visit_list_item(&mut self, _children: &[AstNode]) -> bool {
        true
    }
    fn visit_strong(&mut self, _children: &[AstNode]) -> bool {
        true
    }
    fn visit_emphasis(&mut self, _children: &[AstNode]) -> bool {
        true
    }
    fn visit_link(&mut self, _url: &str, _children: &[AstNode]) -> bool {
        true
    }
    fn visit_table(&mut self, _alignments: &[Option<AlignType>], _children: &[AstNode]) -> bool {
        true
    }
    fn visit_table_head(&mut self, _children: &[AstNode]) -> bool {
        true
    }
    fn visit_table_row(&mut self, _children: &[AstNode]) -> bool {
        true
    }
    fn visit_table_cell(&mut self, _children: &[AstNode]) -> bool {
        true
    }
    fn visit_strikethrough(&mut self, _children: &[AstNode]) -> bool {
        true
    }
    fn visit_footnote_definition(&mut self, _name: &str, _children: &[AstNode]) -> bool {
        true
    }
    fn visit_definition_list(&mut self, _children: &[AstNode]) -> bool {
        true
    }
    fn visit_definition_list_title(&mut self, _children: &[AstNode]) -> bool {
        true
    }
    fn visit_definition_list_definition(&mut self, _children: &[AstNode]) -> bool {
        true
    }
    fn visit_cloze(&mut self, _children: &[AstNode]) -> bool {
        true
    }
    fn visit_admonition(&mut self, _kind: &AdmonitionKind, _children: &[AstNode]) -> bool {
        true
    }
    fn visit_concept_ref(&mut self, _term: &str) {}
    fn visit_text(&mut self, _value: &str) {}
    fn visit_wikilink(&mut self, _target: &str, _alias: Option<&str>) {}
    fn visit_inline_code(&mut self, _value: &str) {}
    fn visit_code_block(&mut self, _language: Option<&str>, _value: &str) {}
    fn visit_image(&mut self, _url: &str, _alt: &str) {}
    fn visit_math(&mut self, _value: &str, _inline: bool) {}
    fn visit_thematic_break(&mut self) {}
    fn visit_task_list_marker(&mut self, _checked: bool) {}
    fn visit_footnote_link(&mut self, _name: &str) {}
}

#[test]
fn test_visitor_collects_headings() {
    let ast = root(vec![
        heading(1, "Title"),
        AstNode::Paragraph {
            children: vec![AstNode::Text {
                value: "text".to_string(),
            }],
        },
        heading(2, "Subtitle"),
    ]);

    let mut collector = HeadingCollector { headings: vec![] };
    walk(&mut collector, &ast);
    assert_eq!(
        collector.headings,
        vec![(1, "Title".to_string()), (2, "Subtitle".to_string()),]
    );
}

#[test]
fn test_visitor_skips_nested_when_overridden() {
    let ast = root(vec![heading(1, "Title")]);

    let mut counter = TextNodeCounter { count: 0 };
    walk(&mut counter, &ast);
    assert_eq!(counter.count, 1);
}

/// 收集所有代码块语言。
struct CodeLangCollector {
    langs: Vec<Option<String>>,
}

impl AstVisitor for CodeLangCollector {
    fn visit_code_block(&mut self, language: Option<&str>, _value: &str) {
        self.langs.push(language.map(str::to_string));
    }
    fn visit_root(&mut self, _children: &[AstNode]) -> bool {
        true
    }
    fn visit_heading(&mut self, _level: u8, _children: &[AstNode]) -> bool {
        true
    }
    fn visit_paragraph(&mut self, _children: &[AstNode]) -> bool {
        true
    }
    fn visit_blockquote(&mut self, _children: &[AstNode]) -> bool {
        true
    }
    fn visit_list(&mut self, _ordered: bool, _start: Option<u64>, _children: &[AstNode]) -> bool {
        true
    }
    fn visit_list_item(&mut self, _children: &[AstNode]) -> bool {
        true
    }
    fn visit_strong(&mut self, _children: &[AstNode]) -> bool {
        true
    }
    fn visit_emphasis(&mut self, _children: &[AstNode]) -> bool {
        true
    }
    fn visit_link(&mut self, _url: &str, _children: &[AstNode]) -> bool {
        true
    }
    fn visit_table(&mut self, _alignments: &[Option<AlignType>], _children: &[AstNode]) -> bool {
        true
    }
    fn visit_table_head(&mut self, _children: &[AstNode]) -> bool {
        true
    }
    fn visit_table_row(&mut self, _children: &[AstNode]) -> bool {
        true
    }
    fn visit_table_cell(&mut self, _children: &[AstNode]) -> bool {
        true
    }
    fn visit_strikethrough(&mut self, _children: &[AstNode]) -> bool {
        true
    }
    fn visit_footnote_definition(&mut self, _name: &str, _children: &[AstNode]) -> bool {
        true
    }
    fn visit_definition_list(&mut self, _children: &[AstNode]) -> bool {
        true
    }
    fn visit_definition_list_title(&mut self, _children: &[AstNode]) -> bool {
        true
    }
    fn visit_definition_list_definition(&mut self, _children: &[AstNode]) -> bool {
        true
    }
    fn visit_cloze(&mut self, _children: &[AstNode]) -> bool {
        true
    }
    fn visit_admonition(&mut self, _kind: &AdmonitionKind, _children: &[AstNode]) -> bool {
        true
    }
    fn visit_concept_ref(&mut self, _term: &str) {}
    fn visit_text(&mut self, _value: &str) {}
    fn visit_wikilink(&mut self, _target: &str, _alias: Option<&str>) {}
    fn visit_inline_code(&mut self, _value: &str) {}
    fn visit_image(&mut self, _url: &str, _alt: &str) {}
    fn visit_math(&mut self, _value: &str, _inline: bool) {}
    fn visit_thematic_break(&mut self) {}
    fn visit_task_list_marker(&mut self, _checked: bool) {}
    fn visit_footnote_link(&mut self, _name: &str) {}
}

#[test]
fn test_visitor_collects_code_languages() {
    let ast = root(vec![
        AstNode::CodeBlock {
            language: Some("rust".to_string()),
            value: "fn main() {}".to_string(),
        },
        AstNode::CodeBlock {
            language: None,
            value: "plain".to_string(),
        },
    ]);

    let mut collector = CodeLangCollector { langs: vec![] };
    walk(&mut collector, &ast);
    assert_eq!(collector.langs.len(), 2);
    assert_eq!(collector.langs[0], Some("rust".to_string()));
    assert_eq!(collector.langs[1], None);
}

#[test]
fn test_visitor_walks_deep_nesting() {
    let ast = root(vec![AstNode::Blockquote {
        children: vec![AstNode::List {
            ordered: false,
            start: None,
            children: vec![AstNode::ListItem {
                children: vec![AstNode::Paragraph {
                    children: vec![AstNode::Strong {
                        children: vec![AstNode::Text {
                            value: "deep".to_string(),
                        }],
                    }],
                }],
            }],
        }],
    }]);

    let mut counter = TextNodeCounter { count: 0 };
    walk(&mut counter, &ast);
    assert_eq!(counter.count, 1);
}

// ── collect_plain_text 测试 ──

#[test]
fn test_collect_plain_text_simple() {
    let children = vec![AstNode::Text {
        value: "hello".to_string(),
    }];
    assert_eq!(collect_plain_text(&children), "hello");
}

#[test]
fn test_collect_plain_text_nested() {
    let children = vec![
        AstNode::Text {
            value: "Hello ".to_string(),
        },
        AstNode::Strong {
            children: vec![AstNode::Text {
                value: "World".to_string(),
            }],
        },
    ];
    assert_eq!(collect_plain_text(&children), "Hello World");
}

#[test]
fn test_collect_plain_text_ignores_formatting() {
    let children = vec![
        AstNode::Text {
            value: "A".to_string(),
        },
        AstNode::InlineCode {
            value: "B".to_string(),
        },
        AstNode::ThematicBreak,
    ];
    assert_eq!(collect_plain_text(&children), "A");
}

// ── generate_slug 测试 ──

#[test]
fn visitor_test_slug_english() {
    assert_eq!(generate_slug("Hello World"), "hello-world");
}

#[test]
fn visitor_test_slug_chinese() {
    assert_eq!(generate_slug("核心技术"), "核心技术");
}

#[test]
fn visitor_test_slug_mixed() {
    assert_eq!(generate_slug("Rust 学习笔记"), "rust-学习笔记");
}

#[test]
fn visitor_test_slug_special_chars() {
    assert_eq!(generate_slug("Hello! @World# 2024"), "hello-world-2024");
}

#[test]
fn visitor_test_slug_empty() {
    assert_eq!(generate_slug("!!!"), "heading");
}

// ── is_cjk 测试 ──

#[test]
fn test_is_cjk_basic() {
    assert!(is_cjk('中'));
    assert!(is_cjk('文'));
    assert!(!is_cjk('a'));
    assert!(!is_cjk('1'));
    assert!(!is_cjk(' '));
}

