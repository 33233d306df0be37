//! Tests of HTML rendering.

use memory_stream::ast_core::AstNode;
use memory_stream::renderer::{escape_html, render_to_html, render_wikilinks, StringHashMap};

#[test]
fn test_escape_html_all_special_chars() {
    assert_eq!(escape_html("&<>\"'"), "&amp;&lt;&gt;&quot;&#39;");
    assert_eq!(escape_html("hello"), "hello");
    assert_eq!(escape_html(""), "");
}

#[test]
fn test_render_heading_and_paragraph() {
    let ast = AstNode::Root {
        children: vec![
            AstNode::Heading {
                level: 2,
                children: vec![AstNode::Text {
                    value: "渲染测试".to_string(),
                }],
            },
            AstNode::Paragraph {
                children: vec![AstNode::Text {
                    value: "纯文本".to_string(),
                }],
            },
        ],
    };

    let html = render_to_html(&ast).unwrap();
    assert_eq!(html, r#"<h2 id="渲染测试">渲染测试</h2><p>纯文本</p>"#);
}

#[test]
fn test_render_nested_styles() {
    let ast = AstNode::Paragraph {
        children: vec![
            AstNode::Text {
                value: "你好".to_string(),
            },
            AstNode::Strong {
                children: vec![AstNode::Emphasis {
                    children: vec![AstNode::Text {
                        value: "世界".to_string(),
                    }],
                }],
            },
        ],
    };

    let html = render_to_html(&ast).unwrap();
    assert_eq!(html, "<p>你好<strong><em>世界</em></strong></p>");
}

#[test]
fn test_render_text_xss_prevention() {
    let ast = AstNode::Paragraph {
        children: vec![AstNode::Text {
            value: "<script>alert('xss')</script>".to_string(),
        }],
    };

    let html = render_to_html(&ast).unwrap();
    assert!(html.contains("&lt;script&gt;"));
    assert!(!html.contains("<script>"));
}

#[test]
fn test_render_mermaid_xss_prevention() {
    let ast = AstNode::CodeBlock {
        language: Some("mermaid".to_string()),
        value: "</pre><script>alert('mermaid-xss')</script><pre>".to_string(),
    };

    let html = render_to_html(&ast).unwrap();
    assert!(html.starts_with("<pre class=\"mermaid\">"));
    assert!(html.contains("&lt;/pre&gt;"));
    assert!(!html.contains("</pre><script>"));
}

#[test]
fn test_render_mermaid_whitespace_preserved() {
    let ast = AstNode::CodeBlock {
        language: Some("mermaid".to_string()),
        value: "graph TD\n    A --> B".to_string(),
    };

    let html = render_to_html(&ast).unwrap();
    assert!(html.starts_with("<pre class=\"mermaid\">"));
    assert!(html.contains("graph TD\n    A --&gt; B"));
    assert!(html.ends_with("</pre>"));
}

#[test]
fn test_render_code_block_with_language() {
    let ast = AstNode::CodeBlock {
        language: Some("rust".to_string()),
        value: "fn main() {}".to_string(),
    };

    let html = render_to_html(&ast).unwrap();
    assert!(html.contains("class=\"language-rust\""));
    assert!(html.contains("fn main() {}"));
}

#[test]
fn test_render_code_block_language_escaped() {
    let ast = AstNode::CodeBlock {
        language: Some("rust\"><script>alert(1)</script><span class=\"rust".to_string()),
        value: "code".to_string(),
    };

    let html = render_to_html(&ast).unwrap();
    assert!(!html.contains("<script>"));
    assert!(html.contains("&lt;script&gt;"));
}

#[test]
fn test_sanitize_url_blocks_javascript_scheme() {
    let ast = AstNode::Link {
        url: "javascript:alert('xss')".to_string(),
        children: vec![AstNode::Text {
            value: "点击".to_string(),
        }],
    };

    let html = render_to_html(&ast).unwrap();
    assert_eq!(html, "<a href=\"#\">点击</a>");
}

#[test]
fn test_sanitize_url_blocks_javascript_mixed_case() {
    let ast = AstNode::Link {
        url: "JaVaScRiPt:alert(1)".to_string(),
        children: vec![AstNode::Text {
            value: "link".to_string(),
        }],
    };

    let html = render_to_html(&ast).unwrap();
    assert_eq!(html, "<a href=\"#\">link</a>");
}

#[test]
fn test_sanitize_url_blocks_data_scheme() {
    let ast = AstNode::Link {
        url: "data:text/html,<script>alert(1)</script>".to_string(),
        children: vec![AstNode::Text {
            value: "link".to_string(),
        }],
    };

    let html = render_to_html(&ast).unwrap();
    assert_eq!(html, "<a href=\"#\">link</a>");
}

#[test]
fn test_sanitize_url_blocks_data_scheme_image() {
    let ast = AstNode::Image {
        url: "data:image/svg+xml,<svg onload=alert(1)>".to_string(),
        alt: "img".to_string(),
    };

    let html = render_to_html(&ast).unwrap();
    assert_eq!(html, "<img src=\"#\" alt=\"img\" loading=\"lazy\" />");
}

#[test]
fn test_sanitize_url_allows_https() {
    let ast = AstNode::Link {
        url: "https://example.com/path?q=1&b=2".to_string(),
        children: vec![AstNode::Text {
            value: "安全链接".to_string(),
        }],
    };

    let html = render_to_html(&ast).unwrap();
    assert!(html.starts_with("<a href=\"https://example.com/path?q=1&amp;b=2\">"));
    assert!(html.ends_with("安全链接</a>"));
}

#[test]
fn test_sanitize_url_allows_http() {
    let ast = AstNode::Link {
        url: "http://example.com".to_string(),
        children: vec![AstNode::Text {
            value: "link".to_string(),
        }],
    };

    let html = render_to_html(&ast).unwrap();
    assert!(html.contains("href=\"http://example.com\""));
}

#[test]
fn test_sanitize_url_allows_mailto() {
    let ast = AstNode::Link {
        url: "mailto:user@example.com".to_string(),
        children: vec![AstNode::Text {
            value: "email".to_string(),
        }],
    };

    let html = render_to_html(&ast).unwrap();
    assert!(html.contains("href=\"mailto:user@example.com\""));
}

#[test]
fn test_sanitize_url_allows_relative_paths() {
    let cases = vec!["/about", "#section", "/api/v1/cards"];
    for url in cases {
        let ast = AstNode::Link {
            url: url.to_string(),
            children: vec![AstNode::Text {
                value: "link".to_string(),
            }],
        };
        let html = render_to_html(&ast).unwrap();
        assert!(
            html.contains(&format!("href=\"{url}\"")),
            "relative URL '{url}' should pass through: {html}"
        );
    }
}

#[test]
fn test_sanitize_url_blocks_leading_whitespace_javascript() {
    let ast = AstNode::Link {
        url: "   javascript:alert(1)".to_string(),
        children: vec![AstNode::Text {
            value: "link".to_string(),
        }],
    };

    let html = render_to_html(&ast).unwrap();
    assert_eq!(html, "<a href=\"#\">link</a>");
}

#[test]
fn test_render_thematic_break() {
    let ast = AstNode::ThematicBreak;
    assert_eq!(render_to_html(&ast).unwrap(), "<hr />");
}

#[test]
fn test_render_blockquote() {
    let ast = AstNode::Blockquote {
        children: vec![AstNode::Paragraph {
            children: vec![AstNode::Text {
                value: "引用".to_string(),
            }],
        }],
    };
    assert_eq!(
        render_to_html(&ast).unwrap(),
        "<blockquote><p>引用</p></blockquote>"
    );
}

#[test]
fn test_render_ordered_list_with_start() {
    let ast = AstNode::List {
        ordered: true,
        start: Some(3),
        children: vec![AstNode::ListItem {
            children: vec![AstNode::Text {
                value: "第三项".to_string(),
            }],
        }],
    };

    let html = render_to_html(&ast).unwrap();
    assert!(html.contains(" start=\"3\""));
    assert!(html.contains("<ol"));
    assert!(html.contains("<li>第三项</li>"));
}

#[test]
fn test_render_unordered_list() {
    let ast = AstNode::List {
        ordered: false,
        start: None,
        children: vec![AstNode::ListItem {
            children: vec![AstNode::Text {
                value: "项".to_string(),
            }],
        }],
    };

    let html = render_to_html(&ast).unwrap();
    assert!(html.starts_with("<ul>"));
    assert!(html.ends_with("</ul>"));
    assert!(!html.contains("start="));
}

#[test]
fn test_render_inline_math() {
    let ast = AstNode::Math {
        value: "E=mc^2".to_string(),
        inline: true,
    };
    let html = render_to_html(&ast).unwrap();
    assert_eq!(html, "<span class=\"math-inline\">\\(E=mc^2\\)</span>");
}

#[test]
fn test_render_block_math() {
    let ast = AstNode::Math {
        value: "E=mc^2".to_string(),
        inline: false,
    };
    let html = render_to_html(&ast).unwrap();
    assert_eq!(html, "<div class=\"math-block\">\\[E=mc^2\\]</div>");
}

#[test]
fn test_render_image() {
    let ast = AstNode::Image {
        url: "https://example.com/img.png".to_string(),
        alt: "图片\"描述".to_string(),
    };
    let html = render_to_html(&ast).unwrap();
    assert!(html.contains("src=\"https://example.com/img.png\""));
    assert!(html.contains("alt=\"图片&quot;描述\""));
    assert!(html.contains("loading=\"lazy\""));
}

#[test]
fn test_render_empty_url_link() {
    let ast = AstNode::Link {
        url: "".to_string(),
        children: vec![AstNode::Text {
            value: "空链接".to_string(),
        }],
    };
    let html = render_to_html(&ast).unwrap();
    assert_eq!(html, "<a href=\"\">空链接</a>");
}

#[test]
fn test_wikilink_basic() {
    let ast = AstNode::Paragraph {
        children: vec![AstNode::Text {
            value: "Check [[Card Name]] for details".to_string(),
        }],
    };
    let html = render_to_html(&ast).unwrap();
    assert!(
        html.contains(r#"<a class="reference-link" data-card-name="Card Name">Card Name</a>"#)
    );
    assert!(html.contains("Check "));
    assert!(html.contains(" for details"));
}

#[test]
fn test_wikilink_multiple() {
    let ast = AstNode::Paragraph {
        children: vec![AstNode::Text {
            value: "See [[A]] and [[B]]".to_string(),
        }],
    };
    let html = render_to_html(&ast).unwrap();
    assert!(html.contains(r#"<a class="reference-link" data-card-name="A">A</a>"#));
    assert!(html.contains(r#"<a class="reference-link" data-card-name="B">B</a>"#));
}

#[test]
fn test_wikilink_special_chars() {
    let ast = AstNode::Paragraph {
        children: vec![AstNode::Text {
            value: "See [[C++ Notes]]".to_string(),
        }],
    };
    let html = render_to_html(&ast).unwrap();
    assert!(html.contains(r#"data-card-name="C++ Notes""#));
    assert!(!html.contains("<script>"));
}

#[test]
fn test_wikilink_no_match() {
    let ast = AstNode::Paragraph {
        children: vec![AstNode::Text {
            value: "No links here".to_string(),
        }],
    };
    let html = render_to_html(&ast).unwrap();
    assert_eq!(html, "<p>No links here</p>");
    assert!(!html.contains("reference-link"));
}

#[test]
fn test_wikilink_with_html_chars() {
    let ast = AstNode::Paragraph {
        children: vec![AstNode::Text {
            value: "[[Card<script>]] text".to_string(),
        }],
    };
    let html = render_to_html(&ast).unwrap();
    assert!(html.contains(r#"data-card-name="Card&lt;script&gt;""#));
    assert!(!html.contains("<script>"));
}

#[test]
fn test_wikilink_with_uuid_resolution() {
    let mut card_map: StringHashMap<String> = StringHashMap::new();
    card_map.insert("Card Name".to_string(), "uuid-123-abc".to_string());

    let text = "Check [[Card Name]] for details";
    let html = render_wikilinks(text, Some(&card_map));

    assert!(html.contains(r#"href="/cards/uuid-123-abc""#));
    assert!(html.contains(r#"class="reference-link""#));
    assert!(html.contains(">Card Name</a>"));
    assert!(!html.contains("data-card-name"));
}

#[test]
fn test_wikilink_without_uuid_map() {
    let text = "Check [[Card Name]] for details";
    let html = render_wikilinks(text, None);

    assert!(html.contains(r#"data-card-name="Card Name""#));
    assert!(html.contains(r#"class="reference-link""#));
    assert!(!html.contains("href="));
}

#[test]
fn test_wikilink_uuid_map_name_not_found() {
    let mut card_map: StringHashMap<String> = StringHashMap::new();
    card_map.insert("Other Card".to_string(), "uuid-other".to_string());

    let text = "Check [[Card Name]] for details";
    let html = render_wikilinks(text, Some(&card_map));

    assert!(html.contains(r#"data-card-name="Card Name""#));
    assert!(html.contains(r#"class="reference-link""#));
    assert!(!html.contains("href="));
}

#[test]
fn test_wikilink_mixed_resolution() {
    let mut card_map: StringHashMap<String> = StringHashMap::new();
    card_map.insert("Known Card".to_string(), "uuid-known".to_string());

    let text = "See [[Known Card]] and [[Unknown Card]]";
    let html = render_wikilinks(text, Some(&card_map));

    assert!(html.contains(r#"href="/cards/uuid-known""#));
    assert!(html.contains(r#"data-card-name="Unknown Card""#));
}

#[test]
fn test_wikilink_uuid_escaped() {
    let mut card_map: StringHashMap<String> = StringHashMap::new();
    card_map.insert("Card".to_string(), "uuid<\"evil>".to_string());

    let text = "[[Card]]";
    let html = render_wikilinks(text, Some(&card_map));

    assert!(html.contains(r#"href="/cards/uuid&lt;&quot;evil&gt;""#));
    assert!(!html.contains("<\"evil>"));
}

