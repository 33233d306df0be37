//! Tests of the core syntax-tree types.

use memory_stream::ast_core::{AlignType, AstNode};

#[test]
fn test_align_type_equality() {
    assert_eq!(AlignType::Left, AlignType::Left);
    assert_ne!(AlignType::Left, AlignType::Center);
    assert_ne!(AlignType::Center, AlignType::Right);
    assert_ne!(AlignType::Right, AlignType::Unaligned);
}


#[test]
fn test_align_type_clone_debug() {
    let a = AlignType::Center;
    let b = a.clone();
    assert_eq!(a, b);
    let debug = format!("{a:?}");
    assert!(debug.contains("Center"));
}

// ---------------------------------------------------------------------------
// AstNode construction & field access
// ---------------------------------------------------------------------------


#[test]
fn test_text_borrowed() {
    let node = AstNode::Text {
        value: "hello".to_string(),
    };
    if let AstNode::Text { value } = &node {
        assert_eq!(value.as_str(), "hello");
    } else {
        panic!("expected Text variant");
    }
}


#[test]
fn test_text_owned() {
    let node = AstNode::Text {
        value: "owned string".to_string(),
    };
    if let AstNode::Text { value } = &node {
        assert_eq!(value.as_str(), "owned string");
    } else {
        panic!("expected Text variant");
    }
}


#[test]
fn test_heading_fields() {
    let node = AstNode::Heading {
        level: 3,
        children: vec![AstNode::Text {
            value: "Title".to_string(),
        }],
    };
    if let AstNode::Heading { level, children } = &node {
        assert_eq!(*level, 3);
        assert_eq!(children.len(), 1);
    } else {
        panic!("expected Heading variant");
    }
}


#[test]
fn test_code_block_with_language() {
    let node = AstNode::CodeBlock {
        language: Some("rust".to_string()),
        value: "fn main() {}".to_string(),
    };
    if let AstNode::CodeBlock { language, value } = &node {
        assert_eq!(language.as_deref(), Some("rust"));
        assert_eq!(value.as_str(), "fn main() {}");
    } else {
        panic!("expected CodeBlock variant");
    }
}


#[test]
fn test_code_block_without_language() {
    let node = AstNode::CodeBlock {
        language: None,
        value: "plain text".to_string(),
    };
    if let AstNode::CodeBlock { language, .. } = &node {
        assert!(language.is_none());
    } else {
        panic!("expected CodeBlock variant");
    }
}


#[test]
fn test_link_fields() {
    let node = AstNode::Link {
        url: "https://example.com".to_string(),
        children: vec![AstNode::Text {
            value: "click".to_string(),
        }],
    };
    if let AstNode::Link { url, children } = &node {
        assert_eq!(url.as_str(), "https://example.com");
        assert_eq!(children.len(), 1);
    } else {
        panic!("expected Link variant");
    }
}


#[test]
fn test_image_fields() {
    let node = AstNode::Image {
        url: "img.png".to_string(),
        alt: "alt text".to_string(),
    };
    if let AstNode::Image { url, alt } = &node {
        assert_eq!(url.as_str(), "img.png");
        assert_eq!(alt.as_str(), "alt text");
    } else {
        panic!("expected Image variant");
    }
}


#[test]
fn test_math_inline_and_block() {
    let inline = AstNode::Math {
        value: "E=mc^2".to_string(),
        inline: true,
    };
    let block = AstNode::Math {
        value: "\\int_0^1".to_string(),
        inline: false,
    };
    if let AstNode::Math { value, inline: is_inline } = &inline {
        assert_eq!(value.as_str(), "E=mc^2");
        assert!(is_inline);
    }
    if let AstNode::Math { inline: is_inline, .. } = &block {
        assert!(!is_inline);
    }
}


#[test]
fn test_list_ordered_with_start() {
    let node = AstNode::List {
        ordered: true,
        start: Some(3),
        children: vec![AstNode::ListItem {
            children: vec![AstNode::Text {
                value: "item".to_string(),
            }],
        }],
    };
    if let AstNode::List {
        ordered,
        start,
        children,
    } = &node
    {
        assert!(ordered);
        assert_eq!(*start, Some(3));
        assert_eq!(children.len(), 1);
    } else {
        panic!("expected List variant");
    }
}


#[test]
fn test_list_unordered() {
    let node = AstNode::List {
        ordered: false,
        start: None,
        children: vec![],
    };
    if let AstNode::List {
        ordered,
        start,
        children,
    } = &node
    {
        assert!(!ordered);
        assert!(start.is_none());
        assert!(children.is_empty());
    } else {
        panic!("expected List variant");
    }
}


#[test]
fn test_thematic_break() {
    let node = AstNode::ThematicBreak;
    assert!(matches!(node, AstNode::ThematicBreak));
}


#[test]
fn test_task_list_marker() {
    let checked = AstNode::TaskListMarker { checked: true };
    let unchecked = AstNode::TaskListMarker { checked: false };
    if let AstNode::TaskListMarker { checked: c } = &checked {
        assert!(c);
    }
    if let AstNode::TaskListMarker { checked: c } = &unchecked {
        assert!(!c);
    }
}


#[test]
fn test_table_with_alignments() {
    let node = AstNode::Table {
        alignments: vec![Some(AlignType::Left), None, Some(AlignType::Center)],
        children: vec![AstNode::TableHead { children: vec![] }],
    };
    if let AstNode::Table {
        alignments, children, ..
    } = &node
    {
        assert_eq!(alignments.len(), 3);
        assert_eq!(alignments[0], Some(AlignType::Left));
        assert_eq!(alignments[1], None);
        assert_eq!(alignments[2], Some(AlignType::Center));
        assert_eq!(children.len(), 1);
    } else {
        panic!("expected Table variant");
    }
}


#[test]
fn test_strikethrough() {
    let node = AstNode::Strikethrough {
        children: vec![AstNode::Text {
            value: "deleted".to_string(),
        }],
    };
    if let AstNode::Strikethrough { children } = &node {
        assert_eq!(children.len(), 1);
    } else {
        panic!("expected Strikethrough variant");
    }
}


#[test]
fn test_blockquote() {
    let node = AstNode::Blockquote {
        children: vec![AstNode::Paragraph {
            children: vec![AstNode::Text {
                value: "quote".to_string(),
            }],
        }],
    };
    if let AstNode::Blockquote { children } = &node {
        assert_eq!(children.len(), 1);
    } else {
        panic!("expected Blockquote variant");
    }
}


#[test]
fn test_strong_and_emphasis() {
    let strong = AstNode::Strong {
        children: vec![AstNode::Text {
            value: "bold".to_string(),
        }],
    };
    let em = AstNode::Emphasis {
        children: vec![AstNode::Text {
            value: "italic".to_string(),
        }],
    };
    assert!(matches!(strong, AstNode::Strong { .. }));
    assert!(matches!(em, AstNode::Emphasis { .. }));
}

// ---------------------------------------------------------------------------
// push_child
// ---------------------------------------------------------------------------


#[test]
fn test_push_child_root() {
    let mut root = AstNode::Root { children: vec![] };
    root.push_child(AstNode::ThematicBreak);
    if let AstNode::Root { children } = &root {
        assert_eq!(children.len(), 1);
    }
}


#[test]
fn test_push_child_heading() {
    let mut h = AstNode::Heading {
        level: 1,
        children: vec![],
    };
    h.push_child(AstNode::Text {
        value: "hi".to_string(),
    });
    if let AstNode::Heading { children, .. } = &h {
        assert_eq!(children.len(), 1);
    }
}


#[test]
fn test_push_child_paragraph() {
    let mut p = AstNode::Paragraph { children: vec![] };
    p.push_child(AstNode::Text {
        value: "text".to_string(),
    });
    if let AstNode::Paragraph { children } = &p {
        assert_eq!(children.len(), 1);
    }
}


#[test]
fn test_push_child_blockquote() {
    let mut bq = AstNode::Blockquote { children: vec![] };
    bq.push_child(AstNode::Paragraph { children: vec![] });
    if let AstNode::Blockquote { children } = &bq {
        assert_eq!(children.len(), 1);
    }
}


#[test]
fn test_push_child_list() {
    let mut list = AstNode::List {
        ordered: false,
        start: None,
        children: vec![],
    };
    list.push_child(AstNode::ListItem { children: vec![] });
    if let AstNode::List { children, .. } = &list {
        assert_eq!(children.len(), 1);
    }
}


#[test]
fn test_push_child_list_item() {
    let mut li = AstNode::ListItem { children: vec![] };
    li.push_child(AstNode::Text {
        value: "x".to_string(),
    });
    if let AstNode::ListItem { children } = &li {
        assert_eq!(children.len(), 1);
    }
}


#[test]
fn test_push_child_strong() {
    let mut s = AstNode::Strong { children: vec![] };
    s.push_child(AstNode::Text {
        value: "bold".to_string(),
    });
    if let AstNode::Strong { children } = &s {
        assert_eq!(children.len(), 1);
    }
}


#[test]
fn test_push_child_emphasis() {
    let mut e = AstNode::Emphasis { children: vec![] };
    e.push_child(AstNode::Text {
        value: "em".to_string(),
    });
    if let AstNode::Emphasis { children } = &e {
        assert_eq!(children.len(), 1);
    }
}


#[test]
fn test_push_child_link() {
    let mut link = AstNode::Link {
        url: "https://example.com".to_string(),
        children: vec![],
    };
    link.push_child(AstNode::Text {
        value: "label".to_string(),
    });
    if let AstNode::Link { children, .. } = &link {
        assert_eq!(children.len(), 1);
    }
}


#[test]
fn test_push_child_table_variants() {
    let mut table = AstNode::Table {
        alignments: vec![],
        children: vec![],
    };
    table.push_child(AstNode::TableHead { children: vec![] });
    if let AstNode::Table { children, .. } = &table {
        assert_eq!(children.len(), 1);
    }

    let mut head = AstNode::TableHead { children: vec![] };
    head.push_child(AstNode::TableCell { children: vec![] });
    if let AstNode::TableHead { children } = &head {
        assert_eq!(children.len(), 1);
    }

    let mut row = AstNode::TableRow { children: vec![] };
    row.push_child(AstNode::TableCell { children: vec![] });
    if let AstNode::TableRow { children } = &row {
        assert_eq!(children.len(), 1);
    }

    let mut cell = AstNode::TableCell { children: vec![] };
    cell.push_child(AstNode::Text {
        value: "data".to_string(),
    });
    if let AstNode::TableCell { children } = &cell {
        assert_eq!(children.len(), 1);
    }
}


#[test]
fn test_push_child_strikethrough() {
    let mut s = AstNode::Strikethrough { children: vec![] };
    s.push_child(AstNode::Text {
        value: "struck".to_string(),
    });
    if let AstNode::Strikethrough { children } = &s {
        assert_eq!(children.len(), 1);
    }
}


#[test]
fn test_push_child_ignored_on_leaf_nodes() {
    // Text is a leaf — push_child should silently do nothing.
    let mut text = AstNode::Text {
        value: "leaf".to_string(),
    };
    text.push_child(AstNode::ThematicBreak);
    assert!(matches!(text, AstNode::Text { .. }));

    // ThematicBreak is a leaf.
    let mut tb = AstNode::ThematicBreak;
    tb.push_child(AstNode::Text {
        value: "x".to_string(),
    });
    assert!(matches!(tb, AstNode::ThematicBreak));

    // Image is a leaf.
    let mut img = AstNode::Image {
        url: "a.png".to_string(),
        alt: "a".to_string(),
    };
    img.push_child(AstNode::Text {
        value: "x".to_string(),
    });
    if let AstNode::Image { url, alt } = &img {
        assert_eq!(url.as_str(), "a.png");
        assert_eq!(alt.as_str(), "a");
    }

    // Math is a leaf.
    let mut math = AstNode::Math {
        value: "x".to_string(),
        inline: true,
    };
    math.push_child(AstNode::ThematicBreak);
    if let AstNode::Math { value, inline } = &math {
        assert_eq!(value.as_str(), "x");
        assert!(inline);
    }

    // TaskListMarker is a leaf.
    let mut tlm = AstNode::TaskListMarker { checked: false };
    tlm.push_child(AstNode::ThematicBreak);
    if let AstNode::TaskListMarker { checked } = &tlm {
        assert!(!checked);
    }

    // CodeBlock is a leaf.
    let mut cb = AstNode::CodeBlock {
        language: None,
        value: "code".to_string(),
    };
    cb.push_child(AstNode::ThematicBreak);
    if let AstNode::CodeBlock { language, value } = &cb {
        assert!(language.is_none());
        assert_eq!(value.as_str(), "code");
    }
}

// ---------------------------------------------------------------------------
// Serde round-trip (tag = "type")
// ---------------------------------------------------------------------------


#[test]
fn test_clone_preserves_data() {
    let original = AstNode::CodeBlock {
        language: Some("ts".to_string()),
        value: "console.log(1)".to_string(),
    };
    let cloned = original.clone();
    assert_eq!(original, cloned);
}


#[test]
fn test_debug_output_contains_variant() {
    let node = AstNode::Heading {
        level: 1,
        children: vec![],
    };
    let debug = format!("{node:?}");
    assert!(debug.contains("Heading"));
}

// ---------------------------------------------------------------------------
// AstNodeOwned type alias
// ---------------------------------------------------------------------------


#[test]
fn test_owned_from_owned_cow() {
    let node: AstNode = AstNode::Text {
        value: "owned".to_string(),
    };
    if let AstNode::Text { value } = &node {
        assert_eq!(value.as_str(), "owned");
    }
}

// ---------------------------------------------------------------------------
// PartialEq
// ---------------------------------------------------------------------------


#[test]
fn test_partial_eq_different_variants() {
    let a = AstNode::Text {
        value: "x".to_string(),
    };
    let b = AstNode::ThematicBreak;
    assert_ne!(a, b);
}


#[test]
fn test_partial_eq_same_variant_different_fields() {
    let a = AstNode::Heading {
        level: 1,
        children: vec![],
    };
    let b = AstNode::Heading {
        level: 2,
        children: vec![],
    };
    assert_ne!(a, b);
}

