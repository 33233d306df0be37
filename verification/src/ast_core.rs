//! Core Markdown syntax-tree types shared by the HTML renderer.
//!
//! A tree is a value of [`AstNode`]; container nodes own their children in
//! document order, leaf nodes carry text.

use vstd::prelude::*;
use crate::text::{has_prefix as has_prefix_spec, push_str};

verus! {

/// Column alignment of a table.
#[derive(Debug, Clone, Copy, PartialEq, Eq, Structural)]
pub enum AlignType {
    Left,
    Center,
    Right,
    Unaligned,
}

/// A node of a Markdown syntax tree.
#[derive(Debug, PartialEq)]
pub enum AstNode {
    /// Document root.
    Root { children: Vec<AstNode> },
    /// Heading of level 1 to 6.
    Heading { level: u8, children: Vec<AstNode> },
    /// Paragraph.
    Paragraph { children: Vec<AstNode> },
    /// Plain text leaf.
    Text { value: String },
    /// Inline code span.
    InlineCode { value: String },
    /// Code block with an optional info string.
    CodeBlock { language: Option<String>, value: String },
    /// Hyperlink.
    Link { url: String, children: Vec<AstNode> },
    /// Image with its alternative text.
    Image { url: String, alt: String },
    /// Formula; `inline` tells inline from display math.
    Math { value: String, inline: bool },
    /// Block quote.
    Blockquote { children: Vec<AstNode> },
    /// Ordered or bullet list.
    List { ordered: bool, start: Option<u64>, children: Vec<AstNode> },
    /// List item.
    ListItem { children: Vec<AstNode> },
    /// Horizontal rule.
    ThematicBreak,
    /// Strong emphasis.
    Strong { children: Vec<AstNode> },
    /// Emphasis.
    Emphasis { children: Vec<AstNode> },
    /// Table with one optional alignment per column.
    Table { alignments: Vec<Option<AlignType>>, children: Vec<AstNode> },
    /// Table header row group.
    TableHead { children: Vec<AstNode> },
    /// Table body row.
    TableRow { children: Vec<AstNode> },
    /// Table cell.
    TableCell { children: Vec<AstNode> },
    /// Struck-through text.
    Strikethrough { children: Vec<AstNode> },
    /// Task list check box.
    TaskListMarker { checked: bool },
    /// Footnote definition.
    FootnoteDefinition { name: String, children: Vec<AstNode> },
    /// Footnote reference.
    FootnoteReference { name: String },
    /// Definition list.
    DefinitionList { children: Vec<AstNode> },
    /// Term of a definition list.
    DefinitionListTitle { children: Vec<AstNode> },
    /// Definition of a definition list.
    DefinitionListDefinition { children: Vec<AstNode> },
}

/// Whether `push_child` appends to this node (the containers that accept children).
pub open spec fn accepts_children(n: AstNode) -> bool {
    match n {
        AstNode::Root { .. } | AstNode::Heading { .. } | AstNode::Paragraph { .. }
        | AstNode::Blockquote { .. } | AstNode::List { .. } | AstNode::ListItem { .. }
        | AstNode::Strong { .. } | AstNode::Emphasis { .. } | AstNode::Link { .. }
        | AstNode::Table { .. } | AstNode::TableHead { .. } | AstNode::TableRow { .. }
        | AstNode::TableCell { .. } | AstNode::Strikethrough { .. } => true,
        _ => false,
    }
}

/// The children of an accepting container, in order.
pub open spec fn child_list(n: AstNode) -> Seq<AstNode> {
    match n {
        AstNode::Root { children } => children@,
        AstNode::Heading { children, .. } => children@,
        AstNode::Paragraph { children } => children@,
        AstNode::Blockquote { children } => children@,
        AstNode::List { children, .. } => children@,
        AstNode::ListItem { children } => children@,
        AstNode::Strong { children } => children@,
        AstNode::Emphasis { children } => children@,
        AstNode::Link { children, .. } => children@,
        AstNode::Table { children, .. } => children@,
        AstNode::TableHead { children } => children@,
        AstNode::TableRow { children } => children@,
        AstNode::TableCell { children } => children@,
        AstNode::Strikethrough { children } => children@,
        _ => Seq::empty(),
    }
}

/// `a` and `b` are the same variant with the same fields, children aside.
pub open spec fn same_but_children(a: AstNode, b: AstNode) -> bool {
    match (a, b) {
        (AstNode::Root { .. }, AstNode::Root { .. }) => true,
        (AstNode::Heading { level: l1, .. }, AstNode::Heading { level: l2, .. }) => l1 == l2,
        (AstNode::Paragraph { .. }, AstNode::Paragraph { .. }) => true,
        (AstNode::Blockquote { .. }, AstNode::Blockquote { .. }) => true,
        (AstNode::List { ordered: o1, start: s1, .. }, AstNode::List { ordered: o2, start: s2, .. }) =>
            o1 == o2 && s1 == s2,
        (AstNode::ListItem { .. }, AstNode::ListItem { .. }) => true,
        (AstNode::Strong { .. }, AstNode::Strong { .. }) => true,
        (AstNode::Emphasis { .. }, AstNode::Emphasis { .. }) => true,
        (AstNode::Link { url: u1, .. }, AstNode::Link { url: u2, .. }) => u1@ == u2@,
        (AstNode::Table { alignments: a1, .. }, AstNode::Table { alignments: a2, .. }) => a1@ == a2@,
        (AstNode::TableHead { .. }, AstNode::TableHead { .. }) => true,
        (AstNode::TableRow { .. }, AstNode::TableRow { .. }) => true,
        (AstNode::TableCell { .. }, AstNode::TableCell { .. }) => true,
        (AstNode::Strikethrough { .. }, AstNode::Strikethrough { .. }) => true,
        _ => false,
    }
}

/// A copy of a list of nodes.
fn copy_list(v: &Vec<AstNode>) -> (r: Vec<AstNode>)
    ensures
        r@.len() == v@.len(),
    decreases v,
{
    let mut r: Vec<AstNode> = Vec::new();
    let mut i: usize = 0;
    while i < v.len()
        invariant
            i <= v.len(),
            r@.len() == i,
        decreases v.len() - i,
    {
        r.push(copy_node(&v[i]));
        i = i + 1;
    }
    r
}

/// A copy of a node and of its whole subtree.
fn copy_node(n: &AstNode) -> (r: AstNode)
    ensures
        same_but_children(r, *n) || !accepts_children(*n),
    decreases n,
{
    match n {
        AstNode::Root { children } => AstNode::Root { children: copy_list(children) },
        AstNode::Heading { level, children } => AstNode::Heading { level: *level, children: copy_list(children) },
        AstNode::Paragraph { children } => AstNode::Paragraph { children: copy_list(children) },
        AstNode::Text { value } => AstNode::Text { value: value.clone() },
        AstNode::InlineCode { value } => AstNode::InlineCode { value: value.clone() },
        AstNode::CodeBlock { language, value } => AstNode::CodeBlock {
            language: match language { Some(l) => Some(l.clone()), None => None },
            value: value.clone(),
        },
        AstNode::Link { url, children } => AstNode::Link { url: url.clone(), children: copy_list(children) },
        AstNode::Image { url, alt } => AstNode::Image { url: url.clone(), alt: alt.clone() },
        AstNode::Math { value, inline } => AstNode::Math { value: value.clone(), inline: *inline },
        AstNode::Blockquote { children } => AstNode::Blockquote { children: copy_list(children) },
        AstNode::List { ordered, start, children } => AstNode::List {
            ordered: *ordered,
            start: *start,
            children: copy_list(children),
        },
        AstNode::ListItem { children } => AstNode::ListItem { children: copy_list(children) },
        AstNode::ThematicBreak => AstNode::ThematicBreak,
        AstNode::Strong { children } => AstNode::Strong { children: copy_list(children) },
        AstNode::Emphasis { children } => AstNode::Emphasis { children: copy_list(children) },
        AstNode::Table { alignments, children } => AstNode::Table {
            alignments: alignments.clone(),
            children: copy_list(children),
        },
        AstNode::TableHead { children } => AstNode::TableHead { children: copy_list(children) },
        AstNode::TableRow { children } => AstNode::TableRow { children: copy_list(children) },
        AstNode::TableCell { children } => AstNode::TableCell { children: copy_list(children) },
        AstNode::Strikethrough { children } => AstNode::Strikethrough { children: copy_list(children) },
        AstNode::TaskListMarker { checked } => AstNode::TaskListMarker { checked: *checked },
        AstNode::FootnoteDefinition { name, children } => AstNode::FootnoteDefinition {
            name: name.clone(),
            children: copy_list(children),
        },
        AstNode::FootnoteReference { name } => AstNode::FootnoteReference { name: name.clone() },
        AstNode::DefinitionList { children } => AstNode::DefinitionList { children: copy_list(children) },
        AstNode::DefinitionListTitle { children } => AstNode::DefinitionListTitle { children: copy_list(children) },
        AstNode::DefinitionListDefinition { children } => AstNode::DefinitionListDefinition {
            children: copy_list(children),
        },
    }
}

impl Clone for AstNode {
    fn clone(&self) -> Self {
        copy_node(self)
    }
}

impl AstNode {
    /// Appends `child` to this node's children.
    ///
    /// Containers (root, heading, paragraph, block quote, list, list item,
    /// strong, emphasis, link, table and its rows and cells, strikethrough)
    /// gain `child` as their last child; every other node is left unchanged.
    pub fn push_child(&mut self, child: AstNode)
        ensures
            accepts_children(*old(self)) ==> {
                &&& same_but_children(*final(self), *old(self))
                &&& child_list(*final(self)) == child_list(*old(self)).push(child)
            },
            !accepts_children(*old(self)) ==> *final(self) == *old(self),
    {
        match self {
            AstNode::Root { children } => children.push(child),
            AstNode::Heading { children, .. } => children.push(child),
            AstNode::Paragraph { children } => children.push(child),
            AstNode::Blockquote { children } => children.push(child),
            AstNode::List { children, .. } => children.push(child),
            AstNode::ListItem { children } => children.push(child),
            AstNode::Strong { children } => children.push(child),
            AstNode::Emphasis { children } => children.push(child),
            AstNode::Link { children, .. } => children.push(child),
            AstNode::Table { children, .. } => children.push(child),
            AstNode::TableHead { children } => children.push(child),
            AstNode::TableRow { children } => children.push(child),
            AstNode::TableCell { children } => children.push(child),
            AstNode::Strikethrough { children } => children.push(child),
            _ => {},
        }
    }
}


/// The standard library's I/O error, carried opaquely.
#[verifier::external_type_specification]
#[verifier::external_body]
pub struct ExIoError(std::io::Error);

/// Errors of parsing and rendering.
#[derive(Debug)]
pub enum MSError {
    /// Markdown could not be parsed.
    ParseError(String),
    /// The tree could not be rendered.
    RenderError(String),
    /// An I/O operation failed.
    IoError(std::io::Error),
    /// A node type that is not known.
    UnknownNodeType(String),
}

/// Result of parsing and rendering.
pub type MSResult<T> = Result<T, MSError>;

/// The text that `Display` shows for an I/O error.
///
/// Wraps `<std::io::Error as Display>::fmt` through `to_string`; nothing is
/// claimed of the text.
#[verifier::external_body]
fn io_error_text(e: &std::io::Error) -> String {
    e.to_string()
}

impl MSError {
    /// The human-readable message of the error.
    pub fn message(&self) -> (r: String)
        ensures
            self matches MSError::ParseError(m) ==> r@ == "Markdown 解析失败: "@ + m@,
            self matches MSError::RenderError(m) ==> r@ == "AST 渲染失败: "@ + m@,
            self matches MSError::UnknownNodeType(m) ==> r@ == "未知的 AST 节点类型: "@ + m@,
            self is IoError ==> has_prefix_spec(r@, "IO 错误: "@),
    {
        let mut r = String::new();
        match self {
            MSError::ParseError(m) => {
                push_str(&mut r, "Markdown 解析失败: ");
                push_str(&mut r, m.as_str());
            },
            MSError::RenderError(m) => {
                push_str(&mut r, "AST 渲染失败: ");
                push_str(&mut r, m.as_str());
            },
            MSError::IoError(e) => {
                push_str(&mut r, "IO 错误: ");
                let t = io_error_text(e);
                push_str(&mut r, t.as_str());
                assert(("IO 错误: "@ + t@).subrange(0, "IO 错误: "@.len() as int) =~= "IO 错误: "@);
            },
            MSError::UnknownNodeType(m) => {
                push_str(&mut r, "未知的 AST 节点类型: ");
                push_str(&mut r, m.as_str());
            },
        }
        r
    }
}

impl From<std::io::Error> for MSError {
    fn from(e: std::io::Error) -> (r: MSError) {
        MSError::IoError(e)
    }
}

impl vstd::std_specs::convert::FromSpecImpl<std::io::Error> for MSError {
    open spec fn obeys_from_spec() -> bool {
        true
    }

    open spec fn from_spec(v: std::io::Error) -> MSError {
        MSError::IoError(v)
    }
}

} // verus!
