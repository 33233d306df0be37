//! Node types of the knowledge-card syntax tree.

use vstd::prelude::*;
use crate::ms_ast::error::MSError;
use crate::text::push_str;

pub use crate::ast_core::AlignType;

verus! {

/// Kind of an admonition block (`> [!warning]`, `> [!tip]`, `> [!question]`).
#[derive(Debug, Clone, Copy, PartialEq, Eq, Structural)]
pub enum AdmonitionKind {
    Warning,
    Tip,
    Question,
}

/// Progress mark of a heading (`[x]`, `[ ]`, `[~]`).
#[derive(Debug, Clone, Copy, PartialEq, Eq, Structural)]
pub enum TaskStatus {
    Done,
    Undone,
    Unclear,
}

/// A node of a knowledge-card syntax tree.
#[derive(Debug, PartialEq)]
pub enum AstNode {
    /// Document root.
    Root { children: Vec<AstNode> },
    /// Heading of level 1 to 6 with an optional progress mark.
    Heading { level: u8, children: Vec<AstNode>, status: Option<TaskStatus> },
    /// Paragraph.
    Paragraph { children: Vec<AstNode> },
    /// Plain text leaf.
    Text { value: String },
    /// Wikilink `[[target]]` or `[[target|alias]]`.
    Wikilink { target: String, alias: Option<String> },
    /// Inline code span.
    InlineCode { value: String },
    /// Code block with an optional language.
    CodeBlock { language: Option<String>, value: String },
    /// Hyperlink.
    Link { url: String, children: Vec<AstNode> },
    /// Image with its alternative text.
    Image { url: String, alt: String },
    /// Formula; `inline` tells inline from display math.
    Math { value: String, inline: bool },
    /// Block quote.
    Blockquote { children: Vec<AstNode> },
    /// Ordered or bullet list.
    List { ordered: bool, start: Option<u64>, children: Vec<AstNode> },
    /// List item.
    ListItem { children: Vec<AstNode> },
    /// Horizontal rule.
    ThematicBreak,
    /// Strong emphasis.
    Strong { children: Vec<AstNode> },
    /// Emphasis.
    Emphasis { children: Vec<AstNode> },
    /// Table with one optional alignment per column.
    Table { alignments: Vec<Option<AlignType>>, children: Vec<AstNode> },
    /// Table header row group.
    TableHead { children: Vec<AstNode> },
    /// Table body row.
    TableRow { children: Vec<AstNode> },
    /// Table cell.
    TableCell { children: Vec<AstNode> },
    /// Struck-through text.
    Strikethrough { children: Vec<AstNode> },
    /// Task list check box.
    TaskListMarker { checked: bool },
    /// Footnote definition.
    FootnoteDefinition { name: String, children: Vec<AstNode> },
    /// Footnote reference.
    FootnoteReference { name: String },
    /// Definition list.
    DefinitionList { children: Vec<AstNode> },
    /// Term of a definition list.
    DefinitionListTitle { children: Vec<AstNode> },
    /// Definition of a definition list.
    DefinitionListDefinition { children: Vec<AstNode> },
    /// Memory mask `??text??`.
    Cloze { children: Vec<AstNode> },
    /// Concept reference `@term`.
    ConceptRef { term: String },
    /// Admonition block.
    Admonition { kind: AdmonitionKind, children: Vec<AstNode> },
}

/// Whether the node is a container that accepts children.
pub open spec fn is_container(n: AstNode) -> bool {
    match n {
        AstNode::Root { .. } | AstNode::Heading { .. } | AstNode::Paragraph { .. }
        | AstNode::Blockquote { .. } | AstNode::List { .. } | AstNode::ListItem { .. }
        | AstNode::Strong { .. } | AstNode::Emphasis { .. } | AstNode::Link { .. }
        | AstNode::Table { .. } | AstNode::TableHead { .. } | AstNode::TableRow { .. }
        | AstNode::TableCell { .. } | AstNode::Strikethrough { .. } | AstNode::FootnoteDefinition { .. }
        | AstNode::DefinitionList { .. } | AstNode::DefinitionListTitle { .. }
        | AstNode::DefinitionListDefinition { .. } | AstNode::Cloze { .. } | AstNode::Admonition { .. } => true,
        _ => false,
    }
}

/// The children of a container, in order (empty for leaves).
pub open spec fn children_of(n: AstNode) -> Seq<AstNode> {
    match n {
        AstNode::Root { children } => children@,
        AstNode::Heading { children, .. } => children@,
        AstNode::Paragraph { children } => children@,
        AstNode::Blockquote { children } => children@,
        AstNode::List { children, .. } => children@,
        AstNode::ListItem { children } => children@,
        AstNode::Strong { children } => children@,
        AstNode::Emphasis { children } => children@,
        AstNode::Link { children, .. } => children@,
        AstNode::Table { children, .. } => children@,
        AstNode::TableHead { children } => children@,
        AstNode::TableRow { children } => children@,
        AstNode::TableCell { children } => children@,
        AstNode::Strikethrough { children } => children@,
        AstNode::FootnoteDefinition { children, .. } => children@,
        AstNode::DefinitionList { children } => children@,
        AstNode::DefinitionListTitle { children } => children@,
        AstNode::DefinitionListDefinition { children } => children@,
        AstNode::Cloze { children } => children@,
        AstNode::Admonition { children, .. } => children@,
        _ => Seq::empty(),
    }
}

/// `a` and `b` are the same variant with the same fields, children aside.
pub open spec fn same_except_children(a: AstNode, b: AstNode) -> bool {
    match (a, b) {
        (AstNode::Root { .. }, AstNode::Root { .. }) => true,
        (AstNode::Heading { level: l1, status: s1, .. }, AstNode::Heading { level: l2, status: s2, .. }) =>
            l1 == l2 && s1 == s2,
        (AstNode::Paragraph { .. }, AstNode::Paragraph { .. }) => true,
        (AstNode::Blockquote { .. }, AstNode::Blockquote { .. }) => true,
        (AstNode::List { ordered: o1, start: s1, .. }, AstNode::List { ordered: o2, start: s2, .. }) =>
            o1 == o2 && s1 == s2,
        (AstNode::ListItem { .. }, AstNode::ListItem { .. }) => true,
        (AstNode::Strong { .. }, AstNode::Strong { .. }) => true,
        (AstNode::Emphasis { .. }, AstNode::Emphasis { .. }) => true,
        (AstNode::Link { url: u1, .. }, AstNode::Link { url: u2, .. }) => u1@ == u2@,
        (AstNode::Table { alignments: a1, .. }, AstNode::Table { alignments: a2, .. }) => a1@ == a2@,
        (AstNode::TableHead { .. }, AstNode::TableHead { .. }) => true,
        (AstNode::TableRow { .. }, AstNode::TableRow { .. }) => true,
        (AstNode::TableCell { .. }, AstNode::TableCell { .. }) => true,
        (AstNode::Strikethrough { .. }, AstNode::Strikethrough { .. }) => true,
        (AstNode::FootnoteDefinition { name: n1, .. }, AstNode::FootnoteDefinition { name: n2, .. }) =>
            n1@ == n2@,
        (AstNode::DefinitionList { .. }, AstNode::DefinitionList { .. }) => true,
        (AstNode::DefinitionListTitle { .. }, AstNode::DefinitionListTitle { .. }) => true,
        (AstNode::DefinitionListDefinition { .. }, AstNode::DefinitionListDefinition { .. }) => true,
        (AstNode::Cloze { .. }, AstNode::Cloze { .. }) => true,
        (AstNode::Admonition { kind: k1, .. }, AstNode::Admonition { kind: k2, .. }) => k1 == k2,
        _ => false,
    }
}

/// The name of the node's variant.
pub open spec fn variant_label(n: AstNode) -> Seq<char> {
    match n {
        AstNode::Root { .. } => "Root"@,
        AstNode::Heading { .. } => "Heading"@,
        AstNode::Paragraph { .. } => "Paragraph"@,
        AstNode::Text { .. } => "Text"@,
        AstNode::Wikilink { .. } => "Wikilink"@,
        AstNode::InlineCode { .. } => "InlineCode"@,
        AstNode::CodeBlock { .. } => "CodeBlock"@,
        AstNode::Link { .. } => "Link"@,
        AstNode::Image { .. } => "Image"@,
        AstNode::Math { .. } => "Math"@,
        AstNode::Blockquote { .. } => "Blockquote"@,
        AstNode::List { .. } => "List"@,
        AstNode::ListItem { .. } => "ListItem"@,
        AstNode::ThematicBreak => "ThematicBreak"@,
        AstNode::Strong { .. } => "Strong"@,
        AstNode::Emphasis { .. } => "Emphasis"@,
        AstNode::Table { .. } => "Table"@,
        AstNode::TableHead { .. } => "TableHead"@,
        AstNode::TableRow { .. } => "TableRow"@,
        AstNode::TableCell { .. } => "TableCell"@,
        AstNode::Strikethrough { .. } => "Strikethrough"@,
        AstNode::TaskListMarker { .. } => "TaskListMarker"@,
        AstNode::FootnoteDefinition { .. } => "FootnoteDefinition"@,
        AstNode::FootnoteReference { .. } => "FootnoteReference"@,
        AstNode::DefinitionList { .. } => "DefinitionList"@,
        AstNode::DefinitionListTitle { .. } => "DefinitionListTitle"@,
        AstNode::DefinitionListDefinition { .. } => "DefinitionListDefinition"@,
        AstNode::Cloze { .. } => "Cloze"@,
        AstNode::ConceptRef { .. } => "ConceptRef"@,
        AstNode::Admonition { .. } => "Admonition"@,
    }
}

/// The message of the error raised when a child is pushed onto the leaf `n`.
pub open spec fn leaf_push_message(n: AstNode) -> Seq<char> {
    "Cannot push child to leaf node \""@ + variant_label(n) + "\""@
}

impl AstNode {
    /// Appends `child` to this node's children.
    ///
    /// Containers gain `child` as their last child; pushing onto a leaf
    /// fails with `InvalidOperation` and leaves the node unchanged.
    pub fn push_child(&mut self, child: AstNode) -> (r: Result<(), MSError>)
        ensures
            is_container(*old(self)) ==> {
                &&& r is Ok
                &&& same_except_children(*final(self), *old(self))
                &&& children_of(*final(self)) == children_of(*old(self)).push(child)
            },
            !is_container(*old(self)) ==> {
                &&& *final(self) == *old(self)
                &&& r matches Err(MSError::InvalidOperation(m)) && m@ == leaf_push_message(*old(self))
            },
    {
        match self {
            AstNode::Root { children } => { children.push(child); Ok(()) },
            AstNode::Heading { children, .. } => { children.push(child); Ok(()) },
            AstNode::Paragraph { children } => { children.push(child); Ok(()) },
            AstNode::Blockquote { children } => { children.push(child); Ok(()) },
            AstNode::List { children, .. } => { children.push(child); Ok(()) },
            AstNode::ListItem { children } => { children.push(child); Ok(()) },
            AstNode::Strong { children } => { children.push(child); Ok(()) },
            AstNode::Emphasis { children } => { children.push(child); Ok(()) },
            AstNode::Link { children, .. } => { children.push(child); Ok(()) },
            AstNode::Table { children, .. } => { children.push(child); Ok(()) },
            AstNode::TableHead { children } => { children.push(child); Ok(()) },
            AstNode::TableRow { children } => { children.push(child); Ok(()) },
            AstNode::TableCell { children } => { children.push(child); Ok(()) },
            AstNode::Strikethrough { children } => { children.push(child); Ok(()) },
            AstNode::FootnoteDefinition { children, .. } => { children.push(child); Ok(()) },
            AstNode::DefinitionList { children } => { children.push(child); Ok(()) },
            AstNode::DefinitionListTitle { children } => { children.push(child); Ok(()) },
            AstNode::DefinitionListDefinition { children } => { children.push(child); Ok(()) },
            AstNode::Cloze { children } => { children.push(child); Ok(()) },
            AstNode::Admonition { children, .. } => { children.push(child); Ok(()) },
            _ => {
                let mut m = String::new();
                push_str(&mut m, "Cannot push child to leaf node \"");
                push_str(&mut m, self.variant_name());
                push_str(&mut m, "\"");
                Err(MSError::InvalidOperation(m))
            },
        }
    }

    /// The name of the node's variant, used in error messages.
    pub fn variant_name(&self) -> (r: &'static str)
        ensures
            r@ == variant_label(*self),
    {
        match self {
            AstNode::Root { .. } => "Root",
            AstNode::Heading { .. } => "Heading",
            AstNode::Paragraph { .. } => "Paragraph",
            AstNode::Text { .. } => "Text",
            AstNode::Wikilink { .. } => "Wikilink",
            AstNode::InlineCode { .. } => "InlineCode",
            AstNode::CodeBlock { .. } => "CodeBlock",
            AstNode::Link { .. } => "Link",
            AstNode::Image { .. } => "Image",
            AstNode::Math { .. } => "Math",
            AstNode::Blockquote { .. } => "Blockquote",
            AstNode::List { .. } => "List",
            AstNode::ListItem { .. } => "ListItem",
            AstNode::ThematicBreak => "ThematicBreak",
            AstNode::Strong { .. } => "Strong",
            AstNode::Emphasis { .. } => "Emphasis",
            AstNode::Table { .. } => "Table",
            AstNode::TableHead { .. } => "TableHead",
            AstNode::TableRow { .. } => "TableRow",
            AstNode::TableCell { .. } => "TableCell",
            AstNode::Strikethrough { .. } => "Strikethrough",
            AstNode::TaskListMarker { .. } => "TaskListMarker",
            AstNode::FootnoteDefinition { .. } => "FootnoteDefinition",
            AstNode::FootnoteReference { .. } => "FootnoteReference",
            AstNode::DefinitionList { .. } => "DefinitionList",
            AstNode::DefinitionListTitle { .. } => "DefinitionListTitle",
            AstNode::DefinitionListDefinition { .. } => "DefinitionListDefinition",
            AstNode::Cloze { .. } => "Cloze",
            AstNode::ConceptRef { .. } => "ConceptRef",
            AstNode::Admonition { .. } => "Admonition",
        }
    }
}

} // verus!
