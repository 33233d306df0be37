//! Traversal of knowledge-card trees and plain-text extraction.
//!
//! [`AstVisitor`] has one hook per node variant. The hooks of containers
//! return whether the walk goes on into the node's children; [`walk`]
//! dispatches each node to its hook in document order, and its contract
//! folds the hooks' own contracts over the tree ([`walked`]).

use vstd::prelude::*;
use crate::ms_ast::node::{AdmonitionKind, AlignType, AstNode};
use crate::text::push_str;

pub use crate::slug::{generate_slug, is_cjk};

verus! {

/// One call of a visitor's hook, with what the hook is shown: the node's
/// fields as plain values (children as a sequence).
pub enum Visit {
    Root(Seq<AstNode>),
    Heading(u8, Seq<AstNode>),
    Paragraph(Seq<AstNode>),
    Blockquote(Seq<AstNode>),
    List(bool, Option<u64>, Seq<AstNode>),
    ListItem(Seq<AstNode>),
    Strong(Seq<AstNode>),
    Emphasis(Seq<AstNode>),
    Link(Seq<char>, Seq<AstNode>),
    Table(Seq<Option<AlignType>>, Seq<AstNode>),
    TableHead(Seq<AstNode>),
    TableRow(Seq<AstNode>),
    TableCell(Seq<AstNode>),
    Strikethrough(Seq<AstNode>),
    FootnoteDefinition(Seq<char>, Seq<AstNode>),
    DefinitionList(Seq<AstNode>),
    DefinitionListTitle(Seq<AstNode>),
    DefinitionListDefinition(Seq<AstNode>),
    Cloze(Seq<AstNode>),
    Admonition(AdmonitionKind, Seq<AstNode>),
    ConceptRef(Seq<char>),
    Text(Seq<char>),
    Wikilink(Seq<char>, Option<Seq<char>>),
    InlineCode(Seq<char>),
    CodeBlock(Option<Seq<char>>, Seq<char>),
    Image(Seq<char>, Seq<char>),
    Math(Seq<char>, bool),
    ThematicBreak,
    TaskListMarker(bool),
    FootnoteLink(Seq<char>),
}

/// An optional slice as an optional sequence.
pub open spec fn opt_seq(o: Option<&str>) -> Option<Seq<char>> {
    match o {
        Some(x) => Some(x@),
        None => None,
    }
}

/// An optional string as an optional sequence.
pub open spec fn opt_view(o: Option<String>) -> Option<Seq<char>> {
    match o {
        Some(x) => Some(x@),
        None => None,
    }
}

/// A visitor over a knowledge-card tree. An implementor describes its hooks
/// by two spec functions: [`AstVisitor::after`], the visitor after a hook
/// call, and [`AstVisitor::enters`], whether [`walk`] goes on into the
/// children of a container whose hook was called (a hook that handles the
/// children itself answers `false`). Each hook is held to them.
pub trait AstVisitor: Sized {
    /// The visitor after the hook call `v` (by default, unchanged).
    open spec fn after(self, v: Visit) -> Self {
        self
    }

    /// Whether the walk descends into the children after the container hook
    /// call `v` (by default, it does).
    open spec fn enters(self, v: Visit) -> bool {
        true
    }

    fn visit_root(&mut self, children: &[AstNode]) -> (r: bool)
        ensures
            *final(self) == old(self).after(Visit::Root(children@)),
            r == old(self).enters(Visit::Root(children@)),
    ;

    fn visit_heading(&mut self, level: u8, children: &[AstNode]) -> (r: bool)
        ensures
            *final(self) == old(self).after(Visit::Heading(level, children@)),
            r == old(self).enters(Visit::Heading(level, children@)),
    ;

    fn visit_paragraph(&mut self, children: &[AstNode]) -> (r: bool)
        ensures
            *final(self) == old(self).after(Visit::Paragraph(children@)),
            r == old(self).enters(Visit::Paragraph(children@)),
    ;

    fn visit_blockquote(&mut self, children: &[AstNode]) -> (r: bool)
        ensures
            *final(self) == old(self).after(Visit::Blockquote(children@)),
            r == old(self).enters(Visit::Blockquote(children@)),
    ;

    fn visit_list(&mut self, ordered: bool, start: Option<u64>, children: &[AstNode]) -> (r: bool)
        ensures
            *final(self) == old(self).after(Visit::List(ordered, start, children@)),
            r == old(self).enters(Visit::List(ordered, start, children@)),
    ;

    fn visit_list_item(&mut self, children: &[AstNode]) -> (r: bool)
        ensures
            *final(self) == old(self).after(Visit::ListItem(children@)),
            r == old(self).enters(Visit::ListItem(children@)),
    ;

    fn visit_strong(&mut self, children: &[AstNode]) -> (r: bool)
        ensures
            *final(self) == old(self).after(Visit::Strong(children@)),
            r == old(self).enters(Visit::Strong(children@)),
    ;

    fn visit_emphasis(&mut self, children: &[AstNode]) -> (r: bool)
        ensures
            *final(self) == old(self).after(Visit::Emphasis(children@)),
            r == old(self).enters(Visit::Emphasis(children@)),
    ;

    fn visit_link(&mut self, url: &str, children: &[AstNode]) -> (r: bool)
        ensures
            *final(self) == old(self).after(Visit::Link(url@, children@)),
            r == old(self).enters(Visit::Link(url@, children@)),
    ;

    fn visit_table(&mut self, alignments: &[Option<AlignType>], children: &[AstNode]) -> (r: bool)
        ensures
            *final(self) == old(self).after(Visit::Table(alignments@, children@)),
            r == old(self).enters(Visit::Table(alignments@, children@)),
    ;

    fn visit_table_head(&mut self, children: &[AstNode]) -> (r: bool)
        ensures
            *final(self) == old(self).after(Visit::TableHead(children@)),
            r == old(self).enters(Visit::TableHead(children@)),
    ;

    fn visit_table_row(&mut self, children: &[AstNode]) -> (r: bool)
        ensures
            *final(self) == old(self).after(Visit::TableRow(children@)),
            r == old(self).enters(Visit::TableRow(children@)),
    ;

    fn visit_table_cell(&mut self, children: &[AstNode]) -> (r: bool)
        ensures
            *final(self) == old(self).after(Visit::TableCell(children@)),
            r == old(self).enters(Visit::TableCell(children@)),
    ;

    fn visit_strikethrough(&mut self, children: &[AstNode]) -> (r: bool)
        ensures
            *final(self) == old(self).after(Visit::Strikethrough(children@)),
            r == old(self).enters(Visit::Strikethrough(children@)),
    ;

    fn visit_footnote_definition(&mut self, name: &str, children: &[AstNode]) -> (r: bool)
        ensures
            *final(self) == old(self).after(Visit::FootnoteDefinition(name@, children@)),
            r == old(self).enters(Visit::FootnoteDefinition(name@, children@)),
    ;

    fn visit_definition_list(&mut self, children: &[AstNode]) -> (r: bool)
        ensures
            *final(self) == old(self).after(Visit::DefinitionList(children@)),
            r == old(self).enters(Visit::DefinitionList(children@)),
    ;

    fn visit_definition_list_title(&mut self, children: &[AstNode]) -> (r: bool)
        ensures
            *final(self) == old(self).after(Visit::DefinitionListTitle(children@)),
            r == old(self).enters(Visit::DefinitionListTitle(children@)),
    ;

    fn visit_definition_list_definition(&mut self, children: &[AstNode]) -> (r: bool)
        ensures
            *final(self) == old(self).after(Visit::DefinitionListDefinition(children@)),
            r == old(self).enters(Visit::DefinitionListDefinition(children@)),
    ;

    fn visit_cloze(&mut self, children: &[AstNode]) -> (r: bool)
        ensures
            *final(self) == old(self).after(Visit::Cloze(children@)),
            r == old(self).enters(Visit::Cloze(children@)),
    ;

    fn visit_admonition(&mut self, kind: &AdmonitionKind, children: &[AstNode]) -> (r: bool)
        ensures
            *final(self) == old(self).after(Visit::Admonition(*kind, children@)),
            r == old(self).enters(Visit::Admonition(*kind, children@)),
    ;

    fn visit_concept_ref(&mut self, term: &str)
        ensures
            *final(self) == old(self).after(Visit::ConceptRef(term@)),
    ;

    fn visit_text(&mut self, value: &str)
        ensures
            *final(self) == old(self).after(Visit::Text(value@)),
    ;

    fn visit_wikilink(&mut self, target: &str, alias: Option<&str>)
        ensures
            *final(self) == old(self).after(Visit::Wikilink(target@, opt_seq(alias))),
    ;

    fn visit_inline_code(&mut self, value: &str)
        ensures
            *final(self) == old(self).after(Visit::InlineCode(value@)),
    ;

    fn visit_code_block(&mut self, language: Option<&str>, value: &str)
        ensures
            *final(self) == old(self).after(Visit::CodeBlock(opt_seq(language), value@)),
    ;

    fn visit_image(&mut self, url: &str, alt: &str)
        ensures
            *final(self) == old(self).after(Visit::Image(url@, alt@)),
    ;

    fn visit_math(&mut self, value: &str, inline: bool)
        ensures
            *final(self) == old(self).after(Visit::Math(value@, inline)),
    ;

    fn visit_thematic_break(&mut self)
        ensures
            *final(self) == old(self).after(Visit::ThematicBreak),
    ;

    fn visit_task_list_marker(&mut self, checked: bool)
        ensures
            *final(self) == old(self).after(Visit::TaskListMarker(checked)),
    ;

    fn visit_footnote_link(&mut self, name: &str)
        ensures
            *final(self) == old(self).after(Visit::FootnoteLink(name@)),
    ;

}

/// Optional string as an optional slice.
fn opt_str(s: &Option<String>) -> (r: Option<&str>)
    ensures
        opt_seq(r) == opt_view(*s),
{
    match s {
        Some(x) => Some(x.as_str()),
        None => None,
    }
}

/// The visitor after walking `n`: the node's hook is called, then, for a
/// container whose hook asks for it, its children are walked in order.
pub open spec fn walked<V: AstVisitor>(v: V, n: AstNode) -> V
    decreases n,
{
    match n {
        AstNode::Root { children } => {
            let call = Visit::Root(children@);
            if v.enters(call) { walked_list(v.after(call), children@) } else { v.after(call) }
        },
        AstNode::Heading { level, children, .. } => {
            let call = Visit::Heading(level, children@);
            if v.enters(call) { walked_list(v.after(call), children@) } else { v.after(call) }
        },
        AstNode::Paragraph { children } => {
            let call = Visit::Paragraph(children@);
            if v.enters(call) { walked_list(v.after(call), children@) } else { v.after(call) }
        },
        AstNode::Blockquote { children } => {
            let call = Visit::Blockquote(children@);
            if v.enters(call) { walked_list(v.after(call), children@) } else { v.after(call) }
        },
        AstNode::List { ordered, start, children } => {
            let call = Visit::List(ordered, start, children@);
            if v.enters(call) { walked_list(v.after(call), children@) } else { v.after(call) }
        },
        AstNode::ListItem { children } => {
            let call = Visit::ListItem(children@);
            if v.enters(call) { walked_list(v.after(call), children@) } else { v.after(call) }
        },
        AstNode::Strong { children } => {
            let call = Visit::Strong(children@);
            if v.enters(call) { walked_list(v.after(call), children@) } else { v.after(call) }
        },
        AstNode::Emphasis { children } => {
            let call = Visit::Emphasis(children@);
            if v.enters(call) { walked_list(v.after(call), children@) } else { v.after(call) }
        },
        AstNode::Link { url, children } => {
            let call = Visit::Link(url@, children@);
            if v.enters(call) { walked_list(v.after(call), children@) } else { v.after(call) }
        },
        AstNode::Table { alignments, children } => {
            let call = Visit::Table(alignments@, children@);
            if v.enters(call) { walked_list(v.after(call), children@) } else { v.after(call) }
        },
        AstNode::TableHead { children } => {
            let call = Visit::TableHead(children@);
            if v.enters(call) { walked_list(v.after(call), children@) } else { v.after(call) }
        },
        AstNode::TableRow { children } => {
            let call = Visit::TableRow(children@);
            if v.enters(call) { walked_list(v.after(call), children@) } else { v.after(call) }
        },
        AstNode::TableCell { children } => {
            let call = Visit::TableCell(children@);
            if v.enters(call) { walked_list(v.after(call), children@) } else { v.after(call) }
        },
        AstNode::Strikethrough { children } => {
            let call = Visit::Strikethrough(children@);
            if v.enters(call) { walked_list(v.after(call), children@) } else { v.after(call) }
        },
        AstNode::FootnoteDefinition { name, children } => {
            let call = Visit::FootnoteDefinition(name@, children@);
            if v.enters(call) { walked_list(v.after(call), children@) } else { v.after(call) }
        },
        AstNode::DefinitionList { children } => {
            let call = Visit::DefinitionList(children@);
            if v.enters(call) { walked_list(v.after(call), children@) } else { v.after(call) }
        },
        AstNode::DefinitionListTitle { children } => {
            let call = Visit::DefinitionListTitle(children@);
            if v.enters(call) { walked_list(v.after(call), children@) } else { v.after(call) }
        },
        AstNode::DefinitionListDefinition { children } => {
            let call = Visit::DefinitionListDefinition(children@);
            if v.enters(call) { walked_list(v.after(call), children@) } else { v.after(call) }
        },
        AstNode::Cloze { children } => {
            let call = Visit::Cloze(children@);
            if v.enters(call) { walked_list(v.after(call), children@) } else { v.after(call) }
        },
        AstNode::Admonition { kind, children } => {
            let call = Visit::Admonition(kind, children@);
            if v.enters(call) { walked_list(v.after(call), children@) } else { v.after(call) }
        },
        AstNode::ConceptRef { term } => v.after(Visit::ConceptRef(term@)),
        AstNode::Text { value } => v.after(Visit::Text(value@)),
        AstNode::Wikilink { target, alias } => v.after(Visit::Wikilink(target@, opt_view(alias))),
        AstNode::InlineCode { value } => v.after(Visit::InlineCode(value@)),
        AstNode::CodeBlock { language, value } => v.after(Visit::CodeBlock(opt_view(language), value@)),
        AstNode::Image { url, alt } => v.after(Visit::Image(url@, alt@)),
        AstNode::Math { value, inline } => v.after(Visit::Math(value@, inline)),
        AstNode::ThematicBreak => v.after(Visit::ThematicBreak),
        AstNode::TaskListMarker { checked } => v.after(Visit::TaskListMarker(checked)),
        AstNode::FootnoteReference { name } => v.after(Visit::FootnoteLink(name@)),
    }
}

/// The visitor after walking each node of `s` in order.
pub open spec fn walked_list<V: AstVisitor>(v: V, s: Seq<AstNode>) -> V
    decreases s,
{
    if s.len() == 0 {
        v
    } else {
        walked(walked_list(v, s.drop_last()), s.last())
    }
}

/// Walks `node` with `visitor`: the node goes to its hook, and the walk
/// descends into a container's children, in order, when the hook asks for
/// it (see [`walked`]).
pub fn walk<V: AstVisitor>(visitor: &mut V, node: &AstNode)
    ensures
        *final(visitor) == walked(*old(visitor), *node),
    decreases node,
{
    match node {
        AstNode::Root { children } => {
            if visitor.visit_root(children.as_slice()) {
                walk_list(visitor, children);
            }
        },
        AstNode::Heading { level, children, .. } => {
            if visitor.visit_heading(*level, children.as_slice()) {
                walk_list(visitor, children);
            }
        },
        AstNode::Paragraph { children } => {
            if visitor.visit_paragraph(children.as_slice()) {
                walk_list(visitor, children);
            }
        },
        AstNode::Blockquote { children } => {
            if visitor.visit_blockquote(children.as_slice()) {
                walk_list(visitor, children);
            }
        },
        AstNode::List { ordered, start, children } => {
            if visitor.visit_list(*ordered, *start, children.as_slice()) {
                walk_list(visitor, children);
            }
        },
        AstNode::ListItem { children } => {
            if visitor.visit_list_item(children.as_slice()) {
                walk_list(visitor, children);
            }
        },
        AstNode::Strong { children } => {
            if visitor.visit_strong(children.as_slice()) {
                walk_list(visitor, children);
            }
        },
        AstNode::Emphasis { children } => {
            if visitor.visit_emphasis(children.as_slice()) {
                walk_list(visitor, children);
            }
        },
        AstNode::Link { url, children } => {
            if visitor.visit_link(url.as_str(), children.as_slice()) {
                walk_list(visitor, children);
            }
        },
        AstNode::Table { alignments, children } => {
            if visitor.visit_table(alignments.as_slice(), children.as_slice()) {
                walk_list(visitor, children);
            }
        },
        AstNode::TableHead { children } => {
            if visitor.visit_table_head(children.as_slice()) {
                walk_list(visitor, children);
            }
        },
        AstNode::TableRow { children } => {
            if visitor.visit_table_row(children.as_slice()) {
                walk_list(visitor, children);
            }
        },
        AstNode::TableCell { children } => {
            if visitor.visit_table_cell(children.as_slice()) {
                walk_list(visitor, children);
            }
        },
        AstNode::Strikethrough { children } => {
            if visitor.visit_strikethrough(children.as_slice()) {
                walk_list(visitor, children);
            }
        },
        AstNode::FootnoteDefinition { name, children } => {
            if visitor.visit_footnote_definition(name.as_str(), children.as_slice()) {
                walk_list(visitor, children);
            }
        },
        AstNode::DefinitionList { children } => {
            if visitor.visit_definition_list(children.as_slice()) {
                walk_list(visitor, children);
            }
        },
        AstNode::DefinitionListTitle { children } => {
            if visitor.visit_definition_list_title(children.as_slice()) {
                walk_list(visitor, children);
            }
        },
        AstNode::DefinitionListDefinition { children } => {
            if visitor.visit_definition_list_definition(children.as_slice()) {
                walk_list(visitor, children);
            }
        },
        AstNode::Cloze { children } => {
            if visitor.visit_cloze(children.as_slice()) {
                walk_list(visitor, children);
            }
        },
        AstNode::Admonition { kind, children } => {
            if visitor.visit_admonition(kind, children.as_slice()) {
                walk_list(visitor, children);
            }
        },
        AstNode::ConceptRef { term } => visitor.visit_concept_ref(term.as_str()),
        AstNode::Text { value } => visitor.visit_text(value.as_str()),
        AstNode::Wikilink { target, alias } => visitor.visit_wikilink(target.as_str(), opt_str(alias)),
        AstNode::InlineCode { value } => visitor.visit_inline_code(value.as_str()),
        AstNode::CodeBlock { language, value } => visitor.visit_code_block(opt_str(language), value.as_str()),
        AstNode::Image { url, alt } => visitor.visit_image(url.as_str(), alt.as_str()),
        AstNode::Math { value, inline } => visitor.visit_math(value.as_str(), *inline),
        AstNode::ThematicBreak => visitor.visit_thematic_break(),
        AstNode::TaskListMarker { checked } => visitor.visit_task_list_marker(*checked),
        AstNode::FootnoteReference { name } => visitor.visit_footnote_link(name.as_str()),
    }
}

/// Walks each node of `children` in order.
fn walk_list<V: AstVisitor>(visitor: &mut V, children: &Vec<AstNode>)
    ensures
        *final(visitor) == walked_list(*old(visitor), children@),
    decreases children,
{
    let ghost start = *visitor;
    let mut i: usize = 0;
    assert(children@.take(0) =~= Seq::<AstNode>::empty());
    while i < children.len()
        invariant
            i <= children.len(),
            *visitor == walked_list(start, children@.take(i as int)),
        decreases children.len() - i,
    {
        assert(children@.take(i + 1).drop_last() =~= children@.take(i as int));
        walk(visitor, &children[i]);
        i = i + 1;
    }
    assert(children@.take(children.len() as int) =~= children@);
}

/// Walks each node of `children` in order (see [`walked_list`]).
pub fn walk_children<V: AstVisitor>(visitor: &mut V, children: &Vec<AstNode>)
    ensures
        *final(visitor) == walked_list(*old(visitor), children@),
{
    walk_list(visitor, children);
}


/// Plain text of a node: text and code-block contents, a wikilink's alias
/// (or its target when it has none), looking through strong, emphasis,
/// link and paragraph nodes; everything else contributes nothing.
pub open spec fn plain_text(n: AstNode) -> Seq<char>
    decreases n,
{
    match n {
        AstNode::Text { value } => value@,
        AstNode::CodeBlock { value, .. } => value@,
        AstNode::Wikilink { target, alias } => match alias {
            Some(a) => a@,
            None => target@,
        },
        AstNode::Strong { children } => plain_text_list(children@),
        AstNode::Emphasis { children } => plain_text_list(children@),
        AstNode::Link { children, .. } => plain_text_list(children@),
        AstNode::Paragraph { children } => plain_text_list(children@),
        _ => Seq::empty(),
    }
}

/// Plain text of a list of nodes, concatenated in order.
pub open spec fn plain_text_list(s: Seq<AstNode>) -> Seq<char>
    decreases s,
{
    if s.len() == 0 {
        Seq::empty()
    } else {
        plain_text_list(s.drop_last()) + plain_text(s.last())
    }
}

/// Appends the plain text of `node`.
fn append_text(node: &AstNode, out: &mut String)
    ensures
        final(out)@ == old(out)@ + plain_text(*node),
    decreases node,
{
    match node {
        AstNode::Text { value } => push_str(out, value.as_str()),
        AstNode::CodeBlock { value, .. } => push_str(out, value.as_str()),
        AstNode::Wikilink { target, alias } => match alias {
            Some(a) => push_str(out, a.as_str()),
            None => push_str(out, target.as_str()),
        },
        AstNode::Strong { children } => append_text_list(children, out),
        AstNode::Emphasis { children } => append_text_list(children, out),
        AstNode::Link { children, .. } => append_text_list(children, out),
        AstNode::Paragraph { children } => append_text_list(children, out),
        _ => {},
    }
}

/// Appends the plain text of each node of `children`, in order.
fn append_text_list(children: &Vec<AstNode>, out: &mut String)
    ensures
        final(out)@ == old(out)@ + plain_text_list(children@),
    decreases children,
{
    let ghost start = out@;
    let mut i: usize = 0;
    while i < children.len()
        invariant
            i <= children.len(),
            out@ == start + plain_text_list(children@.take(i as int)),
        decreases children.len() - i,
    {
        assert(children@.take(i + 1).drop_last() =~= children@.take(i as int));
        append_text(&children[i], out);
        i = i + 1;
    }
    assert(children@.take(children.len() as int) =~= children@);
}

/// The plain text of `children` (see [`plain_text`]).
pub fn collect_plain_text(children: &[AstNode]) -> (r: String)
    ensures
        r@ == plain_text_list(children@),
{
    let mut out = String::new();
    let mut i: usize = 0;
    while i < children.len()
        invariant
            i <= children.len(),
            out@ == plain_text_list(children@.take(i as int)),
        decreases children.len() - i,
    {
        assert(children@.take(i + 1).drop_last() =~= children@.take(i as int));
        append_text(&children[i], &mut out);
        i = i + 1;
    }
    assert(children@.take(children.len() as int) =~= children@);
    out
}

/// The plain text of two lists of nodes in a row is the plain text of the
/// first followed by that of the second.
pub proof fn law_plain_text_concat(a: Seq<AstNode>, b: Seq<AstNode>)
    ensures
        plain_text_list(a + b) == plain_text_list(a) + plain_text_list(b),
    decreases b.len(),
{
    if b.len() == 0 {
        assert(a + b =~= a);
        assert(plain_text_list(a) + plain_text_list(b) =~= plain_text_list(a));
    } else {
        law_plain_text_concat(a, b.drop_last());
        assert((a + b).drop_last() =~= a + b.drop_last());
        assert((a + b).last() == b.last());
        assert(plain_text_list(a) + plain_text_list(b.drop_last()) + plain_text(b.last())
            =~= plain_text_list(a) + (plain_text_list(b.drop_last()) + plain_text(b.last())));
    }
}

} // verus!
