//! Mathematical model of knowledge-card trees.
//!
//! [`Tree`] mirrors [`AstNode`] with sequences in place of vectors and
//! character sequences in place of strings; [`tree_view`] maps a node to it.

use vstd::prelude::*;
use crate::ms_ast::node::{
    AdmonitionKind, AlignType, AstNode, TaskStatus, children_of, is_container, same_except_children, variant_label,
};

verus! {

/// The model of a syntax-tree node.
pub enum Tree {
    Root { children: Seq<Tree> },
    Heading { level: u8, children: Seq<Tree>, status: Option<TaskStatus> },
    Paragraph { children: Seq<Tree> },
    Text { value: Seq<char> },
    Wikilink { target: Seq<char>, alias: Option<Seq<char>> },
    InlineCode { value: Seq<char> },
    CodeBlock { language: Option<Seq<char>>, value: Seq<char> },
    Link { url: Seq<char>, children: Seq<Tree> },
    Image { url: Seq<char>, alt: Seq<char> },
    Math { value: Seq<char>, inline: bool },
    Blockquote { children: Seq<Tree> },
    List { ordered: bool, start: Option<u64>, children: Seq<Tree> },
    ListItem { children: Seq<Tree> },
    ThematicBreak,
    Strong { children: Seq<Tree> },
    Emphasis { children: Seq<Tree> },
    Table { alignments: Seq<Option<AlignType>>, children: Seq<Tree> },
    TableHead { children: Seq<Tree> },
    TableRow { children: Seq<Tree> },
    TableCell { children: Seq<Tree> },
    Strikethrough { children: Seq<Tree> },
    TaskListMarker { checked: bool },
    FootnoteDefinition { name: Seq<char>, children: Seq<Tree> },
    FootnoteReference { name: Seq<char> },
    DefinitionList { children: Seq<Tree> },
    DefinitionListTitle { children: Seq<Tree> },
    DefinitionListDefinition { children: Seq<Tree> },
    Cloze { children: Seq<Tree> },
    ConceptRef { term: Seq<char> },
    Admonition { kind: AdmonitionKind, children: Seq<Tree> },
}

/// The model of a node.
pub open spec fn tree_view(n: AstNode) -> Tree
    decreases n,
{
    match n {
        AstNode::Root { children } => Tree::Root { children: tree_view_list(children@) },
        AstNode::Heading { level, children, status } => Tree::Heading { level: level, children: tree_view_list(children@), status: status },
        AstNode::Paragraph { children } => Tree::Paragraph { children: tree_view_list(children@) },
        AstNode::Text { value } => Tree::Text { value: value@ },
        AstNode::Wikilink { target, alias } => Tree::Wikilink { target: target@, alias: match alias { Some(x) => Some(x@), None => None } },
        AstNode::InlineCode { value } => Tree::InlineCode { value: value@ },
        AstNode::CodeBlock { language, value } => Tree::CodeBlock { language: match language { Some(x) => Some(x@), None => None }, value: value@ },
        AstNode::Link { url, children } => Tree::Link { url: url@, children: tree_view_list(children@) },
        AstNode::Image { url, alt } => Tree::Image { url: url@, alt: alt@ },
        AstNode::Math { value, inline } => Tree::Math { value: value@, inline: inline },
        AstNode::Blockquote { children } => Tree::Blockquote { children: tree_view_list(children@) },
        AstNode::List { ordered, start, children } => Tree::List { ordered: ordered, start: start, children: tree_view_list(children@) },
        AstNode::ListItem { children } => Tree::ListItem { children: tree_view_list(children@) },
        AstNode::ThematicBreak => Tree::ThematicBreak,
        AstNode::Strong { children } => Tree::Strong { children: tree_view_list(children@) },
        AstNode::Emphasis { children } => Tree::Emphasis { children: tree_view_list(children@) },
        AstNode::Table { alignments, children } => Tree::Table { alignments: alignments@, children: tree_view_list(children@) },
        AstNode::TableHead { children } => Tree::TableHead { children: tree_view_list(children@) },
        AstNode::TableRow { children } => Tree::TableRow { children: tree_view_list(children@) },
        AstNode::TableCell { children } => Tree::TableCell { children: tree_view_list(children@) },
        AstNode::Strikethrough { children } => Tree::Strikethrough { children: tree_view_list(children@) },
        AstNode::TaskListMarker { checked } => Tree::TaskListMarker { checked: checked },
        AstNode::FootnoteDefinition { name, children } => Tree::FootnoteDefinition { name: name@, children: tree_view_list(children@) },
        AstNode::FootnoteReference { name } => Tree::FootnoteReference { name: name@ },
        AstNode::DefinitionList { children } => Tree::DefinitionList { children: tree_view_list(children@) },
        AstNode::DefinitionListTitle { children } => Tree::DefinitionListTitle { children: tree_view_list(children@) },
        AstNode::DefinitionListDefinition { children } => Tree::DefinitionListDefinition { children: tree_view_list(children@) },
        AstNode::Cloze { children } => Tree::Cloze { children: tree_view_list(children@) },
        AstNode::ConceptRef { term } => Tree::ConceptRef { term: term@ },
        AstNode::Admonition { kind, children } => Tree::Admonition { kind: kind, children: tree_view_list(children@) },
    }
}

/// The models of a list of nodes.
pub open spec fn tree_view_list(s: Seq<AstNode>) -> Seq<Tree>
    decreases s,
{
    if s.len() == 0 {
        Seq::empty()
    } else {
        tree_view_list(s.drop_last()).push(tree_view(s.last()))
    }
}

/// Viewing a list with one more node appends that node's model.
pub proof fn lemma_tree_view_list_push(s: Seq<AstNode>, x: AstNode)
    ensures
        tree_view_list(s.push(x)) == tree_view_list(s).push(tree_view(x)),
{
    assert(s.push(x).drop_last() =~= s);
}

/// Viewing keeps the length, the last element and the prefix.
pub proof fn lemma_tree_view_list_len(s: Seq<AstNode>)
    ensures
        tree_view_list(s).len() == s.len(),
        s.len() > 0 ==> tree_view_list(s).last() == tree_view(s.last()),
        s.len() > 0 ==> tree_view_list(s).drop_last() == tree_view_list(s.drop_last()),
    decreases s.len(),
{
    if s.len() > 0 {
        lemma_tree_view_list_len(s.drop_last());
    }
}

/// Each element of a viewed list is the view of the element.
pub proof fn lemma_tree_view_list_index(s: Seq<AstNode>)
    ensures
        tree_view_list(s).len() == s.len(),
        forall|i: int| 0 <= i < s.len() ==> #[trigger] tree_view_list(s)[i] == tree_view(s[i]),
    decreases s.len(),
{
    if s.len() > 0 {
        lemma_tree_view_list_index(s.drop_last());
        assert forall|i: int| 0 <= i < s.len() implies #[trigger] tree_view_list(s)[i] == tree_view(s[i]) by {
            if i < s.len() - 1 {
                assert(s.drop_last()[i] == s[i]);
            }
        }
    }
}

/// Viewing the empty list gives the empty list.
pub proof fn lemma_tree_view_list_empty(s: Seq<AstNode>)
    requires
        s.len() == 0,
    ensures
        tree_view_list(s) == Seq::<Tree>::empty(),
{
}

/// Whether the modelled node accepts children.
pub open spec fn tree_is_container(t: Tree) -> bool {
    match t {
        Tree::Root { .. } => true,
        Tree::Heading { .. } => true,
        Tree::Paragraph { .. } => true,
        Tree::Link { .. } => true,
        Tree::Blockquote { .. } => true,
        Tree::List { .. } => true,
        Tree::ListItem { .. } => true,
        Tree::Strong { .. } => true,
        Tree::Emphasis { .. } => true,
        Tree::Table { .. } => true,
        Tree::TableHead { .. } => true,
        Tree::TableRow { .. } => true,
        Tree::TableCell { .. } => true,
        Tree::Strikethrough { .. } => true,
        Tree::FootnoteDefinition { .. } => true,
        Tree::DefinitionList { .. } => true,
        Tree::DefinitionListTitle { .. } => true,
        Tree::DefinitionListDefinition { .. } => true,
        Tree::Cloze { .. } => true,
        Tree::Admonition { .. } => true,
        _ => false,
    }
}

/// The modelled node with `kids` appended to its children (unchanged for leaves).
pub open spec fn tree_append(t: Tree, kids: Seq<Tree>) -> Tree {
    match t {
        Tree::Root { children } => Tree::Root { children: children + kids },
        Tree::Heading { level, children, status } => Tree::Heading { level, children: children + kids, status },
        Tree::Paragraph { children } => Tree::Paragraph { children: children + kids },
        Tree::Link { url, children } => Tree::Link { url, children: children + kids },
        Tree::Blockquote { children } => Tree::Blockquote { children: children + kids },
        Tree::List { ordered, start, children } => Tree::List { ordered, start, children: children + kids },
        Tree::ListItem { children } => Tree::ListItem { children: children + kids },
        Tree::Strong { children } => Tree::Strong { children: children + kids },
        Tree::Emphasis { children } => Tree::Emphasis { children: children + kids },
        Tree::Table { alignments, children } => Tree::Table { alignments, children: children + kids },
        Tree::TableHead { children } => Tree::TableHead { children: children + kids },
        Tree::TableRow { children } => Tree::TableRow { children: children + kids },
        Tree::TableCell { children } => Tree::TableCell { children: children + kids },
        Tree::Strikethrough { children } => Tree::Strikethrough { children: children + kids },
        Tree::FootnoteDefinition { name, children } => Tree::FootnoteDefinition { name, children: children + kids },
        Tree::DefinitionList { children } => Tree::DefinitionList { children: children + kids },
        Tree::DefinitionListTitle { children } => Tree::DefinitionListTitle { children: children + kids },
        Tree::DefinitionListDefinition { children } => Tree::DefinitionListDefinition { children: children + kids },
        Tree::Cloze { children } => Tree::Cloze { children: children + kids },
        Tree::Admonition { kind, children } => Tree::Admonition { kind, children: children + kids },
        _ => t,
    }
}

/// The variant name of a modelled node.
pub open spec fn tree_label(t: Tree) -> Seq<char> {
    match t {
        Tree::Root { .. } => "Root"@,
        Tree::Heading { .. } => "Heading"@,
        Tree::Paragraph { .. } => "Paragraph"@,
        Tree::Text { .. } => "Text"@,
        Tree::Wikilink { .. } => "Wikilink"@,
        Tree::InlineCode { .. } => "InlineCode"@,
        Tree::CodeBlock { .. } => "CodeBlock"@,
        Tree::Link { .. } => "Link"@,
        Tree::Image { .. } => "Image"@,
        Tree::Math { .. } => "Math"@,
        Tree::Blockquote { .. } => "Blockquote"@,
        Tree::List { .. } => "List"@,
        Tree::ListItem { .. } => "ListItem"@,
        Tree::ThematicBreak => "ThematicBreak"@,
        Tree::Strong { .. } => "Strong"@,
        Tree::Emphasis { .. } => "Emphasis"@,
        Tree::Table { .. } => "Table"@,
        Tree::TableHead { .. } => "TableHead"@,
        Tree::TableRow { .. } => "TableRow"@,
        Tree::TableCell { .. } => "TableCell"@,
        Tree::Strikethrough { .. } => "Strikethrough"@,
        Tree::TaskListMarker { .. } => "TaskListMarker"@,
        Tree::FootnoteDefinition { .. } => "FootnoteDefinition"@,
        Tree::FootnoteReference { .. } => "FootnoteReference"@,
        Tree::DefinitionList { .. } => "DefinitionList"@,
        Tree::DefinitionListTitle { .. } => "DefinitionListTitle"@,
        Tree::DefinitionListDefinition { .. } => "DefinitionListDefinition"@,
        Tree::Cloze { .. } => "Cloze"@,
        Tree::ConceptRef { .. } => "ConceptRef"@,
        Tree::Admonition { .. } => "Admonition"@,
    }
}

/// Labels and containers agree between a node and its model.
pub proof fn lemma_tree_view_shape(n: AstNode)
    ensures
        tree_is_container(tree_view(n)) == is_container(n),
        tree_label(tree_view(n)) == variant_label(n),
{
}

/// The model of a node that gained one child.
pub proof fn lemma_push_child_model(a: AstNode, b: AstNode, child: AstNode)
    requires
        is_container(a),
        same_except_children(b, a),
        children_of(b) == children_of(a).push(child),
    ensures
        tree_view(b) == tree_append(tree_view(a), seq![tree_view(child)]),
{
    lemma_tree_view_list_push(children_of(a), child);
    assert(tree_view_list(children_of(a)).push(tree_view(child)) =~= tree_view_list(children_of(a)) + seq![tree_view(child)]);
}


/// Viewing commutes with replacing one element.
pub proof fn lemma_tree_view_list_update(s: Seq<AstNode>, i: int, x: AstNode)
    requires
        0 <= i < s.len(),
    ensures
        tree_view_list(s.update(i, x)) == tree_view_list(s).update(i, tree_view(x)),
{
    lemma_tree_view_list_index(s);
    lemma_tree_view_list_index(s.update(i, x));
    assert(tree_view_list(s.update(i, x)) =~= tree_view_list(s).update(i, tree_view(x)));
}

/// Viewing commutes with dropping the first element.
pub proof fn lemma_tree_view_list_skip(s: Seq<AstNode>)
    requires
        s.len() > 0,
    ensures
        tree_view_list(s.skip(1)) == tree_view_list(s).skip(1),
{
    lemma_tree_view_list_index(s);
    lemma_tree_view_list_index(s.skip(1));
    assert(tree_view_list(s.skip(1)) =~= tree_view_list(s).skip(1));
}

/// Appending twice to a container appends the concatenation.
pub proof fn lemma_tree_append_twice(t: Tree, a: Seq<Tree>, b: Seq<Tree>)
    requires
        tree_is_container(t),
    ensures
        tree_is_container(tree_append(t, a)),
        tree_label(tree_append(t, a)) == tree_label(t),
        tree_append(tree_append(t, a), b) == tree_append(t, a + b),
{
    assert forall|c: Seq<Tree>| #[trigger] ((c + a) + b) == c + (a + b) by {
        assert((c + a) + b =~= c + (a + b));
    }
}

/// Appending nothing changes nothing.
pub proof fn lemma_tree_append_empty(t: Tree)
    ensures
        tree_append(t, Seq::empty()) == t,
{
    assert forall|c: Seq<Tree>| #[trigger] (c + Seq::<Tree>::empty()) == c by {
        assert(c + Seq::<Tree>::empty() =~= c);
    }
}

} // verus!
