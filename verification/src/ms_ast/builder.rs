//! Folding a Markdown event stream into a knowledge-card tree.
//!
//! The fold keeps a stack of open elements, with the document root at the
//! bottom, and a buffer of text not yet split into nodes. A start event opens
//! an element; an end event closes the top element (after its heading mark
//! and admonition prefix are read) and appends it to the element below.
//! Text is buffered until the next structural event, so that adjacent text
//! events are split into wikilinks, clozes and concept references as one.

use vstd::prelude::*;
use crate::ms_ast::error::{MSError, MSResult};
use crate::ms_ast::events::{MdEvent, MdTag};
use crate::ms_ast::model::{
    lemma_push_child_model, lemma_tree_append_empty, lemma_tree_append_twice, lemma_tree_view_list_index,
    lemma_tree_view_list_len, lemma_tree_view_list_push, lemma_tree_view_list_skip, lemma_tree_view_list_update,
    lemma_tree_view_shape, tree_append, tree_is_container, tree_label, tree_view, tree_view_list, Tree,
};
use crate::ms_ast::node::{AdmonitionKind, AlignType, AstNode, TaskStatus, children_of, is_container};
use crate::ms_ast::parser::{split_text, split_text_into_nodes, reports, Failure};
use crate::text::{chars_of, has_prefix, push_str, skip_space_start, starts_with_chars, string_of, sub_chars, trimmed_start};

verus! {

/// State of the fold: the open elements and the buffered text.
pub struct PState {
    pub stack: Seq<Tree>,
    pub pending: Seq<char>,
}

/// The state before the first event: the empty root, nothing buffered.
pub open spec fn initial_state() -> PState {
    PState { stack: seq![Tree::Root { children: Seq::empty() }], pending: Seq::empty() }
}

/// Appends `kids` to the top element. Nothing happens on an empty stack or
/// with no kids; a top element that is a leaf refuses them.
pub open spec fn push_into_top(stack: Seq<Tree>, kids: Seq<Tree>) -> Result<Seq<Tree>, Failure> {
    if stack.len() == 0 || kids.len() == 0 {
        Ok(stack)
    } else if tree_is_container(stack.last()) {
        Ok(stack.drop_last().push(tree_append(stack.last(), kids)))
    } else {
        Err(Failure::Leaf(tree_label(stack.last())))
    }
}

/// Splits the buffered text into nodes and appends them to the top element.
pub open spec fn flush(st: PState) -> Result<PState, Failure> {
    if st.pending.len() == 0 || st.stack.len() == 0 {
        Ok(st)
    } else {
        match split_text(st.pending) {
            None => Err(Failure::Pattern),
            Some(kids) => match push_into_top(st.stack, kids) {
                Ok(s) => Ok(PState { stack: s, pending: Seq::empty() }),
                Err(f) => Err(f),
            },
        }
    }
}

/// Text is buffered unless the top element is a code block or an image,
/// which take the text verbatim.
pub open spec fn buffers(stack: Seq<Tree>) -> bool {
    !(stack.len() > 0 && (stack.last() is CodeBlock || stack.last() is Image))
}

/// Text given straight to the top element: the code of a code block, the
/// alternative text of an image, split nodes otherwise.
pub open spec fn text_into_top(stack: Seq<Tree>, t: Seq<char>) -> Result<Seq<Tree>, Failure> {
    if stack.len() == 0 {
        Ok(stack)
    } else {
        match stack.last() {
            Tree::CodeBlock { language, value } => Ok(stack.drop_last().push(Tree::CodeBlock { language, value: value + t })),
            Tree::Image { url, alt } => Ok(stack.drop_last().push(Tree::Image { url, alt: alt + t })),
            _ => match split_text(t) {
                None => Err(Failure::Pattern),
                Some(kids) => push_into_top(stack, kids),
            },
        }
    }
}

/// The element a start tag opens (nothing for HTML and metadata blocks).
pub open spec fn start_node(tag: MdTag) -> Option<Tree> {
    match tag {
        MdTag::Paragraph => Some(Tree::Paragraph { children: Seq::empty() }),
        MdTag::Heading(level) => Some(Tree::Heading { level, children: Seq::empty(), status: None }),
        MdTag::BlockQuote => Some(Tree::Blockquote { children: Seq::empty() }),
        MdTag::CodeBlock { fenced, info } => Some(Tree::CodeBlock {
            language: if fenced && info@.len() > 0 { Some(info@) } else { None },
            value: Seq::empty(),
        }),
        MdTag::List(start) => Some(Tree::List { ordered: start is Some, start, children: Seq::empty() }),
        MdTag::Item => Some(Tree::ListItem { children: Seq::empty() }),
        MdTag::FootnoteDefinition(name) => Some(Tree::FootnoteDefinition { name: name@, children: Seq::empty() }),
        MdTag::DefinitionList => Some(Tree::DefinitionList { children: Seq::empty() }),
        MdTag::DefinitionListTitle => Some(Tree::DefinitionListTitle { children: Seq::empty() }),
        MdTag::DefinitionListDefinition => Some(Tree::DefinitionListDefinition { children: Seq::empty() }),
        MdTag::Table(aligns) => Some(Tree::Table {
            alignments: aligns@.map_values(|a: AlignType| Some(a)),
            children: Seq::empty(),
        }),
        MdTag::TableHead => Some(Tree::TableHead { children: Seq::empty() }),
        MdTag::TableRow => Some(Tree::TableRow { children: Seq::empty() }),
        MdTag::TableCell => Some(Tree::TableCell { children: Seq::empty() }),
        MdTag::Emphasis => Some(Tree::Emphasis { children: Seq::empty() }),
        MdTag::Strong => Some(Tree::Strong { children: Seq::empty() }),
        MdTag::Strikethrough => Some(Tree::Strikethrough { children: Seq::empty() }),
        MdTag::Link(url) => Some(Tree::Link { url: url@, children: Seq::empty() }),
        MdTag::Image(url) => Some(Tree::Image { url: url@, alt: Seq::empty() }),
        MdTag::Other => None,
    }
}

/// `v` after the prefix `p`, without leading white space, when `v` starts with `p`.
pub open spec fn after_prefix(v: Seq<char>, p: Seq<char>) -> Option<Seq<char>> {
    if has_prefix(v, p) {
        Some(trimmed_start(v.skip(p.len() as int)))
    } else {
        None
    }
}

/// The progress mark a heading text starts with, and the text after it.
pub open spec fn heading_mark(v: Seq<char>) -> Option<(TaskStatus, Seq<char>)> {
    if after_prefix(v, "[x]"@) is Some {
        Some((TaskStatus::Done, after_prefix(v, "[x]"@)->0))
    } else if after_prefix(v, "[ ]"@) is Some {
        Some((TaskStatus::Undone, after_prefix(v, "[ ]"@)->0))
    } else if after_prefix(v, "[~]"@) is Some {
        Some((TaskStatus::Unclear, after_prefix(v, "[~]"@)->0))
    } else {
        None
    }
}

/// The admonition prefix a quote text starts with, and the text after it.
pub open spec fn admonition_mark(v: Seq<char>) -> Option<(AdmonitionKind, Seq<char>)> {
    if after_prefix(v, "[!warning]"@) is Some {
        Some((AdmonitionKind::Warning, after_prefix(v, "[!warning]"@)->0))
    } else if after_prefix(v, "[!tip]"@) is Some {
        Some((AdmonitionKind::Tip, after_prefix(v, "[!tip]"@)->0))
    } else if after_prefix(v, "[!question]"@) is Some {
        Some((AdmonitionKind::Question, after_prefix(v, "[!question]"@)->0))
    } else {
        None
    }
}

/// `kids` without its first element when that is an empty text.
pub open spec fn drop_empty_text(kids: Seq<Tree>) -> Seq<Tree> {
    if kids.len() > 0 && kids[0] == (Tree::Text { value: Seq::empty() }) {
        kids.skip(1)
    } else {
        kids
    }
}

/// A heading without a mark takes the mark its first text starts with; an
/// empty first text is then dropped.
pub open spec fn with_heading_mark(t: Tree) -> Tree {
    match t {
        Tree::Heading { level, children, status } => {
            if status is Some {
                t
            } else if children.len() > 0 && children[0] is Text && heading_mark(children[0]->Text_value) is Some {
                let (mark, rest) = heading_mark(children[0]->Text_value)->0;
                Tree::Heading {
                    level,
                    children: drop_empty_text(children.update(0, Tree::Text { value: rest })),
                    status: Some(mark),
                }
            } else {
                Tree::Heading { level, children: drop_empty_text(children), status }
            }
        },
        _ => t,
    }
}

/// A quote whose first paragraph starts with an admonition prefix becomes
/// that admonition, without the prefix.
pub open spec fn as_admonition(t: Tree) -> Tree {
    match t {
        Tree::Blockquote { children } => {
            if children.len() > 0 && children[0] is Paragraph {
                let pc = children[0]->Paragraph_children;
                if pc.len() > 0 && pc[0] is Text && admonition_mark(pc[0]->Text_value) is Some {
                    let (kind, rest) = admonition_mark(pc[0]->Text_value)->0;
                    Tree::Admonition {
                        kind,
                        children: children.update(
                            0,
                            Tree::Paragraph { children: drop_empty_text(pc.update(0, Tree::Text { value: rest })) },
                        ),
                    }
                } else {
                    t
                }
            } else {
                t
            }
        },
        _ => t,
    }
}

/// An element as it is once closed.
pub open spec fn closed_node(t: Tree) -> Tree {
    as_admonition(with_heading_mark(t))
}

/// Opens the element of a start tag on top of the stack; a tag without an
/// element leaves the stack as it was.
fn handle_start_tag(tag: &MdTag, stack: &mut Vec<AstNode>)
    ensures
        tree_view_list(final(stack)@) == (match start_node(*tag) {
            Some(n) => tree_view_list(old(stack)@).push(n),
            None => tree_view_list(old(stack)@),
        }),
{
    match open_node(tag) {
        Some(n) => {
            proof {
                lemma_tree_view_list_push(stack@, n);
            }
            stack.push(n);
        },
        None => {},
    }
}

/// Closes the top element into the one below it; the root is never closed.
pub open spec fn close_top(stack: Seq<Tree>) -> Result<Seq<Tree>, Failure> {
    if stack.len() > 1 {
        push_into_top(stack.drop_last(), seq![closed_node(stack.last())])
    } else {
        Ok(stack)
    }
}

/// What an event does to the stack once the buffer is flushed.
pub open spec fn stack_effect(stack: Seq<Tree>, e: MdEvent) -> Result<Seq<Tree>, Failure> {
    match e {
        MdEvent::Start(tag) => match start_node(tag) {
            Some(n) => Ok(stack.push(n)),
            None => Ok(stack),
        },
        MdEvent::End { .. } => close_top(stack),
        MdEvent::Text(t) => text_into_top(stack, t@),
        MdEvent::Code(c) => push_into_top(stack, seq![Tree::InlineCode { value: c@ }]),
        MdEvent::InlineMath(t) => push_into_top(stack, seq![Tree::Math { value: t@, inline: true }]),
        MdEvent::DisplayMath(t) => push_into_top(stack, seq![Tree::Math { value: t@, inline: false }]),
        MdEvent::FootnoteReference(n) => push_into_top(stack, seq![Tree::FootnoteReference { name: n@ }]),
        MdEvent::Rule => push_into_top(stack, seq![Tree::ThematicBreak]),
        MdEvent::TaskListMarker(b) => push_into_top(stack, seq![Tree::TaskListMarker { checked: b }]),
        MdEvent::Other => Ok(stack),
    }
}

/// One step of the fold.
pub open spec fn step(st: PState, e: MdEvent) -> Result<PState, Failure> {
    if e is Other {
        Ok(st)
    } else if e is Text && buffers(st.stack) {
        Ok(PState { stack: st.stack, pending: st.pending + e->Text_0@ })
    } else {
        match flush(st) {
            Err(f) => Err(f),
            Ok(s) => match stack_effect(s.stack, e) {
                Ok(k) => Ok(PState { stack: k, pending: s.pending }),
                Err(f) => Err(f),
            },
        }
    }
}

/// The fold over a stream of events (their source ranges are not read).
pub open spec fn run(evs: Seq<(MdEvent, usize, usize)>) -> Result<PState, Failure>
    decreases evs.len(),
{
    if evs.len() == 0 {
        Ok(initial_state())
    } else {
        match run(evs.drop_last()) {
            Err(f) => Err(f),
            Ok(s) => step(s, evs.last().0),
        }
    }
}

/// The tree an event stream builds: the root, once every other element is
/// closed. Text still buffered after the last event is dropped.
pub open spec fn built_tree(evs: Seq<(MdEvent, usize, usize)>) -> Result<Tree, Failure> {
    match run(evs) {
        Err(f) => Err(f),
        Ok(s) => if s.stack.len() == 1 {
            Ok(s.stack[0])
        } else {
            Err(Failure::Unclosed)
        },
    }
}


/// The stack holds the root at its bottom.
pub open spec fn rooted(stack: Seq<Tree>) -> bool {
    stack.len() >= 1 && stack[0] is Root
}

proof fn lemma_push_into_top_rooted(stack: Seq<Tree>, kids: Seq<Tree>)
    requires
        rooted(stack),
    ensures
        push_into_top(stack, kids) matches Ok(s) ==> rooted(s),
{
    if kids.len() > 0 && tree_is_container(stack.last()) {
        let s = stack.drop_last().push(tree_append(stack.last(), kids));
        if stack.len() == 1 {
            assert(s[0] == tree_append(stack[0], kids));
        } else {
            assert(s[0] == stack[0]);
        }
    }
}

proof fn lemma_step_rooted(st: PState, e: MdEvent)
    requires
        rooted(st.stack),
    ensures
        step(st, e) matches Ok(n) ==> rooted(n.stack),
{
    if !(e is Other) && !(e is Text && buffers(st.stack)) {
        let f = flush(st);
        if st.pending.len() > 0 {
            if let Some(kids) = split_text(st.pending) {
                lemma_push_into_top_rooted(st.stack, kids);
            }
        }
        if let Ok(s) = f {
            assert(rooted(s.stack));
            match e {
                MdEvent::Start(tag) => {
                    if let Some(n) = start_node(tag) {
                        assert(s.stack.push(n)[0] == s.stack[0]);
                    }
                },
                MdEvent::End { .. } => {
                    if s.stack.len() > 1 {
                        assert(s.stack.drop_last()[0] == s.stack[0]);
                        lemma_push_into_top_rooted(s.stack.drop_last(), seq![closed_node(s.stack.last())]);
                    }
                },
                MdEvent::Text(t) => {
                    match s.stack.last() {
                        Tree::CodeBlock { language, value } => {
                            assert(s.stack.len() > 1);
                            assert(s.stack.drop_last().push(Tree::CodeBlock { language, value: value + t@ })[0] == s.stack[0]);
                        },
                        Tree::Image { url, alt } => {
                            assert(s.stack.len() > 1);
                            assert(s.stack.drop_last().push(Tree::Image { url, alt: alt + t@ })[0] == s.stack[0]);
                        },
                        _ => {
                            if let Some(kids) = split_text(t@) {
                                lemma_push_into_top_rooted(s.stack, kids);
                            }
                        },
                    }
                },
                MdEvent::Code(c) => lemma_push_into_top_rooted(s.stack, seq![Tree::InlineCode { value: c@ }]),
                MdEvent::InlineMath(t) => lemma_push_into_top_rooted(s.stack, seq![Tree::Math { value: t@, inline: true }]),
                MdEvent::DisplayMath(t) => lemma_push_into_top_rooted(s.stack, seq![Tree::Math { value: t@, inline: false }]),
                MdEvent::FootnoteReference(n) => lemma_push_into_top_rooted(s.stack, seq![Tree::FootnoteReference { name: n@ }]),
                MdEvent::Rule => lemma_push_into_top_rooted(s.stack, seq![Tree::ThematicBreak]),
                MdEvent::TaskListMarker(b) => lemma_push_into_top_rooted(s.stack, seq![Tree::TaskListMarker { checked: b }]),
                MdEvent::Other => {},
            }
        }
    }
}

proof fn lemma_run_rooted(evs: Seq<(MdEvent, usize, usize)>)
    ensures
        run(evs) matches Ok(s) ==> rooted(s.stack),
    decreases evs.len(),
{
    if evs.len() > 0 {
        lemma_run_rooted(evs.drop_last());
        if let Ok(s) = run(evs.drop_last()) {
            lemma_step_rooted(s, evs.last().0);
        }
    }
}

/// Whatever the events, a tree that the fold builds is a root.
pub proof fn law_built_tree_is_root(evs: Seq<(MdEvent, usize, usize)>)
    ensures
        built_tree(evs) matches Ok(t) ==> t is Root,
{
    lemma_run_rooted(evs);
}

/// Inline math stays inline and display math stays displayed: on a stack
/// whose top is a paragraph, each math event appends to the paragraph a
/// math node with the event's text and the event's kind.
pub proof fn law_math_keeps_its_kind(rest: Seq<Tree>, kids: Seq<Tree>, t: String)
    ensures
        stack_effect(rest.push(Tree::Paragraph { children: kids }), MdEvent::InlineMath(t))
            == Ok::<Seq<Tree>, Failure>(rest.push(Tree::Paragraph { children: kids.push(Tree::Math { value: t@, inline: true }) })),
        stack_effect(rest.push(Tree::Paragraph { children: kids }), MdEvent::DisplayMath(t))
            == Ok::<Seq<Tree>, Failure>(rest.push(Tree::Paragraph { children: kids.push(Tree::Math { value: t@, inline: false }) })),
{
    let st = rest.push(Tree::Paragraph { children: kids });
    assert(st.drop_last() =~= rest);
    assert(kids + seq![Tree::Math { value: t@, inline: true }] =~= kids.push(Tree::Math { value: t@, inline: true }));
    assert(kids + seq![Tree::Math { value: t@, inline: false }] =~= kids.push(Tree::Math { value: t@, inline: false }));
}

// ───────────────────────────── executable fold ─────────────────────────────

/// Appends `kids`, in order, to the children of `top`.
fn append_all(top: &mut AstNode, kids: Vec<AstNode>) -> (r: MSResult<()>)
    ensures
        kids@.len() == 0 ==> r is Ok && tree_view(*final(top)) == tree_view(*old(top)),
        kids@.len() > 0 && is_container(*old(top)) ==> r is Ok && tree_view(*final(top))
            == tree_append(tree_view(*old(top)), tree_view_list(kids@)),
        kids@.len() > 0 && !is_container(*old(top)) ==> reports(r, Failure::Leaf(tree_label(tree_view(*old(top))))),
{
    let ghost kv = tree_view_list(kids@);
    let ghost t0 = tree_view(*top);
    proof {
        lemma_tree_view_list_index(kids@);
        lemma_tree_view_shape(*top);
        lemma_tree_append_empty(t0);
    }
    let n = kids.len();
    let mut rest = kids;
    let mut k: usize = 0;
    while k < n
        invariant
            k <= n,
            kv.len() == n,
            n == kids@.len(),
            kv == tree_view_list(kids@),
            rest@.len() == n - k,
            forall|j: int| 0 <= j < rest@.len() ==> tree_view(#[trigger] rest@[j]) == kv[k + j],
            t0 == tree_view(*old(top)),
            tree_label(t0) == crate::ms_ast::node::variant_label(*old(top)),
            tree_is_container(t0) == is_container(*old(top)),
            k > 0 ==> is_container(*old(top)),
            is_container(*old(top)) ==> is_container(*top) && tree_view(*top) == tree_append(t0, kv.take(k as int)),
            !is_container(*old(top)) ==> *top == *old(top),
        decreases n - k,
    {
        let ghost before = rest@;
        let ghost prev = *top;
        let child = rest.remove(0);
        assert forall|j: int| 0 <= j < rest@.len() implies tree_view(#[trigger] rest@[j]) == kv[k + 1 + j] by {
            assert(rest@[j] == before[j + 1]);
        }
        match top.push_child(child) {
            Ok(()) => {},
            Err(e) => {
                return Err(e);
            },
        }
        proof {
            lemma_push_child_model(prev, *top, child);
            lemma_tree_append_twice(t0, kv.take(k as int), seq![tree_view(child)]);
            assert(kv.take(k as int) + seq![tree_view(child)] =~= kv.take(k + 1));
            lemma_tree_view_shape(prev);
        }
        k = k + 1;
    }
    proof {
        assert(kv.take(n as int) =~= kv);
    }
    Ok(())
}

/// Appends `kids` to the top element of `stack` (see [`push_into_top`]).
fn push_onto_top(stack: &mut Vec<AstNode>, kids: Vec<AstNode>) -> (r: MSResult<()>)
    ensures
        push_into_top(tree_view_list(old(stack)@), tree_view_list(kids@)) matches Ok(s) ==> r is Ok
            && tree_view_list(final(stack)@) == s,
        push_into_top(tree_view_list(old(stack)@), tree_view_list(kids@)) matches Err(f) ==> reports(r, f),
{
    proof {
        lemma_tree_view_list_len(stack@);
        lemma_tree_view_list_len(kids@);
    }
    if stack.len() == 0 || kids.len() == 0 {
        return Ok(());
    }
    let ghost before = stack@;
    let mut top = stack.pop().unwrap();
    assert(stack@ == before.drop_last());
    let r = append_all(&mut top, kids);
    proof {
        lemma_tree_view_shape(before.last());
        lemma_tree_view_list_push(stack@, top);
    }
    stack.push(top);
    r
}


/// The text of `v` after the prefix `p`, without leading white space.
fn strip_prefix_trim(v: &str, p: &str) -> (r: Option<String>)
    ensures
        r matches Some(x) ==> after_prefix(v@, p@) == Some(x@),
        r is None ==> after_prefix(v@, p@) is None,
{
    let cs = chars_of(v);
    let ps = chars_of(p);
    if !starts_with_chars(&cs, &ps) {
        return None;
    }
    let rest = sub_chars(&cs, ps.len(), cs.len());
    assert(rest@ == v@.skip(p@.len() as int));
    let i = skip_space_start(&rest);
    let kept = sub_chars(&rest, i, rest.len());
    Some(string_of(&kept))
}

/// The progress mark a heading text starts with (see [`heading_mark`]).
fn try_strip_heading_prefix(v: &str) -> (r: Option<(TaskStatus, String)>)
    ensures
        r matches Some((m, x)) ==> heading_mark(v@) == Some((m, x@)),
        r is None ==> heading_mark(v@) is None,
{
    match strip_prefix_trim(v, "[x]") {
        Some(x) => return Some((TaskStatus::Done, x)),
        None => {},
    }
    match strip_prefix_trim(v, "[ ]") {
        Some(x) => return Some((TaskStatus::Undone, x)),
        None => {},
    }
    match strip_prefix_trim(v, "[~]") {
        Some(x) => Some((TaskStatus::Unclear, x)),
        None => None,
    }
}

/// The admonition prefix a quote text starts with (see [`admonition_mark`]).
fn try_parse_admonition_prefix(v: &str) -> (r: Option<(AdmonitionKind, String)>)
    ensures
        r matches Some((m, x)) ==> admonition_mark(v@) == Some((m, x@)),
        r is None ==> admonition_mark(v@) is None,
{
    match strip_prefix_trim(v, "[!warning]") {
        Some(x) => return Some((AdmonitionKind::Warning, x)),
        None => {},
    }
    match strip_prefix_trim(v, "[!tip]") {
        Some(x) => return Some((AdmonitionKind::Tip, x)),
        None => {},
    }
    match strip_prefix_trim(v, "[!question]") {
        Some(x) => Some((AdmonitionKind::Question, x)),
        None => None,
    }
}

/// Removes the first child when it is an empty text (see [`drop_empty_text`]).
fn drop_leading_empty_text(children: &mut Vec<AstNode>)
    ensures
        tree_view_list(final(children)@) == drop_empty_text(tree_view_list(old(children)@)),
{
    proof {
        lemma_tree_view_list_index(children@);
    }
    if children.len() == 0 {
        return;
    }
    let empty = match &children[0] {
        AstNode::Text { value } => value.as_str().is_empty(),
        _ => false,
    };
    assert(empty == (tree_view(children@[0]) == (Tree::Text { value: Seq::empty() }))) by {
        if children@[0] is Text {
            assert(empty == (children@[0]->Text_value@ =~= Seq::<char>::empty()));
        }
    }
    if empty {
        proof {
            lemma_tree_view_list_skip(children@);
        }
        let _ = children.remove(0);
        assert(children@ == old(children)@.skip(1));
    }
}


/// Reads the progress mark of a heading (see [`with_heading_mark`]).
fn extract_heading_status(node: AstNode) -> (r: AstNode)
    ensures
        tree_view(r) == with_heading_mark(tree_view(node)),
{
    match node {
        AstNode::Heading { level, children, status } => {
            if status.is_some() {
                return AstNode::Heading { level, children, status };
            }
            let mut children = children;
            proof {
                lemma_tree_view_list_index(children@);
            }
            let ghost c0 = children@;
            let mut mark: Option<TaskStatus> = None;
            if children.len() > 0 {
                let found = match &children[0] {
                    AstNode::Text { value } => try_strip_heading_prefix(value.as_str()),
                    _ => None,
                };
                match found {
                    Some((m, rest)) => {
                        let t = AstNode::Text { value: rest };
                        proof {
                            lemma_tree_view_list_update(children@, 0, t);
                        }
                        children.set(0, t);
                        mark = Some(m);
                    },
                    None => {},
                }
            }
            drop_leading_empty_text(&mut children);
            AstNode::Heading { level, children, status: mark }
        },
        other => other,
    }
}

/// Turns a quote with an admonition prefix into that admonition (see [`as_admonition`]).
fn maybe_convert_admonition(node: AstNode) -> (r: AstNode)
    ensures
        tree_view(r) == as_admonition(tree_view(node)),
{
    match node {
        AstNode::Blockquote { children } => {
            let mut children = children;
            proof {
                lemma_tree_view_list_index(children@);
            }
            if children.len() == 0 {
                return AstNode::Blockquote { children };
            }
            let found = match &children[0] {
                AstNode::Paragraph { children: pc } => {
                    proof {
                        lemma_tree_view_list_index(pc@);
                    }
                    if pc.len() > 0 {
                        match &pc[0] {
                            AstNode::Text { value } => try_parse_admonition_prefix(value.as_str()),
                            _ => None,
                        }
                    } else {
                        None
                    }
                },
                _ => None,
            };
            match found {
                None => AstNode::Blockquote { children },
                Some((kind, rest)) => {
                    let ghost c0 = children@;
                    let first = children.remove(0);
                    let mut pc = match first {
                        AstNode::Paragraph { children: pc } => pc,
                        _ => Vec::new(),
                    };
                    proof {
                        lemma_tree_view_list_index(pc@);
                    }
                    let t = AstNode::Text { value: rest };
                    proof {
                        lemma_tree_view_list_update(pc@, 0, t);
                    }
                    pc.set(0, t);
                    drop_leading_empty_text(&mut pc);
                    let para = AstNode::Paragraph { children: pc };
                    children.insert(0, para);
                    assert(children@ =~= c0.update(0, para));
                    proof {
                        lemma_tree_view_list_update(c0, 0, para);
                    }
                    AstNode::Admonition { kind, children }
                },
            }
        },
        other => other,
    }
}


/// The element a start tag opens (see [`start_node`]).
fn open_node(tag: &MdTag) -> (r: Option<AstNode>)
    ensures
        r matches Some(n) ==> start_node(*tag) == Some(tree_view(n)),
        r is None ==> start_node(*tag) is None,
{
    match tag {
        MdTag::Paragraph => Some(AstNode::Paragraph { children: Vec::new() }),
        MdTag::Heading(level) => Some(AstNode::Heading { level: *level, children: Vec::new(), status: None }),
        MdTag::BlockQuote => Some(AstNode::Blockquote { children: Vec::new() }),
        MdTag::CodeBlock { fenced, info } => {
            let language = if *fenced && !info.as_str().is_empty() {
                Some(info.clone())
            } else {
                None
            };
            Some(AstNode::CodeBlock { language, value: String::new() })
        },
        MdTag::List(start) => Some(AstNode::List { ordered: start.is_some(), start: *start, children: Vec::new() }),
        MdTag::Item => Some(AstNode::ListItem { children: Vec::new() }),
        MdTag::FootnoteDefinition(name) => Some(AstNode::FootnoteDefinition { name: name.clone(), children: Vec::new() }),
        MdTag::DefinitionList => Some(AstNode::DefinitionList { children: Vec::new() }),
        MdTag::DefinitionListTitle => Some(AstNode::DefinitionListTitle { children: Vec::new() }),
        MdTag::DefinitionListDefinition => Some(AstNode::DefinitionListDefinition { children: Vec::new() }),
        MdTag::Table(aligns) => {
            let mut a: Vec<Option<AlignType>> = Vec::new();
            let mut i: usize = 0;
            while i < aligns.len()
                invariant
                    i <= aligns@.len(),
                    a@ == aligns@.take(i as int).map_values(|x: AlignType| Some(x)),
                decreases aligns@.len() - i,
            {
                a.push(Some(aligns[i]));
                i = i + 1;
                assert(a@ =~= aligns@.take(i as int).map_values(|x: AlignType| Some(x)));
            }
            assert(aligns@.take(aligns@.len() as int) =~= aligns@);
            Some(AstNode::Table { alignments: a, children: Vec::new() })
        },
        MdTag::TableHead => Some(AstNode::TableHead { children: Vec::new() }),
        MdTag::TableRow => Some(AstNode::TableRow { children: Vec::new() }),
        MdTag::TableCell => Some(AstNode::TableCell { children: Vec::new() }),
        MdTag::Emphasis => Some(AstNode::Emphasis { children: Vec::new() }),
        MdTag::Strong => Some(AstNode::Strong { children: Vec::new() }),
        MdTag::Strikethrough => Some(AstNode::Strikethrough { children: Vec::new() }),
        MdTag::Link(url) => Some(AstNode::Link { url: url.clone(), children: Vec::new() }),
        MdTag::Image(url) => Some(AstNode::Image { url: url.clone(), alt: String::new() }),
        MdTag::Other => None,
    }
}

/// Closes the top element into the one below it (see [`close_top`]).
fn handle_end_tag(stack: &mut Vec<AstNode>) -> (r: MSResult<()>)
    ensures
        close_top(tree_view_list(old(stack)@)) matches Ok(s) ==> r is Ok && tree_view_list(final(stack)@) == s,
        close_top(tree_view_list(old(stack)@)) matches Err(f) ==> reports(r, f),
{
    proof {
        lemma_tree_view_list_len(stack@);
    }
    if stack.len() > 1 {
        let ghost before = stack@;
        let top = stack.pop().unwrap();
        assert(stack@ == before.drop_last());
        let done = maybe_convert_admonition(extract_heading_status(top));
        push_leaf(stack, done)
    } else {
        Ok(())
    }
}

/// Appends one node to the top element.
fn push_leaf(stack: &mut Vec<AstNode>, node: AstNode) -> (r: MSResult<()>)
    ensures
        push_into_top(tree_view_list(old(stack)@), seq![tree_view(node)]) matches Ok(s) ==> r is Ok
            && tree_view_list(final(stack)@) == s,
        push_into_top(tree_view_list(old(stack)@), seq![tree_view(node)]) matches Err(f) ==> reports(r, f),
{
    let mut kids: Vec<AstNode> = Vec::new();
    proof {
        lemma_tree_view_list_push(kids@, node);
    }
    kids.push(node);
    assert(tree_view_list(kids@) =~= seq![tree_view(node)]);
    push_onto_top(stack, kids)
}

/// Appends an inline code span to the top element.
fn handle_inline_code(stack: &mut Vec<AstNode>, code: &String) -> (r: MSResult<()>)
    ensures
        push_into_top(tree_view_list(old(stack)@), seq![Tree::InlineCode { value: code@ }]) matches Ok(s)
            ==> r is Ok && tree_view_list(final(stack)@) == s,
        push_into_top(tree_view_list(old(stack)@), seq![Tree::InlineCode { value: code@ }]) matches Err(f)
            ==> reports(r, f),
{
    push_leaf(stack, AstNode::InlineCode { value: code.clone() })
}

/// Appends a formula, inline or displayed, to the top element.
fn handle_math(stack: &mut Vec<AstNode>, text: &String, inline: bool) -> (r: MSResult<()>)
    ensures
        push_into_top(tree_view_list(old(stack)@), seq![Tree::Math { value: text@, inline }]) matches Ok(s)
            ==> r is Ok && tree_view_list(final(stack)@) == s,
        push_into_top(tree_view_list(old(stack)@), seq![Tree::Math { value: text@, inline }]) matches Err(f)
            ==> reports(r, f),
{
    push_leaf(stack, AstNode::Math { value: text.clone(), inline })
}

/// Splits the buffered text onto the top element (see [`flush`]).
fn flush_pending_text(stack: &mut Vec<AstNode>, pending: &mut String) -> (r: MSResult<()>)
    ensures
        flush(PState { stack: tree_view_list(old(stack)@), pending: old(pending)@ }) matches Ok(s) ==> r is Ok
            && tree_view_list(final(stack)@) == s.stack && final(pending)@ == s.pending,
        flush(PState { stack: tree_view_list(old(stack)@), pending: old(pending)@ }) matches Err(f) ==> reports(r, f),
{
    proof {
        lemma_tree_view_list_len(stack@);
    }
    if pending.as_str().is_empty() || stack.len() == 0 {
        return Ok(());
    }
    let mut text = String::new();
    std::mem::swap(&mut text, pending);
    let kids = match split_text_into_nodes(text.as_str()) {
        Ok(k) => k,
        Err(e) => return Err(e),
    };
    push_onto_top(stack, kids)
}

/// Gives text straight to the top element (see [`text_into_top`]).
fn handle_text(stack: &mut Vec<AstNode>, t: &str) -> (r: MSResult<()>)
    ensures
        text_into_top(tree_view_list(old(stack)@), t@) matches Ok(s) ==> r is Ok && tree_view_list(final(stack)@) == s,
        text_into_top(tree_view_list(old(stack)@), t@) matches Err(f) ==> reports(r, f),
{
    proof {
        lemma_tree_view_list_len(stack@);
    }
    if stack.len() == 0 {
        return Ok(());
    }
    let ghost before = stack@;
    let top = stack.pop().unwrap();
    assert(stack@ == before.drop_last());
    match top {
        AstNode::CodeBlock { language, value } => {
            let mut v = value;
            push_str(&mut v, t);
            let n = AstNode::CodeBlock { language, value: v };
            proof {
                lemma_tree_view_list_push(stack@, n);
            }
            stack.push(n);
            Ok(())
        },
        AstNode::Image { url, alt } => {
            let mut v = alt;
            push_str(&mut v, t);
            let n = AstNode::Image { url, alt: v };
            proof {
                lemma_tree_view_list_push(stack@, n);
            }
            stack.push(n);
            Ok(())
        },
        other => {
            proof {
                lemma_tree_view_list_push(stack@, other);
            }
            stack.push(other);
            assert(stack@ =~= before);
            let kids = match split_text_into_nodes(t) {
                Ok(k) => k,
                Err(e) => return Err(e),
            };
            push_onto_top(stack, kids)
        },
    }
}

/// Whether text is buffered (see [`buffers`]).
fn should_buffer_text(stack: &Vec<AstNode>) -> (b: bool)
    ensures
        b == buffers(tree_view_list(stack@)),
{
    proof {
        lemma_tree_view_list_len(stack@);
    }
    if stack.len() == 0 {
        return true;
    }
    let n = stack.len() - 1;
    match &stack[n] {
        AstNode::CodeBlock { .. } => false,
        AstNode::Image { .. } => false,
        _ => true,
    }
}


/// One step of the fold (see [`step`]).
fn apply_event(stack: &mut Vec<AstNode>, pending: &mut String, e: &MdEvent) -> (r: MSResult<()>)
    ensures
        step(PState { stack: tree_view_list(old(stack)@), pending: old(pending)@ }, *e) matches Ok(s) ==> r is Ok
            && tree_view_list(final(stack)@) == s.stack && final(pending)@ == s.pending,
        step(PState { stack: tree_view_list(old(stack)@), pending: old(pending)@ }, *e) matches Err(f) ==> reports(r, f),
{
    if let MdEvent::Other = e {
        return Ok(());
    }
    if let MdEvent::Text(t) = e {
        if should_buffer_text(stack) {
            push_str(pending, t.as_str());
            return Ok(());
        }
    }
    match flush_pending_text(stack, pending) {
        Ok(()) => {},
        Err(err) => return Err(err),
    }
    match e {
        MdEvent::Start(tag) => {
            handle_start_tag(tag, stack);
            Ok(())
        },
        MdEvent::End { .. } => handle_end_tag(stack),
        MdEvent::Text(t) => handle_text(stack, t.as_str()),
        MdEvent::Code(c) => handle_inline_code(stack, c),
        MdEvent::InlineMath(t) => handle_math(stack, t, true),
        MdEvent::DisplayMath(t) => handle_math(stack, t, false),
        MdEvent::FootnoteReference(n) => push_leaf(stack, AstNode::FootnoteReference { name: n.clone() }),
        MdEvent::Rule => push_leaf(stack, AstNode::ThematicBreak),
        MdEvent::TaskListMarker(b) => push_leaf(stack, AstNode::TaskListMarker { checked: *b }),
        MdEvent::Other => Ok(()),
    }
}

/// Takes the root off a stack that has closed back to it; any other depth
/// means the document did not close.
fn finalize_stack(stack: &mut Vec<AstNode>) -> (r: MSResult<AstNode>)
    ensures
        tree_view_list(old(stack)@).len() == 1 ==> (r matches Ok(n) && tree_view(n) == tree_view_list(old(stack)@)[0]),
        tree_view_list(old(stack)@).len() != 1 ==> reports(r, Failure::Unclosed),
{
    proof {
        lemma_tree_view_list_len(stack@);
        lemma_tree_view_list_index(stack@);
    }
    if stack.len() == 1 {
        let root = stack.pop().unwrap();
        Ok(root)
    } else {
        Err(MSError::ParseError("文档树未正确闭合".to_owned()))
    }
}

/// A failure on a prefix of the stream is the failure of the whole stream.
proof fn lemma_run_failure_stays(evs: Seq<(MdEvent, usize, usize)>, j: int)
    requires
        0 <= j <= evs.len(),
        run(evs.take(j)) is Err,
    ensures
        run(evs) == run(evs.take(j)),
    decreases evs.len() - j,
{
    if j < evs.len() {
        assert(evs.take(j + 1).drop_last() =~= evs.take(j));
        lemma_run_failure_stays(evs, j + 1);
    } else {
        assert(evs.take(j) =~= evs);
    }
}

/// Builds the tree of an event stream (see [`built_tree`]).
pub fn build_tree(events: &Vec<(MdEvent, usize, usize)>) -> (r: MSResult<AstNode>)
    ensures
        built_tree(events@) matches Ok(t) ==> r matches Ok(n) && tree_view(n) == t,
        built_tree(events@) matches Err(f) ==> reports(r, f),
{
    let mut stack: Vec<AstNode> = Vec::new();
    let root = AstNode::Root { children: Vec::new() };
    proof {
        lemma_tree_view_list_push(stack@, root);
    }
    stack.push(root);
    let mut pending = String::new();
    assert(tree_view_list(stack@) =~= initial_state().stack);
    let mut i: usize = 0;
    while i < events.len()
        invariant
            i <= events@.len(),
            run(events@.take(i as int)) == Ok::<PState, Failure>(PState { stack: tree_view_list(stack@), pending: pending@ }),
        decreases events@.len() - i,
    {
        assert(events@.take(i + 1).drop_last() =~= events@.take(i as int));
        match apply_event(&mut stack, &mut pending, &events[i].0) {
            Ok(()) => {},
            Err(e) => {
                proof {
                    lemma_run_failure_stays(events@, i + 1);
                }
                return Err(e);
            },
        }
        i = i + 1;
    }
    assert(events@.take(events@.len() as int) =~= events@);
    finalize_stack(&mut stack)
}

} // verus!
