//! Markdown to the core syntax tree of the HTML renderer.
//!
//! Tables, task lists, strikethrough, smart punctuation and math are
//! enabled. The `pulldown-cmark` event stream is folded with a stack of open
//! elements: text goes to the top element (verbatim into a code block or
//! an image's alternative text), inline code becomes text between
//! backticks, and an end event closes the top element into the one below.
//! Leaves ignore children pushed onto them.

use vstd::prelude::*;
use crate::ast_core::{accepts_children, child_list, same_but_children, AlignType, AstNode, MSError, MSResult};
use crate::ms_ast::events::{markdown_event_stream, markdown_events, MdEvent, MdTag, ParseOptions};
use crate::pattern::{captures_well_formed, find_captures, regex_captures, span_in};
use crate::ms_ast::parser::{caps_view, contains_name, group_or_empty, group_or_empty_str};
use crate::text::push_str;

verus! {

/// The model of a core syntax-tree node.
pub enum CTree {
    Root { children: Seq<CTree> },
    Heading { level: u8, children: Seq<CTree> },
    Paragraph { children: Seq<CTree> },
    Text { value: Seq<char> },
    InlineCode { value: Seq<char> },
    CodeBlock { language: Option<Seq<char>>, value: Seq<char> },
    Link { url: Seq<char>, children: Seq<CTree> },
    Image { url: Seq<char>, alt: Seq<char> },
    Math { value: Seq<char>, inline: bool },
    Blockquote { children: Seq<CTree> },
    List { ordered: bool, start: Option<u64>, children: Seq<CTree> },
    ListItem { children: Seq<CTree> },
    ThematicBreak,
    Strong { children: Seq<CTree> },
    Emphasis { children: Seq<CTree> },
    Table { alignments: Seq<Option<AlignType>>, children: Seq<CTree> },
    TableHead { children: Seq<CTree> },
    TableRow { children: Seq<CTree> },
    TableCell { children: Seq<CTree> },
    Strikethrough { children: Seq<CTree> },
    TaskListMarker { checked: bool },
    FootnoteDefinition { name: Seq<char>, children: Seq<CTree> },
    FootnoteReference { name: Seq<char> },
    DefinitionList { children: Seq<CTree> },
    DefinitionListTitle { children: Seq<CTree> },
    DefinitionListDefinition { children: Seq<CTree> },
}

/// The model of a node.
pub open spec fn ctree(n: AstNode) -> CTree
    decreases n,
{
    match n {
        AstNode::Root { children } => CTree::Root { children: ctree_list(children@) },
        AstNode::Heading { level, children } => CTree::Heading { level, children: ctree_list(children@) },
        AstNode::Paragraph { children } => CTree::Paragraph { children: ctree_list(children@) },
        AstNode::Text { value } => CTree::Text { value: value@ },
        AstNode::InlineCode { value } => CTree::InlineCode { value: value@ },
        AstNode::CodeBlock { language, value } => CTree::CodeBlock {
            language: match language { Some(x) => Some(x@), None => None },
            value: value@,
        },
        AstNode::Link { url, children } => CTree::Link { url: url@, children: ctree_list(children@) },
        AstNode::Image { url, alt } => CTree::Image { url: url@, alt: alt@ },
        AstNode::Math { value, inline } => CTree::Math { value: value@, inline },
        AstNode::Blockquote { children } => CTree::Blockquote { children: ctree_list(children@) },
        AstNode::List { ordered, start, children } => CTree::List { ordered, start, children: ctree_list(children@) },
        AstNode::ListItem { children } => CTree::ListItem { children: ctree_list(children@) },
        AstNode::ThematicBreak => CTree::ThematicBreak,
        AstNode::Strong { children } => CTree::Strong { children: ctree_list(children@) },
        AstNode::Emphasis { children } => CTree::Emphasis { children: ctree_list(children@) },
        AstNode::Table { alignments, children } => CTree::Table { alignments: alignments@, children: ctree_list(children@) },
        AstNode::TableHead { children } => CTree::TableHead { children: ctree_list(children@) },
        AstNode::TableRow { children } => CTree::TableRow { children: ctree_list(children@) },
        AstNode::TableCell { children } => CTree::TableCell { children: ctree_list(children@) },
        AstNode::Strikethrough { children } => CTree::Strikethrough { children: ctree_list(children@) },
        AstNode::TaskListMarker { checked } => CTree::TaskListMarker { checked },
        AstNode::FootnoteDefinition { name, children } => CTree::FootnoteDefinition { name: name@, children: ctree_list(children@) },
        AstNode::FootnoteReference { name } => CTree::FootnoteReference { name: name@ },
        AstNode::DefinitionList { children } => CTree::DefinitionList { children: ctree_list(children@) },
        AstNode::DefinitionListTitle { children } => CTree::DefinitionListTitle { children: ctree_list(children@) },
        AstNode::DefinitionListDefinition { children } => CTree::DefinitionListDefinition { children: ctree_list(children@) },
    }
}

/// The models of a list of nodes.
pub open spec fn ctree_list(s: Seq<AstNode>) -> Seq<CTree>
    decreases s,
{
    if s.len() == 0 {
        Seq::empty()
    } else {
        ctree_list(s.drop_last()).push(ctree(s.last()))
    }
}

proof fn lemma_ctree_list_push(s: Seq<AstNode>, x: AstNode)
    ensures
        ctree_list(s.push(x)) == ctree_list(s).push(ctree(x)),
{
    assert(s.push(x).drop_last() =~= s);
}

proof fn lemma_ctree_list_len(s: Seq<AstNode>)
    ensures
        ctree_list(s).len() == s.len(),
        s.len() > 0 ==> ctree_list(s).last() == ctree(s.last()),
        s.len() > 0 ==> ctree_list(s).drop_last() == ctree_list(s.drop_last()),
    decreases s.len(),
{
    if s.len() > 0 {
        lemma_ctree_list_len(s.drop_last());
    }
}

/// Whether the modelled node takes children.
pub open spec fn ctree_accepts(t: CTree) -> bool {
    match t {
        CTree::Root { .. } | CTree::Heading { .. } | CTree::Paragraph { .. } | CTree::Blockquote { .. }
        | CTree::List { .. } | CTree::ListItem { .. } | CTree::Strong { .. } | CTree::Emphasis { .. }
        | CTree::Link { .. } | CTree::Table { .. } | CTree::TableHead { .. } | CTree::TableRow { .. }
        | CTree::TableCell { .. } | CTree::Strikethrough { .. } => true,
        _ => false,
    }
}

/// The modelled node with one more child (unchanged when it takes none).
pub open spec fn ctree_push(t: CTree, c: CTree) -> CTree {
    match t {
        CTree::Root { children } => CTree::Root { children: children.push(c) },
        CTree::Heading { level, children } => CTree::Heading { level, children: children.push(c) },
        CTree::Paragraph { children } => CTree::Paragraph { children: children.push(c) },
        CTree::Blockquote { children } => CTree::Blockquote { children: children.push(c) },
        CTree::List { ordered, start, children } => CTree::List { ordered, start, children: children.push(c) },
        CTree::ListItem { children } => CTree::ListItem { children: children.push(c) },
        CTree::Strong { children } => CTree::Strong { children: children.push(c) },
        CTree::Emphasis { children } => CTree::Emphasis { children: children.push(c) },
        CTree::Link { url, children } => CTree::Link { url, children: children.push(c) },
        CTree::Table { alignments, children } => CTree::Table { alignments, children: children.push(c) },
        CTree::TableHead { children } => CTree::TableHead { children: children.push(c) },
        CTree::TableRow { children } => CTree::TableRow { children: children.push(c) },
        CTree::TableCell { children } => CTree::TableCell { children: children.push(c) },
        CTree::Strikethrough { children } => CTree::Strikethrough { children: children.push(c) },
        _ => t,
    }
}

/// The model of a node that gained a child through `push_child`.
proof fn lemma_push_model(a: AstNode, b: AstNode, child: AstNode)
    requires
        accepts_children(a) ==> same_but_children(b, a) && child_list(b) == child_list(a).push(child),
        !accepts_children(a) ==> b == a,
    ensures
        ctree(b) == ctree_push(ctree(a), ctree(child)),
{
    if accepts_children(a) {
        lemma_ctree_list_push(child_list(a), child);
    }
}

/// The stack after giving a node to the top element.
pub open spec fn give_top(stack: Seq<CTree>, c: CTree) -> Seq<CTree> {
    if stack.len() == 0 {
        stack
    } else {
        stack.drop_last().push(ctree_push(stack.last(), c))
    }
}

/// The element a start tag opens (nothing for footnotes, definition lists,
/// HTML and metadata blocks).
pub open spec fn open_ctree(tag: MdTag) -> Option<CTree> {
    match tag {
        MdTag::Paragraph => Some(CTree::Paragraph { children: Seq::empty() }),
        MdTag::Heading(level) => Some(CTree::Heading { level, children: Seq::empty() }),
        MdTag::BlockQuote => Some(CTree::Blockquote { children: Seq::empty() }),
        MdTag::CodeBlock { fenced, info } => Some(CTree::CodeBlock {
            language: if fenced && info@.len() > 0 { Some(info@) } else { None },
            value: Seq::empty(),
        }),
        MdTag::List(start) => Some(CTree::List { ordered: start is Some, start, children: Seq::empty() }),
        MdTag::Item => Some(CTree::ListItem { children: Seq::empty() }),
        MdTag::Table(aligns) => Some(CTree::Table {
            alignments: aligns@.map_values(|a: AlignType| Some(a)),
            children: Seq::empty(),
        }),
        MdTag::TableHead => Some(CTree::TableHead { children: Seq::empty() }),
        MdTag::TableRow => Some(CTree::TableRow { children: Seq::empty() }),
        MdTag::TableCell => Some(CTree::TableCell { children: Seq::empty() }),
        MdTag::Emphasis => Some(CTree::Emphasis { children: Seq::empty() }),
        MdTag::Strong => Some(CTree::Strong { children: Seq::empty() }),
        MdTag::Strikethrough => Some(CTree::Strikethrough { children: Seq::empty() }),
        MdTag::Link(url) => Some(CTree::Link { url: url@, children: Seq::empty() }),
        MdTag::Image(url) => Some(CTree::Image { url: url@, alt: Seq::empty() }),
        _ => None,
    }
}

/// Text given to the top element.
pub open spec fn text_to_top(stack: Seq<CTree>, t: Seq<char>) -> Seq<CTree> {
    if stack.len() == 0 {
        stack
    } else {
        match stack.last() {
            CTree::CodeBlock { language, value } => stack.drop_last().push(CTree::CodeBlock { language, value: value + t }),
            CTree::Image { url, alt } => stack.drop_last().push(CTree::Image { url, alt: alt + t }),
            _ => give_top(stack, CTree::Text { value: t }),
        }
    }
}

/// One step of the fold.
pub open spec fn fold_step(stack: Seq<CTree>, e: MdEvent) -> Seq<CTree> {
    match e {
        MdEvent::Start(tag) => match open_ctree(tag) {
            Some(n) => stack.push(n),
            None => stack,
        },
        MdEvent::Text(t) => text_to_top(stack, t@),
        MdEvent::Code(c) => give_top(stack, CTree::Text { value: "`"@ + c@ + "`"@ }),
        MdEvent::End { .. } => if stack.len() > 1 {
            give_top(stack.drop_last(), stack.last())
        } else {
            stack
        },
        MdEvent::Rule => give_top(stack, CTree::ThematicBreak),
        MdEvent::InlineMath(t) => give_top(stack, CTree::Math { value: t@, inline: true }),
        MdEvent::DisplayMath(t) => give_top(stack, CTree::Math { value: t@, inline: false }),
        MdEvent::TaskListMarker(b) => give_top(stack, CTree::TaskListMarker { checked: b }),
        _ => stack,
    }
}

/// The stack after a stream of events, starting from the empty root.
pub open spec fn fold_events(evs: Seq<(MdEvent, usize, usize)>) -> Seq<CTree>
    decreases evs.len(),
{
    if evs.len() == 0 {
        seq![CTree::Root { children: Seq::empty() }]
    } else {
        fold_step(fold_events(evs.drop_last()), evs.last().0)
    }
}

/// The extensions this parser enables.
pub open spec fn core_options() -> ParseOptions {
    ParseOptions {
        gfm_tables: true,
        tasklists: true,
        strikethrough: true,
        smart_punctuation: true,
        math: true,
        footnotes: false,
        definition_list: false,
    }
}

/// The tree an event stream builds: the root, when every element closed.
pub open spec fn events_tree(evs: Seq<(MdEvent, usize, usize)>) -> Option<CTree> {
    let s = fold_events(evs);
    if s.len() == 1 { Some(s[0]) } else { None }
}

/// The tree of a Markdown text: the root, when every element closed.
pub open spec fn core_tree(md: Seq<char>) -> Option<CTree> {
    events_tree(markdown_events(md, core_options()))
}

/// Gives a node to the top element.
fn give(stack: &mut Vec<AstNode>, node: AstNode)
    ensures
        ctree_list(final(stack)@) == give_top(ctree_list(old(stack)@), ctree(node)),
{
    proof {
        lemma_ctree_list_len(stack@);
    }
    if stack.len() == 0 {
        return;
    }
    let ghost before = stack@;
    let mut top = stack.pop().unwrap();
    assert(stack@ == before.drop_last());
    let ghost t0 = top;
    top.push_child(node);
    proof {
        lemma_push_model(t0, top, node);
        lemma_ctree_list_push(stack@, top);
    }
    stack.push(top);
}

/// The element a start tag opens (see [`open_ctree`]).
fn open_node(tag: &MdTag) -> (r: Option<AstNode>)
    ensures
        r matches Some(n) ==> open_ctree(*tag) == Some(ctree(n)),
        r is None ==> open_ctree(*tag) is None,
{
    match tag {
        MdTag::Paragraph => Some(AstNode::Paragraph { children: Vec::new() }),
        MdTag::Heading(level) => Some(AstNode::Heading { level: *level, children: Vec::new() }),
        MdTag::BlockQuote => Some(AstNode::Blockquote { children: Vec::new() }),
        MdTag::CodeBlock { fenced, info } => {
            let language = if *fenced && !info.as_str().is_empty() { Some(info.clone()) } else { None };
            Some(AstNode::CodeBlock { language, value: String::new() })
        },
        MdTag::List(start) => Some(AstNode::List { ordered: start.is_some(), start: *start, children: Vec::new() }),
        MdTag::Item => Some(AstNode::ListItem { children: Vec::new() }),
        MdTag::Table(aligns) => {
            let mut a: Vec<Option<AlignType>> = Vec::new();
            let mut i: usize = 0;
            while i < aligns.len()
                invariant
                    i <= aligns@.len(),
                    a@ == aligns@.take(i as int).map_values(|x: AlignType| Some(x)),
                decreases aligns@.len() - i,
            {
                a.push(Some(aligns[i]));
                i = i + 1;
                assert(a@ =~= aligns@.take(i as int).map_values(|x: AlignType| Some(x)));
            }
            assert(aligns@.take(aligns@.len() as int) =~= aligns@);
            Some(AstNode::Table { alignments: a, children: Vec::new() })
        },
        MdTag::TableHead => Some(AstNode::TableHead { children: Vec::new() }),
        MdTag::TableRow => Some(AstNode::TableRow { children: Vec::new() }),
        MdTag::TableCell => Some(AstNode::TableCell { children: Vec::new() }),
        MdTag::Emphasis => Some(AstNode::Emphasis { children: Vec::new() }),
        MdTag::Strong => Some(AstNode::Strong { children: Vec::new() }),
        MdTag::Strikethrough => Some(AstNode::Strikethrough { children: Vec::new() }),
        MdTag::Link(url) => Some(AstNode::Link { url: url.clone(), children: Vec::new() }),
        MdTag::Image(url) => Some(AstNode::Image { url: url.clone(), alt: String::new() }),
        _ => None,
    }
}

/// Gives text to the top element (see [`text_to_top`]).
fn give_text(stack: &mut Vec<AstNode>, t: &String)
    ensures
        ctree_list(final(stack)@) == text_to_top(ctree_list(old(stack)@), t@),
{
    proof {
        lemma_ctree_list_len(stack@);
    }
    if stack.len() == 0 {
        return;
    }
    let ghost before = stack@;
    let top = stack.pop().unwrap();
    assert(stack@ == before.drop_last());
    match top {
        AstNode::CodeBlock { language, value } => {
            let mut v = value;
            push_str(&mut v, t.as_str());
            let n = AstNode::CodeBlock { language, value: v };
            proof {
                lemma_ctree_list_push(stack@, n);
            }
            stack.push(n);
        },
        AstNode::Image { url, alt } => {
            let mut v = alt;
            push_str(&mut v, t.as_str());
            let n = AstNode::Image { url, alt: v };
            proof {
                lemma_ctree_list_push(stack@, n);
            }
            stack.push(n);
        },
        other => {
            proof {
                lemma_ctree_list_push(stack@, other);
            }
            stack.push(other);
            assert(stack@ =~= before);
            give(stack, AstNode::Text { value: t.clone() });
        },
    }
}

/// One step of the fold (see [`fold_step`]).
fn apply(stack: &mut Vec<AstNode>, e: &MdEvent)
    ensures
        ctree_list(final(stack)@) == fold_step(ctree_list(old(stack)@), *e),
{
    proof {
        lemma_ctree_list_len(stack@);
    }
    match e {
        MdEvent::Start(tag) => {
            match open_node(tag) {
                Some(n) => {
                    proof {
                        lemma_ctree_list_push(stack@, n);
                    }
                    stack.push(n);
                },
                None => {},
            }
        },
        MdEvent::Text(t) => give_text(stack, t),
        MdEvent::Code(c) => {
            let mut v = String::new();
            push_str(&mut v, "`");
            push_str(&mut v, c.as_str());
            push_str(&mut v, "`");
            give(stack, AstNode::Text { value: v });
        },
        MdEvent::End { .. } => {
            if stack.len() > 1 {
                let ghost before = stack@;
                let top = stack.pop().unwrap();
                assert(stack@ == before.drop_last());
                give(stack, top);
            }
        },
        MdEvent::Rule => give(stack, AstNode::ThematicBreak),
        MdEvent::InlineMath(t) => give(stack, AstNode::Math { value: t.clone(), inline: true }),
        MdEvent::DisplayMath(t) => give(stack, AstNode::Math { value: t.clone(), inline: false }),
        MdEvent::TaskListMarker(b) => give(stack, AstNode::TaskListMarker { checked: *b }),
        _ => {},
    }
}

/// Parses Markdown into the core syntax tree (see [`core_tree`]); fails
/// when the elements do not close back to the root.
pub fn parse_markdown(md_text: &str) -> (r: MSResult<AstNode>)
    ensures
        core_tree(md_text@) matches Some(t) ==> r matches Ok(n) && ctree(n) == t,
        core_tree(md_text@) is None ==> (r matches Err(MSError::ParseError(m)) && m@ == "文档树未正确闭合"@),
{
    let opts = ParseOptions {
        gfm_tables: true,
        tasklists: true,
        strikethrough: true,
        smart_punctuation: true,
        math: true,
        footnotes: false,
        definition_list: false,
    };
    let events = markdown_event_stream(md_text, &opts);
    tree_from_events(&events)
}

/// Builds the tree of an event stream (see [`events_tree`]): each event is
/// applied to a stack that starts with an empty root; the root is the
/// result when every element closed.
pub fn tree_from_events(events: &Vec<(MdEvent, usize, usize)>) -> (r: MSResult<AstNode>)
    ensures
        events_tree(events@) matches Some(t) ==> r matches Ok(n) && ctree(n) == t,
        events_tree(events@) is None ==> (r matches Err(MSError::ParseError(m)) && m@ == "文档树未正确闭合"@),
{
    let mut stack: Vec<AstNode> = Vec::new();
    let root = AstNode::Root { children: Vec::new() };
    proof {
        lemma_ctree_list_push(stack@, root);
    }
    stack.push(root);
    assert(ctree_list(stack@) =~= fold_events(events@.take(0)));
    let mut i: usize = 0;
    while i < events.len()
        invariant
            i <= events@.len(),
            ctree_list(stack@) == fold_events(events@.take(i as int)),
        decreases events@.len() - i,
    {
        assert(events@.take(i + 1).drop_last() =~= events@.take(i as int));
        apply(&mut stack, &events[i].0);
        i = i + 1;
    }
    assert(events@.take(events@.len() as int) =~= events@);
    proof {
        lemma_ctree_list_len(stack@);
    }
    if stack.len() == 1 {
        let ghost s = stack@;
        let root = stack.pop().unwrap();
        proof {
            assert(s.drop_last() =~= Seq::<AstNode>::empty());
            assert(ctree_list(s)[0] == ctree(root));
        }
        Ok(root)
    } else {
        Err(MSError::ParseError("文档树未正确闭合".to_owned()))
    }
}


/// Wikilinks: `[[name]]`, matched lazily.
pub const WIKILINK_PATTERN: &'static str = "\\[\\[(.+?)\\]\\]";

/// The distinct wikilink names of the matches `caps`, in order of first appearance.
pub open spec fn wikilink_names(s: Seq<char>, caps: Seq<Seq<Option<(usize, usize)>>>) -> Seq<Seq<char>>
    decreases caps.len(),
{
    if caps.len() == 0 {
        Seq::empty()
    } else {
        let prev = wikilink_names(s, caps.drop_last());
        let name = group_or_empty(s, caps.last(), 1);
        if prev.contains(name) { prev } else { prev.push(name) }
    }
}

/// The wikilink names of a text, or `None` when the pattern cannot be compiled.
pub open spec fn wikilinks_of(s: Seq<char>) -> Option<Seq<Seq<char>>> {
    match regex_captures(WIKILINK_PATTERN@, s) {
        Some(c) => Some(wikilink_names(s, c)),
        None => None,
    }
}

/// The names of the wikilinks of a Markdown text, each once, in order of
/// first appearance.
pub fn extract_wikilinks(md: &str) -> (r: MSResult<Vec<String>>)
    ensures
        wikilinks_of(md@) matches Some(names) ==> (r matches Ok(v) && v@.map_values(|x: String| x@) == names),
        wikilinks_of(md@) is None ==> (r matches Err(MSError::ParseError(m)) && m@ == "regex 编译失败"@),
{
    let caps = match find_captures(WIKILINK_PATTERN, md) {
        Some(c) => c,
        None => return Err(MSError::ParseError("regex 编译失败".to_owned())),
    };
    let ghost cv = caps_view(caps@);
    let mut names: Vec<String> = Vec::new();
    let mut i: usize = 0;
    while i < caps.len()
        invariant
            i <= caps.len(),
            cv == caps_view(caps@),
            cv == regex_captures(WIKILINK_PATTERN@, md@)->0,
            captures_well_formed(md@, cv),
            names@.map_values(|x: String| x@) == wikilink_names(md@, cv.take(i as int)),
        decreases caps.len() - i,
    {
        assert(cv.take(i + 1).drop_last() =~= cv.take(i as int));
        assert(caps[i as int]@ == cv[i as int]);
        let m = &caps[i];
        let name = group_or_empty_str(md, m, 1);
        if !contains_name(&names, name) {
            names.push(name.to_owned());
            assert(names@.map_values(|x: String| x@) =~= wikilink_names(md@, cv.take(i + 1)));
        }
        i = i + 1;
    }
    assert(cv.take(caps.len() as int) =~= cv);
    Ok(names)
}

/// The names extracted from a list of matches are pairwise distinct, each
/// match's name is among them, and each of them is the name of a match.
pub proof fn law_wikilink_names_distinct_and_complete(s: Seq<char>, caps: Seq<Seq<Option<(usize, usize)>>>)
    ensures
        forall|i: int, j: int| 0 <= i < j < wikilink_names(s, caps).len()
            ==> wikilink_names(s, caps)[i] != wikilink_names(s, caps)[j],
        forall|k: int| 0 <= k < caps.len() ==> wikilink_names(s, caps).contains(#[trigger] group_or_empty(s, caps[k], 1)),
        forall|i: int| 0 <= i < wikilink_names(s, caps).len()
            ==> exists|k: int| 0 <= k < caps.len() && #[trigger] wikilink_names(s, caps)[i] == group_or_empty(s, caps[k], 1),
    decreases caps.len(),
{
    if caps.len() > 0 {
        let d = caps.drop_last();
        law_wikilink_names_distinct_and_complete(s, d);
        let prev = wikilink_names(s, d);
        let name = group_or_empty(s, caps.last(), 1);
        let out = wikilink_names(s, caps);
        assert forall|k: int| 0 <= k < caps.len() implies out.contains(#[trigger] group_or_empty(s, caps[k], 1)) by {
            if k < d.len() {
                assert(caps[k] == d[k]);
                assert(prev.contains(group_or_empty(s, d[k], 1)));
                let w = choose|w: int| 0 <= w < prev.len() && prev[w] == group_or_empty(s, d[k], 1);
                assert(out[w] == prev[w]);
            } else {
                assert(caps[k] == caps.last());
                if !prev.contains(name) {
                    assert(out[out.len() - 1] == name);
                }
            }
        }
        assert forall|i: int| 0 <= i < out.len()
            implies exists|k: int| 0 <= k < caps.len() && #[trigger] out[i] == group_or_empty(s, caps[k], 1) by {
            if i < prev.len() {
                let k = choose|k: int| 0 <= k < d.len() && #[trigger] prev[i] == group_or_empty(s, d[k], 1);
                assert(caps[k] == d[k]);
                assert(out[i] == group_or_empty(s, caps[k], 1));
            } else {
                assert(out[i] == group_or_empty(s, caps[caps.len() - 1], 1));
            }
        }
    }
}

/// Inline math stays inline and display math stays displayed: in a
/// paragraph, each becomes the paragraph's last child, a math node with the
/// event's text and the event's kind; a text `$t$` alone in a paragraph
/// gives the tree `Root[Paragraph[Math(t, inline)]]`.
pub proof fn law_math_keeps_its_kind(rest: Seq<CTree>, kids: Seq<CTree>, t: String)
    ensures
        fold_step(rest.push(CTree::Paragraph { children: kids }), MdEvent::InlineMath(t))
            == rest.push(CTree::Paragraph { children: kids.push(CTree::Math { value: t@, inline: true }) }),
        fold_step(rest.push(CTree::Paragraph { children: kids }), MdEvent::DisplayMath(t))
            == rest.push(CTree::Paragraph { children: kids.push(CTree::Math { value: t@, inline: false }) }),
        events_tree(seq![
            (MdEvent::Start(MdTag::Paragraph), 0usize, 0usize),
            (MdEvent::InlineMath(t), 0usize, 0usize),
            (MdEvent::End { code_block: false }, 0usize, 0usize),
        ]) == Some(CTree::Root { children: seq![
            CTree::Paragraph { children: seq![CTree::Math { value: t@, inline: true }] },
        ] }),
{
    let st = rest.push(CTree::Paragraph { children: kids });
    assert(st.drop_last() =~= rest);
    let evs = seq![
        (MdEvent::Start(MdTag::Paragraph), 0usize, 0usize),
        (MdEvent::InlineMath(t), 0usize, 0usize),
        (MdEvent::End { code_block: false }, 0usize, 0usize),
    ];
    assert(evs.drop_last().drop_last().drop_last() =~= Seq::<(MdEvent, usize, usize)>::empty());
    let s0 = fold_events(Seq::<(MdEvent, usize, usize)>::empty());
    assert(s0 == seq![CTree::Root { children: Seq::empty() }]);
    let s1 = fold_events(evs.drop_last().drop_last());
    assert(s1 == s0.push(CTree::Paragraph { children: Seq::empty() }));
    let s2 = fold_events(evs.drop_last());
    assert(s1.drop_last() =~= s0);
    assert(s2 == s0.push(CTree::Paragraph { children: seq![CTree::Math { value: t@, inline: true }] })) by {
        assert(Seq::<CTree>::empty().push(CTree::Math { value: t@, inline: true })
            =~= seq![CTree::Math { value: t@, inline: true }]);
    }
    let s3 = fold_events(evs);
    assert(s2.drop_last() =~= s0);
    assert(s0.drop_last() =~= Seq::<CTree>::empty());
    assert(Seq::<CTree>::empty().push(CTree::Paragraph { children: seq![CTree::Math { value: t@, inline: true }] })
        =~= seq![CTree::Paragraph { children: seq![CTree::Math { value: t@, inline: true }] }]);
    assert(s3 =~= seq![CTree::Root { children: seq![
        CTree::Paragraph { children: seq![CTree::Math { value: t@, inline: true }] },
    ] }]);
}

} // verus!
