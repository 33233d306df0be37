//! Tables of contents of knowledge cards.
//!
//! Headings are collected in document order (looking into block quotes) and
//! nested into a forest: each heading becomes a child of the nearest earlier
//! heading of a smaller level.

use vstd::prelude::*;
use crate::ms_ast::node::AstNode;
use crate::ms_ast::visitor::{collect_plain_text, plain_text_list};
use crate::slug::{generate_slug, slug_of};
use crate::text::lowercase;

verus! {

/// A node of a table of contents.
#[derive(Debug, PartialEq)]
pub struct TocNode {
    pub level: u8,
    pub text: String,
    pub slug: String,
    pub children: Vec<TocNode>,
}

/// An entry of a flat table of contents.
#[derive(Debug, PartialEq)]
pub struct TocFlatItem {
    pub level: u8,
    pub text: String,
    pub slug: String,
}

/// Mathematical model of a table-of-contents node.
pub struct TocModel {
    pub level: u8,
    pub text: Seq<char>,
    pub slug: Seq<char>,
    pub children: Seq<TocModel>,
}

/// The model of a table-of-contents node.
pub open spec fn toc_view(n: TocNode) -> TocModel
    decreases n,
{
    TocModel { level: n.level, text: n.text@, slug: n.slug@, children: toc_view_list(n.children@) }
}

/// The models of a list of table-of-contents nodes.
pub open spec fn toc_view_list(s: Seq<TocNode>) -> Seq<TocModel>
    decreases s,
{
    if s.len() == 0 {
        Seq::empty()
    } else {
        toc_view_list(s.drop_last()).push(toc_view(s.last()))
    }
}

/// The headings of a tree in document order, as (level, plain text):
/// the root and block quotes are searched, a heading contributes itself.
pub open spec fn headings_of(n: AstNode) -> Seq<(u8, Seq<char>)>
    decreases n,
{
    match n {
        AstNode::Root { children } => headings_of_list(children@),
        AstNode::Blockquote { children } => headings_of_list(children@),
        AstNode::Heading { level, children, .. } => seq![(level, plain_text_list(children@))],
        _ => Seq::empty(),
    }
}

/// The headings of a list of nodes, in order.
pub open spec fn headings_of_list(s: Seq<AstNode>) -> Seq<(u8, Seq<char>)>
    decreases s,
{
    if s.len() == 0 {
        Seq::empty()
    } else {
        headings_of_list(s.drop_last()) + headings_of(s.last())
    }
}

/// The view of a list of collected headings.
pub open spec fn headings_view(h: Seq<(u8, String)>) -> Seq<(u8, Seq<char>)> {
    h.map_values(|p: (u8, String)| (p.0, p.1@))
}

/// A fresh table-of-contents node for a heading.
pub open spec fn toc_leaf(level: u8, text: Seq<char>) -> TocModel {
    TocModel { level, text, slug: slug_of(lowercase(text)), children: Seq::empty() }
}

/// `parent` with `child` appended to its children.
pub open spec fn with_child(parent: TocModel, child: TocModel) -> TocModel {
    TocModel { children: parent.children.push(child), ..parent }
}

/// Closes the innermost open heading: it becomes the last child of the one
/// below it on the stack, or a new top-level entry.
pub open spec fn close_top(root: Seq<TocModel>, stack: Seq<TocModel>) -> (Seq<TocModel>, Seq<TocModel>)
    recommends
        stack.len() > 0,
{
    let top = stack.last();
    let rest = stack.drop_last();
    if rest.len() > 0 {
        (root, rest.drop_last().push(with_child(rest.last(), top)))
    } else {
        (root.push(top), rest)
    }
}

/// Closes open headings whose level is at least `level`.
pub open spec fn close_down_to(root: Seq<TocModel>, stack: Seq<TocModel>, level: u8) -> (Seq<TocModel>, Seq<TocModel>)
    decreases stack.len(),
{
    if stack.len() > 0 && stack.last().level >= level {
        let next = close_top(root, stack);
        close_down_to(next.0, next.1, level)
    } else {
        (root, stack)
    }
}

/// Closed entries and open headings after reading the headings `h`.
pub open spec fn toc_state(h: Seq<(u8, Seq<char>)>) -> (Seq<TocModel>, Seq<TocModel>)
    decreases h.len(),
{
    if h.len() == 0 {
        (Seq::empty(), Seq::empty())
    } else {
        let prev = toc_state(h.drop_last());
        let next = close_down_to(prev.0, prev.1, h.last().0);
        (next.0, next.1.push(toc_leaf(h.last().0, h.last().1)))
    }
}

/// Closes every open heading.
pub open spec fn close_all(root: Seq<TocModel>, stack: Seq<TocModel>) -> Seq<TocModel>
    decreases stack.len(),
{
    if stack.len() == 0 {
        root
    } else {
        let next = close_top(root, stack);
        close_all(next.0, next.1)
    }
}

/// The table-of-contents forest of the headings `h`.
pub open spec fn toc_forest(h: Seq<(u8, Seq<char>)>) -> Seq<TocModel> {
    let st = toc_state(h);
    close_all(st.0, st.1)
}

/// The (level, text) labels of a table-of-contents tree in pre-order.
pub open spec fn preorder(m: TocModel) -> Seq<(u8, Seq<char>)>
    decreases m,
{
    seq![(m.level, m.text)] + preorder_list(m.children)
}

/// The pre-order labels of a forest, tree by tree.
pub open spec fn preorder_list(s: Seq<TocModel>) -> Seq<(u8, Seq<char>)>
    decreases s,
{
    if s.len() == 0 {
        Seq::empty()
    } else {
        preorder_list(s.drop_last()) + preorder(s.last())
    }
}

proof fn lemma_preorder_push(s: Seq<TocModel>, x: TocModel)
    ensures
        preorder_list(s.push(x)) == preorder_list(s) + preorder(x),
{
    assert(s.push(x).drop_last() =~= s);
}

proof fn lemma_close_top_preorder(root: Seq<TocModel>, stack: Seq<TocModel>)
    requires
        stack.len() > 0,
    ensures
        preorder_list(close_top(root, stack).0) + preorder_list(close_top(root, stack).1)
            == preorder_list(root) + preorder_list(stack),
{
    let top = stack.last();
    let rest = stack.drop_last();
    if rest.len() > 0 {
        let p = rest.last();
        let rr = rest.drop_last();
        let q = with_child(p, top);
        lemma_preorder_push(p.children, top);
        assert(preorder(q) == seq![(p.level, p.text)] + preorder_list(p.children.push(top)));
        assert(preorder(q) =~= preorder(p) + preorder(top));
        lemma_preorder_push(rr, q);
        assert(preorder_list(rest) == preorder_list(rr) + preorder(p));
        assert(preorder_list(stack) == preorder_list(rest) + preorder(top));
        assert(preorder_list(rr.push(q)) =~= preorder_list(stack));
    } else {
        lemma_preorder_push(root, top);
        assert(preorder_list(rest) =~= Seq::<(u8, Seq<char>)>::empty());
        assert(preorder_list(stack) == preorder_list(rest) + preorder(top));
        assert(preorder_list(stack) =~= preorder(top));
        assert(preorder_list(root.push(top)) + preorder_list(rest) =~= preorder_list(root) + preorder_list(stack));
    }
}

proof fn lemma_close_down_to_preorder(root: Seq<TocModel>, stack: Seq<TocModel>, level: u8)
    ensures
        preorder_list(close_down_to(root, stack, level).0) + preorder_list(close_down_to(root, stack, level).1)
            == preorder_list(root) + preorder_list(stack),
    decreases stack.len(),
{
    if stack.len() > 0 && stack.last().level >= level {
        let next = close_top(root, stack);
        lemma_close_top_preorder(root, stack);
        lemma_close_down_to_preorder(next.0, next.1, level);
    }
}

proof fn lemma_close_all_preorder(root: Seq<TocModel>, stack: Seq<TocModel>)
    ensures
        preorder_list(close_all(root, stack)) == preorder_list(root) + preorder_list(stack),
    decreases stack.len(),
{
    if stack.len() == 0 {
        assert(preorder_list(root) + preorder_list(stack) =~= preorder_list(root));
    } else {
        let next = close_top(root, stack);
        lemma_close_top_preorder(root, stack);
        lemma_close_all_preorder(next.0, next.1);
    }
}

proof fn lemma_state_preorder(h: Seq<(u8, Seq<char>)>)
    ensures
        preorder_list(toc_state(h).0) + preorder_list(toc_state(h).1) == h,
    decreases h.len(),
{
    if h.len() == 0 {
        assert(preorder_list(toc_state(h).0) + preorder_list(toc_state(h).1) =~= h);
    } else {
        let prev = toc_state(h.drop_last());
        lemma_state_preorder(h.drop_last());
        let next = close_down_to(prev.0, prev.1, h.last().0);
        lemma_close_down_to_preorder(prev.0, prev.1, h.last().0);
        let leaf = toc_leaf(h.last().0, h.last().1);
        lemma_preorder_push(next.1, leaf);
        assert(preorder_list(leaf.children) =~= Seq::<(u8, Seq<char>)>::empty());
        assert(preorder(leaf) =~= seq![h.last()]);
        assert(h =~= h.drop_last().push(h.last()));
        assert(preorder_list(next.0) + preorder_list(next.1.push(leaf)) =~= h);
    }
}

/// Reading a table-of-contents forest in pre-order gives back exactly the
/// headings it was built from, in their order: nesting loses no heading,
/// adds none and reorders none.
pub proof fn toc_forest_preorder(h: Seq<(u8, Seq<char>)>)
    ensures
        preorder_list(toc_forest(h)) == h,
{
    lemma_state_preorder(h);
    lemma_close_all_preorder(toc_state(h).0, toc_state(h).1);
}

/// The table of contents of a tree, read in pre-order, lists the tree's
/// headings in document order, which is also the order of the flat table
/// of contents.
pub proof fn toc_lists_headings_in_order(node: AstNode)
    ensures
        preorder_list(toc_forest(headings_of(node))) == headings_of(node),
        flat_of(headings_of(node)).map_values(|e: (u8, Seq<char>, Seq<char>)| (e.0, e.1)) == headings_of(node),
{
    toc_forest_preorder(headings_of(node));
    assert(flat_of(headings_of(node)).map_values(|e: (u8, Seq<char>, Seq<char>)| (e.0, e.1)) =~= headings_of(node));
}

/// A table-of-contents tree is well nested: each node's slug is made from
/// its text, and each child is deeper than its parent.
pub open spec fn well_nested(m: TocModel) -> bool
    decreases m,
{
    &&& m.slug == slug_of(lowercase(m.text))
    &&& forall|i: int| 0 <= i < m.children.len() ==> #[trigger] m.children[i].level > m.level
    &&& well_nested_list(m.children)
}

/// Each tree of a forest is well nested.
pub open spec fn well_nested_list(s: Seq<TocModel>) -> bool
    decreases s,
{
    s.len() == 0 || (well_nested_list(s.drop_last()) && well_nested(s.last()))
}

/// The levels of the open headings rise strictly from bottom to top.
pub open spec fn levels_rise(s: Seq<TocModel>) -> bool {
    forall|i: int, j: int| 0 <= i < j < s.len() ==> #[trigger] s[i].level < #[trigger] s[j].level
}

/// The invariant of the construction: closed and open trees are well
/// nested, and the open headings get deeper towards the top.
pub open spec fn toc_inv(root: Seq<TocModel>, stack: Seq<TocModel>) -> bool {
    well_nested_list(root) && well_nested_list(stack) && levels_rise(stack)
}

proof fn lemma_nested_push(s: Seq<TocModel>, x: TocModel)
    ensures
        well_nested_list(s.push(x)) == (well_nested_list(s) && well_nested(x)),
{
    assert(s.push(x).drop_last() =~= s);
}

proof fn lemma_close_top_inv(root: Seq<TocModel>, stack: Seq<TocModel>)
    requires
        stack.len() > 0,
        toc_inv(root, stack),
    ensures
        toc_inv(close_top(root, stack).0, close_top(root, stack).1),
        close_top(root, stack).1 =~= (if stack.len() > 1 {
            stack.drop_last().drop_last().push(with_child(stack.drop_last().last(), stack.last()))
        } else {
            Seq::empty()
        }),
{
    let top = stack.last();
    let rest = stack.drop_last();
    assert(well_nested_list(rest) && well_nested(top));
    if rest.len() > 0 {
        let p = rest.last();
        let rr = rest.drop_last();
        assert(well_nested_list(rr) && well_nested(p));
        assert(top.level > p.level) by {
            assert(stack[stack.len() - 2] == p);
            assert(stack[stack.len() - 1] == top);
        }
        let q = with_child(p, top);
        lemma_nested_push(p.children, top);
        assert forall|i: int| 0 <= i < q.children.len() implies #[trigger] q.children[i].level > q.level by {
            if i < p.children.len() {
                assert(q.children[i] == p.children[i]);
            }
        }
        assert(well_nested(q));
        lemma_nested_push(rr, q);
        let ns = rr.push(q);
        assert forall|i: int, j: int| 0 <= i < j < ns.len() implies #[trigger] ns[i].level < #[trigger] ns[j].level by {
            assert(ns[i].level == stack[i].level);
            assert(ns[j].level == stack[j].level);
        }
    } else {
        lemma_nested_push(root, top);
    }
}

proof fn lemma_close_down_to_inv(root: Seq<TocModel>, stack: Seq<TocModel>, level: u8)
    requires
        toc_inv(root, stack),
    ensures
        toc_inv(close_down_to(root, stack, level).0, close_down_to(root, stack, level).1),
        close_down_to(root, stack, level).1.len() > 0 ==> close_down_to(root, stack, level).1.last().level < level,
    decreases stack.len(),
{
    if stack.len() > 0 && stack.last().level >= level {
        let next = close_top(root, stack);
        lemma_close_top_inv(root, stack);
        lemma_close_down_to_inv(next.0, next.1, level);
    }
}

proof fn lemma_state_inv(h: Seq<(u8, Seq<char>)>)
    ensures
        toc_inv(toc_state(h).0, toc_state(h).1),
    decreases h.len(),
{
    if h.len() == 0 {
        assert(levels_rise(Seq::<TocModel>::empty()));
    } else {
        let prev = toc_state(h.drop_last());
        lemma_state_inv(h.drop_last());
        let next = close_down_to(prev.0, prev.1, h.last().0);
        lemma_close_down_to_inv(prev.0, prev.1, h.last().0);
        let leaf = toc_leaf(h.last().0, h.last().1);
        assert(well_nested_list(leaf.children));
        assert(well_nested(leaf));
        lemma_nested_push(next.1, leaf);
        let ns = next.1.push(leaf);
        assert forall|i: int, j: int| 0 <= i < j < ns.len() implies #[trigger] ns[i].level < #[trigger] ns[j].level by {
            if j == ns.len() - 1 {
                if i < next.1.len() - 1 {
                    assert(next.1[i].level < next.1[next.1.len() - 1].level);
                }
            } else {
                assert(ns[i] == next.1[i] && ns[j] == next.1[j]);
            }
        }
    }
}

proof fn lemma_close_all_inv(root: Seq<TocModel>, stack: Seq<TocModel>)
    requires
        toc_inv(root, stack),
    ensures
        well_nested_list(close_all(root, stack)),
    decreases stack.len(),
{
    if stack.len() > 0 {
        let next = close_top(root, stack);
        lemma_close_top_inv(root, stack);
        lemma_close_all_inv(next.0, next.1);
    }
}

/// Every tree of a table-of-contents forest is well nested: each entry's
/// slug is `slug_of(lowercase(text))`, and each child is deeper than its
/// parent.
pub proof fn law_toc_forest_nested(h: Seq<(u8, Seq<char>)>)
    ensures
        well_nested_list(toc_forest(h)),
{
    lemma_state_inv(h);
    lemma_close_all_inv(toc_state(h).0, toc_state(h).1);
}

// ───────────────────────────── executable ─────────────────────────────

/// Appends the headings of `node` (see [`headings_of`]).
fn walk_for_headings(node: &AstNode, out: &mut Vec<(u8, String)>)
    ensures
        headings_view(final(out)@) == headings_view(old(out)@) + headings_of(*node),
    decreases node,
{
    match node {
        AstNode::Root { children } => walk_list_for_headings(children, out),
        AstNode::Blockquote { children } => walk_list_for_headings(children, out),
        AstNode::Heading { level, children, .. } => {
            let text = collect_plain_text(children.as_slice());
            out.push((*level, text));
            assert(headings_view(final(out)@) =~= headings_view(old(out)@) + headings_of(*node));
        },
        _ => {
            assert(headings_view(out@) =~= headings_view(out@) + Seq::<(u8, Seq<char>)>::empty());
        },
    }
}

/// Appends the headings of each node of `children`, in order.
fn walk_list_for_headings(children: &Vec<AstNode>, out: &mut Vec<(u8, String)>)
    ensures
        headings_view(final(out)@) == headings_view(old(out)@) + headings_of_list(children@),
    decreases children,
{
    let ghost start = headings_view(out@);
    let mut i: usize = 0;
    assert(start =~= start + headings_of_list(children@.take(0)));
    while i < children.len()
        invariant
            i <= children.len(),
            headings_view(out@) == start + headings_of_list(children@.take(i as int)),
        decreases children.len() - i,
    {
        assert(children@.take(i + 1).drop_last() =~= children@.take(i as int));
        walk_for_headings(&children[i], out);
        i = i + 1;
    }
    assert(children@.take(children.len() as int) =~= children@);
}

/// The headings of `node` in document order, as (level, plain text).
pub fn collect_headings(node: &AstNode) -> (r: Vec<(u8, String)>)
    ensures
        headings_view(r@) == headings_of(*node),
{
    let mut out: Vec<(u8, String)> = Vec::new();
    assert(headings_view(out@) =~= Seq::empty());
    walk_for_headings(node, &mut out);
    out
}


/// Viewing a list with one more node appends that node's view.
proof fn lemma_view_list_push(s: Seq<TocNode>, x: TocNode)
    ensures
        toc_view_list(s.push(x)) == toc_view_list(s).push(toc_view(x)),
{
    assert(s.push(x).drop_last() =~= s);
}

/// Viewing preserves length, and the last element and prefix agree.
proof fn lemma_view_list_len(s: Seq<TocNode>)
    ensures
        toc_view_list(s).len() == s.len(),
        s.len() > 0 ==> toc_view_list(s).last() == toc_view(s.last()),
        s.len() > 0 ==> toc_view_list(s).drop_last() == toc_view_list(s.drop_last()),
    decreases s.len(),
{
    if s.len() > 0 {
        lemma_view_list_len(s.drop_last());
    }
}

/// Closes the innermost open heading (see [`close_top`]).
fn close_top_exec(root: &mut Vec<TocNode>, stack: &mut Vec<TocNode>)
    requires
        old(stack).len() > 0,
    ensures
        (toc_view_list(final(root)@), toc_view_list(final(stack)@))
            == close_top(toc_view_list(old(root)@), toc_view_list(old(stack)@)),
        final(stack)@.len() == old(stack)@.len() - 1,
{
    proof {
        lemma_view_list_len(stack@);
    }
    let top = stack.pop().unwrap();
    if stack.len() > 0 {
        proof {
            lemma_view_list_len(stack@);
        }
        let mut parent = stack.pop().unwrap();
        let ghost old_parent = parent;
        parent.children.push(top);
        proof {
            lemma_view_list_push(old_parent.children@, top);
            assert(toc_view(parent) == with_child(toc_view(old_parent), toc_view(top)));
        }
        stack.push(parent);
        proof {
            lemma_view_list_push(stack@.drop_last(), parent);
            assert(stack@.drop_last() =~= old(stack)@.drop_last().drop_last());
        }
    } else {
        root.push(top);
        proof {
            lemma_view_list_push(old(root)@, top);
            assert(stack@ =~= Seq::<TocNode>::empty());
        }
    }
}

/// Nests headings into a table-of-contents forest (see [`toc_forest`]).
pub fn build_tree(headings: &Vec<(u8, String)>) -> (r: Vec<TocNode>)
    ensures
        toc_view_list(r@) == toc_forest(headings_view(headings@)),
{
    let ghost hv = headings_view(headings@);
    let mut root: Vec<TocNode> = Vec::new();
    let mut stack: Vec<TocNode> = Vec::new();
    let mut i: usize = 0;
    assert(hv.take(0) =~= Seq::<(u8, Seq<char>)>::empty());
    while i < headings.len()
        invariant
            i <= headings.len(),
            hv == headings_view(headings@),
            (toc_view_list(root@), toc_view_list(stack@)) == toc_state(hv.take(i as int)),
        decreases headings.len() - i,
    {
        let level = headings[i].0;
        let text = &headings[i].1;
        assert(hv.take(i + 1).drop_last() =~= hv.take(i as int));
        assert(hv.take(i + 1).last() == (level, text@));
        let ghost goal = close_down_to(toc_view_list(root@), toc_view_list(stack@), level);
        while stack.len() > 0 && stack[stack.len() - 1].level >= level
            invariant
                close_down_to(toc_view_list(root@), toc_view_list(stack@), level) == goal,
            decreases stack.len(),
        {
            proof {
                lemma_view_list_len(stack@);
            }
            close_top_exec(&mut root, &mut stack);
        }
        proof {
            lemma_view_list_len(stack@);
        }
        let slug = generate_slug(text.as_str());
        let node = TocNode { level, text: text.clone(), slug, children: Vec::new() };
        assert(toc_view(node) == toc_leaf(level, text@)) by {
            assert(node.children@ =~= Seq::<TocNode>::empty());
        }
        proof {
            lemma_view_list_push(stack@, node);
        }
        stack.push(node);
        i = i + 1;
    }
    assert(hv.take(headings.len() as int) =~= hv);
    let ghost goal = close_all(toc_view_list(root@), toc_view_list(stack@));
    while stack.len() > 0
        invariant
            close_all(toc_view_list(root@), toc_view_list(stack@)) == goal,
        decreases stack.len(),
    {
        proof {
            lemma_view_list_len(stack@);
        }
        close_top_exec(&mut root, &mut stack);
    }
    proof {
        lemma_view_list_len(stack@);
    }
    root
}

/// The table-of-contents forest of `node` (see [`toc_forest`] and [`headings_of`]).
pub fn extract_toc(node: &AstNode) -> (r: Vec<TocNode>)
    ensures
        toc_view_list(r@) == toc_forest(headings_of(*node)),
{
    let headings = collect_headings(node);
    build_tree(&headings)
}

/// The view of a flat table of contents: (level, text, slug) per entry.
pub open spec fn flat_view(v: Seq<TocFlatItem>) -> Seq<(u8, Seq<char>, Seq<char>)> {
    v.map_values(|x: TocFlatItem| (x.level, x.text@, x.slug@))
}

/// The flat table of contents of a list of headings.
pub open spec fn flat_of(h: Seq<(u8, Seq<char>)>) -> Seq<(u8, Seq<char>, Seq<char>)> {
    h.map_values(|p: (u8, Seq<char>)| (p.0, p.1, slug_of(lowercase(p.1))))
}

/// The headings of `node` in document order, each with its slug.
pub fn extract_toc_flat(node: &AstNode) -> (r: Vec<TocFlatItem>)
    ensures
        flat_view(r@) == flat_of(headings_of(*node)),
{
    let headings = collect_headings(node);
    let ghost hv = headings_view(headings@);
    let mut out: Vec<TocFlatItem> = Vec::new();
    let mut i: usize = 0;
    while i < headings.len()
        invariant
            i <= headings.len(),
            hv == headings_view(headings@),
            flat_view(out@) == flat_of(hv.take(i as int)),
        decreases headings.len() - i,
    {
        let level = headings[i].0;
        let text = &headings[i].1;
        let slug = generate_slug(text.as_str());
        assert(hv[i as int] == (level, text@));
        let ghost before = out@;
        out.push(TocFlatItem { level, text: text.clone(), slug });
        assert(flat_view(out@) =~= flat_view(before).push((level, text@, slug_of(lowercase(text@)))));
        assert(hv.take(i + 1) =~= hv.take(i as int).push(hv[i as int]));
        i = i + 1;
        assert(flat_view(out@) =~= flat_of(hv.take(i as int)));
    }
    assert(hv.take(headings.len() as int) =~= hv);
    out
}

/// The (level, text, slug) entries of a table-of-contents tree in pre-order.
pub open spec fn preorder_entries(m: TocModel) -> Seq<(u8, Seq<char>, Seq<char>)>
    decreases m,
{
    seq![(m.level, m.text, m.slug)] + preorder_entries_list(m.children)
}

/// The pre-order entries of a forest, tree by tree.
pub open spec fn preorder_entries_list(s: Seq<TocModel>) -> Seq<(u8, Seq<char>, Seq<char>)>
    decreases s,
{
    if s.len() == 0 {
        Seq::empty()
    } else {
        preorder_entries_list(s.drop_last()) + preorder_entries(s.last())
    }
}

proof fn lemma_flat_concat(a: Seq<(u8, Seq<char>)>, b: Seq<(u8, Seq<char>)>)
    ensures
        flat_of(a + b) == flat_of(a) + flat_of(b),
{
    assert(flat_of(a + b) =~= flat_of(a) + flat_of(b));
}

proof fn lemma_entries_tree(m: TocModel)
    requires
        well_nested(m),
    ensures
        preorder_entries(m) == flat_of(preorder(m)),
    decreases m,
{
    lemma_entries_list(m.children);
    lemma_flat_concat(seq![(m.level, m.text)], preorder_list(m.children));
    assert(flat_of(seq![(m.level, m.text)]) =~= seq![(m.level, m.text, m.slug)]);
}

proof fn lemma_entries_list(s: Seq<TocModel>)
    requires
        well_nested_list(s),
    ensures
        preorder_entries_list(s) == flat_of(preorder_list(s)),
    decreases s,
{
    if s.len() == 0 {
        assert(flat_of(preorder_list(s)) =~= Seq::<(u8, Seq<char>, Seq<char>)>::empty());
    } else {
        lemma_entries_list(s.drop_last());
        lemma_entries_tree(s.last());
        lemma_flat_concat(preorder_list(s.drop_last()), preorder(s.last()));
    }
}

/// The table-of-contents forest read in pre-order, with each entry's level,
/// text and slug, is exactly the flat table of contents of the same
/// headings.
pub proof fn law_toc_forest_is_flat_toc(h: Seq<(u8, Seq<char>)>)
    ensures
        preorder_entries_list(toc_forest(h)) == flat_of(h),
{
    law_toc_forest_nested(h);
    lemma_entries_list(toc_forest(h));
    toc_forest_preorder(h);
}

} // verus!
