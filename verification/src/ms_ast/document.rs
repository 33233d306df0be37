//! One parse, every extract: the tree of a card together with its table of
//! contents, its outgoing wikilinks, a plain-text excerpt and its raw
//! front matter.

use vstd::prelude::*;
use crate::ms_ast::error::MSResult;
use crate::ms_ast::events::ParseOptions;
use crate::ms_ast::model::tree_view;
use crate::ms_ast::node::AstNode;
use crate::ms_ast::parser::{contains_name, parse_markdown_with, parsed, reports};
use crate::ms_ast::toc::{build_tree, headings_view, toc_forest, toc_view_list, TocNode};
use crate::ms_ast::visitor::{collect_plain_text, plain_text_list};
use crate::text::{chars_of, is_space, push_char, skip_space_start, string_of, sub_chars, trimmed_start};

verus! {

// ───────────────────────────── front matter ─────────────────────────────

/// `s` holds `p` from index `i` on.
pub open spec fn has_at(s: Seq<char>, i: int, p: Seq<char>) -> bool {
    0 <= i && i + p.len() <= s.len() && s.subrange(i, i + p.len()) == p
}

/// A line of exactly `---`, ended by `\n` or `\r\n`, starts at `i`.
pub open spec fn dash_line_at(s: Seq<char>, i: int) -> bool {
    has_at(s, i, seq!['-', '-', '-', '\n']) || has_at(s, i, seq!['-', '-', '-', '\r', '\n'])
}

/// A line break at `i` (`\n`, or `\r\n`) is followed by a `---` line.
pub open spec fn closes_at(s: Seq<char>, i: int) -> bool {
    0 <= i < s.len() && (
        (s[i] == '\n' && dash_line_at(s, i + 1))
        || (s[i] == '\r' && i + 1 < s.len() && s[i + 1] == '\n' && dash_line_at(s, i + 2))
    )
}

/// The indices below `n` at which [`closes_at`] holds, in increasing order.
pub open spec fn closing_positions(s: Seq<char>, n: int) -> Seq<int>
    decreases n,
{
    if n <= 0 {
        Seq::empty()
    } else if closes_at(s, n - 1) {
        closing_positions(s, n - 1).push(n - 1)
    } else {
        closing_positions(s, n - 1)
    }
}

/// Every closing position is a line break followed by a `---` line.
proof fn lemma_closing_positions(s: Seq<char>, n: int)
    ensures
        forall|j: int| 0 <= j < closing_positions(s, n).len() ==> closes_at(s, #[trigger] closing_positions(s, n)[j]),
    decreases n,
{
    if n > 0 {
        lemma_closing_positions(s, n - 1);
        let prev = closing_positions(s, n - 1);
        let cur = closing_positions(s, n);
        assert forall|j: int| 0 <= j < cur.len() implies closes_at(s, #[trigger] cur[j]) by {
            if j < prev.len() {
                assert(cur[j] == prev[j]);
            }
        }
    }
}

/// The text after an opening `---` line, or `None` when there is none.
pub open spec fn after_opening(md: Seq<char>) -> Option<Seq<char>> {
    if dash_line_at(md, 0) {
        Some(md.skip(if md[3] == '\n' { 4 } else { 5 }))
    } else {
        None
    }
}

/// The body and the raw front matter of a card. Front matter opens with a
/// `---` line at the very start and closes at the first later `---` line;
/// the front matter is the text between (separators excluded), and the body
/// starts at the closing `---` itself (only the line break before it is
/// skipped), with leading white space removed. Without a closing line the
/// whole text is the body and the front matter is empty.
pub open spec fn split_front_matter(md: Seq<char>) -> (Seq<char>, Seq<char>) {
    match after_opening(md) {
        None => (md, Seq::empty()),
        Some(a) => {
            let ps = closing_positions(a, a.len() as int);
            if ps.len() == 0 {
                (md, Seq::empty())
            } else {
                let p = ps[0];
                let sep: int = if a[p] == '\n' { 1 } else { 2 };
                (trimmed_start(a.skip(p + sep)), a.take(p))
            }
        },
    }
}

/// `p` occurs in `s` at `i` (see [`has_at`]).
fn chars_at(s: &Vec<char>, i: usize, p: &[char]) -> (b: bool)
    ensures
        b == has_at(s@, i as int, p@),
{
    let n = s.len();
    if i > n || n - i < p.len() {
        return false;
    }
    let mut k: usize = 0;
    while k < p.len()
        invariant
            k <= p@.len(),
            i <= s@.len(),
            n == s@.len(),
            i + p@.len() <= n,
            s@.subrange(i as int, i + k) == p@.take(k as int),
        decreases p@.len() - k,
    {
        let j: usize = i + k;
        if s[j] != p[k] {
            assert(s@.subrange(i as int, i + p@.len())[k as int] != p@[k as int]);
            return false;
        }
        assert(s@.subrange(i as int, i + k + 1) =~= p@.take(k + 1));
        k = k + 1;
    }
    assert(p@.take(p@.len() as int) =~= p@);
    true
}

/// A `---` line starts at `i` (see [`dash_line_at`]).
fn dash_line(s: &Vec<char>, i: usize) -> (b: bool)
    ensures
        b == dash_line_at(s@, i as int),
{
    let lf = ['-', '-', '-', '\n'];
    let crlf = ['-', '-', '-', '\r', '\n'];
    assert(lf@ =~= seq!['-', '-', '-', '\n']);
    assert(crlf@ =~= seq!['-', '-', '-', '\r', '\n']);
    chars_at(s, i, &lf) || chars_at(s, i, &crlf)
}

/// The positions of the line breaks that are followed by a `---` line, in
/// increasing order (see [`closing_positions`]); indices count characters.
fn match_indices_newline_aware(s: &Vec<char>) -> (r: Vec<usize>)
    ensures
        r@.map_values(|x: usize| x as int) == closing_positions(s@, s@.len() as int),
{
    let mut positions: Vec<usize> = Vec::new();
    let mut i: usize = 0;
    while i < s.len()
        invariant
            i <= s@.len(),
            positions@.map_values(|x: usize| x as int) == closing_positions(s@, i as int),
        decreases s@.len() - i,
    {
        let hit = if s[i] == '\n' {
            dash_line(s, i + 1)
        } else if s[i] == '\r' && i + 1 < s.len() && s[i + 1] == '\n' {
            dash_line(s, i + 2)
        } else {
            false
        };
        assert(hit == closes_at(s@, i as int));
        if hit {
            positions.push(i);
        }
        assert(positions@.map_values(|x: usize| x as int) =~= closing_positions(s@, i + 1));
        i = i + 1;
    }
    positions
}

/// Splits a card into its body and raw front matter (see [`split_front_matter`]).
fn strip_frontmatter(md: &str) -> (r: (String, String))
    ensures
        (r.0@, r.1@) == split_front_matter(md@),
{
    let cs = chars_of(md);
    if !dash_line(&cs, 0) {
        return (string_of(&cs), String::new());
    }
    let skip: usize = if cs[3] == '\n' { 4 } else { 5 };
    let a = sub_chars(&cs, skip, cs.len());
    assert(a@ =~= md@.skip(skip as int));
    let ps = match_indices_newline_aware(&a);
    if ps.len() == 0 {
        return (string_of(&cs), String::new());
    }
    let p = ps[0];
    proof {
        lemma_closing_positions(a@, a@.len() as int);
    }
    assert(ps@.map_values(|x: usize| x as int)[0] == p as int);
    assert(closes_at(a@, p as int));
    let sep: usize = if a[p] == '\n' { 1 } else { 2 };
    let rest = sub_chars(&a, p + sep, a.len());
    let k = skip_space_start(&rest);
    let body = sub_chars(&rest, k, rest.len());
    let yaml = sub_chars(&a, 0, p);
    assert(rest@ =~= a@.skip(p + sep));
    assert(yaml@ =~= a@.take(p as int));
    (string_of(&body), string_of(&yaml))
}

// ───────────────────────────── single-walk extraction ─────────────────────────────

/// What a walk over a card's tree records, in document order.
pub enum DocItem {
    /// A heading, with the plain text of its children; the walk does not go
    /// inside it.
    Heading(u8, Seq<char>),
    /// A wikilink target.
    Link(Seq<char>),
    /// A text node.
    Text(Seq<char>),
}

/// The items of a node: headings, wikilinks and texts found by walking the
/// tree in document order, code blocks and other leaves giving nothing.
pub open spec fn doc_items(n: AstNode) -> Seq<DocItem>
    decreases n,
{
    match n {
        AstNode::Heading { level, children, .. } => seq![DocItem::Heading(level, plain_text_list(children@))],
        AstNode::Text { value } => seq![DocItem::Text(value@)],
        AstNode::Wikilink { target, .. } => seq![DocItem::Link(target@)],
        AstNode::Root { children } => doc_items_list(children@),
        AstNode::Paragraph { children } => doc_items_list(children@),
        AstNode::Link { children, .. } => doc_items_list(children@),
        AstNode::Blockquote { children } => doc_items_list(children@),
        AstNode::List { children, .. } => doc_items_list(children@),
        AstNode::ListItem { children } => doc_items_list(children@),
        AstNode::Strong { children } => doc_items_list(children@),
        AstNode::Emphasis { children } => doc_items_list(children@),
        AstNode::Table { children, .. } => doc_items_list(children@),
        AstNode::TableHead { children } => doc_items_list(children@),
        AstNode::TableRow { children } => doc_items_list(children@),
        AstNode::TableCell { children } => doc_items_list(children@),
        AstNode::Strikethrough { children } => doc_items_list(children@),
        AstNode::FootnoteDefinition { children, .. } => doc_items_list(children@),
        AstNode::DefinitionList { children } => doc_items_list(children@),
        AstNode::DefinitionListTitle { children } => doc_items_list(children@),
        AstNode::DefinitionListDefinition { children } => doc_items_list(children@),
        AstNode::Cloze { children } => doc_items_list(children@),
        AstNode::Admonition { children, .. } => doc_items_list(children@),
        _ => Seq::empty(),
    }
}

/// The items of a list of nodes, in order.
pub open spec fn doc_items_list(s: Seq<AstNode>) -> Seq<DocItem>
    decreases s,
{
    if s.len() == 0 {
        Seq::empty()
    } else {
        doc_items_list(s.drop_last()) + doc_items(s.last())
    }
}

/// The headings among some items.
pub open spec fn headings_in(items: Seq<DocItem>) -> Seq<(u8, Seq<char>)>
    decreases items.len(),
{
    if items.len() == 0 {
        Seq::empty()
    } else {
        match items.last() {
            DocItem::Heading(l, t) => headings_in(items.drop_last()).push((l, t)),
            _ => headings_in(items.drop_last()),
        }
    }
}

/// The wikilink targets among some items.
pub open spec fn links_in(items: Seq<DocItem>) -> Seq<Seq<char>>
    decreases items.len(),
{
    if items.len() == 0 {
        Seq::empty()
    } else {
        match items.last() {
            DocItem::Link(t) => links_in(items.drop_last()).push(t),
            _ => links_in(items.drop_last()),
        }
    }
}

/// The texts among some items, concatenated.
pub open spec fn text_in(items: Seq<DocItem>) -> Seq<char>
    decreases items.len(),
{
    if items.len() == 0 {
        Seq::empty()
    } else {
        match items.last() {
            DocItem::Text(t) => text_in(items.drop_last()) + t,
            _ => text_in(items.drop_last()),
        }
    }
}

/// `d` with the elements of `s` that it lacks appended, each once, in order.
pub open spec fn with_new(d: Seq<Seq<char>>, s: Seq<Seq<char>>) -> Seq<Seq<char>>
    decreases s.len(),
{
    if s.len() == 0 {
        d
    } else {
        let prev = with_new(d, s.drop_last());
        if prev.contains(s.last()) { prev } else { prev.push(s.last()) }
    }
}

/// The first `limit` characters of `s` (all of them when it is shorter).
pub open spec fn clip(s: Seq<char>, limit: int) -> Seq<char> {
    if s.len() <= limit { s } else { s.take(limit) }
}

/// The texts of a list of strings.
pub open spec fn names(v: Seq<String>) -> Seq<Seq<char>> {
    v.map_values(|x: String| x@)
}

proof fn lemma_single_item(it: DocItem)
    ensures
        headings_in(seq![it]) == (match it { DocItem::Heading(l, t) => seq![(l, t)], _ => Seq::empty() }),
        links_in(seq![it]) == (match it { DocItem::Link(t) => seq![t], _ => Seq::empty() }),
        text_in(seq![it]) == (match it { DocItem::Text(t) => t, _ => Seq::empty() }),
{
    let s = seq![it];
    let e = Seq::<DocItem>::empty();
    assert(s.drop_last() =~= e);
    assert(s.last() == it);
    assert(headings_in(e) == Seq::<(u8, Seq<char>)>::empty());
    assert(links_in(e) == Seq::<Seq<char>>::empty());
    assert(text_in(e) == Seq::<char>::empty());
    assert(headings_in(s) == match it { DocItem::Heading(l, t) => headings_in(e).push((l, t)), _ => headings_in(e) });
    assert(links_in(s) == match it { DocItem::Link(t) => links_in(e).push(t), _ => links_in(e) });
    assert(text_in(s) == match it { DocItem::Text(t) => text_in(e) + t, _ => text_in(e) });
    match it {
        DocItem::Heading(l, t) => {
            assert(Seq::<(u8, Seq<char>)>::empty().push((l, t)) =~= seq![(l, t)]);
        },
        DocItem::Link(t) => {
            assert(Seq::<Seq<char>>::empty().push(t) =~= seq![t]);
        },
        DocItem::Text(t) => {
            assert(Seq::<char>::empty() + t =~= t);
        },
    }
}

proof fn lemma_with_new_single(d: Seq<Seq<char>>, t: Seq<char>)
    ensures
        with_new(d, seq![t]) == (if d.contains(t) { d } else { d.push(t) }),
{
    let e = Seq::<Seq<char>>::empty();
    assert(seq![t].drop_last() =~= e);
    assert(with_new(d, e) == d);
    assert(with_new(d, seq![t]) == (if with_new(d, e).contains(t) { with_new(d, e) } else { with_new(d, e).push(t) }));
}

proof fn lemma_items_concat(a: Seq<DocItem>, b: Seq<DocItem>)
    ensures
        headings_in(a + b) == headings_in(a) + headings_in(b),
        links_in(a + b) == links_in(a) + links_in(b),
        text_in(a + b) == text_in(a) + text_in(b),
    decreases b.len(),
{
    if b.len() == 0 {
        assert(a + b =~= a);
        assert(headings_in(a) + headings_in(b) =~= headings_in(a));
        assert(links_in(a) + links_in(b) =~= links_in(a));
        assert(text_in(a) + text_in(b) =~= text_in(a));
    } else {
        assert((a + b).drop_last() =~= a + b.drop_last());
        assert((a + b).last() == b.last());
        lemma_items_concat(a, b.drop_last());
        assert(headings_in(a) + headings_in(b.drop_last()).push(match b.last() { DocItem::Heading(l, t) => (l, t), _ => (0u8, Seq::empty()) })
            =~= (headings_in(a) + headings_in(b.drop_last())).push(match b.last() { DocItem::Heading(l, t) => (l, t), _ => (0u8, Seq::empty()) }));
        match b.last() {
            DocItem::Link(t) => {
                assert(links_in(a) + links_in(b.drop_last()).push(t) =~= (links_in(a) + links_in(b.drop_last())).push(t));
            },
            DocItem::Text(t) => {
                assert(text_in(a) + (text_in(b.drop_last()) + t) =~= (text_in(a) + text_in(b.drop_last())) + t);
            },
            _ => {},
        }
    }
}

proof fn lemma_with_new_concat(d: Seq<Seq<char>>, a: Seq<Seq<char>>, b: Seq<Seq<char>>)
    ensures
        with_new(with_new(d, a), b) == with_new(d, a + b),
    decreases b.len(),
{
    if b.len() == 0 {
        assert(a + b =~= a);
    } else {
        assert((a + b).drop_last() =~= a + b.drop_last());
        lemma_with_new_concat(d, a, b.drop_last());
    }
}

proof fn lemma_clip_concat(x: Seq<char>, a: Seq<char>, b: Seq<char>, limit: int)
    requires
        0 <= limit,
    ensures
        clip(clip(x + a, limit) + b, limit) == clip(x + a + b, limit),
{
    if (x + a).len() <= limit {
    } else {
        assert((x + a).take(limit) + b =~= (x + a + b).take(limit) + b);
        assert(((x + a).take(limit) + b).take(limit) =~= (x + a + b).take(limit));
    }
}

/// Collects, in one walk, the headings, the distinct wikilink targets and a
/// plain-text excerpt of a card.
pub struct DocumentExtractor {
    pub headings: Vec<(u8, String)>,
    pub links: Vec<String>,
    pub excerpt: String,
    pub excerpt_chars: usize,
    pub excerpt_limit: usize,
}

impl DocumentExtractor {
    /// The excerpt holds `excerpt_chars` characters, at most the limit.
    pub open spec fn wf(&self) -> bool {
        self.excerpt@.len() == self.excerpt_chars && self.excerpt_chars <= self.excerpt_limit
    }

    /// The extractor's record after walking past `items`, starting from `self`.
    pub open spec fn after(self, items: Seq<DocItem>, next: Self) -> bool {
        &&& next.wf()
        &&& next.excerpt_limit == self.excerpt_limit
        &&& headings_view(next.headings@) == headings_view(self.headings@) + headings_in(items)
        &&& names(next.links@) == with_new(names(self.links@), links_in(items))
        &&& next.excerpt@ == clip(self.excerpt@ + text_in(items), self.excerpt_limit as int)
    }

    /// An extractor with nothing collected yet.
    pub fn new(excerpt_limit: usize) -> (r: Self)
        ensures
            r.wf(),
            r.excerpt_limit == excerpt_limit,
            r.headings@.len() == 0,
            r.links@.len() == 0,
            r.excerpt@.len() == 0,
    {
        DocumentExtractor {
            headings: Vec::new(),
            links: Vec::new(),
            excerpt: String::new(),
            excerpt_chars: 0,
            excerpt_limit,
        }
    }

    /// Records a heading with the plain text of its children.
    fn visit_heading(&mut self, level: u8, children: &[AstNode])
        requires
            old(self).wf(),
        ensures
            old(self).after(seq![DocItem::Heading(level, plain_text_list(children@))], *final(self)),
    {
        let text = collect_plain_text(children);
        self.headings.push((level, text));
        let ghost item = DocItem::Heading(level, plain_text_list(children@));
        proof {
            lemma_single_item(item);
        }
        assert(headings_view(self.headings@) =~= headings_view(old(self).headings@) + headings_in(seq![item]));
        assert(links_in(seq![item]) =~= Seq::<Seq<char>>::empty());
        assert(text_in(seq![item]) =~= Seq::<char>::empty());
        assert(old(self).excerpt@ + text_in(seq![item]) =~= old(self).excerpt@);
    }

    /// Records a wikilink target unless it was seen before.
    fn visit_wikilink(&mut self, target: &str)
        requires
            old(self).wf(),
        ensures
            old(self).after(seq![DocItem::Link(target@)], *final(self)),
    {
        let ghost item = DocItem::Link(target@);
        proof {
            lemma_single_item(item);
            lemma_with_new_single(names(old(self).links@), target@);
        }
        if !contains_name(&self.links, target) {
            self.links.push(target.to_string());
            assert(names(self.links@) =~= names(old(self).links@).push(target@));
        }
        assert(headings_in(seq![item]) =~= Seq::<(u8, Seq<char>)>::empty());
        assert(headings_view(self.headings@) =~= headings_view(old(self).headings@) + headings_in(seq![item]));
        assert(text_in(seq![item]) =~= Seq::<char>::empty());
        assert(old(self).excerpt@ + text_in(seq![item]) =~= old(self).excerpt@);
    }

    /// Appends text to the excerpt until it holds the limit in characters.
    fn visit_text(&mut self, value: &str)
        requires
            old(self).wf(),
        ensures
            old(self).after(seq![DocItem::Text(value@)], *final(self)),
    {
        let ghost item = DocItem::Text(value@);
        proof {
            lemma_single_item(item);
        }
        assert(headings_in(seq![item]) =~= Seq::<(u8, Seq<char>)>::empty());
        assert(links_in(seq![item]) =~= Seq::<Seq<char>>::empty());
        let ghost limit = self.excerpt_limit as int;
        if self.excerpt_chars >= self.excerpt_limit {
            assert(clip(old(self).excerpt@ + value@, limit) =~= old(self).excerpt@);
            return;
        }
        let remaining = self.excerpt_limit - self.excerpt_chars;
        let cs = chars_of(value);
        let mut i: usize = 0;
        while i < cs.len() && i < remaining
            invariant
                i <= cs@.len(),
                i <= remaining,
                cs@ == value@,
                remaining == self.excerpt_limit - old(self).excerpt_chars,
                self.excerpt_limit == old(self).excerpt_limit,
                self.excerpt_chars == old(self).excerpt_chars + i,
                self.excerpt@ == old(self).excerpt@ + value@.take(i as int),
                self.headings == old(self).headings,
                self.links == old(self).links,
            decreases cs@.len() - i,
        {
            push_char(&mut self.excerpt, cs[i]);
            self.excerpt_chars = self.excerpt_chars + 1;
            assert(value@.take(i + 1) =~= value@.take(i as int).push(cs@[i as int]));
            i = i + 1;
        }
        if i == cs.len() {
            assert(value@.take(i as int) =~= value@);
        } else {
            assert((old(self).excerpt@ + value@).take(limit) =~= old(self).excerpt@ + value@.take(i as int));
        }
    }

    /// Walking past nothing records nothing.
    proof fn lemma_after_empty(self)
        requires
            self.wf(),
        ensures
            self.after(Seq::empty(), self),
    {
        let e = Seq::<DocItem>::empty();
        assert(headings_view(self.headings@) + headings_in(e) =~= headings_view(self.headings@));
        assert(with_new(names(self.links@), links_in(e)) == names(self.links@));
        assert(self.excerpt@ + text_in(e) =~= self.excerpt@);
    }

    /// Walking past `a` then `b` is walking past `a + b`.
    proof fn lemma_after_compose(self, a: Seq<DocItem>, mid: Self, b: Seq<DocItem>, next: Self)
        requires
            self.wf(),
            self.after(a, mid),
            mid.after(b, next),
        ensures
            self.after(a + b, next),
    {
        lemma_items_concat(a, b);
        lemma_with_new_concat(names(self.links@), links_in(a), links_in(b));
        lemma_clip_concat(self.excerpt@, text_in(a), text_in(b), self.excerpt_limit as int);
        assert(headings_view(next.headings@) =~= headings_view(self.headings@) + headings_in(a + b));
        assert(self.excerpt@ + text_in(a) + text_in(b) =~= self.excerpt@ + text_in(a + b));
    }

    /// Walks a node, recording its items (see [`doc_items`]).
    fn visit(&mut self, node: &AstNode)
        requires
            old(self).wf(),
        ensures
            old(self).after(doc_items(*node), *final(self)),
        decreases node,
    {
        match node {
            AstNode::Heading { level, children, .. } => self.visit_heading(*level, children.as_slice()),
            AstNode::Text { value } => self.visit_text(value.as_str()),
            AstNode::Wikilink { target, .. } => self.visit_wikilink(target.as_str()),
            AstNode::Root { children } => self.visit_children(children),
            AstNode::Paragraph { children } => self.visit_children(children),
            AstNode::Link { children, .. } => self.visit_children(children),
            AstNode::Blockquote { children } => self.visit_children(children),
            AstNode::List { children, .. } => self.visit_children(children),
            AstNode::ListItem { children } => self.visit_children(children),
            AstNode::Strong { children } => self.visit_children(children),
            AstNode::Emphasis { children } => self.visit_children(children),
            AstNode::Table { children, .. } => self.visit_children(children),
            AstNode::TableHead { children } => self.visit_children(children),
            AstNode::TableRow { children } => self.visit_children(children),
            AstNode::TableCell { children } => self.visit_children(children),
            AstNode::Strikethrough { children } => self.visit_children(children),
            AstNode::FootnoteDefinition { children, .. } => self.visit_children(children),
            AstNode::DefinitionList { children } => self.visit_children(children),
            AstNode::DefinitionListTitle { children } => self.visit_children(children),
            AstNode::DefinitionListDefinition { children } => self.visit_children(children),
            AstNode::Cloze { children } => self.visit_children(children),
            AstNode::Admonition { children, .. } => self.visit_children(children),
            _ => {
                proof {
                    self.lemma_after_empty();
                }
            },
        }
    }

    /// Walks each node of `children` in order.
    fn visit_children(&mut self, children: &Vec<AstNode>)
        requires
            old(self).wf(),
        ensures
            old(self).after(doc_items_list(children@), *final(self)),
        decreases children,
    {
        proof {
            old(self).lemma_after_empty();
        }
        assert(doc_items_list(children@.take(0)) =~= Seq::<DocItem>::empty());
        let mut i: usize = 0;
        while i < children.len()
            invariant
                i <= children@.len(),
                old(self).wf(),
                self.wf(),
                old(self).after(doc_items_list(children@.take(i as int)), *self),
            decreases children@.len() - i,
        {
            let ghost mid = *self;
            self.visit(&children[i]);
            proof {
                old(self).lemma_after_compose(doc_items_list(children@.take(i as int)), mid, doc_items(children@[i as int]), *self);
                assert(children@.take(i + 1).drop_last() =~= children@.take(i as int));
                assert(children@.take(i + 1).last() == children@[i as int]);
            }
            i = i + 1;
        }
        assert(children@.take(children@.len() as int) =~= children@);
    }

}


/// The outgoing links of a document are distinct and are exactly the
/// wikilink targets it holds: adding the targets `s`, in order, to an empty
/// list keeps one copy of each.
pub proof fn law_links_distinct(s: Seq<Seq<char>>)
    ensures
        with_new(Seq::empty(), s).no_duplicates(),
        forall|x: Seq<char>| with_new(Seq::empty(), s).contains(x) <==> s.contains(x),
    decreases s.len(),
{
    if s.len() > 0 {
        law_links_distinct(s.drop_last());
        let prev = with_new(Seq::empty(), s.drop_last());
        let cur = with_new(Seq::empty(), s);
        assert forall|x: Seq<char>| cur.contains(x) <==> s.contains(x) by {
            let last = s.last();
            assert(s =~= s.drop_last().push(last));
            assert(s.contains(x) <==> (s.drop_last().contains(x) || x == last)) by {
                if s.contains(x) {
                    let k = choose|k: int| 0 <= k < s.len() && s[k] == x;
                    if k < s.len() - 1 {
                        assert(s.drop_last()[k] == x);
                    }
                }
                if s.drop_last().contains(x) {
                    let k = choose|k: int| 0 <= k < s.drop_last().len() && s.drop_last()[k] == x;
                    assert(s[k] == x);
                }
                if x == last {
                    assert(s[s.len() - 1] == x);
                }
            }
            if !prev.contains(last) {
                assert(cur == prev.push(last));
                assert(cur.contains(x) <==> (prev.contains(x) || x == last)) by {
                    if cur.contains(x) {
                        let k = choose|k: int| 0 <= k < cur.len() && cur[k] == x;
                        if k < prev.len() {
                            assert(prev[k] == x);
                        }
                    }
                    if prev.contains(x) {
                        let k = choose|k: int| 0 <= k < prev.len() && prev[k] == x;
                        assert(cur[k] == x);
                    }
                    if x == last {
                        assert(cur[cur.len() - 1] == x);
                    }
                }
            }
        }
    }
}

/// An excerpt is the start of the text and holds at most the limit in
/// characters.
pub proof fn law_excerpt_is_prefix(text: Seq<char>, limit: int)
    requires
        0 <= limit,
    ensures
        clip(text, limit).len() <= limit,
        clip(text, limit) == text.take(clip(text, limit).len() as int),
{
    if text.len() <= limit {
        assert(text.take(text.len() as int) =~= text);
    }
}

// ───────────────────────────── public entry points ─────────────────────────────

/// Everything one parse of a card yields.
pub struct ParsedDocument {
    /// The syntax tree of the body.
    pub ast: AstNode,
    /// The table of contents (nested headings).
    pub toc: Vec<TocNode>,
    /// The distinct wikilink targets, in order of first appearance.
    pub outgoing_links: Vec<String>,
    /// The first characters of the body's plain text.
    pub excerpt: String,
    /// The raw front matter, without its `---` lines; empty when there is none.
    pub frontmatter: String,
}

/// Excerpt length, in characters, of [`parse_document`].
pub const DEFAULT_EXCERPT_LIMIT: usize = 200;

/// `d` is what parsing the tree `d.ast` yields with the excerpt limit `limit`:
/// the table of contents of its headings, its distinct wikilink targets and
/// the first `limit` characters of its text, headings and code excluded.
pub open spec fn extracted(d: ParsedDocument, limit: int) -> bool {
    &&& toc_view_list(d.toc@) == toc_forest(headings_in(doc_items(d.ast)))
    &&& names(d.outgoing_links@) == with_new(Seq::empty(), links_in(doc_items(d.ast)))
    &&& d.excerpt@ == clip(text_in(doc_items(d.ast)), limit)
}

/// Parses a card under `opts`: front matter is split off (see
/// [`split_front_matter`]), the body is parsed, and one walk over the tree
/// collects the table of contents, the outgoing links and an excerpt of at
/// most `excerpt_limit` characters.
pub fn parse_document_with(md: &str, opts: &ParseOptions, excerpt_limit: usize) -> (r: MSResult<ParsedDocument>)
    ensures
        parsed(split_front_matter(md@).0, *opts) matches Ok(t) ==> (r matches Ok(d) && tree_view(d.ast) == t
            && d.frontmatter@ == split_front_matter(md@).1 && extracted(d, excerpt_limit as int)),
        parsed(split_front_matter(md@).0, *opts) matches Err(f) ==> reports(r, f),
{
    let (body, frontmatter) = strip_frontmatter(md);
    let ast = match parse_markdown_with(body.as_str(), opts) {
        Ok(a) => a,
        Err(e) => return Err(e),
    };
    let mut extractor = DocumentExtractor::new(excerpt_limit);
    let ghost init = extractor;
    assert(names(init.links@) =~= Seq::<Seq<char>>::empty());
    assert(headings_view(init.headings@) =~= Seq::<(u8, Seq<char>)>::empty());
    assert(init.excerpt@ =~= Seq::<char>::empty());
    extractor.visit(&ast);
    let toc = build_tree(&extractor.headings);
    assert(headings_view(extractor.headings@) =~= headings_in(doc_items(ast)));
    assert(Seq::<char>::empty() + text_in(doc_items(ast)) =~= text_in(doc_items(ast)));
    Ok(ParsedDocument {
        ast,
        toc,
        outgoing_links: extractor.links,
        excerpt: extractor.excerpt,
        frontmatter,
    })
}

/// Parses a card with every extension enabled and an excerpt of
/// [`DEFAULT_EXCERPT_LIMIT`] characters (see [`parse_document_with`]).
pub fn parse_document(md: &str) -> (r: MSResult<ParsedDocument>)
    ensures
        parsed(split_front_matter(md@).0, ParseOptions::spec_all()) matches Ok(t) ==> (r matches Ok(d)
            && tree_view(d.ast) == t && d.frontmatter@ == split_front_matter(md@).1
            && extracted(d, DEFAULT_EXCERPT_LIMIT as int)),
        parsed(split_front_matter(md@).0, ParseOptions::spec_all()) matches Err(f) ==> reports(r, f),
{
    let opts = ParseOptions::all();
    parse_document_with(md, &opts, DEFAULT_EXCERPT_LIMIT)
}

} // verus!
