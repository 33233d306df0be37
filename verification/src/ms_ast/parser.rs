//! Markdown to knowledge-card tree.
//!
//! `pulldown-cmark` turns the text into an event stream; the events are
//! folded into a tree with a stack of open elements. Text is split further:
//! `[[target|alias]]` wikilinks, `??cloze??` masks and `@term` concept
//! references become nodes of their own. Headings may start with a progress
//! mark (`[x]`, `[ ]`, `[~]`), and block quotes that start with `[!warning]`,
//! `[!tip]` or `[!question]` become admonitions.

use vstd::prelude::*;
use crate::ms_ast::error::{MSError, MSResult};
use crate::ms_ast::events::{markdown_event_stream, markdown_events, MdEvent, MdTag};
pub use crate::ms_ast::events::ParseOptions;
use crate::ms_ast::model::{
    lemma_push_child_model, lemma_tree_view_list_index, lemma_tree_view_list_len, lemma_tree_view_list_push,
    lemma_tree_view_shape, tree_append, tree_is_container, tree_label, tree_view, tree_view_list, Tree,
};
use crate::ms_ast::node::{AdmonitionKind, AlignType, AstNode, TaskStatus};
use crate::pattern::{captures_well_formed, find_captures, regex_captures, span_in};
use crate::ms_ast::builder::{build_tree, built_tree, law_built_tree_is_root};
use crate::text::{
    byte_slice, str_eq, chars_of, has_prefix, on_boundary, push_str, skip_space_start, skip_space_end, string_of,
    sub_chars, trimmed, trimmed_start, utf8_len, utf8_slice,
};

verus! {

/// Wikilinks: `[[target]]` or `[[target|alias]]`, matched lazily.
pub const LINK_PATTERN: &'static str = "\\[\\[(.+?)(?:\\|(.+?))?\\]\\]";

/// Cloze masks: `??text??`, matched lazily.
pub const CLOZE_PATTERN: &'static str = "\\?\\?(.+?)\\?\\?";

/// Concept references: `@` followed by letters, digits, `_` or `-`.
pub const CONCEPT_PATTERN: &'static str = "@([\\p{L}\\p{N}_-]+)";

/// Why parsing failed.
pub enum Failure {
    /// A text pattern could not be compiled.
    Pattern,
    /// A child was pushed onto a leaf node with the given variant name.
    Leaf(Seq<char>),
    /// The stack of open elements did not close back to the root.
    Unclosed,
}

// ───────────────────────────── text splitting ─────────────────────────────

/// A text node for `s[from..to]` (bytes), or nothing when the range is empty.
pub open spec fn gap_text(s: Seq<char>, from: int, to: int) -> Seq<Tree> {
    if to > from {
        seq![Tree::Text { value: utf8_slice(s, from, to) }]
    } else {
        Seq::empty()
    }
}

/// The text of capture group `g` of match `m`, when present.
pub open spec fn group_text(s: Seq<char>, m: Seq<Option<(usize, usize)>>, g: int) -> Option<Seq<char>> {
    if 0 <= g < m.len() && m[g] is Some {
        Some(utf8_slice(s, (m[g]->0).0 as int, (m[g]->0).1 as int))
    } else {
        None
    }
}

/// The text of capture group `g`, or the empty text.
pub open spec fn group_or_empty(s: Seq<char>, m: Seq<Option<(usize, usize)>>, g: int) -> Seq<char> {
    match group_text(s, m, g) {
        Some(t) => t,
        None => Seq::empty(),
    }
}

/// Closes a split: the text after the last match, if any.
pub open spec fn finish_split(s: Seq<char>, f: (Seq<Tree>, int)) -> Seq<Tree> {
    f.0 + gap_text(s, f.1, utf8_len(s))
}

/// The node a wikilink match becomes: a wikilink with its trimmed target
/// and non-empty trimmed alias, or the matched text when the target is blank.
pub open spec fn wikilink_node(s: Seq<char>, m: Seq<Option<(usize, usize)>>) -> Tree {
    let target = trimmed(group_or_empty(s, m, 1));
    if target.len() > 0 {
        Tree::Wikilink {
            target,
            alias: match group_text(s, m, 2) {
                Some(a) => if trimmed(a).len() > 0 { Some(trimmed(a)) } else { None },
                None => None,
            },
        }
    } else {
        Tree::Text { value: utf8_slice(s, (m[0]->0).0 as int, (m[0]->0).1 as int) }
    }
}

/// Nodes produced by the wikilink matches `caps`, and where the last ended.
pub open spec fn wikilink_split(s: Seq<char>, caps: Seq<Seq<Option<(usize, usize)>>>) -> (Seq<Tree>, int)
    decreases caps.len(),
{
    if caps.len() == 0 {
        (Seq::empty(), 0)
    } else {
        let prev = wikilink_split(s, caps.drop_last());
        let m = caps.last();
        let full = m[0]->0;
        (prev.0 + gap_text(s, prev.1, full.0 as int) + seq![wikilink_node(s, m)], full.1 as int)
    }
}

/// Nodes produced by the cloze matches `caps`, and where the last ended.
pub open spec fn cloze_split(s: Seq<char>, caps: Seq<Seq<Option<(usize, usize)>>>) -> (Seq<Tree>, int)
    decreases caps.len(),
{
    if caps.len() == 0 {
        (Seq::empty(), 0)
    } else {
        let prev = cloze_split(s, caps.drop_last());
        let m = caps.last();
        let full = m[0]->0;
        let node = Tree::Cloze { children: seq![Tree::Text { value: group_or_empty(s, m, 1) }] };
        (prev.0 + gap_text(s, prev.1, full.0 as int) + seq![node], full.1 as int)
    }
}

/// Bytes (ASCII letters and digits, `_`, `/`) that, right before `@`, make it part of a word, an e-mail address
/// or a path rather than a concept reference.
pub open spec fn concept_blocker(b: u8) -> bool {
    (48 <= b && b <= 57) || (97 <= b && b <= 122) || (65 <= b && b <= 90) || b == 95 || b == 47
}

/// Nodes produced by the concept matches `caps`, and where the last kept
/// match ended; matches right after a blocking byte are skipped.
pub open spec fn concept_split(s: Seq<char>, caps: Seq<Seq<Option<(usize, usize)>>>) -> (Seq<Tree>, int)
    decreases caps.len(),
{
    if caps.len() == 0 {
        (Seq::empty(), 0)
    } else {
        let prev = concept_split(s, caps.drop_last());
        let m = caps.last();
        let full = m[0]->0;
        if full.0 > 0 && concept_blocker(vstd::utf8::encode_utf8(s)[full.0 - 1]) {
            prev
        } else {
            let node = Tree::ConceptRef { term: group_or_empty(s, m, 1) };
            (prev.0 + gap_text(s, prev.1, full.0 as int) + seq![node], full.1 as int)
        }
    }
}

/// Wikilink pieces of a text.
pub open spec fn wikilink_pieces(s: Seq<char>) -> Option<Seq<Tree>> {
    match regex_captures(LINK_PATTERN@, s) {
        Some(c) => Some(finish_split(s, wikilink_split(s, c))),
        None => None,
    }
}

/// Cloze pieces of a text.
pub open spec fn cloze_pieces(s: Seq<char>) -> Option<Seq<Tree>> {
    match regex_captures(CLOZE_PATTERN@, s) {
        Some(c) => Some(finish_split(s, cloze_split(s, c))),
        None => None,
    }
}

/// Concept pieces of a text.
pub open spec fn concept_pieces(s: Seq<char>) -> Option<Seq<Tree>> {
    match regex_captures(CONCEPT_PATTERN@, s) {
        Some(c) => Some(finish_split(s, concept_split(s, c))),
        None => None,
    }
}

/// Splits every text fragment with `split_cloze` (when `cloze`) or
/// `split_concept`, keeping the other fragments.
pub open spec fn refine(frags: Seq<Tree>, cloze: bool) -> Option<Seq<Tree>>
    decreases frags.len(),
{
    if frags.len() == 0 {
        Some(Seq::empty())
    } else {
        match refine(frags.drop_last(), cloze) {
            None => None,
            Some(p) => match frags.last() {
                Tree::Text { value } => match (if cloze { cloze_pieces(value) } else { concept_pieces(value) }) {
                    Some(q) => Some(p + q),
                    None => None,
                },
                other => Some(p.push(other)),
            },
        }
    }
}

/// The nodes a text becomes: wikilinks first, then clozes, then concept
/// references; `None` when a pattern cannot be compiled.
pub open spec fn split_text(s: Seq<char>) -> Option<Seq<Tree>> {
    if s.len() == 0 {
        Some(Seq::empty())
    } else {
        match wikilink_pieces(s) {
            None => None,
            Some(p1) => match refine(p1, true) {
                None => None,
                Some(p2) => refine(p2, false),
            },
        }
    }
}


// ───────────────────────────── text splitting, executable ─────────────────────────────

/// The message of the error raised when a text pattern cannot be compiled.
pub open spec fn pattern_message() -> Seq<char> {
    "regex 编译失败"@
}

/// `r` reports `f` as [`parse_markdown_with`] does.
pub open spec fn reports<T>(r: MSResult<T>, f: Failure) -> bool {
    match f {
        Failure::Pattern => r matches Err(MSError::ParseError(m)) && m@ == pattern_message(),
        Failure::Leaf(label) => r matches Err(MSError::InvalidOperation(m)) && m@ == "Cannot push child to leaf node \""@ + label + "\""@,
        Failure::Unclosed => r matches Err(MSError::ParseError(m)) && m@ == "文档树未正确闭合"@,
    }
}

fn pattern_error<T>() -> (r: MSResult<T>)
    ensures
        reports(r, Failure::Pattern),
{
    Err(MSError::ParseError("regex 编译失败".to_owned()))
}

/// The characters of `s` without surrounding white space, as a string.
fn trim_str(s: &str) -> (r: String)
    ensures
        r@ == trimmed(s@),
{
    let cs = chars_of(s);
    let i = skip_space_start(&cs);
    let j = skip_space_end(&cs, i);
    let kept = sub_chars(&cs, i, j);
    string_of(&kept)
}

/// The text of capture group `g` (see [`group_text`]).
pub(crate) fn group_str<'a>(s: &'a str, m: &Vec<Option<(usize, usize)>>, g: usize) -> (r: Option<&'a str>)
    requires
        forall|j: int| 0 <= j < m@.len() && (#[trigger] m@[j]) is Some ==> span_in(s@, m@[j]->0),
    ensures
        r matches Some(x) ==> group_text(s@, m@, g as int) == Some(x@),
        r is None ==> group_text(s@, m@, g as int) is None,
{
    if g < m.len() {
        match m[g] {
            Some(span) => {
                assert(span_in(s@, m@[g as int]->0));
                Some(byte_slice(s, span.0, span.1))
            },
            None => None,
        }
    } else {
        None
    }
}

/// The text of capture group `g`, or the empty text.
pub(crate) fn group_or_empty_str<'a>(s: &'a str, m: &Vec<Option<(usize, usize)>>, g: usize) -> (r: &'a str)
    requires
        forall|j: int| 0 <= j < m@.len() && (#[trigger] m@[j]) is Some ==> span_in(s@, m@[j]->0),
    ensures
        r@ == group_or_empty(s@, m@, g as int),
{
    match group_str(s, m, g) {
        Some(x) => x,
        None => {
            proof {
                reveal_strlit("");
            }
            ""
        },
    }
}

/// Appends `node` to `out`.
fn push_node(out: &mut Vec<AstNode>, node: AstNode)
    ensures
        tree_view_list(final(out)@) == tree_view_list(old(out)@).push(tree_view(node)),
{
    proof {
        lemma_tree_view_list_push(out@, node);
    }
    out.push(node);
}

/// Appends the text node for `s[from..to]` when the range is not empty.
fn push_gap(s: &str, from: usize, to: usize, out: &mut Vec<AstNode>)
    requires
        from <= utf8_len(s@),
        on_boundary(s@, from as int),
        to > from ==> to <= utf8_len(s@) && on_boundary(s@, to as int),
    ensures
        tree_view_list(final(out)@) == tree_view_list(old(out)@) + gap_text(s@, from as int, to as int),
{
    if to > from {
        let piece = byte_slice(s, from, to);
        push_node(out, AstNode::Text { value: piece.to_owned() });
        assert(tree_view_list(out@) =~= tree_view_list(old(out)@) + gap_text(s@, from as int, to as int));
    } else {
        assert(tree_view_list(out@) =~= tree_view_list(out@) + gap_text(s@, from as int, to as int));
    }
}

/// The well-formed captures of `pattern` over `s`, viewed.
pub open spec fn caps_view(caps: Seq<Vec<Option<(usize, usize)>>>) -> Seq<Seq<Option<(usize, usize)>>> {
    caps.map_values(|m: Vec<Option<(usize, usize)>>| m@)
}

/// Appends the wikilink pieces of `s` (see [`wikilink_pieces`]).
fn split_by_wikilink(s: &str, out: &mut Vec<AstNode>) -> (r: MSResult<()>)
    ensures
        wikilink_pieces(s@) is None ==> reports(r, Failure::Pattern),
        wikilink_pieces(s@) matches Some(p) ==> r is Ok && tree_view_list(final(out)@)
            == tree_view_list(old(out)@) + p,
{
    broadcast use vstd::utf8::encode_utf8_valid_utf8, vstd::utf8::is_char_boundary_start_end_of_seq;
    let caps = match find_captures(LINK_PATTERN, s) {
        Some(c) => c,
        None => return pattern_error(),
    };
    let ghost cv = caps_view(caps@);
    let ghost start = tree_view_list(out@);
    let mut last_end: usize = 0;
    let mut i: usize = 0;
    while i < caps.len()
        invariant
            i <= caps.len(),
            cv == caps_view(caps@),
            cv == regex_captures(LINK_PATTERN@, s@)->0,
            captures_well_formed(s@, cv),
            tree_view_list(out@) == start + wikilink_split(s@, cv.take(i as int)).0,
            last_end as int == wikilink_split(s@, cv.take(i as int)).1,
            last_end <= utf8_len(s@),
            on_boundary(s@, last_end as int),
        decreases caps.len() - i,
    {
        assert(cv.take(i + 1).drop_last() =~= cv.take(i as int));
        assert(caps[i as int]@ == cv[i as int]);
        let m = &caps[i];
        let full = m[0].unwrap();
        assert(span_in(s@, full));
        let ghost before = tree_view_list(out@);
        push_gap(s, last_end, full.0, out);
        let target = trim_str(group_or_empty_str(s, m, 1));
        let node = if !target.as_str().is_empty() {
            let alias = match group_str(s, m, 2) {
                Some(a) => {
                    let ta = trim_str(a);
                    if !ta.as_str().is_empty() { Some(ta) } else { None }
                },
                None => None,
            };
            AstNode::Wikilink { target, alias }
        } else {
            AstNode::Text { value: byte_slice(s, full.0, full.1).to_owned() }
        };
        assert(tree_view(node) == wikilink_node(s@, cv[i as int]));
        push_node(out, node);
        assert(tree_view_list(out@) =~= start + wikilink_split(s@, cv.take(i + 1)).0);
        last_end = full.1;
        i = i + 1;
    }
    assert(cv.take(caps.len() as int) =~= cv);
    let len = s.as_bytes().len();
    push_gap(s, last_end, len, out);
    assert(tree_view_list(out@) =~= tree_view_list(old(out)@) + finish_split(s@, wikilink_split(s@, cv)));
    Ok(())
}


/// Appends the cloze pieces of `s` (see [`cloze_pieces`]).
fn split_by_cloze(s: &str, out: &mut Vec<AstNode>) -> (r: MSResult<()>)
    ensures
        cloze_pieces(s@) is None ==> reports(r, Failure::Pattern),
        cloze_pieces(s@) matches Some(p) ==> r is Ok && tree_view_list(final(out)@)
            == tree_view_list(old(out)@) + p,
{
    broadcast use vstd::utf8::encode_utf8_valid_utf8, vstd::utf8::is_char_boundary_start_end_of_seq;
    let caps = match find_captures(CLOZE_PATTERN, s) {
        Some(c) => c,
        None => return pattern_error(),
    };
    let ghost cv = caps_view(caps@);
    let ghost start = tree_view_list(out@);
    let mut last_end: usize = 0;
    let mut i: usize = 0;
    while i < caps.len()
        invariant
            i <= caps.len(),
            cv == caps_view(caps@),
            cv == regex_captures(CLOZE_PATTERN@, s@)->0,
            captures_well_formed(s@, cv),
            tree_view_list(out@) == start + cloze_split(s@, cv.take(i as int)).0,
            last_end as int == cloze_split(s@, cv.take(i as int)).1,
            last_end <= utf8_len(s@),
            on_boundary(s@, last_end as int),
        decreases caps.len() - i,
    {
        assert(cv.take(i + 1).drop_last() =~= cv.take(i as int));
        assert(caps[i as int]@ == cv[i as int]);
        let m = &caps[i];
        let full = m[0].unwrap();
        assert(span_in(s@, full));
        push_gap(s, last_end, full.0, out);
        let content = group_or_empty_str(s, m, 1);
        let mut inner: Vec<AstNode> = Vec::new();
        push_node(&mut inner, AstNode::Text { value: content.to_owned() });
        proof {
            lemma_tree_view_list_len(Seq::<AstNode>::empty());
        }
        assert(tree_view_list(inner@) =~= seq![Tree::Text { value: group_or_empty(s@, cv[i as int], 1) }]);
        push_node(out, AstNode::Cloze { children: inner });
        assert(tree_view_list(out@) =~= start + cloze_split(s@, cv.take(i + 1)).0);
        last_end = full.1;
        i = i + 1;
    }
    assert(cv.take(caps.len() as int) =~= cv);
    let len = s.as_bytes().len();
    push_gap(s, last_end, len, out);
    assert(tree_view_list(out@) =~= tree_view_list(old(out)@) + finish_split(s@, cloze_split(s@, cv)));
    Ok(())
}

/// Appends the concept pieces of `s` (see [`concept_pieces`]).
fn split_by_concept_ref(s: &str, out: &mut Vec<AstNode>) -> (r: MSResult<()>)
    ensures
        concept_pieces(s@) is None ==> reports(r, Failure::Pattern),
        concept_pieces(s@) matches Some(p) ==> r is Ok && tree_view_list(final(out)@)
            == tree_view_list(old(out)@) + p,
{
    broadcast use vstd::utf8::encode_utf8_valid_utf8, vstd::utf8::is_char_boundary_start_end_of_seq;
    let caps = match find_captures(CONCEPT_PATTERN, s) {
        Some(c) => c,
        None => return pattern_error(),
    };
    let bytes = s.as_bytes();
    let ghost cv = caps_view(caps@);
    let ghost start = tree_view_list(out@);
    let mut last_end: usize = 0;
    let mut i: usize = 0;
    while i < caps.len()
        invariant
            i <= caps.len(),
            bytes@ == vstd::utf8::encode_utf8(s@),
            cv == caps_view(caps@),
            cv == regex_captures(CONCEPT_PATTERN@, s@)->0,
            captures_well_formed(s@, cv),
            tree_view_list(out@) == start + concept_split(s@, cv.take(i as int)).0,
            last_end as int == concept_split(s@, cv.take(i as int)).1,
            last_end <= utf8_len(s@),
            on_boundary(s@, last_end as int),
        decreases caps.len() - i,
    {
        assert(cv.take(i + 1).drop_last() =~= cv.take(i as int));
        assert(caps[i as int]@ == cv[i as int]);
        let m = &caps[i];
        let full = m[0].unwrap();
        assert(span_in(s@, full));
        let blocked = if full.0 > 0 {
            let b = bytes[full.0 - 1];
            (48 <= b && b <= 57) || (97 <= b && b <= 122) || (65 <= b && b <= 90) || b == 95 || b == 47
        } else {
            false
        };
        if !blocked {
            push_gap(s, last_end, full.0, out);
            let term = group_or_empty_str(s, m, 1);
            push_node(out, AstNode::ConceptRef { term: term.to_owned() });
            assert(tree_view_list(out@) =~= start + concept_split(s@, cv.take(i + 1)).0);
            last_end = full.1;
        }
        i = i + 1;
    }
    assert(cv.take(caps.len() as int) =~= cv);
    let len = bytes.len();
    push_gap(s, last_end, len, out);
    assert(tree_view_list(out@) =~= tree_view_list(old(out)@) + finish_split(s@, concept_split(s@, cv)));
    Ok(())
}

/// A failure on a prefix is a failure of the whole.
proof fn lemma_refine_prefix_none(s: Seq<Tree>, j: int, cloze: bool)
    requires
        0 <= j <= s.len(),
        refine(s.take(j), cloze) is None,
    ensures
        refine(s, cloze) is None,
    decreases s.len() - j,
{
    if j < s.len() {
        assert(s.take(j + 1).drop_last() =~= s.take(j));
        lemma_refine_prefix_none(s, j + 1, cloze);
    } else {
        assert(s.take(j) =~= s);
    }
}

/// Splits every text fragment of `frags` into cloze (when `cloze`) or
/// concept pieces (see [`refine`]).
fn refine_fragments(frags: Vec<AstNode>, cloze: bool) -> (r: MSResult<Vec<AstNode>>)
    ensures
        refine(tree_view_list(frags@), cloze) is None ==> reports(r, Failure::Pattern),
        refine(tree_view_list(frags@), cloze) matches Some(p) ==> r matches Ok(v) && tree_view_list(v@) == p,
{
    let ghost fv = tree_view_list(frags@);
    proof {
        lemma_tree_view_list_index(frags@);
    }
    let mut rest = frags;
    let mut out: Vec<AstNode> = Vec::new();
    let mut k: usize = 0;
    let n = rest.len();
    proof {
        lemma_tree_view_list_len(out@);
    }
    while k < n
        invariant
            k <= n,
            fv == tree_view_list(frags@),
            fv.len() == n,
            rest@.len() == n - k,
            forall|j: int| 0 <= j < rest@.len() ==> tree_view(#[trigger] rest@[j]) == fv[k + j],
            refine(fv.take(k as int), cloze) == Some(tree_view_list(out@)),
        decreases n - k,
    {
        assert(fv.take(k + 1).drop_last() =~= fv.take(k as int));
        assert(tree_view(rest@[0]) == fv[k as int]);
        let ghost before = rest@;
        let frag = rest.remove(0);
        assert forall|j: int| 0 <= j < rest@.len() implies tree_view(#[trigger] rest@[j]) == fv[k + 1 + j] by {
            assert(rest@[j] == before[j + 1]);
        }
        match frag {
            AstNode::Text { value } => {
                let r = if cloze {
                    split_by_cloze(value.as_str(), &mut out)
                } else {
                    split_by_concept_ref(value.as_str(), &mut out)
                };
                match r {
                    Ok(()) => {},
                    Err(e) => {
                        proof {
                            assert(fv.take(k + 1).last() == fv[k as int]);
                            assert(refine(fv.take(k + 1), cloze) is None);
                            lemma_refine_prefix_none(fv, k + 1, cloze);
                        }
                        return Err(e);
                    },
                }
            },
            other => {
                push_node(&mut out, other);
            },
        }
        k = k + 1;
    }
    assert(fv.take(n as int) =~= fv);
    Ok(out)
}


/// Splits `text` into text, wikilink, cloze and concept nodes (see [`split_text`]).
pub(crate) fn split_text_into_nodes(text: &str) -> (r: MSResult<Vec<AstNode>>)
    ensures
        split_text(text@) is None ==> reports(r, Failure::Pattern),
        split_text(text@) matches Some(p) ==> r matches Ok(v) && tree_view_list(v@) == p,
{
    let mut pass1: Vec<AstNode> = Vec::new();
    proof {
        lemma_tree_view_list_len(pass1@);
    }
    if text.is_empty() {
        assert(tree_view_list(pass1@) =~= Seq::<Tree>::empty());
        return Ok(pass1);
    }
    assert(tree_view_list(pass1@) =~= Seq::<Tree>::empty());
    match split_by_wikilink(text, &mut pass1) {
        Ok(()) => {},
        Err(e) => return Err(e),
    }
    assert(tree_view_list(pass1@) =~= wikilink_pieces(text@)->0);
    let pass2 = match refine_fragments(pass1, true) {
        Ok(v) => v,
        Err(e) => return Err(e),
    };
    refine_fragments(pass2, false)
}


// ───────────────────────────── public entry points ─────────────────────────────

/// The tree that parsing `md` under `opts` gives (see [`built_tree`]).
pub open spec fn parsed(md: Seq<char>, opts: ParseOptions) -> Result<Tree, Failure> {
    built_tree(markdown_events(md, opts))
}

/// Parses Markdown into a knowledge-card tree with every extension enabled.
pub fn parse_markdown(md_text: &str) -> (r: MSResult<AstNode>)
    ensures
        parsed(md_text@, ParseOptions::spec_all()) matches Ok(t) ==> r matches Ok(n) && tree_view(n) == t,
        parsed(md_text@, ParseOptions::spec_all()) matches Err(f) ==> reports(r, f),
{
    let opts = ParseOptions::all();
    parse_markdown_with(md_text, &opts)
}

/// Parses Markdown into a knowledge-card tree with the extensions `opts` enables.
///
/// The result is a `Root` node; it fails when a text pattern cannot be
/// compiled, when a node is pushed onto a leaf, or when the elements do not
/// close back to the root.
pub fn parse_markdown_with(md_text: &str, opts: &ParseOptions) -> (r: MSResult<AstNode>)
    ensures
        parsed(md_text@, *opts) matches Ok(t) ==> r matches Ok(n) && tree_view(n) == t,
        parsed(md_text@, *opts) matches Err(f) ==> reports(r, f),
{
    let events = markdown_event_stream(md_text, opts);
    build_tree(&events)
}

/// A successful parse gives a `Root` tree, whatever the text and options.
pub proof fn law_parsed_is_root(md: Seq<char>, opts: ParseOptions)
    ensures
        parsed(md, opts) matches Ok(t) ==> t is Root,
{
    law_built_tree_is_root(markdown_events(md, opts));
}

/// The distinct non-empty trimmed wikilink targets of the matches `caps`, in
/// order of first appearance.
pub open spec fn link_names(s: Seq<char>, caps: Seq<Seq<Option<(usize, usize)>>>) -> Seq<Seq<char>>
    decreases caps.len(),
{
    if caps.len() == 0 {
        Seq::empty()
    } else {
        let prev = link_names(s, caps.drop_last());
        let name = trimmed(group_or_empty(s, caps.last(), 1));
        if name.len() == 0 || prev.contains(name) {
            prev
        } else {
            prev.push(name)
        }
    }
}

/// The wikilink targets of a text (see [`link_names`]), or `None` when the
/// pattern cannot be compiled.
pub open spec fn links_of(s: Seq<char>) -> Option<Seq<Seq<char>>> {
    match regex_captures(LINK_PATTERN@, s) {
        Some(c) => Some(link_names(s, c)),
        None => None,
    }
}

/// Whether `names` already holds `name`.
pub(crate) fn contains_name(names: &Vec<String>, name: &str) -> (b: bool)
    ensures
        b == names@.map_values(|x: String| x@).contains(name@),
{
    let ghost nv = names@.map_values(|x: String| x@);
    let mut i: usize = 0;
    while i < names.len()
        invariant
            i <= names@.len(),
            nv == names@.map_values(|x: String| x@),
            forall|k: int| 0 <= k < i ==> nv[k] != name@,
        decreases names@.len() - i,
    {
        if str_eq(names[i].as_str(), name) {
            assert(nv[i as int] == name@);
            return true;
        }
        i = i + 1;
    }
    false
}

/// The wikilink targets of a Markdown text: trimmed, non-empty, each once,
/// in order of first appearance.
pub fn extract_links(md: &str) -> (r: MSResult<Vec<String>>)
    ensures
        links_of(md@) is None ==> reports(r, Failure::Pattern),
        links_of(md@) matches Some(names) ==> r matches Ok(v) && v@.map_values(|x: String| x@) == names,
{
    let caps = match find_captures(LINK_PATTERN, md) {
        Some(c) => c,
        None => return pattern_error(),
    };
    let ghost cv = caps_view(caps@);
    let mut names: Vec<String> = Vec::new();
    let mut i: usize = 0;
    while i < caps.len()
        invariant
            i <= caps.len(),
            cv == caps_view(caps@),
            cv == regex_captures(LINK_PATTERN@, md@)->0,
            captures_well_formed(md@, cv),
            names@.map_values(|x: String| x@) == link_names(md@, cv.take(i as int)),
        decreases caps.len() - i,
    {
        assert(cv.take(i + 1).drop_last() =~= cv.take(i as int));
        assert(caps[i as int]@ == cv[i as int]);
        let m = &caps[i];
        let name = trim_str(group_or_empty_str(md, m, 1));
        if !name.as_str().is_empty() && !contains_name(&names, name.as_str()) {
            names.push(name);
            assert(names@.map_values(|x: String| x@) =~= link_names(md@, cv.take(i + 1)));
        }
        i = i + 1;
    }
    assert(cv.take(caps.len() as int) =~= cv);
    Ok(names)
}

} // verus!
