//! HTML rendering of [`AstNode`] trees.
//!
//! All text is HTML-escaped, link and image targets pass an allow-list of
//! schemes, and `[[Card Name]]` wikilinks inside text become reference links.

use vstd::prelude::*;
pub use vstd::hash_map::StringHashMap;
use crate::ast_core::{AlignType, AstNode, MSResult};
use crate::pattern::{find_captures, regex_captures, captures_well_formed, span_in};
use crate::slug::{generate_slug, slug_of};
use crate::text::{
    byte_slice, chars_of, decimal, has_prefix, lowercase, on_boundary, push_char, push_decimal,
    push_str, skip_space_start, starts_with, str_eq, string_of, sub_chars, to_lowercase, trim_chars,
    trimmed, trimmed_start, utf8_len, utf8_slice, find_char, find_char_index,
};

verus! {

/// The pattern of a wikilink: `[[` a name without `]` `]]`.
pub const WIKILINK_PATTERN: &'static str = "\\[\\[([^\\]]+)\\]\\]";

// ───────────────────────────── escaping ─────────────────────────────

/// HTML escape of one character.
pub open spec fn escape_char(c: char) -> Seq<char> {
    if c == '&' {
        "&amp;"@
    } else if c == '<' {
        "&lt;"@
    } else if c == '>' {
        "&gt;"@
    } else if c == '"' {
        "&quot;"@
    } else if c == '\'' {
        "&#39;"@
    } else {
        seq![c]
    }
}

/// HTML escape of a text: `&`, `<`, `>`, `"` and `'` become entities.
pub open spec fn escaped(s: Seq<char>) -> Seq<char>
    decreases s.len(),
{
    if s.len() == 0 {
        Seq::empty()
    } else {
        escaped(s.drop_last()) + escape_char(s.last())
    }
}

/// Escapes `&`, `<`, `>`, `"` and `'` as HTML entities.
pub fn escape_html(s: &str) -> (r: String)
    ensures
        r@ == escaped(s@),
{
    let cs = chars_of(s);
    let mut buf = String::new();
    let mut i: usize = 0;
    while i < cs.len()
        invariant
            cs@ == s@,
            i <= cs.len(),
            buf@ == escaped(cs@.take(i as int)),
        decreases cs.len() - i,
    {
        let c = cs[i];
        assert(cs@.take(i + 1).drop_last() =~= cs@.take(i as int));
        if c == '&' {
            push_str(&mut buf, "&amp;");
        } else if c == '<' {
            push_str(&mut buf, "&lt;");
        } else if c == '>' {
            push_str(&mut buf, "&gt;");
        } else if c == '"' {
            push_str(&mut buf, "&quot;");
        } else if c == '\'' {
            push_str(&mut buf, "&#39;");
        } else {
            push_char(&mut buf, c);
        }
        i = i + 1;
    }
    assert(cs@.take(cs.len() as int) =~= cs@);
    buf
}

// ───────────────────────────── URLs ─────────────────────────────

/// A link target is kept when, after leading white space, it is empty or
/// its lower-cased form begins with `http://`, `https://`, `mailto:`, `/` or `#`.
pub open spec fn url_allowed(url: Seq<char>) -> bool {
    let t = trimmed_start(url);
    let l = lowercase(t);
    ||| has_prefix(l, "http://"@)
    ||| has_prefix(l, "https://"@)
    ||| has_prefix(l, "mailto:"@)
    ||| has_prefix(l, "/"@)
    ||| has_prefix(l, "#"@)
    ||| t.len() == 0
}

/// The attribute value written for a link target: the escaped target when
/// allowed, `#` otherwise.
pub open spec fn sanitized_url(url: Seq<char>) -> Seq<char> {
    if url_allowed(url) {
        escaped(url)
    } else {
        "#"@
    }
}

/// Filters a link target through the scheme allow-list and escapes it.
pub fn sanitize_url(url: &str) -> (r: String)
    ensures
        r@ == sanitized_url(url@),
{
    let cs = chars_of(url);
    let i = skip_space_start(&cs);
    let rest = sub_chars(&cs, i, cs.len());
    let trimmed_url = string_of(&rest);
    let lower = to_lowercase(trimmed_url.as_str());
    let l = lower.as_str();
    if starts_with(l, "http://") || starts_with(l, "https://") || starts_with(l, "mailto:")
        || starts_with(l, "/") || starts_with(l, "#") || rest.len() == 0
    {
        escape_html(url)
    } else {
        "#".to_owned()
    }
}

// ───────────────────────────── code blocks ─────────────────────────────

/// Splits a code-block info string at its first `{` into the language name
/// and the optional metadata, both trimmed: `"rust {1,3}"` gives
/// `("rust", Some("{1,3}"))`, `"python"` gives `("python", None)`.
pub open spec fn code_meta(info: Seq<char>) -> (Seq<char>, Option<Seq<char>>) {
    match find_char(info, '{') {
        Some(p) => {
            let meta = trimmed(info.skip(p));
            (trimmed(info.take(p)), if meta.len() == 0 { None } else { Some(meta) })
        },
        None => (trimmed(info), None),
    }
}

/// Splits a code-block info string into language name and metadata.
pub fn split_code_meta(info: &str) -> (r: (String, Option<String>))
    ensures
        r.0@ == code_meta(info@).0,
        r.1 matches Some(m) ==> code_meta(info@).1 == Some(m@),
        r.1 is None ==> code_meta(info@).1 is None,
{
    let cs = chars_of(info);
    match find_char_index(&cs, '{') {
        Some(p) => {
            let head = sub_chars(&cs, 0, p);
            let tail = sub_chars(&cs, p, cs.len());
            assert(head@ =~= cs@.take(p as int));
            assert(tail@ =~= cs@.skip(p as int));
            let lang = trim_chars(&head);
            let meta = trim_chars(&tail);
            if meta.len() == 0 {
                (string_of(&lang), None)
            } else {
                (string_of(&lang), Some(string_of(&meta)))
            }
        },
        None => {
            let lang = trim_chars(&cs);
            (string_of(&lang), None)
        },
    }
}

// ───────────────────────────── wikilinks ─────────────────────────────

/// The wikilink matches of `text`, or none when the pattern cannot be compiled.
pub open spec fn wikilink_captures(text: Seq<char>) -> Seq<Seq<Option<(usize, usize)>>> {
    match regex_captures(WIKILINK_PATTERN@, text) {
        Some(c) => c,
        None => Seq::empty(),
    }
}

/// HTML of one wikilink to the card `name`: a link to `/cards/{id}` when the
/// map knows the card, a link carrying `data-card-name` otherwise.
pub open spec fn card_link(name: Seq<char>, map: Option<Map<Seq<char>, String>>) -> Seq<char> {
    let en = escaped(name);
    if map is Some && map->0.contains_key(name) {
        "<a href=\"/cards/"@ + escaped(map->0[name]@) + "\" class=\"reference-link\">"@ + en + "</a>"@
    } else {
        "<a class=\"reference-link\" data-card-name=\""@ + en + "\">"@ + en + "</a>"@
    }
}

/// The name captured by a wikilink match (group 1), or the empty text.
pub open spec fn captured_name(text: Seq<char>, m: Seq<Option<(usize, usize)>>) -> Seq<char> {
    if m.len() > 1 && m[1] is Some {
        utf8_slice(text, (m[1]->0).0 as int, (m[1]->0).1 as int)
    } else {
        Seq::empty()
    }
}

/// HTML produced for the matches `caps` so far, and the byte offset where
/// the last match ended.
pub open spec fn wikilink_fold(
    text: Seq<char>,
    caps: Seq<Seq<Option<(usize, usize)>>>,
    map: Option<Map<Seq<char>, String>>,
) -> (Seq<char>, int)
    decreases caps.len(),
{
    if caps.len() == 0 {
        (Seq::empty(), 0)
    } else {
        let prev = wikilink_fold(text, caps.drop_last(), map);
        let m = caps.last();
        let full = m[0]->0;
        let gap = if full.0 > prev.1 {
            escaped(utf8_slice(text, prev.1, full.0 as int))
        } else {
            Seq::empty()
        };
        (prev.0 + gap + card_link(captured_name(text, m), map), full.1 as int)
    }
}

/// HTML of a text whose wikilinks are the matches `caps`: text between
/// matches is escaped, each match becomes a [`card_link`].
pub open spec fn wikilinks_html(
    text: Seq<char>,
    caps: Seq<Seq<Option<(usize, usize)>>>,
    map: Option<Map<Seq<char>, String>>,
) -> Seq<char> {
    let f = wikilink_fold(text, caps, map);
    if f.1 < utf8_len(text) {
        f.0 + escaped(utf8_slice(text, f.1, utf8_len(text)))
    } else {
        f.0
    }
}

/// The view of an optional card map.
pub open spec fn map_view(card_name_to_id: Option<&StringHashMap<String>>) -> Option<Map<Seq<char>, String>> {
    match card_name_to_id {
        Some(m) => Some(m@),
        None => None,
    }
}

/// Appends the [`card_link`] HTML of the card `name`.
fn push_card_link(result: &mut String, name: &str, card_name_to_id: Option<&StringHashMap<String>>)
    ensures
        final(result)@ == old(result)@ + card_link(name@, map_view(card_name_to_id)),
{
    let en = escape_html(name);
    let found_id: Option<&String> = match card_name_to_id {
        Some(map) => map.get(name),
        None => None,
    };
    match found_id {
        Some(uuid) => {
            let eu = escape_html(uuid.as_str());
            push_str(result, "<a href=\"/cards/");
            push_str(result, eu.as_str());
            push_str(result, "\" class=\"reference-link\">");
            push_str(result, en.as_str());
            push_str(result, "</a>");
        },
        None => {
            push_str(result, "<a class=\"reference-link\" data-card-name=\"");
            push_str(result, en.as_str());
            push_str(result, "\">");
            push_str(result, en.as_str());
            push_str(result, "</a>");
        },
    }
}

/// Renders a text, turning each `[[Card Name]]` into a reference link.
pub fn render_wikilinks(text: &str, card_name_to_id: Option<&StringHashMap<String>>) -> (r: String)
    ensures
        r@ == wikilinks_html(text@, wikilink_captures(text@), map_view(card_name_to_id)),
{
    broadcast use vstd::utf8::encode_utf8_valid_utf8, vstd::utf8::is_char_boundary_start_end_of_seq;
    let found = find_captures(WIKILINK_PATTERN, text);
    let caps: Vec<Vec<Option<(usize, usize)>>> = match found {
        Some(c) => c,
        None => Vec::new(),
    };
    let ghost cv = caps@.map_values(|m: Vec<Option<(usize, usize)>>| m@);
    assert(cv == wikilink_captures(text@));
    assert(captures_well_formed(text@, cv));
    let ghost map = map_view(card_name_to_id);
    let mut result = String::new();
    let mut last_end: usize = 0;
    let mut i: usize = 0;
    while i < caps.len()
        invariant
            i <= caps.len(),
            cv == caps@.map_values(|m: Vec<Option<(usize, usize)>>| m@),
            captures_well_formed(text@, cv),
            map == map_view(card_name_to_id),
            (result@, last_end as int) == wikilink_fold(text@, cv.take(i as int), map),
            last_end <= utf8_len(text@),
            on_boundary(text@, last_end as int),
        decreases caps.len() - i,
    {
        assert(cv.take(i + 1).drop_last() =~= cv.take(i as int));
        assert(cv.take(i + 1).last() == cv[i as int]);
        assert(caps[i as int]@ == cv[i as int]);
        let m = &caps[i];
        assert(m@.len() >= 1);
        let full = m[0].unwrap();
        assert(span_in(text@, full));
        if full.0 > last_end {
            let gap = byte_slice(text, last_end, full.0);
            let e = escape_html(gap);
            push_str(&mut result, e.as_str());
        }
        let name: &str = if m.len() > 1 {
            match m[1] {
                Some(g) => {
                    assert(span_in(text@, g));
                    byte_slice(text, g.0, g.1)
                },
                None => {
                    proof { reveal_strlit(""); }
                    ""
                },
            }
        } else {
            proof { reveal_strlit(""); }
            ""
        };
        assert(name@ == captured_name(text@, cv[i as int]));
        push_card_link(&mut result, name, card_name_to_id);
        last_end = full.1;
        i = i + 1;
    }
    assert(cv.take(caps.len() as int) =~= cv);
    let len = text.as_bytes().len();
    assert(len == utf8_len(text@));
    if last_end < len {
        let tail = byte_slice(text, last_end, len);
        let e = escape_html(tail);
        push_str(&mut result, e.as_str());
    }
    result
}


// ───────────────────────────── tree rendering ─────────────────────────────

/// Plain text of a node, as used for heading anchors: text and code-block
/// contents, looking through strong, emphasis, link and paragraph nodes.
pub open spec fn plain_text(n: AstNode) -> Seq<char>
    decreases n,
{
    match n {
        AstNode::Text { value } => value@,
        AstNode::CodeBlock { value, .. } => value@,
        AstNode::Strong { children } => plain_text_list(children@),
        AstNode::Emphasis { children } => plain_text_list(children@),
        AstNode::Link { children, .. } => plain_text_list(children@),
        AstNode::Paragraph { children } => plain_text_list(children@),
        _ => Seq::empty(),
    }
}

/// Plain text of a list of nodes, concatenated in order.
pub open spec fn plain_text_list(s: Seq<AstNode>) -> Seq<char>
    decreases s,
{
    if s.len() == 0 {
        Seq::empty()
    } else {
        plain_text_list(s.drop_last()) + plain_text(s.last())
    }
}

/// The `style` attribute of column `i` of a table.
pub open spec fn align_attr(al: Seq<Option<AlignType>>, i: int) -> Seq<char> {
    if 0 <= i < al.len() {
        match al[i] {
            Some(AlignType::Left) => " style=\"text-align:left\""@,
            Some(AlignType::Center) => " style=\"text-align:center\""@,
            Some(AlignType::Right) => " style=\"text-align:right\""@,
            _ => Seq::empty(),
        }
    } else {
        Seq::empty()
    }
}

/// HTML of the code block with info string `language` and contents `value`.
pub open spec fn code_block_html(language: Option<Seq<char>>, value: Seq<char>) -> Seq<char> {
    match language {
        Some(lang) => if lang == "mermaid"@ {
            "<pre class=\"mermaid\">\n"@ + escaped(value) + "\n</pre>"@
        } else {
            let (name, meta) = code_meta(lang);
            match meta {
                Some(m) => "<pre><code class=\"language-"@ + escaped(name) + "\" data-meta=\""@
                    + escaped(m) + "\">\n"@ + escaped(value) + "\n</code></pre>"@,
                None => "<pre><code class=\"language-"@ + escaped(name) + "\">\n"@ + escaped(value)
                    + "\n</code></pre>"@,
            }
        },
        None => "<pre><code>\n"@ + escaped(value) + "\n</code></pre>"@,
    }
}

/// The `start` attribute of a list: present for ordered lists not starting at 1.
pub open spec fn list_start_attr(ordered: bool, start: Option<u64>) -> Seq<char> {
    match start {
        Some(st) => if ordered && st != 1 {
            " start=\""@ + decimal(st as nat) + "\""@
        } else {
            Seq::empty()
        },
        None => Seq::empty(),
    }
}

/// The HTML of a node.
pub open spec fn render(n: AstNode) -> Seq<char>
    decreases n,
{
    match n {
        AstNode::Root { children } => render_list(children@),
        AstNode::TableHead { children } => render_list(children@),
        AstNode::TableRow { children } => render_list(children@),
        AstNode::TableCell { children } => render_list(children@),
        AstNode::Heading { level, children } => "<h"@ + decimal(level as nat) + " id=\""@
            + slug_of(lowercase(plain_text_list(children@))) + "\">"@ + render_list(children@) + "</h"@
            + decimal(level as nat) + ">"@,
        AstNode::Paragraph { children } => "<p>"@ + render_list(children@) + "</p>"@,
        AstNode::Text { value } => wikilinks_html(value@, wikilink_captures(value@), None),
        AstNode::InlineCode { value } => "<code>"@ + escaped(value@) + "</code>"@,
        AstNode::Strong { children } => "<strong>"@ + render_list(children@) + "</strong>"@,
        AstNode::Emphasis { children } => "<em>"@ + render_list(children@) + "</em>"@,
        AstNode::List { ordered, start, children } => {
            let tag = if ordered { "ol"@ } else { "ul"@ };
            "<"@ + tag + list_start_attr(ordered, start) + ">\n"@ + render_list(children@) + "\n</"@ + tag + ">"@
        },
        AstNode::ListItem { children } => "  <li>"@ + render_list(children@) + "</li>"@,
        AstNode::CodeBlock { language, value } => code_block_html(
            match language { Some(l) => Some(l@), None => None },
            value@,
        ),
        AstNode::Blockquote { children } => "<blockquote>"@ + render_list(children@) + "</blockquote>"@,
        AstNode::ThematicBreak => "<hr />"@,
        AstNode::Link { url, children } => "<a href=\""@ + sanitized_url(url@) + "\">"@ + render_list(children@)
            + "</a>"@,
        AstNode::Image { url, alt } => "<img src=\""@ + sanitized_url(url@) + "\" alt=\""@ + escaped(alt@)
            + "\" loading=\"lazy\" />"@,
        AstNode::Math { value, inline } => if inline {
            "<span class=\"math-inline\">\\("@ + escaped(value@) + "\\)</span>"@
        } else {
            "<div class=\"math-block\">\\["@ + escaped(value@) + "\\]</div>"@
        },
        AstNode::Table { alignments, children } => {
            let rows = table_rows(alignments@, children@);
            "<table><thead>"@ + rows.0 + (if rows.1 { "</thead>"@ } else { Seq::empty() }) + "</tbody></table>"@
        },
        AstNode::Strikethrough { children } => "<del>"@ + render_list(children@) + "</del>"@,
        AstNode::TaskListMarker { checked } => "<input type=\"checkbox\" "@
            + (if checked { "checked"@ } else { Seq::empty() }) + " disabled />"@,
        AstNode::FootnoteDefinition { name, children } => "<section class=\"footnote-def\" id=\"fn-"@
            + escaped(name@) + "\"><p class=\"footnote-back-ref\"><a href=\"#fnref-"@ + escaped(name@)
            + "\" aria-label=\"回到正文\">↩</a></p>"@ + render_list(children@) + "</section>"@,
        AstNode::FootnoteReference { name } => "<sup class=\"footnote-ref\"><a href=\"#fn-"@ + escaped(name@)
            + "\" id=\"fnref-"@ + escaped(name@) + "\">"@ + escaped(name@) + "</a></sup>"@,
        AstNode::DefinitionList { children } => "<dl>"@ + render_list(children@) + "</dl>"@,
        AstNode::DefinitionListTitle { children } => "<dt>"@ + render_list(children@) + "</dt>"@,
        AstNode::DefinitionListDefinition { children } => "<dd>"@ + render_list(children@) + "</dd>"@,
    }
}

/// The HTML of a list of nodes, concatenated in order.
pub open spec fn render_list(s: Seq<AstNode>) -> Seq<char>
    decreases s,
{
    if s.len() == 0 {
        Seq::empty()
    } else {
        render_list(s.drop_last()) + render(s.last())
    }
}

/// The HTML of cell `i` of a table row; `head` picks `th` over `td`.
pub open spec fn cell_html(al: Seq<Option<AlignType>>, i: int, cell: AstNode, head: bool) -> Seq<char>
    decreases cell,
{
    let inner = match cell {
        AstNode::TableCell { children } => render_list(children@),
        _ => Seq::empty(),
    };
    (if head { "<th"@ } else { "<td"@ }) + align_attr(al, i) + ">"@ + inner + (if head { "</th>"@ } else { "</td>"@ })
}

/// The HTML of the cells of a table row.
pub open spec fn table_cells(al: Seq<Option<AlignType>>, cells: Seq<AstNode>, head: bool) -> Seq<char>
    decreases cells,
{
    if cells.len() == 0 {
        Seq::empty()
    } else {
        table_cells(al, cells.drop_last(), head) + cell_html(al, cells.len() - 1, cells.last(), head)
    }
}

/// The HTML of the rows of a table, and whether no body row was seen yet
/// (the header group is still open).
pub open spec fn table_rows(al: Seq<Option<AlignType>>, rows: Seq<AstNode>) -> (Seq<char>, bool)
    decreases rows,
{
    if rows.len() == 0 {
        (Seq::empty(), true)
    } else {
        let prev = table_rows(al, rows.drop_last());
        match rows.last() {
            AstNode::TableHead { children } => (
                prev.0 + "<tr>"@ + table_cells(al, children@, true) + "</tr>"@,
                prev.1,
            ),
            AstNode::TableRow { children } => (
                prev.0 + (if prev.1 { "</thead><tbody>"@ } else { Seq::empty() }) + "<tr>"@
                    + table_cells(al, children@, false) + "</tr>"@,
                false,
            ),
            other => (prev.0 + render(other), prev.1),
        }
    }
}


/// Appends the plain text of `node` (see [`plain_text`]).
fn append_text(node: &AstNode, out: &mut String)
    ensures
        final(out)@ == old(out)@ + plain_text(*node),
    decreases node,
{
    match node {
        AstNode::Text { value } => push_str(out, value.as_str()),
        AstNode::CodeBlock { value, .. } => push_str(out, value.as_str()),
        AstNode::Strong { children } => append_text_list(children, out),
        AstNode::Emphasis { children } => append_text_list(children, out),
        AstNode::Link { children, .. } => append_text_list(children, out),
        AstNode::Paragraph { children } => append_text_list(children, out),
        _ => {},
    }
}

/// Appends the plain text of each node of `children`, in order.
fn append_text_list(children: &Vec<AstNode>, out: &mut String)
    ensures
        final(out)@ == old(out)@ + plain_text_list(children@),
    decreases children,
{
    let ghost start = out@;
    let mut i: usize = 0;
    while i < children.len()
        invariant
            i <= children.len(),
            out@ == start + plain_text_list(children@.take(i as int)),
        decreases children.len() - i,
    {
        assert(children@.take(i + 1).drop_last() =~= children@.take(i as int));
        append_text(&children[i], out);
        i = i + 1;
    }
    assert(children@.take(children.len() as int) =~= children@);
}

/// Plain text of heading children, the input of the heading anchor.
pub fn collect_heading_text(children: &Vec<AstNode>) -> (r: String)
    ensures
        r@ == plain_text_list(children@),
{
    let mut s = String::new();
    append_text_list(children, &mut s);
    s
}

/// Appends the alignment attribute of column `i`.
fn push_align(al: &Vec<Option<AlignType>>, i: usize, out: &mut String)
    ensures
        final(out)@ == old(out)@ + align_attr(al@, i as int),
{
    if i < al.len() {
        match &al[i] {
            Some(AlignType::Left) => push_str(out, " style=\"text-align:left\""),
            Some(AlignType::Center) => push_str(out, " style=\"text-align:center\""),
            Some(AlignType::Right) => push_str(out, " style=\"text-align:right\""),
            _ => {},
        }
    }
}

/// Appends the HTML of cell `j` of a table row.
fn render_cell_into(al: &Vec<Option<AlignType>>, j: usize, cell: &AstNode, head: bool, out: &mut String)
    ensures
        final(out)@ == old(out)@ + cell_html(al@, j as int, *cell, head),
    decreases cell,
{
    if head {
        push_str(out, "<th");
    } else {
        push_str(out, "<td");
    }
    push_align(al, j, out);
    push_str(out, ">");
    match cell {
        AstNode::TableCell { children } => render_children_into(children, out),
        _ => {},
    }
    if head {
        push_str(out, "</th>");
    } else {
        push_str(out, "</td>");
    }
}

/// Appends the HTML of the cells of one table row.
fn render_cells_into(al: &Vec<Option<AlignType>>, cells: &Vec<AstNode>, head: bool, out: &mut String)
    ensures
        final(out)@ == old(out)@ + table_cells(al@, cells@, head),
    decreases cells,
{
    let ghost start = out@;
    let mut j: usize = 0;
    while j < cells.len()
        invariant
            j <= cells.len(),
            out@ == start + table_cells(al@, cells@.take(j as int), head),
        decreases cells.len() - j,
    {
        assert(cells@.take(j + 1).drop_last() =~= cells@.take(j as int));
        render_cell_into(al, j, &cells[j], head, out);
        j = j + 1;
    }
    assert(cells@.take(cells.len() as int) =~= cells@);
}

/// Appends the HTML of the rows of a table; returns whether the header group
/// is still open (no body row was seen).
fn render_rows_into(al: &Vec<Option<AlignType>>, rows: &Vec<AstNode>, out: &mut String) -> (first: bool)
    ensures
        final(out)@ == old(out)@ + table_rows(al@, rows@).0,
        first == table_rows(al@, rows@).1,
    decreases rows,
{
    let ghost start = out@;
    let mut first = true;
    let mut i: usize = 0;
    while i < rows.len()
        invariant
            i <= rows.len(),
            out@ == start + table_rows(al@, rows@.take(i as int)).0,
            first == table_rows(al@, rows@.take(i as int)).1,
        decreases rows.len() - i,
    {
        assert(rows@.take(i + 1).drop_last() =~= rows@.take(i as int));
        match &rows[i] {
            AstNode::TableHead { children } => {
                push_str(out, "<tr>");
                render_cells_into(al, children, true, out);
                push_str(out, "</tr>");
            },
            AstNode::TableRow { children } => {
                if first {
                    push_str(out, "</thead><tbody>");
                    first = false;
                }
                push_str(out, "<tr>");
                render_cells_into(al, children, false, out);
                push_str(out, "</tr>");
            },
            other => render_into(other, out),
        }
        i = i + 1;
    }
    assert(rows@.take(rows.len() as int) =~= rows@);
    first
}

/// Appends the HTML of a code block.
fn render_code_block_into(language: &Option<String>, value: &String, out: &mut String)
    ensures
        final(out)@ == old(out)@ + code_block_html(
            match language { Some(l) => Some(l@), None => None },
            value@,
        ),
{
    let ev = escape_html(value.as_str());
    match language {
        Some(lang) => {
            if str_eq(lang.as_str(), "mermaid") {
                push_str(out, "<pre class=\"mermaid\">\n");
                push_str(out, ev.as_str());
                push_str(out, "\n</pre>");
            } else {
                let (name, meta) = split_code_meta(lang.as_str());
                let en = escape_html(name.as_str());
                match meta {
                    Some(m) => {
                        let em = escape_html(m.as_str());
                        push_str(out, "<pre><code class=\"language-");
                        push_str(out, en.as_str());
                        push_str(out, "\" data-meta=\"");
                        push_str(out, em.as_str());
                        push_str(out, "\">\n");
                        push_str(out, ev.as_str());
                        push_str(out, "\n</code></pre>");
                    },
                    None => {
                        push_str(out, "<pre><code class=\"language-");
                        push_str(out, en.as_str());
                        push_str(out, "\">\n");
                        push_str(out, ev.as_str());
                        push_str(out, "\n</code></pre>");
                    },
                }
            }
        },
        None => {
            push_str(out, "<pre><code>\n");
            push_str(out, ev.as_str());
            push_str(out, "\n</code></pre>");
        },
    }
}

/// Appends the HTML of `node` (see [`render`]).
fn render_into(node: &AstNode, out: &mut String)
    ensures
        final(out)@ == old(out)@ + render(*node),
    decreases node,
{
    match node {
        AstNode::Root { children } => render_children_into(children, out),
        AstNode::TableHead { children } => render_children_into(children, out),
        AstNode::TableRow { children } => render_children_into(children, out),
        AstNode::TableCell { children } => render_children_into(children, out),
        AstNode::Heading { level, children } => {
            let text = collect_heading_text(children);
            let slug = generate_slug(text.as_str());
            push_str(out, "<h");
            push_decimal(out, *level as u64);
            push_str(out, " id=\"");
            push_str(out, slug.as_str());
            push_str(out, "\">");
            render_children_into(children, out);
            push_str(out, "</h");
            push_decimal(out, *level as u64);
            push_str(out, ">");
        },
        AstNode::Paragraph { children } => {
            push_str(out, "<p>");
            render_children_into(children, out);
            push_str(out, "</p>");
        },
        AstNode::Text { value } => {
            let h = render_wikilinks(value.as_str(), None);
            push_str(out, h.as_str());
        },
        AstNode::InlineCode { value } => {
            let e = escape_html(value.as_str());
            push_str(out, "<code>");
            push_str(out, e.as_str());
            push_str(out, "</code>");
        },
        AstNode::Strong { children } => {
            push_str(out, "<strong>");
            render_children_into(children, out);
            push_str(out, "</strong>");
        },
        AstNode::Emphasis { children } => {
            push_str(out, "<em>");
            render_children_into(children, out);
            push_str(out, "</em>");
        },
        AstNode::List { ordered, start, children } => {
            let tag = if *ordered { "ol" } else { "ul" };
            push_str(out, "<");
            push_str(out, tag);
            match start {
                Some(st) => {
                    if *ordered && *st != 1 {
                        push_str(out, " start=\"");
                        push_decimal(out, *st);
                        push_str(out, "\"");
                    }
                },
                None => {},
            }
            push_str(out, ">\n");
            render_children_into(children, out);
            push_str(out, "\n</");
            push_str(out, tag);
            push_str(out, ">");
        },
        AstNode::ListItem { children } => {
            push_str(out, "  <li>");
            render_children_into(children, out);
            push_str(out, "</li>");
        },
        AstNode::CodeBlock { language, value } => render_code_block_into(language, value, out),
        AstNode::Blockquote { children } => {
            push_str(out, "<blockquote>");
            render_children_into(children, out);
            push_str(out, "</blockquote>");
        },
        AstNode::ThematicBreak => push_str(out, "<hr />"),
        AstNode::Link { url, children } => {
            let u = sanitize_url(url.as_str());
            push_str(out, "<a href=\"");
            push_str(out, u.as_str());
            push_str(out, "\">");
            render_children_into(children, out);
            push_str(out, "</a>");
        },
        AstNode::Image { url, alt } => {
            let u = sanitize_url(url.as_str());
            let a = escape_html(alt.as_str());
            push_str(out, "<img src=\"");
            push_str(out, u.as_str());
            push_str(out, "\" alt=\"");
            push_str(out, a.as_str());
            push_str(out, "\" loading=\"lazy\" />");
        },
        AstNode::Math { value, inline } => {
            let e = escape_html(value.as_str());
            if *inline {
                push_str(out, "<span class=\"math-inline\">\\(");
                push_str(out, e.as_str());
                push_str(out, "\\)</span>");
            } else {
                push_str(out, "<div class=\"math-block\">\\[");
                push_str(out, e.as_str());
                push_str(out, "\\]</div>");
            }
        },
        AstNode::Table { alignments, children } => {
            push_str(out, "<table><thead>");
            let first = render_rows_into(alignments, children, out);
            if first {
                push_str(out, "</thead>");
            }
            push_str(out, "</tbody></table>");
        },
        AstNode::Strikethrough { children } => {
            push_str(out, "<del>");
            render_children_into(children, out);
            push_str(out, "</del>");
        },
        AstNode::TaskListMarker { checked } => {
            push_str(out, "<input type=\"checkbox\" ");
            if *checked {
                push_str(out, "checked");
            }
            push_str(out, " disabled />");
        },
        AstNode::FootnoteDefinition { name, children } => {
            let en = escape_html(name.as_str());
            push_str(out, "<section class=\"footnote-def\" id=\"fn-");
            push_str(out, en.as_str());
            push_str(out, "\"><p class=\"footnote-back-ref\"><a href=\"#fnref-");
            push_str(out, en.as_str());
            push_str(out, "\" aria-label=\"回到正文\">↩</a></p>");
            render_children_into(children, out);
            push_str(out, "</section>");
        },
        AstNode::FootnoteReference { name } => {
            let en = escape_html(name.as_str());
            push_str(out, "<sup class=\"footnote-ref\"><a href=\"#fn-");
            push_str(out, en.as_str());
            push_str(out, "\" id=\"fnref-");
            push_str(out, en.as_str());
            push_str(out, "\">");
            push_str(out, en.as_str());
            push_str(out, "</a></sup>");
        },
        AstNode::DefinitionList { children } => {
            push_str(out, "<dl>");
            render_children_into(children, out);
            push_str(out, "</dl>");
        },
        AstNode::DefinitionListTitle { children } => {
            push_str(out, "<dt>");
            render_children_into(children, out);
            push_str(out, "</dt>");
        },
        AstNode::DefinitionListDefinition { children } => {
            push_str(out, "<dd>");
            render_children_into(children, out);
            push_str(out, "</dd>");
        },
    }
}

/// Appends the HTML of each node of `children`, in order.
fn render_children_into(children: &Vec<AstNode>, out: &mut String)
    ensures
        final(out)@ == old(out)@ + render_list(children@),
    decreases children,
{
    let ghost start = out@;
    let mut i: usize = 0;
    while i < children.len()
        invariant
            i <= children.len(),
            out@ == start + render_list(children@.take(i as int)),
        decreases children.len() - i,
    {
        assert(children@.take(i + 1).drop_last() =~= children@.take(i as int));
        render_into(&children[i], out);
        i = i + 1;
    }
    assert(children@.take(children.len() as int) =~= children@);
}

/// Renders a list of nodes to HTML, concatenated in order.
pub fn render_children(children: &Vec<AstNode>) -> (r: MSResult<String>)
    ensures
        r matches Ok(h) && h@ == render_list(children@),
{
    let mut out = String::new();
    render_children_into(children, &mut out);
    Ok(out)
}

/// Renders a syntax tree to HTML (see [`render`]); rendering never fails.
pub fn render_to_html(node: &AstNode) -> (r: MSResult<String>)
    ensures
        r matches Ok(h) && h@ == render(*node),
{
    let mut out = String::new();
    render_into(node, &mut out);
    Ok(out)
}

/// A task-list marker renders as a disabled checkbox that is ticked exactly
/// when the task is done.
pub proof fn law_task_marker_ticked_iff_done()
    ensures
        render(AstNode::TaskListMarker { checked: true }) == "<input type=\"checkbox\" checked disabled />"@,
        render(AstNode::TaskListMarker { checked: false }) == "<input type=\"checkbox\"  disabled />"@,
{
    reveal_strlit("<input type=\"checkbox\" ");
    reveal_strlit("checked");
    reveal_strlit(" disabled />");
    reveal_strlit("<input type=\"checkbox\" checked disabled />");
    reveal_strlit("<input type=\"checkbox\"  disabled />");
    assert("<input type=\"checkbox\" "@ + "checked"@ + " disabled />"@
        =~= "<input type=\"checkbox\" checked disabled />"@);
    assert("<input type=\"checkbox\" "@ + Seq::<char>::empty() + " disabled />"@
        =~= "<input type=\"checkbox\"  disabled />"@);
}

} // verus!
