//! Reading a card document: its front matter as card metadata, and the
//! analysis of its body (tree, counts, table of contents, excerpt, links).

use vstd::prelude::*;
use crate::admin::importer::{field_map, parse_front_matter, yaml_front_matter, FieldModel, FieldValue};
use crate::admin::models::{excerpt, excerpt_of, line_count, text_counts, toc_items, word_count, CardMeta, TocItem};
use crate::ms_ast::error::MSError;
use crate::ms_ast::events::ParseOptions;
use crate::ms_ast::model::tree_view;
use crate::ms_ast::node::AstNode;
use crate::ms_ast::parser::{extract_links, links_of, parse_markdown, parsed, reports};
use crate::ms_ast::toc::{extract_toc_flat, flat_of, headings_of};
use crate::text::str_eq;

verus! {

/// The text a front-matter key holds, when it is a string.
pub open spec fn text_field(m: Map<Seq<char>, FieldModel>, k: Seq<char>) -> Option<Seq<char>> {
    if m.contains_key(k) {
        match m[k] {
            FieldModel::Text(s) => Some(s),
            _ => None,
        }
    } else {
        None
    }
}

/// The card metadata a front-matter table gives: present exactly when
/// `uuid`, `title`, `category`, `created_at` and `updated_at` are all
/// strings.
pub open spec fn meta_of(m: Map<Seq<char>, FieldModel>) -> Option<(Seq<char>, Seq<char>, Seq<char>, Seq<char>, Seq<char>)> {
    match (text_field(m, "uuid"@), text_field(m, "title"@), text_field(m, "category"@),
        text_field(m, "created_at"@), text_field(m, "updated_at"@)) {
        (Some(a), Some(b), Some(c), Some(d), Some(e)) => Some((a, b, c, d, e)),
        _ => None,
    }
}

/// The string a key holds in front-matter entries; a later entry wins.
fn text_entry(entries: &Vec<(String, FieldValue)>, key: &str) -> (r: Option<String>)
    ensures
        match text_field(field_map(entries@), key@) {
            Some(t) => r matches Some(s) && s@ == t,
            None => r is None,
        },
{
    let mut i: usize = entries.len();
    assert(entries@.take(i as int) =~= entries@);
    while i > 0
        invariant
            i <= entries@.len(),
            text_field(field_map(entries@), key@) == text_field(field_map(entries@.take(i as int)), key@),
        decreases i,
    {
        let ghost t = entries@.take(i as int);
        assert(t.drop_last() =~= entries@.take(i - 1));
        assert(t.last() == entries@[i - 1]);
        assert(field_map(t) == field_map(t.drop_last()).insert(t.last().0@, crate::admin::importer::field_model(t.last().1)));
        if str_eq(entries[i - 1].0.as_str(), key) {
            return match &entries[i - 1].1 {
                FieldValue::Text(s) => Some(s.clone()),
                _ => None,
            };
        }
        i = i - 1;
    }
    assert(field_map(entries@.take(0)) == Map::<Seq<char>, FieldModel>::empty());
    None
}

/// The plain values of card metadata.
pub open spec fn meta_fields(m: CardMeta) -> (Seq<char>, Seq<char>, Seq<char>, Seq<char>, Seq<char>) {
    (m.uuid@, m.title@, m.category@, m.created_at@, m.updated_at@)
}

/// The card metadata of front-matter entries (see [`meta_of`]).
pub fn card_meta_from(entries: &Vec<(String, FieldValue)>) -> (r: Option<CardMeta>)
    ensures
        match meta_of(field_map(entries@)) {
            Some(f) => r matches Some(m) && meta_fields(m) == f,
            None => r is None,
        },
{
    let uuid = text_entry(entries, "uuid");
    let title = text_entry(entries, "title");
    let category = text_entry(entries, "category");
    let created_at = text_entry(entries, "created_at");
    let updated_at = text_entry(entries, "updated_at");
    match (uuid, title, category, created_at, updated_at) {
        (Some(uuid), Some(title), Some(category), Some(created_at), Some(updated_at)) =>
            Some(CardMeta { uuid, title, category, created_at, updated_at }),
        _ => None,
    }
}

/// A card document read and analysed; the reading time is left to the caller.
pub struct ParsedCard {
    pub meta: Option<CardMeta>,
    pub ast: AstNode,
    pub content: String,
    pub lines: usize,
    pub chars: usize,
    pub words: usize,
    pub toc: Vec<TocItem>,
    pub excerpt: String,
    pub outbound_links: usize,
}

/// Why a card document could not be read.
#[derive(Debug)]
pub enum CardParseError {
    /// The front matter could not be parsed; the parser's message.
    FrontMatter(String),
    /// The body could not be parsed into a tree.
    Markdown(MSError),
}

/// `d` is the analysis of the body `c`: its line, character and word
/// counts, its flat table of contents, its excerpt and the number of its
/// distinct wikilink targets (0 when they cannot be found).
pub open spec fn analysed(d: ParsedCard, c: Seq<char>) -> bool {
    &&& d.content@ == c
    &&& d.lines == line_count(c)
    &&& d.chars == c.len()
    &&& d.words == word_count(c)
    &&& d.toc@.len() == flat_of(headings_of(d.ast)).len()
    &&& forall|i: int| 0 <= i < d.toc@.len() ==> (#[trigger] d.toc@[i]).level == flat_of(headings_of(d.ast))[i].0
        && d.toc@[i].text@ == flat_of(headings_of(d.ast))[i].1 && d.toc@[i].id@ == flat_of(headings_of(d.ast))[i].2
    &&& d.excerpt@ == excerpt_of(c)
    &&& d.outbound_links == (match links_of(c) { Some(n) => n.len(), None => 0 })
}

/// Reads a card document: the front matter gives its metadata when it is a
/// table with the five card fields as strings (see [`meta_of`]), and the
/// text after it is parsed and analysed (see [`analysed`]).
pub fn parse_markdown_document(raw_text: &str) -> (r: Result<ParsedCard, CardParseError>)
    ensures
        match yaml_front_matter(raw_text@) {
            Err(m) => r matches Err(CardParseError::FrontMatter(e)) && e@ == m,
            Ok((c, data)) => match parsed(c, ParseOptions::spec_all()) {
                Err(f) => r matches Err(CardParseError::Markdown(e)) && reports::<()>(Err(e), f),
                Ok(t) => r matches Ok(d) && tree_view(d.ast) == t && analysed(d, c) && match data {
                    Some(Some(m)) => match meta_of(m) {
                        Some(f) => d.meta matches Some(x) && meta_fields(x) == f,
                        None => d.meta is None,
                    },
                    _ => d.meta is None,
                },
            },
        },
{
    let (content, data) = match parse_front_matter(raw_text) {
        Ok(p) => p,
        Err(e) => return Err(CardParseError::FrontMatter(e)),
    };
    let meta = match &data {
        Some(Some(entries)) => card_meta_from(entries),
        _ => None,
    };
    let ast = match parse_markdown(content.as_str()) {
        Ok(a) => a,
        Err(e) => return Err(CardParseError::Markdown(e)),
    };
    let (lines, chars, words) = text_counts(content.as_str());
    let toc = toc_items(extract_toc_flat(&ast));
    let ex = excerpt(content.as_str());
    let outbound_links = match extract_links(content.as_str()) {
        Ok(v) => v.len(),
        Err(_) => 0,
    };
    Ok(ParsedCard { meta, ast, content, lines, chars, words, toc, excerpt: ex, outbound_links })
}

} // verus!
