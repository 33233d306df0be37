//! Markdown event streams, produced by the `pulldown-cmark` parser.
//!
//! The parser reads Markdown and reports a pre-order stream of events
//! (start of an element, its text, end of the element). This module carries
//! those events as plain values, each with the byte range of the source that
//! produced it.

use vstd::prelude::*;
use pulldown_cmark::{Alignment, CodeBlockKind, Event, Options, Parser, Tag, TagEnd};
use crate::ast_core::AlignType;

verus! {

/// Which Markdown extensions the parser recognises.
#[derive(Debug, Clone, Copy, PartialEq, Eq, Structural)]
pub struct ParseOptions {
    /// GFM tables (`| a | b |`).
    pub gfm_tables: bool,
    /// Task lists (`- [x] done`).
    pub tasklists: bool,
    /// Strikethrough (`~~text~~`).
    pub strikethrough: bool,
    /// Smart punctuation (quotes, dashes).
    pub smart_punctuation: bool,
    /// Math (`$inline$`, `$$display$$`).
    pub math: bool,
    /// Footnotes (`[^label]: content`).
    pub footnotes: bool,
    /// Definition lists.
    pub definition_list: bool,
}

impl ParseOptions {
    /// The options with no extension enabled.
    pub open spec fn spec_none() -> ParseOptions {
        ParseOptions {
            gfm_tables: false,
            tasklists: false,
            strikethrough: false,
            smart_punctuation: false,
            math: false,
            footnotes: false,
            definition_list: false,
        }
    }

    /// The options with every extension enabled.
    pub open spec fn spec_all() -> ParseOptions {
        ParseOptions {
            gfm_tables: true,
            tasklists: true,
            strikethrough: true,
            smart_punctuation: true,
            math: true,
            footnotes: true,
            definition_list: true,
        }
    }

    /// The options with every extension enabled.
    pub fn all() -> (r: ParseOptions)
        ensures
            r == ParseOptions::spec_all(),
    {
        ParseOptions {
            gfm_tables: true,
            tasklists: true,
            strikethrough: true,
            smart_punctuation: true,
            math: true,
            footnotes: true,
            definition_list: true,
        }
    }

    /// The options with no extension enabled.
    pub fn none() -> (r: ParseOptions)
        ensures
            r == ParseOptions::spec_none(),
    {
        ParseOptions {
            gfm_tables: false,
            tasklists: false,
            strikethrough: false,
            smart_punctuation: false,
            math: false,
            footnotes: false,
            definition_list: false,
        }
    }
}

impl Default for ParseOptions {
    /// Every extension enabled.
    fn default() -> (r: ParseOptions)
        ensures
            r == ParseOptions::spec_all(),
    {
        ParseOptions::all()
    }
}

/// The element that a start event opens.
#[derive(Debug, PartialEq)]
pub enum MdTag {
    Paragraph,
    /// Heading of the given level (1 to 6).
    Heading(u8),
    BlockQuote,
    /// Code block; `fenced` blocks carry their info string.
    CodeBlock { fenced: bool, info: String },
    /// List, with the number of its first item when ordered.
    List(Option<u64>),
    Item,
    FootnoteDefinition(String),
    DefinitionList,
    DefinitionListTitle,
    DefinitionListDefinition,
    /// Table with the alignment of each column.
    Table(Vec<AlignType>),
    TableHead,
    TableRow,
    TableCell,
    Emphasis,
    Strong,
    Strikethrough,
    /// Link to the given destination.
    Link(String),
    /// Image at the given destination.
    Image(String),
    /// HTML and metadata blocks.
    Other,
}

/// One event of a Markdown event stream.
#[derive(Debug, PartialEq)]
pub enum MdEvent {
    Start(MdTag),
    /// End of an element; `code_block` tells the end of a code block.
    End { code_block: bool },
    Text(String),
    Code(String),
    InlineMath(String),
    DisplayMath(String),
    FootnoteReference(String),
    Rule,
    TaskListMarker(bool),
    /// HTML, line breaks.
    Other,
}

/// The events, with source byte ranges, that `pulldown-cmark` reports for
/// `text` under `options`.
pub uninterp spec fn markdown_events(text: Seq<char>, options: ParseOptions) -> Seq<(MdEvent, usize, usize)>;

#[verifier::external_type_specification]
#[verifier::external_body]
pub struct ExEvent<'a>(Event<'a>);

#[verifier::external_type_specification]
#[verifier::external_body]
pub struct ExTag<'a>(Tag<'a>);

#[verifier::external_type_specification]
#[verifier::external_body]
pub struct ExAlignment(Alignment);

/// Column alignment of a `pulldown-cmark` table as an [`AlignType`], one
/// variant for one variant.
#[verifier::external_body]
fn align_of(a: Alignment) -> AlignType {
    match a {
        Alignment::None => AlignType::Unaligned,
        Alignment::Left => AlignType::Left,
        Alignment::Center => AlignType::Center,
        Alignment::Right => AlignType::Right,
    }
}

/// Span-level and table tags of `pulldown-cmark` as [`MdTag`]s, one variant
/// for one variant, moving the fields (strings through `CowStr::into_string`).
#[verifier::external_body]
fn span_tag_of(t: Tag) -> MdTag {
    match t {
        Tag::DefinitionList => MdTag::DefinitionList,
        Tag::DefinitionListTitle => MdTag::DefinitionListTitle,
        Tag::DefinitionListDefinition => MdTag::DefinitionListDefinition,
        Tag::TableHead => MdTag::TableHead,
        Tag::TableRow => MdTag::TableRow,
        Tag::TableCell => MdTag::TableCell,
        Tag::Emphasis => MdTag::Emphasis,
        Tag::Strong => MdTag::Strong,
        Tag::Strikethrough => MdTag::Strikethrough,
        Tag::Link { dest_url, .. } => MdTag::Link(dest_url.into_string()),
        Tag::Image { dest_url, .. } => MdTag::Image(dest_url.into_string()),
        _ => MdTag::Other,
    }
}

/// Block-level tags of `pulldown-cmark` as [`MdTag`]s, one variant for one
/// variant, moving the fields; other tags go to [`span_tag_of`].
#[verifier::external_body]
fn tag_of(t: Tag) -> MdTag {
    match t {
        Tag::Paragraph => MdTag::Paragraph,
        Tag::Heading { level, .. } => MdTag::Heading(level as u8),
        Tag::BlockQuote(_) => MdTag::BlockQuote,
        Tag::CodeBlock(CodeBlockKind::Fenced(info)) => MdTag::CodeBlock { fenced: true, info: info.into_string() },
        Tag::CodeBlock(CodeBlockKind::Indented) => MdTag::CodeBlock { fenced: false, info: String::new() },
        Tag::List(start) => MdTag::List(start),
        Tag::Item => MdTag::Item,
        Tag::FootnoteDefinition(name) => MdTag::FootnoteDefinition(name.into_string()),
        Tag::Table(aligns) => MdTag::Table(aligns.into_iter().map(align_of).collect()),
        other => span_tag_of(other),
    }
}

/// Events of `pulldown-cmark` as [`MdEvent`]s, one variant for one variant,
/// moving the fields.
#[verifier::external_body]
fn event_of(e: Event) -> MdEvent {
    match e {
        Event::Start(t) => MdEvent::Start(tag_of(t)),
        Event::End(TagEnd::CodeBlock) => MdEvent::End { code_block: true },
        Event::End(_) => MdEvent::End { code_block: false },
        Event::Text(s) => MdEvent::Text(s.into_string()),
        Event::Code(s) => MdEvent::Code(s.into_string()),
        Event::InlineMath(s) => MdEvent::InlineMath(s.into_string()),
        Event::DisplayMath(s) => MdEvent::DisplayMath(s.into_string()),
        Event::FootnoteReference(s) => MdEvent::FootnoteReference(s.into_string()),
        Event::Rule => MdEvent::Rule,
        Event::TaskListMarker(checked) => MdEvent::TaskListMarker(checked),
        _ => MdEvent::Other,
    }
}

/// Runs `pulldown_cmark::Parser::new_ext` over `text` with the extensions
/// that `options` enables, and collects its `into_offset_iter` stream.
///
/// Claimed of the crate: the stream is a function of the text and the
/// options. What the stream holds for a given text is named, not restated.
#[verifier::external_body]
pub(crate) fn markdown_event_stream(text: &str, options: &ParseOptions) -> (r: Vec<(MdEvent, usize, usize)>)
    ensures
        r@ == markdown_events(text@, *options),
{
    let mut o = Options::empty();
    o.set(Options::ENABLE_TABLES, options.gfm_tables);
    o.set(Options::ENABLE_TASKLISTS, options.tasklists);
    o.set(Options::ENABLE_STRIKETHROUGH, options.strikethrough);
    o.set(Options::ENABLE_SMART_PUNCTUATION, options.smart_punctuation);
    o.set(Options::ENABLE_MATH, options.math);
    o.set(Options::ENABLE_FOOTNOTES, options.footnotes);
    o.set(Options::ENABLE_DEFINITION_LIST, options.definition_list);
    Parser::new_ext(text, o).into_offset_iter().map(|(e, range)| (event_of(e), range.start, range.end)).collect()
}

} // verus!
