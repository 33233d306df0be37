//! Importing cards from Markdown files and ZIP archives: YAML front matter
//! gives a card's title, category and tags; without a title the first
//! level-one heading, and failing that the file name, names the card.

use vstd::prelude::*;
use gray_matter::Pod;
use crate::admin::vault::{lines_of, split_lines};
use crate::text::{chars_of, has_prefix, push_str, starts_with, string_of, str_eq, sub_chars, trim_chars, trimmed};

verus! {

/// A card read from an import source.
#[derive(Debug)]
pub struct ImportCard {
    pub title: String,
    pub category: Option<String>,
    pub tags: Vec<String>,
    pub body_md: String,
    pub source_path: String,
}

/// An image read from an import source.
#[derive(Debug)]
pub struct ImportImage {
    pub filename: String,
    pub data: Vec<u8>,
}

/// Why an import failed.
#[derive(Debug)]
pub enum ImportError {
    IoError(String),
    ParseError(String),
    InvalidFormat(String),
}

impl ImportError {
    /// The message shown for the error: its kind, a colon, and its detail.
    pub open spec fn message_text(&self) -> Seq<char> {
        match self {
            ImportError::IoError(m) => "IO Error: "@ + m@,
            ImportError::ParseError(m) => "Parse Error: "@ + m@,
            ImportError::InvalidFormat(m) => "Invalid Format: "@ + m@,
        }
    }

    /// The message of the error (see [`ImportError::message_text`]).
    pub fn message(&self) -> (r: String)
        ensures
            r@ == self.message_text(),
    {
        let (head, m) = match self {
            ImportError::IoError(m) => ("IO Error: ", m),
            ImportError::ParseError(m) => ("Parse Error: ", m),
            ImportError::InvalidFormat(m) => ("Invalid Format: ", m),
        };
        let mut s = String::new();
        push_str(&mut s, head);
        push_str(&mut s, m.as_str());
        s
    }
}

// ───────────────────────────── outside parsers ─────────────────────────────

/// A value of a document's front matter, as far as importing reads it: a
/// string, a list (its string items, other items as `None`), or anything else.
pub enum FieldValue {
    Text(String),
    Items(Vec<Option<String>>),
    Other,
}

/// The model of a front-matter value.
pub enum FieldModel {
    Text(Seq<char>),
    Items(Seq<Option<Seq<char>>>),
    Other,
}

/// The model of a front-matter value.
pub open spec fn field_model(v: FieldValue) -> FieldModel {
    match v {
        FieldValue::Text(s) => FieldModel::Text(s@),
        FieldValue::Items(items) => FieldModel::Items(items@.map_values(|o: Option<String>| match o {
            Some(s) => Some(s@),
            None => None,
        })),
        FieldValue::Other => FieldModel::Other,
    }
}

/// The keys and values of a front-matter table as a map.
pub open spec fn field_map(v: Seq<(String, FieldValue)>) -> Map<Seq<char>, FieldModel>
    decreases v.len(),
{
    if v.len() == 0 {
        Map::empty()
    } else {
        field_map(v.drop_last()).insert(v.last().0@, field_model(v.last().1))
    }
}

/// What the YAML front-matter parser makes of a document: the message of
/// its error when it fails; otherwise the text after the front matter, and
/// the front matter's data (`None` when there is no front matter,
/// `Some(None)` when it is not a table, else its entries).
pub uninterp spec fn yaml_front_matter(input: Seq<char>) -> Result<(Seq<char>, Option<Option<Map<Seq<char>, FieldModel>>>), Seq<char>>;

/// The model of a parsed front matter's data.
pub open spec fn data_model(data: Option<Option<Vec<(String, FieldValue)>>>) -> Option<Option<Map<Seq<char>, FieldModel>>> {
    match data {
        None => None,
        Some(None) => Some(None),
        Some(Some(v)) => Some(Some(field_map(v@))),
    }
}

/// Wraps `gray_matter::Matter::<YAML>::parse` for a `Pod` result: the parse
/// outcome is named, not restated; a table's entries are its keys (distinct,
/// in the map's order of iteration) with each value told apart by variant.
#[verifier::external_body]
pub(crate) fn parse_front_matter(input: &str) -> (r: Result<(String, Option<Option<Vec<(String, FieldValue)>>>), String>)
    ensures
        match r {
            Err(e) => (yaml_front_matter(input@) matches Err(m) && m == e@),
            Ok((content, data)) => (yaml_front_matter(input@) matches Ok(x) && x == (content@, data_model(data)))
                && (data matches Some(Some(v)) ==> v@.map_values(|p: (String, FieldValue)| p.0@).no_duplicates()),
        },
{
    let p = gray_matter::Matter::<gray_matter::engine::YAML>::new().parse::<Pod>(input).map_err(|e| e.to_string())?;
    let data = p.data.map(|d| match d {
        Pod::Hash(h) => Some(h.into_iter().map(|(k, v)| (k, match v {
            Pod::String(s) => FieldValue::Text(s),
            Pod::Array(a) => FieldValue::Items(a.into_iter().map(|x| match x { Pod::String(s) => Some(s), _ => None }).collect()),
            _ => FieldValue::Other,
        })).collect()),
        _ => None,
    });
    Ok((p.content, data))
}

/// The text that decoding bytes gives: UTF-8 with byte-order-mark sniffing,
/// malformed sequences replaced.
pub uninterp spec fn decoded_text(bytes: Seq<u8>) -> Seq<char>;

/// Wraps `encoding_rs::UTF_8.decode`, which decodes with BOM sniffing (the
/// BOM does not appear in the output) and replaces malformed sequences with
/// U+FFFD; the decoded text is named, not restated.
#[verifier::external_body]
fn decode_text(bytes: &[u8]) -> (r: String)
    ensures
        r@ == decoded_text(bytes@),
{
    encoding_rs::UTF_8.decode(bytes).0.into_owned()
}

// ───────────────────────────── card assembly ─────────────────────────────

/// The title a line gives when, trimmed, it starts with `# `: the rest, trimmed.
pub open spec fn heading_of_line(l: Seq<char>) -> Option<Seq<char>> {
    let t = trimmed(l);
    if has_prefix(t, "# "@) { Some(trimmed(t.skip(2))) } else { None }
}

/// The title of the first line that is a level-one heading (see [`heading_of_line`]).
pub open spec fn first_heading_in(lines: Seq<Seq<char>>) -> Option<Seq<char>>
    decreases lines.len(),
{
    if lines.len() == 0 {
        None
    } else {
        match heading_of_line(lines[0]) {
            Some(h) => Some(h),
            None => first_heading_in(lines.drop_first()),
        }
    }
}

/// The first level-one heading of a text, as `str::lines` splits it.
pub fn extract_first_heading(content: &str) -> (r: Option<String>)
    ensures
        match first_heading_in(lines_of(content@)) {
            Some(h) => r matches Some(s) && s@ == h,
            None => r is None,
        },
{
    let lines = split_lines(content);
    let ghost ls = lines@.map_values(|x: String| x@);
    let mut i: usize = 0;
    assert(ls.skip(0) =~= ls);
    while i < lines.len()
        invariant
            i <= lines@.len(),
            ls == lines@.map_values(|x: String| x@),
            ls == lines_of(content@),
            first_heading_in(ls) == first_heading_in(ls.skip(i as int)),
        decreases lines@.len() - i,
    {
        let t = trim_chars(&chars_of(lines[i].as_str()));
        let ts = string_of(&t);
        assert(ls.skip(i as int)[0] == lines@[i as int]@);
        if starts_with(ts.as_str(), "# ") {
            proof {
                reveal_strlit("# ");
            }
            let rest = sub_chars(&t, 2, t.len());
            let h = string_of(&trim_chars(&rest));
            return Some(h);
        }
        assert(ls.skip(i as int).drop_first() =~= ls.skip(i + 1));
        i = i + 1;
    }
    None
}

/// The title, category and tags read from front-matter entries: `title` and
/// `category` when they are strings, the string items of a `tags` list.
/// Without a title, the first heading of `content` and then `stem` stand in.
pub open spec fn fields_of(
    entries: Option<Map<Seq<char>, FieldModel>>,
    content: Seq<char>,
    stem: Seq<char>,
) -> (Seq<char>, Option<Seq<char>>, Seq<Seq<char>>) {
    let text_at = |k: Seq<char>| match entries {
        Some(m) => if m.contains_key(k) {
            match m[k] {
                FieldModel::Text(s) => Some(s),
                _ => None,
            }
        } else {
            None
        },
        None => None,
    };
    let title = match text_at("title"@) { Some(s) => s, None => Seq::empty() };
    let tags = match entries {
        Some(m) => if m.contains_key("tags"@) {
            match m["tags"@] {
                FieldModel::Items(items) => strings_among(items),
                _ => Seq::empty(),
            }
        } else {
            Seq::empty()
        },
        None => Seq::empty(),
    };
    let named = if title.len() > 0 {
        title
    } else {
        match first_heading_in(lines_of(content)) {
            Some(h) => h,
            None => stem,
        }
    };
    (named, text_at("category"@), tags)
}

/// The present items of a list, in order.
pub open spec fn strings_among(items: Seq<Option<Seq<char>>>) -> Seq<Seq<char>>
    decreases items.len(),
{
    if items.len() == 0 {
        Seq::empty()
    } else {
        match items.last() {
            Some(s) => strings_among(items.drop_last()).push(s),
            None => strings_among(items.drop_last()),
        }
    }
}

/// The position of the entry for a key; a later entry wins.
fn find_field(entries: &Vec<(String, FieldValue)>, key: &str) -> (r: Option<usize>)
    ensures
        r matches Some(i) ==> i < entries@.len() && field_map(entries@).contains_key(key@)
            && field_map(entries@)[key@] == field_model(entries@[i as int].1),
        r is None ==> !field_map(entries@).contains_key(key@),
{
    let mut i: usize = entries.len();
    assert(entries@.take(i as int) =~= entries@);
    while i > 0
        invariant
            i <= entries@.len(),
            forall|k: Seq<char>| #![trigger field_map(entries@).contains_key(k)]
                k == key@ ==> (field_map(entries@).contains_key(k) == field_map(entries@.take(i as int)).contains_key(k)
                && (field_map(entries@).contains_key(k) ==> field_map(entries@)[k] == field_map(entries@.take(i as int))[k])),
        decreases i,
    {
        assert(entries@.take(i as int).drop_last() =~= entries@.take(i - 1));
        assert(entries@.take(i as int).last() == entries@[i - 1]);
        if str_eq(entries[i - 1].0.as_str(), key) {
            let ghost t = entries@.take(i as int);
            assert(field_map(t) == field_map(t.drop_last()).insert(t.last().0@, field_model(t.last().1)));
            assert(field_map(t).contains_key(key@));
            assert(field_map(entries@).contains_key(key@));
            return Some(i - 1);
        }
        i = i - 1;
    }
    assert(field_map(entries@.take(0)) == Map::<Seq<char>, FieldModel>::empty());
    None
}

/// The string items of a list, in order (see [`strings_among`]).
fn present_items(items: &Vec<Option<String>>) -> (r: Vec<String>)
    ensures
        r@.map_values(|x: String| x@) == strings_among(items@.map_values(|o: Option<String>| match o {
            Some(s) => Some(s@),
            None => None,
        })),
{
    let ghost m = items@.map_values(|o: Option<String>| match o { Some(s) => Some(s@), None => None });
    let mut out: Vec<String> = Vec::new();
    let mut i: usize = 0;
    assert(m.take(0) =~= Seq::<Option<Seq<char>>>::empty());
    while i < items.len()
        invariant
            i <= items@.len(),
            m == items@.map_values(|o: Option<String>| match o { Some(s) => Some(s@), None => None }),
            out@.map_values(|x: String| x@) == strings_among(m.take(i as int)),
        decreases items@.len() - i,
    {
        assert(m.take(i + 1).drop_last() =~= m.take(i as int));
        assert(m.take(i + 1).last() == m[i as int]);
        match &items[i] {
            Some(t) => {
                let ghost before = out@;
                out.push(t.clone());
                assert(out@.map_values(|x: String| x@) =~= before.map_values(|x: String| x@).push(t@));
            },
            None => {},
        }
        i = i + 1;
    }
    assert(m.take(items@.len() as int) =~= m);
    out
}

/// The texts of a list of strings.
pub open spec fn texts_of(v: Seq<String>) -> Seq<Seq<char>> {
    v.map_values(|x: String| x@)
}

/// The model of an optional string.
pub open spec fn opt_text(o: Option<String>) -> Option<Seq<char>> {
    match o {
        Some(s) => Some(s@),
        None => None,
    }
}

/// The title, category and tags of a card (see [`fields_of`]).
pub fn extract_frontmatter(entries: Option<&Vec<(String, FieldValue)>>, content: &str, stem: &str)
    -> (r: (String, Option<String>, Vec<String>))
    ensures
        (r.0@, opt_text(r.1), texts_of(r.2@)) == fields_of(match entries {
            Some(v) => Some(field_map(v@)),
            None => None,
        }, content@, stem@),
{
    proof {
        reveal_strlit("title");
        reveal_strlit("category");
        reveal_strlit("tags");
    }
    let mut title = String::new();
    let mut category: Option<String> = None;
    let mut tags: Vec<String> = Vec::new();
    assert(texts_of(tags@) =~= Seq::<Seq<char>>::empty());
    match entries {
        Some(v) => {
            match find_field(v, "title") {
                Some(i) => match &v[i].1 {
                    FieldValue::Text(t) => title = t.clone(),
                    _ => {},
                },
                None => {},
            }
            match find_field(v, "category") {
                Some(i) => match &v[i].1 {
                    FieldValue::Text(t) => category = Some(t.clone()),
                    _ => {},
                },
                None => {},
            }
            match find_field(v, "tags") {
                Some(i) => match &v[i].1 {
                    FieldValue::Items(items) => tags = present_items(items),
                    _ => {},
                },
                None => {},
            }
        },
        None => {},
    }
    if chars_of(title.as_str()).len() == 0 {
        title = match extract_first_heading(content) {
            Some(h) => h,
            None => stem.to_string(),
        };
    }
    (title, category, tags)
}

/// The model of an imported card: title, category, tags, body and source.
pub open spec fn card_view(c: ImportCard) -> (Seq<char>, Option<Seq<char>>, Seq<Seq<char>>, Seq<char>, Seq<char>) {
    (c.title@, opt_text(c.category), texts_of(c.tags@), c.body_md@, c.source_path@)
}

/// The card a Markdown document gives. With front matter, its fields name
/// the card (see [`fields_of`]) and the text after it, trimmed, is the body;
/// without front matter, or when the parser fails, the first heading or the
/// file stem is the title, there is no category or tag, and the whole text,
/// trimmed, is the body.
pub open spec fn markdown_card(content: Seq<char>, source: Seq<char>, stem: Seq<char>)
    -> (Seq<char>, Option<Seq<char>>, Seq<Seq<char>>, Seq<char>, Seq<char>) {
    match yaml_front_matter(content) {
        Ok((c, Some(data))) => {
            let f = fields_of(data, c, stem);
            (f.0, f.1, f.2, trimmed(c), source)
        },
        _ => (
            match first_heading_in(lines_of(content)) { Some(h) => h, None => stem },
            None,
            Seq::empty(),
            trimmed(content),
            source,
        ),
    }
}

/// Builds the card of a Markdown file from its bytes (see [`markdown_card`]
/// and [`decoded_text`]); `source_path` is where it was read from and `stem`
/// its file name without extension.
pub fn parse_markdown_bytes(bytes: &[u8], source_path: &str, stem: &str) -> (r: ImportCard)
    ensures
        card_view(r) == markdown_card(decoded_text(bytes@), source_path@, stem@),
{
    let content = decode_text(bytes);
    match parse_front_matter(content.as_str()) {
        Ok((c, Some(data))) => {
            let (title, category, tags) = match &data {
                Some(v) => extract_frontmatter(Some(v), c.as_str(), stem),
                None => extract_frontmatter(None, c.as_str(), stem),
            };
            let body = string_of(&trim_chars(&chars_of(c.as_str())));
            ImportCard { title, category, tags, body_md: body, source_path: source_path.to_string() }
        },
        _ => {
            let title = match extract_first_heading(content.as_str()) {
                Some(h) => h,
                None => stem.to_string(),
            };
            let body = string_of(&trim_chars(&chars_of(content.as_str())));
            let tags: Vec<String> = Vec::new();
            assert(texts_of(tags@) =~= Seq::<Seq<char>>::empty());
            ImportCard { title, category: None, tags, body_md: body, source_path: source_path.to_string() }
        },
    }
}

/// `s` ends with `p`.
pub open spec fn has_suffix(s: Seq<char>, p: Seq<char>) -> bool {
    p.len() <= s.len() && s.subrange(s.len() - p.len(), s.len() as int) == p
}

/// What an archive entry is imported as.
#[derive(Debug, PartialEq, Eq, Structural)]
pub enum EntryKind {
    Markdown,
    Image,
    Skip,
}

/// The kind of an archive entry by its name: `.md` files are cards; `.png`,
/// `.jpg`, `.jpeg`, `.gif` and `.webp` files are images; the rest is skipped.
pub open spec fn entry_kind(name: Seq<char>) -> EntryKind {
    if has_suffix(name, ".md"@) {
        EntryKind::Markdown
    } else if has_suffix(name, ".png"@) || has_suffix(name, ".jpg"@) || has_suffix(name, ".jpeg"@)
        || has_suffix(name, ".gif"@) || has_suffix(name, ".webp"@) {
        EntryKind::Image
    } else {
        EntryKind::Skip
    }
}

/// Whether `s` ends with `p` (see [`has_suffix`]).
fn ends_with(s: &str, p: &str) -> (b: bool)
    ensures
        b == has_suffix(s@, p@),
{
    let x = chars_of(s);
    let y = chars_of(p);
    if y.len() > x.len() {
        return false;
    }
    let xl = x.len();
    let off = xl - y.len();
    let mut k: usize = 0;
    while k < y.len()
        invariant
            k <= y@.len(),
            xl == x@.len(),
            off + y@.len() == x@.len(),
            x@ == s@,
            y@ == p@,
            forall|j: int| 0 <= j < k ==> x@[off + j] == y@[j],
        decreases y@.len() - k,
    {
        let j: usize = off + k;
        if x[j] != y[k] {
            assert(x@.subrange(off as int, x@.len() as int)[k as int] != y@[k as int]);
            return false;
        }
        k = k + 1;
    }
    assert(x@.subrange(off as int, x@.len() as int) =~= y@);
    true
}

/// The kind of an archive entry (see [`entry_kind`]).
pub fn classify_zip_entry(name: &str) -> (r: EntryKind)
    ensures
        r == entry_kind(name@),
{
    if ends_with(name, ".md") {
        EntryKind::Markdown
    } else if ends_with(name, ".png") || ends_with(name, ".jpg") || ends_with(name, ".jpeg") || ends_with(name, ".gif")
        || ends_with(name, ".webp") {
        EntryKind::Image
    } else {
        EntryKind::Skip
    }
}

/// The position just after the last `/` of `s`, or 0.
pub open spec fn after_last_slash(s: Seq<char>) -> int
    decreases s.len(),
{
    if s.len() == 0 {
        0
    } else if s.last() == '/' {
        s.len() as int
    } else {
        after_last_slash(s.drop_last())
    }
}

/// The file stem of an archive entry named `….md`: its last path component
/// without the `.md`, except that a component of just `.md` is its own stem.
pub open spec fn entry_stem(name: Seq<char>) -> Seq<char> {
    let f = name.skip(after_last_slash(name));
    if f == ".md"@ { f } else { f.take(f.len() - 3) }
}

/// The file stem of a Markdown archive entry (see [`entry_stem`]).
fn zip_entry_stem(name: &str) -> (r: String)
    requires
        has_suffix(name@, ".md"@),
    ensures
        r@ == entry_stem(name@),
{
    proof {
        reveal_strlit(".md");
    }
    let cs = chars_of(name);
    let mut i: usize = cs.len();
    assert(cs@.take(i as int) =~= cs@);
    while i > 0 && cs[i - 1] != '/'
        invariant
            i <= cs@.len(),
            cs@ == name@,
            after_last_slash(name@) == after_last_slash(cs@.take(i as int)),
        decreases i,
    {
        assert(cs@.take(i as int).drop_last() =~= cs@.take(i - 1));
        i = i - 1;
    }
    let f = sub_chars(&cs, i, cs.len());
    assert(f@ =~= name@.skip(i as int));
    let n = f.len();
    assert(name@.subrange(name@.len() - 3, name@.len() as int) == ".md"@);
    assert(n >= 3) by {
        if i as int > name@.len() - 3 {
            assert(cs@[i - 1] == '/');
            assert(name@.subrange(name@.len() - 3, name@.len() as int)[i - 1 - (name@.len() - 3)] == '/');
        }
    }
    if n == 3 {
        assert(f@ =~= ".md"@) by {
            assert(f@ =~= name@.subrange(name@.len() - 3, name@.len() as int));
        }
        string_of(&f)
    } else {
        assert(f@ != ".md"@);
        string_of(&sub_chars(&f, 0, n - 3))
    }
}

/// The card an archive's Markdown entry gives: when the front-matter parser
/// fails, the entry's stem, no category or tag, and the whole text trimmed;
/// otherwise the text after the front matter, trimmed, is the body, and the
/// front matter's fields name the card, the body's first heading or the
/// entry's stem standing in for a missing title.
pub open spec fn zip_card(name: Seq<char>, content: Seq<char>)
    -> (Seq<char>, Option<Seq<char>>, Seq<Seq<char>>, Seq<char>, Seq<char>) {
    match yaml_front_matter(content) {
        Err(_) => (entry_stem(name), None, Seq::empty(), trimmed(content), name),
        Ok((c, data)) => {
            let entries = match data {
                Some(Some(m)) => Some(m),
                _ => None,
            };
            let f = fields_of(entries, trimmed(c), entry_stem(name));
            (f.0, f.1, f.2, trimmed(c), name)
        },
    }
}

/// Builds the card of a Markdown archive entry (see [`zip_card`]).
pub fn card_from_zip_entry(file_name: &str, content: &str) -> (r: ImportCard)
    requires
        has_suffix(file_name@, ".md"@),
    ensures
        card_view(r) == zip_card(file_name@, content@),
{
    let stem = zip_entry_stem(file_name);
    match parse_front_matter(content) {
        Err(_) => {
            let tags: Vec<String> = Vec::new();
            assert(texts_of(tags@) =~= Seq::<Seq<char>>::empty());
            ImportCard {
                title: stem,
                category: None,
                tags,
                body_md: string_of(&trim_chars(&chars_of(content))),
                source_path: file_name.to_string(),
            }
        },
        Ok((c, data)) => {
            let body = string_of(&trim_chars(&chars_of(c.as_str())));
            let (title, category, tags) = match &data {
                Some(Some(v)) => extract_frontmatter(Some(v), body.as_str(), stem.as_str()),
                _ => extract_frontmatter(None, body.as_str(), stem.as_str()),
            };
            ImportCard { title, category, tags, body_md: body, source_path: file_name.to_string() }
        },
    }
}

} // verus!
