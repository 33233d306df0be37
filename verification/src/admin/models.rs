//! Card metadata and the analysis of a card's text: line, character and
//! word counts, an excerpt, and the table of contents.

use vstd::prelude::*;
use crate::ms_ast::toc::TocFlatItem;
use crate::text::{chars_of, decimal, has_prefix, trimmed_end, trimmed_start, is_space, is_whitespace, push_decimal, push_str, str_eq, skip_space_end, skip_space_start, string_of, sub_chars, to_uppercase, trim_chars, trimmed, uppercase};

verus! {

/// The front matter of a card.
#[derive(Debug, Clone)]
pub struct CardMeta {
    pub uuid: String,
    pub title: String,
    pub category: String,
    pub created_at: String,
    pub updated_at: String,
}

/// Sizes of a card's text.
#[derive(Debug, Clone)]
pub struct DocumentStats {
    pub lines: usize,
    pub chars: usize,
    pub words: usize,
    /// Minutes of reading.
    pub read_time: u32,
}

/// An entry of a card's table of contents.
#[derive(Debug, Clone)]
pub struct TocItem {
    pub level: u8,
    pub text: String,
    pub id: String,
}

/// The analysis of a card's text.
#[derive(Debug, Clone)]
pub struct DocAnalysis {
    pub stats: DocumentStats,
    pub toc: Vec<TocItem>,
    pub excerpt: String,
    pub outbound_links: usize,
}

/// The CJK ideographs that count as one word each (basic block and extension A).
pub open spec fn is_ideograph(c: char) -> bool {
    ('\u{4E00}' <= c && c <= '\u{9FFF}') || ('\u{3400}' <= c && c <= '\u{4DBF}')
}

/// Number of `\n` characters.
pub open spec fn newline_count(s: Seq<char>) -> nat
    decreases s.len(),
{
    if s.len() == 0 {
        0
    } else {
        newline_count(s.drop_last()) + if s.last() == '\n' { 1nat } else { 0nat }
    }
}

/// Number of lines, as `str::lines` yields them: each `\n` ends one, and
/// text after the last `\n` is one more.
pub open spec fn line_count(s: Seq<char>) -> nat {
    newline_count(s) + if s.len() > 0 && s.last() != '\n' { 1nat } else { 0nat }
}

/// Number of ideographs.
pub open spec fn ideograph_count(s: Seq<char>) -> nat
    decreases s.len(),
{
    if s.len() == 0 {
        0
    } else {
        ideograph_count(s.drop_last()) + if is_ideograph(s.last()) { 1nat } else { 0nat }
    }
}

/// Whether a character separates words once ideographs count as spaces.
pub open spec fn separates(c: char) -> bool {
    is_space(c) || is_ideograph(c)
}

/// Number of maximal runs of characters that do not separate words.
pub open spec fn run_count(s: Seq<char>) -> nat
    decreases s.len(),
{
    if s.len() == 0 {
        0
    } else if !separates(s.last()) && (s.len() == 1 || separates(s[s.len() - 2])) {
        run_count(s.drop_last()) + 1
    } else {
        run_count(s.drop_last())
    }
}

/// Words of a text: each ideograph, plus each run of other non-space characters.
pub open spec fn word_count(s: Seq<char>) -> nat {
    ideograph_count(s) + run_count(s)
}

/// Lines, characters and words of a text.
pub fn text_counts(content: &str) -> (r: (usize, usize, usize))
    ensures
        r.0 == line_count(content@),
        r.1 == content@.len(),
        r.2 == word_count(content@),
{
    let cs = chars_of(content);
    let n = cs.len();
    let mut lines: usize = 0;
    let mut ideographs: usize = 0;
    let mut runs: usize = 0;
    let mut i: usize = 0;
    while i < n
        invariant
            n == cs@.len(),
            cs@ == content@,
            i <= n,
            lines == newline_count(cs@.take(i as int)),
            ideographs == ideograph_count(cs@.take(i as int)),
            runs == run_count(cs@.take(i as int)),
            lines <= i,
            i > 0 && cs@[i - 1] != '\n' ==> lines < i,
            ideographs + runs <= i,
        decreases n - i,
    {
        let c = cs[i];
        let ghost t = cs@.take(i + 1);
        assert(t.drop_last() =~= cs@.take(i as int));
        assert(t.last() == c);
        if c == '\n' {
            lines = lines + 1;
        }
        let ideo = ('\u{4E00}' <= c && c <= '\u{9FFF}') || ('\u{3400}' <= c && c <= '\u{4DBF}');
        if ideo {
            ideographs = ideographs + 1;
        }
        let sep = is_whitespace(c) || ideo;
        if !sep {
            let prev_sep = if i == 0 {
                true
            } else {
                let p = cs[i - 1];
                is_whitespace(p) || ('\u{4E00}' <= p && p <= '\u{9FFF}') || ('\u{3400}' <= p && p <= '\u{4DBF}')
            };
            if prev_sep {
                runs = runs + 1;
            }
        }
        i = i + 1;
    }
    assert(cs@.take(n as int) =~= cs@);
    if n > 0 && cs[n - 1] != '\n' {
        lines = lines + 1;
    }
    (lines, n, ideographs + runs)
}

/// The excerpt of a text: the first line of its first 200 characters, trimmed.
pub open spec fn excerpt_of(s: Seq<char>) -> Seq<char> {
    let head = s.take(if s.len() < 200 { s.len() as int } else { 200 });
    trimmed(head.take(first_break(head)))
}

/// Index of the first `\n`, or the length.
pub open spec fn first_break(s: Seq<char>) -> int
    decreases s.len(),
{
    if s.len() == 0 {
        0
    } else if s[0] == '\n' {
        0
    } else {
        1 + first_break(s.drop_first())
    }
}

/// The excerpt of a text (see [`excerpt_of`]).
pub fn excerpt(content: &str) -> (r: String)
    ensures
        r@ == excerpt_of(content@),
{
    let cs = chars_of(content);
    let limit = if cs.len() < 200 { cs.len() } else { 200 };
    let mut k: usize = 0;
    assert(cs@.take(limit as int).skip(0) =~= cs@.take(limit as int));
    while k < limit && cs[k] != '\n'
        invariant
            k <= limit <= cs@.len(),
            first_break(cs@.take(limit as int)) == k + first_break(cs@.take(limit as int).skip(k as int)),
        decreases limit - k,
    {
        assert(cs@.take(limit as int).skip(k as int).drop_first() =~= cs@.take(limit as int).skip(k + 1));
        k = k + 1;
    }
    assert(first_break(cs@.take(limit as int).skip(k as int)) == 0);
    let line = sub_chars(&cs, 0, k);
    assert(line@ =~= cs@.take(limit as int).take(k as int));
    let lo = skip_space_start(&line);
    let hi = skip_space_end(&line, lo);
    let kept = sub_chars(&line, lo, hi);
    string_of(&kept)
}

/// The table of contents of a card from its flat heading list: level,
/// text, and the slug as anchor.
pub fn toc_items(flat: Vec<TocFlatItem>) -> (r: Vec<TocItem>)
    ensures
        r@.len() == flat@.len(),
        forall|i: int| 0 <= i < flat@.len() ==> #[trigger] r@[i].level == flat@[i].level
            && r@[i].text == flat@[i].text && r@[i].id == flat@[i].slug,
{
    let mut out: Vec<TocItem> = Vec::new();
    let mut rest = flat;
    let ghost all = rest@;
    let n = rest.len();
    let mut k: usize = 0;
    while k < n
        invariant
            k <= n,
            n == all.len(),
            rest@ == all.skip(k as int),
            out@.len() == k,
            forall|i: int| 0 <= i < k ==> #[trigger] out@[i].level == all[i].level
                && out@[i].text == all[i].text && out@[i].id == all[i].slug,
        decreases n - k,
    {
        let item = rest.remove(0);
        assert(rest@ =~= all.skip(k + 1));
        out.push(TocItem { level: item.level, text: item.text, id: item.slug });
        k = k + 1;
    }
    out
}


// ───────────────────────────── file names of cards ─────────────────────────────

/// A control character (general category `Cc`): U+0000–U+001F and U+007F–U+009F.
pub open spec fn is_control(c: char) -> bool {
    (c as u32) <= 0x1F || (0x7F <= (c as u32) && (c as u32) <= 0x9F)
}

/// The character a card title's character becomes in its file name:
/// characters that file systems refuse, and control characters, become `_`.
pub open spec fn stem_char(c: char) -> char {
    if c == '<' || c == '>' || c == ':' || c == '"' || c == '/' || c == '\\' || c == '|' || c == '?' || c == '*'
        || is_control(c) {
        '_'
    } else {
        c
    }
}

/// `s` without its leading `.` characters.
pub open spec fn without_leading_dots(s: Seq<char>) -> Seq<char>
    decreases s.len(),
{
    if s.len() > 0 && s[0] == '.' { without_leading_dots(s.drop_first()) } else { s }
}

/// `s` without its trailing `.` characters.
pub open spec fn without_trailing_dots(s: Seq<char>) -> Seq<char>
    decreases s.len(),
{
    if s.len() > 0 && s.last() == '.' { without_trailing_dots(s.drop_last()) } else { s }
}

/// A device name that Windows reserves: CON, PRN, AUX, NUL, COM1–COM9, LPT1–LPT9.
pub open spec fn is_reserved_name(s: Seq<char>) -> bool {
    s == "CON"@ || s == "PRN"@ || s == "AUX"@ || s == "NUL"@
        || (s.len() == 4 && (s.take(3) == "COM"@ || s.take(3) == "LPT"@) && '1' <= s[3] && s[3] <= '9')
}

/// The file stem of a card: the trimmed title with refused characters
/// replaced, trimmed again and stripped of dots at both ends; `untitled`
/// when nothing is left, and `_` appended to a reserved device name (compared
/// in upper case).
pub open spec fn file_stem_of(title: Seq<char>) -> Seq<char> {
    let cleaned = without_trailing_dots(without_leading_dots(trimmed(trimmed(title).map_values(|c: char| stem_char(c)))));
    if cleaned.len() == 0 {
        "untitled"@
    } else if is_reserved_name(uppercase(cleaned)) {
        cleaned + "_"@
    } else {
        cleaned
    }
}

/// The file character of a title character (see [`stem_char`]).
fn file_char(c: char) -> (r: char)
    ensures
        r == stem_char(c),
{
    let v = c as u32;
    if c == '<' || c == '>' || c == ':' || c == '"' || c == '/' || c == '\\' || c == '|' || c == '?' || c == '*'
        || v <= 0x1F || (0x7F <= v && v <= 0x9F) {
        '_'
    } else {
        c
    }
}

/// `s` with the dots at both ends removed.
fn trim_dots(s: &Vec<char>) -> (r: Vec<char>)
    ensures
        r@ == without_trailing_dots(without_leading_dots(s@)),
{
    let mut lo: usize = 0;
    assert(s@.subrange(0, s@.len() as int) =~= s@);
    while lo < s.len() && s[lo] == '.'
        invariant
            lo <= s@.len(),
            without_leading_dots(s@) == without_leading_dots(s@.subrange(lo as int, s@.len() as int)),
        decreases s@.len() - lo,
    {
        assert(s@.subrange(lo as int, s@.len() as int).drop_first() =~= s@.subrange(lo + 1, s@.len() as int));
        lo = lo + 1;
    }
    let ghost mid = s@.subrange(lo as int, s@.len() as int);
    assert(without_leading_dots(mid) == mid);
    let mut hi: usize = s.len();
    assert(s@.subrange(lo as int, hi as int) =~= mid);
    while hi > lo && s[hi - 1] == '.'
        invariant
            lo <= hi <= s@.len(),
            without_trailing_dots(mid) == without_trailing_dots(s@.subrange(lo as int, hi as int)),
        decreases hi,
    {
        assert(s@.subrange(lo as int, hi as int).drop_last() =~= s@.subrange(lo as int, hi - 1));
        hi = hi - 1;
    }
    sub_chars(s, lo, hi)
}

/// Whether a name is a reserved device name (see [`is_reserved_name`]).
fn reserved_name(s: &Vec<char>) -> (b: bool)
    ensures
        b == is_reserved_name(s@),
{
    proof {
        reveal_strlit("CON");
        reveal_strlit("PRN");
        reveal_strlit("AUX");
        reveal_strlit("NUL");
        reveal_strlit("COM");
        reveal_strlit("LPT");
    }
    if s.len() == 3 {
        let r = (s[0] == 'C' && s[1] == 'O' && s[2] == 'N') || (s[0] == 'P' && s[1] == 'R' && s[2] == 'N')
            || (s[0] == 'A' && s[1] == 'U' && s[2] == 'X') || (s[0] == 'N' && s[1] == 'U' && s[2] == 'L');
        assert(r ==> is_reserved_name(s@)) by {
            if s[0] == 'C' && s[1] == 'O' && s[2] == 'N' { assert(s@ =~= "CON"@); }
            if s[0] == 'P' && s[1] == 'R' && s[2] == 'N' { assert(s@ =~= "PRN"@); }
            if s[0] == 'A' && s[1] == 'U' && s[2] == 'X' { assert(s@ =~= "AUX"@); }
            if s[0] == 'N' && s[1] == 'U' && s[2] == 'L' { assert(s@ =~= "NUL"@); }
        }
        assert(is_reserved_name(s@) ==> r) by {
            if s@ == "CON"@ { assert(s@[0] == 'C' && s@[1] == 'O' && s@[2] == 'N'); }
            if s@ == "PRN"@ { assert(s@[0] == 'P' && s@[1] == 'R' && s@[2] == 'N'); }
            if s@ == "AUX"@ { assert(s@[0] == 'A' && s@[1] == 'U' && s@[2] == 'X'); }
            if s@ == "NUL"@ { assert(s@[0] == 'N' && s@[1] == 'U' && s@[2] == 'L'); }
        }
        r
    } else if s.len() == 4 {
        let com = s[0] == 'C' && s[1] == 'O' && s[2] == 'M';
        let lpt = s[0] == 'L' && s[1] == 'P' && s[2] == 'T';
        assert(com <==> s@.take(3) == "COM"@) by {
            if com { assert(s@.take(3) =~= "COM"@); }
            if s@.take(3) == "COM"@ { assert(s@.take(3)[0] == 'C' && s@.take(3)[1] == 'O' && s@.take(3)[2] == 'M'); }
        }
        assert(lpt <==> s@.take(3) == "LPT"@) by {
            if lpt { assert(s@.take(3) =~= "LPT"@); }
            if s@.take(3) == "LPT"@ { assert(s@.take(3)[0] == 'L' && s@.take(3)[1] == 'P' && s@.take(3)[2] == 'T'); }
        }
        (com || lpt) && '1' <= s[3] && s[3] <= '9'
    } else {
        false
    }
}

/// The file stem of a card title (see [`file_stem_of`]).
pub fn sanitize_file_stem(title: &str) -> (r: String)
    ensures
        r@ == file_stem_of(title@),
{
    let t = trim_chars(&chars_of(title));
    let mut mapped: Vec<char> = Vec::new();
    let mut i: usize = 0;
    while i < t.len()
        invariant
            i <= t@.len(),
            t@ == trimmed(title@),
            mapped@ == t@.take(i as int).map_values(|c: char| stem_char(c)),
        decreases t@.len() - i,
    {
        mapped.push(file_char(t[i]));
        i = i + 1;
        assert(mapped@ =~= t@.take(i as int).map_values(|c: char| stem_char(c)));
    }
    assert(t@.take(t@.len() as int) =~= t@);
    let cleaned = trim_dots(&trim_chars(&mapped));
    if cleaned.len() == 0 {
        return "untitled".to_owned();
    }
    let s = string_of(&cleaned);
    let upper = to_uppercase(s.as_str());
    let uc = chars_of(upper.as_str());
    if reserved_name(&uc) {
        let mut r = s;
        push_str(&mut r, "_");
        r
    } else {
        s
    }
}

/// A card document: the front-matter header (`---`, the YAML text, `---`
/// and a blank line), then the body; with an empty body, the header without
/// its trailing white space.
pub open spec fn document_text(yaml: Seq<char>, body: Seq<char>) -> Seq<char> {
    let header = "---\n"@ + yaml + "---\n\n"@;
    if body.len() == 0 { trimmed_end_of(header) } else { header + body }
}

/// `s` without trailing white space.
pub open spec fn trimmed_end_of(s: Seq<char>) -> Seq<char> {
    crate::text::trimmed_end(s)
}

/// Joins the YAML text of a card's metadata and its body into one document
/// (see [`document_text`]).
pub fn compose_document(yaml: &str, body: &str) -> (r: String)
    ensures
        r@ == document_text(yaml@, body@),
{
    let mut header = "---\n".to_owned();
    push_str(&mut header, yaml);
    push_str(&mut header, "---\n\n");
    assert(header@ == "---\n"@ + yaml@ + "---\n\n"@);
    let bc = chars_of(body);
    if bc.len() == 0 {
        assert(body@.len() == 0);
        let cs = chars_of(header.as_str());
        assert(cs@.subrange(0, cs@.len() as int) =~= cs@);
        let n = skip_space_end(&cs, 0);
        string_of(&sub_chars(&cs, 0, n))
    } else {
        let mut r = header;
        push_str(&mut r, body);
        r
    }
}

/// `name` added to the path `dir` as `PathBuf::push` adds a component on
/// Unix: an absolute `name` replaces the path; otherwise a `/` separates
/// them unless `dir` is empty or already ends with one.
pub open spec fn path_join(dir: Seq<char>, name: Seq<char>) -> Seq<char> {
    if name.len() > 0 && name[0] == '/' {
        name
    } else if dir.len() == 0 || dir.last() == '/' {
        dir + name
    } else {
        dir + "/"@ + name
    }
}

/// Adds a component to a path (see [`path_join`]).
pub fn push_path(path: &mut String, name: &str)
    ensures
        final(path)@ == path_join(old(path)@, name@),
{
    let n = chars_of(name);
    let p = chars_of(path.as_str());
    if n.len() > 0 && n[0] == '/' {
        *path = name.to_string();
    } else if p.len() == 0 || p[p.len() - 1] == '/' {
        push_str(path, name);
    } else {
        push_str(path, "/");
        push_str(path, name);
    }
}

/// The file of a card titled `title` in the folder `dir`: the title's file
/// stem (see [`file_stem_of`]) with `.md`.
pub fn card_file_path(dir: &str, title: &str) -> (r: String)
    ensures
        r@ == path_join(dir@, file_stem_of(title@) + ".md"@),
{
    let mut name = sanitize_file_stem(title);
    push_str(&mut name, ".md");
    let mut path = dir.to_string();
    push_path(&mut path, name.as_str());
    path
}

/// `p` occurs somewhere in `s`.
pub open spec fn occurs_in(s: Seq<char>, p: Seq<char>) -> bool {
    exists|i: int| 0 <= i && i + p.len() <= s.len() && #[trigger] s.subrange(i, i + p.len()) == p
}

/// The folder of a category in the vault. A blank category, `.`, `/` or `\`
/// is the vault itself; a category holding `/`, `\` or `..` is refused as
/// nested; any other is the folder of that name (trimmed) in the vault.
pub open spec fn category_dir(vault_root: Seq<char>, category: Seq<char>) -> Result<Seq<char>, Seq<char>> {
    let t = trimmed(category);
    if t.len() == 0 || t == "."@ || t == "/"@ || t == "\\"@ {
        Ok(vault_root)
    } else if t.contains('/') || t.contains('\\') || occurs_in(t, seq!['.', '.']) {
        Err("不支持嵌套分类: "@ + t)
    } else {
        Ok(path_join(vault_root, t))
    }
}

/// Whether `s` holds two dots in a row.
pub(crate) fn has_double_dot(s: &Vec<char>) -> (b: bool)
    ensures
        b == occurs_in(s@, seq!['.', '.']),
{
    let n = s.len();
    let mut i: usize = 0;
    while n > 1 && i < n - 1
        invariant
            n == s@.len(),
            forall|j: int| 0 <= j < i && j + 1 < n ==> #[trigger] s@.subrange(j, j + 2) != seq!['.', '.'],
        decreases n - i,
    {
        if s[i] == '.' && s[i + 1] == '.' {
            assert(s@.subrange(i as int, i + 2) =~= seq!['.', '.']);
            return true;
        }
        assert(s@.subrange(i as int, i + 2) != seq!['.', '.']) by {
            if s@.subrange(i as int, i + 2) == seq!['.', '.'] {
                assert(s@.subrange(i as int, i + 2)[0] == '.' && s@.subrange(i as int, i + 2)[1] == '.');
            }
        }
        i = i + 1;
    }
    assert forall|j: int| 0 <= j && j + 2 <= s@.len() implies #[trigger] s@.subrange(j, j + 2) != seq!['.', '.'] by {
        assert(j < i);
    }
    false
}

/// Whether `s` holds the character `c`.
pub(crate) fn has_char(s: &Vec<char>, c: char) -> (b: bool)
    ensures
        b == s@.contains(c),
{
    let mut i: usize = 0;
    while i < s.len()
        invariant
            i <= s@.len(),
            forall|j: int| 0 <= j < i ==> s@[j] != c,
        decreases s@.len() - i,
    {
        if s[i] == c {
            return true;
        }
        i = i + 1;
    }
    false
}

/// The folder of a category in the vault (see [`category_dir`]).
pub fn category_path(vault_root: &str, category: &str) -> (r: Result<String, String>)
    ensures
        match category_dir(vault_root@, category@) {
            Ok(p) => r matches Ok(q) && q@ == p,
            Err(m) => r matches Err(e) && e@ == m,
        },
{
    let t = trim_chars(&chars_of(category));
    let ts = string_of(&t);
    if t.len() == 0 || str_eq(ts.as_str(), ".") || str_eq(ts.as_str(), "/") || str_eq(ts.as_str(), "\\") {
        return Ok(vault_root.to_string());
    }
    if has_char(&t, '/') || has_char(&t, '\\') || has_double_dot(&t) {
        let mut m = "不支持嵌套分类: ".to_string();
        push_str(&mut m, ts.as_str());
        return Err(m);
    }
    let mut path = vault_root.to_string();
    push_path(&mut path, ts.as_str());
    Ok(path)
}

/// A category never leads out of the vault: its folder is the vault itself
/// or a direct child of it whose name holds no separator and no `..`.
pub proof fn law_category_stays_in_vault(vault_root: Seq<char>, category: Seq<char>)
    ensures
        category_dir(vault_root, category) matches Ok(p) ==> (p == vault_root || exists|t: Seq<char>| {
            &&& t.len() > 0
            &&& !t.contains('/')
            &&& !t.contains('\\')
            &&& !occurs_in(t, seq!['.', '.'])
            &&& #[trigger] path_join(vault_root, t) == p
        }),
{
    let t = trimmed(category);
    if let Ok(p) = category_dir(vault_root, category) {
        if p != vault_root {
            assert(path_join(vault_root, t) == p);
        }
    }
}

/// The file of a card in its category's folder (see [`category_dir`] and
/// [`card_file_path`]).
pub fn article_path(vault_root: &str, category: &str, title: &str) -> (r: Result<String, String>)
    ensures
        match category_dir(vault_root@, category@) {
            Ok(d) => r matches Ok(q) && q@ == path_join(d, file_stem_of(title@) + ".md"@),
            Err(m) => r matches Err(e) && e@ == m,
        },
{
    let dir = match category_path(vault_root, category) {
        Ok(d) => d,
        Err(e) => return Err(e),
    };
    Ok(card_file_path(dir.as_str(), title))
}

/// The title tried for a new card on a given attempt: the file stem of the
/// title first, then the stem followed by a space and 2, 3, ….
pub open spec fn candidate_title_text(base: Seq<char>, attempt: nat) -> Seq<char> {
    if attempt == 0 { base } else { base + " "@ + decimal(attempt + 1) }
}

/// The title tried for a new card on a given attempt (see [`candidate_title_text`]).
pub fn candidate_title(base: &str, attempt: u32) -> (r: String)
    ensures
        r@ == candidate_title_text(base@, attempt as nat),
{
    let mut s = base.to_string();
    if attempt > 0 {
        push_str(&mut s, " ");
        push_decimal(&mut s, attempt as u64 + 1);
    }
    s
}

/// A character that file names may hold: not one that file systems refuse,
/// not a control character.
pub open spec fn safe_char(c: char) -> bool {
    !(c == '<' || c == '>' || c == ':' || c == '"' || c == '/' || c == '\\' || c == '|' || c == '?' || c == '*')
        && !is_control(c)
}

/// Every character of `s` is safe.
pub open spec fn all_safe(s: Seq<char>) -> bool {
    forall|i: int| 0 <= i < s.len() ==> safe_char(#[trigger] s[i])
}

proof fn lemma_safe_drop_first(s: Seq<char>)
    requires
        all_safe(s),
        s.len() > 0,
    ensures
        all_safe(s.drop_first()),
{
    assert forall|i: int| 0 <= i < s.drop_first().len() implies safe_char(#[trigger] s.drop_first()[i]) by {
        assert(s.drop_first()[i] == s[i + 1]);
    }
}

proof fn lemma_safe_drop_last(s: Seq<char>)
    requires
        all_safe(s),
        s.len() > 0,
    ensures
        all_safe(s.drop_last()),
{
    assert forall|i: int| 0 <= i < s.drop_last().len() implies safe_char(#[trigger] s.drop_last()[i]) by {
        assert(s.drop_last()[i] == s[i]);
    }
}

proof fn lemma_safe_trims(s: Seq<char>)
    requires
        all_safe(s),
    ensures
        all_safe(trimmed_start(s)),
        all_safe(trimmed_end(s)),
        all_safe(without_leading_dots(s)),
        all_safe(without_trailing_dots(s)),
    decreases s.len(),
{
    if s.len() > 0 {
        lemma_safe_drop_first(s);
        lemma_safe_drop_last(s);
        lemma_safe_trims(s.drop_first());
        lemma_safe_trims(s.drop_last());
    }
}

/// A card's file stem is never empty and never holds a path separator, a
/// character that file systems refuse, or a control character, whatever the
/// title.
pub proof fn law_file_stem_is_safe(title: Seq<char>)
    ensures
        file_stem_of(title).len() > 0,
        all_safe(file_stem_of(title)),
{
    let mapped = trimmed(title).map_values(|c: char| stem_char(c));
    assert(all_safe(mapped));
    lemma_safe_trims(mapped);
    let t = trimmed(mapped);
    lemma_safe_trims(trimmed_start(mapped));
    assert(all_safe(t));
    lemma_safe_trims(t);
    let cleaned = without_trailing_dots(without_leading_dots(t));
    lemma_safe_trims(without_leading_dots(t));
    assert(all_safe(cleaned));
    if cleaned.len() == 0 {
        reveal_strlit("untitled");
        assert(all_safe("untitled"@));
    } else if is_reserved_name(uppercase(cleaned)) {
        reveal_strlit("_");
        let r = cleaned + "_"@;
        assert forall|i: int| 0 <= i < r.len() implies safe_char(#[trigger] r[i]) by {
            if i < cleaned.len() {
                assert(r[i] == cleaned[i]);
            } else {
                assert(r[i] == '_');
            }
        }
    }
}

} // verus!
