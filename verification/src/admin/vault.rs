//! Card documents of the vault: front matter and titles.
//!
//! A card file may start with a YAML front-matter block between two lines
//! of `---`. The body is what follows the closing line, without the line
//! breaks right after it.

use vstd::prelude::*;
use crate::admin::config::without_leading;
use crate::text::{
    chars_of, find_char, find_char_index, has_prefix, skip_space_end, skip_space_start, starts_with_chars, str_eq, string_of,
    sub_chars, trim_chars, trimmed, trimmed_end, trimmed_start,
};

verus! {

/// Whether a line closes the front matter: `---` and trailing white space.
pub open spec fn is_closing_line(line: Seq<char>) -> bool {
    trimmed_end(line) == "---"@
}

/// Scanning `a` line by line for the closing line, from the line that starts
/// at `line_start` with `i` the next character to read; the result is where
/// the text after the closing line starts. Lines end at `\n`; a `\r` right
/// before it is not part of the line.
pub open spec fn closing_from(a: Seq<char>, line_start: int, i: int) -> Option<int>
    decreases a.len() - i,
{
    if i < 0 || line_start < 0 || line_start > i {
        None
    } else if i >= a.len() {
        if line_start < a.len() && is_closing_line(a.subrange(line_start, a.len() as int)) {
            Some(a.len() as int)
        } else {
            None
        }
    } else if a[i] == '\n' {
        let line = if i > line_start && a[i - 1] == '\r' {
            a.subrange(line_start, i - 1)
        } else {
            a.subrange(line_start, i)
        };
        if is_closing_line(line) {
            Some(line_start + line.len())
        } else {
            closing_from(a, i + 1, i + 1)
        }
    } else {
        closing_from(a, line_start, i + 1)
    }
}

/// `s` without its leading `\r` and `\n` characters.
pub open spec fn without_leading_breaks(s: Seq<char>) -> Seq<char>
    decreases s.len(),
{
    if s.len() > 0 && (s[0] == '\r' || s[0] == '\n') {
        without_leading_breaks(s.drop_first())
    } else {
        s
    }
}

/// The body of a card: after leading white space, a text that starts with
/// `---` loses everything up to its closing line and the line breaks after
/// it; without a closing line, or without the opening `---`, the text is
/// returned as it is.
pub open spec fn frontmatter_body(raw: Seq<char>) -> Seq<char> {
    let t = trimmed_start(raw);
    if !has_prefix(t, "---"@) {
        raw
    } else {
        let a = t.skip(3);
        match closing_from(a, 0, 0) {
            Some(b) => without_leading_breaks(a.skip(b)),
            None => raw,
        }
    }
}

/// Whether the characters `a[lo..hi]` form a closing line.
fn closing_line(a: &Vec<char>, lo: usize, hi: usize) -> (b: bool)
    requires
        lo <= hi <= a@.len(),
    ensures
        b == is_closing_line(a@.subrange(lo as int, hi as int)),
{
    let line = sub_chars(a, lo, hi);
    let j = skip_space_end(&line, 0);
    assert(line@.subrange(0, line@.len() as int) =~= line@);
    proof {
        reveal_strlit("---");
    }
    if j != 3 {
        assert(trimmed_end(line@) == line@.subrange(0, j as int));
        assert(("---"@).len() == 3);
        assert(trimmed_end(line@).len() != ("---"@).len());
        return false;
    }
    let r = line[0] == '-' && line[1] == '-' && line[2] == '-';
    assert(trimmed_end(line@) == line@.subrange(0, 3));
    assert(r == (line@.subrange(0, 3) =~= "---"@));
    r
}

/// Where the text after the closing line starts (see [`closing_from`]).
fn find_closing(a: &Vec<char>) -> (r: Option<usize>)
    ensures
        r matches Some(b) ==> closing_from(a@, 0, 0) == Some(b as int) && b <= a@.len(),
        r is None ==> closing_from(a@, 0, 0) is None,
{
    let n = a.len();
    let mut line_start: usize = 0;
    let mut i: usize = 0;
    while i < n
        invariant
            n == a@.len(),
            line_start <= i <= n,
            closing_from(a@, 0, 0) == closing_from(a@, line_start as int, i as int),
        decreases n - i,
    {
        if a[i] == '\n' {
            let end = if i > line_start && a[i - 1] == '\r' { i - 1 } else { i };
            if closing_line(a, line_start, end) {
                return Some(end);
            }
            line_start = i + 1;
        }
        i = i + 1;
    }
    if line_start < n && closing_line(a, line_start, n) {
        Some(n)
    } else {
        None
    }
}

/// Removes the front matter of a card (see [`frontmatter_body`]).
pub fn strip_frontmatter(raw: &str) -> (r: String)
    ensures
        r@ == frontmatter_body(raw@),
{
    let cs = chars_of(raw);
    let i = skip_space_start(&cs);
    let t = sub_chars(&cs, i, cs.len());
    let dashes = chars_of("---");
    proof {
        reveal_strlit("---");
    }
    if !starts_with_chars(&t, &dashes) {
        return string_of(&cs);
    }
    let a = sub_chars(&t, 3, t.len());
    assert(a@ == t@.skip(3));
    match find_closing(&a) {
        None => string_of(&cs),
        Some(b) => {
            let mut k = b;
            while k < a.len() && (a[k] == '\r' || a[k] == '\n')
                invariant
                    b <= k <= a@.len(),
                    without_leading_breaks(a@.skip(b as int)) == without_leading_breaks(a@.skip(k as int)),
                decreases a@.len() - k,
            {
                assert(a@.skip(k as int).drop_first() =~= a@.skip(k + 1));
                k = k + 1;
            }
            let body = sub_chars(&a, k, a.len());
            assert(body@ == a@.skip(k as int));
            string_of(&body)
        },
    }
}


/// The text of a line from `start` to the `\n` at `i`, without a `\r` right before it.
pub open spec fn line_text(s: Seq<char>, start: int, i: int) -> Seq<char> {
    if i > start && s[i - 1] == '\r' {
        s.subrange(start, i - 1)
    } else {
        s.subrange(start, i)
    }
}

/// The lines of `s` from the one starting at `start` on, with `i` the next
/// character to read, as `str::lines` yields them: split at `\n`, a `\r`
/// before it dropped, no empty line after a final `\n`.
pub open spec fn lines_from(s: Seq<char>, start: int, i: int) -> Seq<Seq<char>>
    decreases s.len() - i,
{
    if i < 0 || start < 0 || start > i {
        Seq::empty()
    } else if i >= s.len() {
        if start < s.len() { seq![s.subrange(start, s.len() as int)] } else { Seq::empty() }
    } else if s[i] == '\n' {
        seq![line_text(s, start, i)] + lines_from(s, i + 1, i + 1)
    } else {
        lines_from(s, start, i + 1)
    }
}

/// The lines of a text (see [`lines_from`]).
pub open spec fn lines_of(s: Seq<char>) -> Seq<Seq<char>> {
    lines_from(s, 0, 0)
}

/// The lines of a text, as strings.
pub fn split_lines(text: &str) -> (r: Vec<String>)
    ensures
        r@.map_values(|x: String| x@) == lines_of(text@),
{
    let cs = chars_of(text);
    let n = cs.len();
    let mut out: Vec<String> = Vec::new();
    let mut start: usize = 0;
    let mut i: usize = 0;
    while i < n
        invariant
            n == cs@.len(),
            cs@ == text@,
            start <= i <= n,
            out@.map_values(|x: String| x@) + lines_from(cs@, start as int, i as int) == lines_of(text@),
        decreases n - i,
    {
        if cs[i] == '\n' {
            let end = if i > start && cs[i - 1] == '\r' { i - 1 } else { i };
            let line = sub_chars(&cs, start, end);
            let ghost before = out@.map_values(|x: String| x@);
            out.push(string_of(&line));
            assert(out@.map_values(|x: String| x@) =~= before.push(line_text(cs@, start as int, i as int)));
            assert(before + lines_from(cs@, start as int, i as int)
                =~= before.push(line_text(cs@, start as int, i as int)) + lines_from(cs@, i + 1, i + 1));
            start = i + 1;
        }
        i = i + 1;
    }
    if start < n {
        let line = sub_chars(&cs, start, n);
        let ghost before = out@.map_values(|x: String| x@);
        out.push(string_of(&line));
        assert(out@.map_values(|x: String| x@) =~= before + lines_from(cs@, start as int, i as int));
    } else {
        assert(out@.map_values(|x: String| x@) =~= out@.map_values(|x: String| x@) + lines_from(cs@, start as int, i as int));
    }
    out
}

/// `s` without its leading `c` characters.
pub open spec fn without_leading_char(s: Seq<char>, c: char) -> Seq<char>
    decreases s.len(),
{
    if s.len() > 0 && s[0] == c {
        without_leading_char(s.drop_first(), c)
    } else {
        s
    }
}

/// The `title:` of the front matter, from line `k` on: lines are read
/// between the first two lines that are exactly `---`.
pub open spec fn frontmatter_title(ls: Seq<Seq<char>>, k: int, in_fm: bool) -> Option<Seq<char>>
    decreases ls.len() - k,
{
    if k < 0 || k >= ls.len() {
        None
    } else if ls[k] == "---"@ {
        if in_fm { None } else { frontmatter_title(ls, k + 1, true) }
    } else if in_fm && has_prefix(ls[k], "title:"@) {
        Some(trimmed(without_leading(ls[k], "title:"@)))
    } else {
        frontmatter_title(ls, k + 1, in_fm)
    }
}

/// The text of the first `# ` heading line, from line `k` on.
pub open spec fn heading_title(ls: Seq<Seq<char>>, k: int) -> Option<Seq<char>>
    decreases ls.len() - k,
{
    if k < 0 || k >= ls.len() {
        None
    } else if has_prefix(trimmed(ls[k]), "# "@) {
        Some(trimmed(without_leading_char(trimmed(ls[k]), '#')))
    } else {
        heading_title(ls, k + 1)
    }
}

/// The title of a card: its front matter's `title:`, else its first `# ` heading.
pub open spec fn card_title(content: Seq<char>) -> Option<Seq<char>> {
    match frontmatter_title(lines_of(content), 0, false) {
        Some(t) => Some(t),
        None => heading_title(lines_of(content), 0),
    }
}

/// The characters of `s` without leading `c`, as a vector.
fn strip_leading_char(s: &Vec<char>, c: char) -> (r: Vec<char>)
    ensures
        r@ == without_leading_char(s@, c),
{
    let mut k: usize = 0;
    assert(s@.skip(0) =~= s@);
    while k < s.len() && s[k] == c
        invariant
            k <= s@.len(),
            without_leading_char(s@, c) == without_leading_char(s@.skip(k as int), c),
        decreases s@.len() - k,
    {
        assert(s@.skip(k as int).drop_first() =~= s@.skip(k + 1));
        k = k + 1;
    }
    let r = sub_chars(s, k, s.len());
    assert(r@ =~= s@.skip(k as int));
    r
}

/// The title of a card (see [`card_title`]).
pub fn extract_title(content: &str) -> (r: Option<String>)
    ensures
        r matches Some(t) ==> card_title(content@) == Some(t@),
        r is None ==> card_title(content@) is None,
{
    let ls = split_lines(content);
    let ghost lv = ls@.map_values(|x: String| x@);
    proof {
        reveal_strlit("title:");
    }
    let mut in_fm = false;
    let mut k: usize = 0;
    let mut found: Option<String> = None;
    while k < ls.len()
        invariant_except_break
            found is None,
        invariant
            k <= ls@.len(),
            lv == ls@.map_values(|x: String| x@),
            lv == lines_of(content@),
            frontmatter_title(lv, 0, false) == frontmatter_title(lv, k as int, in_fm),
        ensures
            found matches Some(t) ==> frontmatter_title(lv, 0, false) == Some(t@),
            found is None ==> frontmatter_title(lv, 0, false) is None,
        decreases ls@.len() - k,
    {
        proof {
            reveal_strlit("title:");
            reveal_strlit("---");
        }
        let line = ls[k].as_str();
        assert(line@ == lv[k as int]);
        if str_eq(line, "---") {
            if in_fm {
                break;
            }
            in_fm = true;
        } else if in_fm {
            let lc = chars_of(line);
            let prefix = chars_of("title:");
            if starts_with_chars(&lc, &prefix) {
                let rest = crate::admin::config::strip_prefix_all(&lc, "title:");
                let t = trim_chars(&rest);
                found = Some(string_of(&t));
                break;
            }
        }
        k = k + 1;
    }
    if found.is_some() {
        return found;
    }
    let mut j: usize = 0;
    while j < ls.len()
        invariant
            j <= ls@.len(),
            lv == ls@.map_values(|x: String| x@),
            lv == lines_of(content@),
            frontmatter_title(lv, 0, false) is None,
            heading_title(lv, 0) == heading_title(lv, j as int),
        decreases ls@.len() - j,
    {
        let lc = chars_of(ls[j].as_str());
        assert(lc@ == lv[j as int]);
        let t = trim_chars(&lc);
        if starts_with_chars(&t, &chars_of("# ")) {
            proof {
                reveal_strlit("# ");
            }
            let stripped = strip_leading_char(&t, '#');
            let title = trim_chars(&stripped);
            return Some(string_of(&title));
        }
        proof {
            reveal_strlit("# ");
        }
        j = j + 1;
    }
    None
}


/// Identity fields read from the head of a card file.
#[derive(Debug, Clone, PartialEq, Eq)]
pub struct FrontmatterHead {
    pub uuid: Option<String>,
    pub title: Option<String>,
}

/// Reading the front matter from line `k` on, with the values found so far:
/// lines are read between the first two lines that trim to `---`; each must
/// hold a `:` (else there is no result), and `uuid` and `title` keys set
/// their values (the last one wins).
pub open spec fn head_from(
    ls: Seq<Seq<char>>,
    k: int,
    in_fm: bool,
    uuid: Option<Seq<char>>,
    title: Option<Seq<char>>,
) -> Option<(Option<Seq<char>>, Option<Seq<char>>)>
    decreases ls.len() - k,
{
    if k < 0 || k >= ls.len() {
        Some((uuid, title))
    } else if trimmed(ls[k]) == "---"@ {
        if in_fm { Some((uuid, title)) } else { head_from(ls, k + 1, true, uuid, title) }
    } else if in_fm {
        match find_char(ls[k], ':') {
            None => None,
            Some(c) => {
                let key = trimmed(ls[k].take(c));
                let value = trimmed(ls[k].skip(c + 1));
                if key == "uuid"@ {
                    head_from(ls, k + 1, in_fm, Some(value), title)
                } else if key == "title"@ {
                    head_from(ls, k + 1, in_fm, uuid, Some(value))
                } else {
                    head_from(ls, k + 1, in_fm, uuid, title)
                }
            },
        }
    } else {
        head_from(ls, k + 1, in_fm, uuid, title)
    }
}

/// The identity fields of a card's head (see [`head_from`]).
pub open spec fn frontmatter_head(head: Seq<char>) -> Option<(Option<Seq<char>>, Option<Seq<char>>)> {
    head_from(lines_of(head), 0, false, None, None)
}

/// The plain values of optional text.
pub open spec fn opt_view(o: Option<String>) -> Option<Seq<char>> {
    match o {
        Some(s) => Some(s@),
        None => None,
    }
}

/// Reads the identity fields of a card's head (see [`frontmatter_head`]).
pub fn parse_frontmatter_head(head: &str) -> (r: Option<FrontmatterHead>)
    ensures
        r matches Some(h) ==> frontmatter_head(head@) == Some((opt_view(h.uuid), opt_view(h.title))),
        r is None ==> frontmatter_head(head@) is None,
{
    let ls = split_lines(head);
    let ghost lv = ls@.map_values(|x: String| x@);
    let mut in_fm = false;
    let mut uuid: Option<String> = None;
    let mut title: Option<String> = None;
    let mut k: usize = 0;
    while k < ls.len()
        invariant
            k <= ls@.len(),
            lv == ls@.map_values(|x: String| x@),
            lv == lines_of(head@),
            frontmatter_head(head@) == head_from(lv, k as int, in_fm, opt_view(uuid), opt_view(title)),
        ensures
            frontmatter_head(head@) == Some((opt_view(uuid), opt_view(title))),
        decreases ls@.len() - k,
    {
        proof {
            reveal_strlit("---");
            reveal_strlit("uuid");
            reveal_strlit("title");
        }
        let lc = chars_of(ls[k].as_str());
        assert(lc@ == lv[k as int]);
        let t = trim_chars(&lc);
        if t.len() == 3 && t[0] == '-' && t[1] == '-' && t[2] == '-' {
            assert(t@ =~= "---"@);
            if in_fm {
                break;
            }
            in_fm = true;
        } else {
            assert(t@ != "---"@) by {
                if t@ == "---"@ {
                    assert(t@.len() == 3);
                }
            }
            if in_fm {
                match find_char_index(&lc, ':') {
                    None => return None,
                    Some(c) => {
                        let before = sub_chars(&lc, 0, c);
                        let after = sub_chars(&lc, c + 1, lc.len());
                        assert(before@ =~= lc@.take(c as int));
                        assert(after@ =~= lc@.skip(c + 1));
                        let key = trim_chars(&before);
                        let value = string_of(&trim_chars(&after));
                        let ks = string_of(&key);
                        if str_eq(ks.as_str(), "uuid") {
                            uuid = Some(value);
                        } else if str_eq(ks.as_str(), "title") {
                            title = Some(value);
                        }
                    },
                }
            }
        }
        k = k + 1;
    }
    Some(FrontmatterHead { uuid, title })
}

} // verus!
