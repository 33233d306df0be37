//! Renaming wikilinks in Markdown while leaving code alone.
//!
//! An occurrence of `[[title]]` counts, and is rewritten, only when its
//! first byte lies outside every code block and inline code span that the
//! Markdown parser reports. Occurrences are found left to right without
//! overlapping, as a repeated substring search finds them.

use vstd::prelude::*;
use vstd::utf8::{encode_scalar, encode_utf8};
use crate::ms_ast::events::{markdown_event_stream, markdown_events, MdEvent, MdTag, ParseOptions};
use crate::text::{chars_of, lemma_encode_concat, push_str, string_of, utf8_len};

verus! {

/// What merging wikilink titles would change.
#[derive(Debug, Clone)]
pub struct MergePreview {
    /// Number of files that would be modified.
    pub files_to_modify: usize,
    /// Number of wikilinks that would be rewritten.
    pub total_wikilinks: usize,
    /// The files concerned.
    pub affected_files: Vec<FileImpact>,
}

/// How many wikilinks of one file would be rewritten.
#[derive(Debug, Clone)]
pub struct FileImpact {
    pub path: String,
    pub link_count: usize,
}

/// A byte range of Markdown source that lies inside code.
#[derive(Debug, Clone, Copy, PartialEq, Eq, Structural)]
pub struct CodeRange {
    pub start: usize,
    pub end: usize,
}

/// The code ranges of an event stream: code blocks from their start to
/// their end event, and inline code spans; with the start of a code block
/// still open.
pub open spec fn code_scan(evs: Seq<(MdEvent, usize, usize)>) -> (Seq<CodeRange>, Option<usize>)
    decreases evs.len(),
{
    if evs.len() == 0 {
        (Seq::empty(), None)
    } else {
        let prev = code_scan(evs.drop_last());
        let ev = evs.last();
        match ev.0 {
            MdEvent::Start(MdTag::CodeBlock { .. }) => (prev.0, Some(ev.1)),
            MdEvent::End { code_block: true } => match prev.1 {
                Some(b) => (prev.0.push(CodeRange { start: b, end: ev.2 }), None),
                None => prev,
            },
            MdEvent::Code(_) => (prev.0.push(CodeRange { start: ev.1, end: ev.2 }), prev.1),
            _ => prev,
        }
    }
}

/// The code ranges of a Markdown text, parsed without extensions.
pub open spec fn code_ranges_of(content: Seq<char>) -> Seq<CodeRange> {
    code_scan(markdown_events(content, ParseOptions::spec_none())).0
}

/// Whether byte offset `pos` lies inside one of `code`.
pub open spec fn in_code(pos: int, code: Seq<CodeRange>) -> bool {
    exists|i: int| 0 <= i < code.len() && (#[trigger] code[i]).start <= pos < code[i].end
}

/// The wikilink `[[title]]`.
pub open spec fn link_of(title: Seq<char>) -> Seq<char> {
    "[["@ + title + "]]"@
}

/// `p` occurs in `s` at character index `k`.
pub open spec fn occurs_at(s: Seq<char>, p: Seq<char>, k: int) -> bool {
    0 <= k && k + p.len() <= s.len() && s.subrange(k, k + p.len()) == p
}

/// Byte offset of character index `k`.
pub open spec fn byte_offset(s: Seq<char>, k: int) -> int {
    utf8_len(s.take(k))
}

/// Occurrences of `p` in `s` from index `from` on, left to right and not
/// overlapping, whose byte offset lies outside `code`.
pub open spec fn count_from(s: Seq<char>, p: Seq<char>, code: Seq<CodeRange>, from: int) -> nat
    decreases s.len() - from,
{
    if from < 0 || from >= s.len() {
        0
    } else if p.len() > 0 && occurs_at(s, p, from) {
        (if in_code(byte_offset(s, from), code) { 0nat } else { 1nat }) + count_from(s, p, code, from + p.len())
    } else {
        count_from(s, p, code, from + 1)
    }
}

/// `s` from index `from` on, with the occurrences that [`count_from`]
/// counts replaced by `r`.
pub open spec fn rewrite_from(s: Seq<char>, p: Seq<char>, r: Seq<char>, code: Seq<CodeRange>, from: int) -> Seq<char>
    decreases s.len() - from,
{
    if from < 0 || from >= s.len() {
        Seq::empty()
    } else if p.len() > 0 && occurs_at(s, p, from) {
        (if in_code(byte_offset(s, from), code) { p } else { r }) + rewrite_from(s, p, r, code, from + p.len())
    } else {
        seq![s[from]] + rewrite_from(s, p, r, code, from + 1)
    }
}

/// With no occurrence in `from..k`, counting and rewriting skip to `k`.
proof fn lemma_skip_to(s: Seq<char>, p: Seq<char>, r: Seq<char>, code: Seq<CodeRange>, from: int, k: int)
    requires
        0 <= from <= k <= s.len(),
        p.len() > 0,
        forall|j: int| from <= j < k ==> !occurs_at(s, p, j),
    ensures
        rewrite_from(s, p, r, code, from) == s.subrange(from, k) + rewrite_from(s, p, r, code, k),
        count_from(s, p, code, from) == count_from(s, p, code, k),
    decreases k - from,
{
    if from < k {
        lemma_skip_to(s, p, r, code, from + 1, k);
        assert(!occurs_at(s, p, from));
        assert(seq![s[from]] + (s.subrange(from + 1, k) + rewrite_from(s, p, r, code, k))
            =~= s.subrange(from, k) + rewrite_from(s, p, r, code, k));
    } else {
        assert(s.subrange(from, k) + rewrite_from(s, p, r, code, k) =~= rewrite_from(s, p, r, code, k));
    }
}

/// The UTF-8 width of a character.
fn char_width(c: char) -> (w: usize)
    ensures
        w == encode_scalar(c as u32).len(),
{
    let v = c as u32;
    if v <= 0x7f {
        1
    } else if v <= 0x7ff {
        2
    } else if v <= 0xffff {
        3
    } else {
        4
    }
}

/// The byte offset of every character index of `s`, and of its end.
fn byte_offsets(s: &str, cs: &Vec<char>) -> (offs: Vec<usize>)
    requires
        cs@ == s@,
    ensures
        offs@.len() == cs@.len() + 1,
        forall|i: int| 0 <= i <= cs@.len() ==> #[trigger] offs@[i] == byte_offset(s@, i),
{
    let total = s.as_bytes().len();
    let mut offs: Vec<usize> = Vec::new();
    offs.push(0);
    assert(s@.take(0) =~= Seq::<char>::empty());
    let mut acc: usize = 0;
    let mut i: usize = 0;
    while i < cs.len()
        invariant
            cs@ == s@,
            total == utf8_len(s@),
            i <= cs@.len(),
            offs@.len() == i + 1,
            acc == byte_offset(s@, i as int),
            forall|j: int| 0 <= j <= i ==> #[trigger] offs@[j] == byte_offset(s@, j),
        decreases cs@.len() - i,
    {
        let ghost c = s@[i as int];
        proof {
            assert(s@.take(i + 1) =~= s@.take(i as int) + seq![c]);
            lemma_encode_concat(s@.take(i as int), seq![c]);
            assert(seq![c].drop_first() =~= Seq::<char>::empty());
            assert(encode_utf8(Seq::<char>::empty()) =~= Seq::<u8>::empty());
            assert(encode_utf8(seq![c]) =~= encode_scalar(c as u32));
            assert(s@ =~= s@.take(i + 1) + s@.skip(i + 1));
            lemma_encode_concat(s@.take(i + 1), s@.skip(i + 1));
        }
        let w = char_width(cs[i]);
        acc = acc + w;
        offs.push(acc);
        i = i + 1;
    }
    offs
}

/// Whether byte offset `pos` lies inside one of `code`.
fn is_in_code_range(pos: usize, code: &Vec<CodeRange>) -> (b: bool)
    ensures
        b == in_code(pos as int, code@),
{
    let mut i: usize = 0;
    while i < code.len()
        invariant
            i <= code@.len(),
            forall|j: int| 0 <= j < i ==> !((#[trigger] code@[j]).start <= pos && pos < code@[j].end),
        decreases code@.len() - i,
    {
        if code[i].start <= pos && pos < code[i].end {
            return true;
        }
        i = i + 1;
    }
    false
}

/// The first index at or after `from` where `p` occurs in `s`.
fn find_from(s: &Vec<char>, p: &Vec<char>, from: usize) -> (r: Option<usize>)
    requires
        p@.len() > 0,
        from <= s@.len(),
    ensures
        r matches Some(k) ==> from <= k && occurs_at(s@, p@, k as int)
            && forall|j: int| from <= j < k ==> !occurs_at(s@, p@, j),
        r is None ==> forall|j: int| from <= j ==> !occurs_at(s@, p@, j),
{
    let n = s.len();
    let m = p.len();
    if m > n {
        return None;
    }
    let mut k: usize = from;
    while k <= n - m
        invariant
            from <= k <= n,
            m <= n,
            n == s@.len(),
            m == p@.len(),
            m > 0,
            forall|j: int| from <= j < k ==> !occurs_at(s@, p@, j),
        decreases n - k,
    {
        let mut i: usize = 0;
        while i < m && s[k + i] == p[i]
            invariant
                i <= m,
                k + m <= n,
                n == s@.len(),
                m == p@.len(),
                forall|t: int| 0 <= t < i ==> s@[k + t] == p@[t],
            decreases m - i,
        {
            i = i + 1;
        }
        if i == m {
            assert(s@.subrange(k as int, k + m) =~= p@);
            return Some(k);
        }
        assert(s@.subrange(k as int, k + m)[i as int] != p@[i as int]);
        k = k + 1;
    }
    None
}

/// The characters of the wikilink `[[title]]`.
fn link_chars(title: &str) -> (r: Vec<char>)
    ensures
        r@ == link_of(title@),
{
    let mut t = String::new();
    push_str(&mut t, "[[");
    push_str(&mut t, title);
    push_str(&mut t, "]]");
    chars_of(t.as_str())
}

/// Counts the occurrences of `[[title]]` in `content` whose byte offset lies
/// outside `code` (see [`count_from`]).
pub fn count_links_outside(content: &str, title: &str, code: &Vec<CodeRange>) -> (n: usize)
    ensures
        n == count_from(content@, link_of(title@), code@, 0),
        n <= content@.len(),
{
    let cs = chars_of(content);
    let offs = byte_offsets(content, &cs);
    let pat = link_chars(title);
    proof {
        reveal_strlit("[[");
    }
    let mut count: usize = 0;
    let mut search: usize = 0;
    let n = cs.len();
    loop
        invariant
            n == cs@.len(),
            cs@ == content@,
            pat@ == link_of(title@),
            pat@.len() > 0,
            offs@.len() == cs@.len() + 1,
            forall|i: int| 0 <= i <= cs@.len() ==> #[trigger] offs@[i] == byte_offset(content@, i),
            search <= cs@.len(),
            count <= search,
            count + count_from(content@, pat@, code@, search as int) == count_from(content@, pat@, code@, 0),
        ensures
            count == count_from(content@, pat@, code@, 0),
            count <= n,
        decreases cs@.len() - search,
    {
        match find_from(&cs, &pat, search) {
            None => {
                proof {
                    lemma_skip_to(content@, pat@, Seq::empty(), code@, search as int, cs@.len() as int);
                }
                break;
            },
            Some(k) => {
                proof {
                    lemma_skip_to(content@, pat@, Seq::empty(), code@, search as int, k as int);
                }
                assert(occurs_at(content@, pat@, k as int));
                if !is_in_code_range(offs[k], code) {
                    count = count + 1;
                }
                search = k + pat.len();
            },
        }
    }
    count
}

/// Rewrites the occurrences of `[[old_title]]` in `content` whose byte
/// offset lies outside `code` to `[[new_title]]`; returns the new text and
/// how many were rewritten (see [`rewrite_from`]).
pub fn rewrite_links_outside(content: &str, old_title: &str, new_title: &str, code: &Vec<CodeRange>) -> (r: (String, usize))
    ensures
        r.0@ == rewrite_from(content@, link_of(old_title@), link_of(new_title@), code@, 0),
        r.1 == count_from(content@, link_of(old_title@), code@, 0),
        r.1 <= content@.len(),
{
    let cs = chars_of(content);
    let offs = byte_offsets(content, &cs);
    let pat = link_chars(old_title);
    let rep = link_chars(new_title);
    proof {
        reveal_strlit("[[");
    }
    let ghost s = content@;
    let ghost whole = rewrite_from(s, pat@, rep@, code@, 0);
    let mut out: Vec<char> = Vec::new();
    let mut count: usize = 0;
    let mut last: usize = 0;
    let mut search: usize = 0;
    assert(s.subrange(0, 0) =~= Seq::<char>::empty());
    let n = cs.len();
    loop
        invariant
            n == cs@.len(),
            cs@ == s,
            s == content@,
            pat@ == link_of(old_title@),
            rep@ == link_of(new_title@),
            pat@.len() > 0,
            whole == rewrite_from(s, pat@, rep@, code@, 0),
            offs@.len() == cs@.len() + 1,
            forall|i: int| 0 <= i <= cs@.len() ==> #[trigger] offs@[i] == byte_offset(s, i),
            last <= search <= cs@.len(),
            count <= search,
            count + count_from(s, pat@, code@, search as int) == count_from(s, pat@, code@, 0),
            out@ + s.subrange(last as int, search as int) + rewrite_from(s, pat@, rep@, code@, search as int) == whole,
        ensures
            count == count_from(s, pat@, code@, 0),
            count <= n,
            out@ + s.subrange(last as int, cs@.len() as int) == whole,
        decreases cs@.len() - search,
    {
        match find_from(&cs, &pat, search) {
            None => {
                proof {
                    lemma_skip_to(s, pat@, rep@, code@, search as int, cs@.len() as int);
                    assert(s.subrange(last as int, search as int) + s.subrange(search as int, cs@.len() as int)
                        =~= s.subrange(last as int, cs@.len() as int));
                    assert(out@ + s.subrange(last as int, cs@.len() as int) =~= out@ + s.subrange(last as int, search as int)
                        + (s.subrange(search as int, cs@.len() as int) + Seq::<char>::empty()));
                }
                break;
            },
            Some(k) => {
                assert(occurs_at(s, pat@, k as int));
                let end = k + pat.len();
                proof {
                    lemma_skip_to(s, pat@, rep@, code@, search as int, k as int);
                    assert(s.subrange(k as int, end as int) == pat@);
                }
                if is_in_code_range(offs[k], code) {
                    proof {
                        assert(out@ + s.subrange(last as int, end as int) + rewrite_from(s, pat@, rep@, code@, end as int)
                            =~= out@ + s.subrange(last as int, search as int)
                            + (s.subrange(search as int, k as int) + (pat@ + rewrite_from(s, pat@, rep@, code@, end as int))));
                    }
                    search = end;
                } else {
                    let ghost before = out@;
                    let mut j: usize = last;
                    while j < k
                        invariant
                            last <= j <= k,
                            k <= cs@.len(),
                            cs@ == s,
                            out@ == before + s.subrange(last as int, j as int),
                        decreases k - j,
                    {
                        out.push(cs[j]);
                        j = j + 1;
                        assert(out@ =~= before + s.subrange(last as int, j as int));
                    }
                    let mut t: usize = 0;
                    while t < rep.len()
                        invariant
                            t <= rep@.len(),
                            out@ == before + s.subrange(last as int, k as int) + rep@.take(t as int),
                        decreases rep@.len() - t,
                    {
                        out.push(rep[t]);
                        t = t + 1;
                        assert(out@ =~= before + s.subrange(last as int, k as int) + rep@.take(t as int));
                    }
                    proof {
                        assert(rep@.take(rep@.len() as int) =~= rep@);
                        assert(s.subrange(end as int, end as int) =~= Seq::<char>::empty());
                        assert(out@ + s.subrange(end as int, end as int) + rewrite_from(s, pat@, rep@, code@, end as int)
                            =~= before + s.subrange(last as int, search as int)
                            + (s.subrange(search as int, k as int) + (rep@ + rewrite_from(s, pat@, rep@, code@, end as int))));
                    }
                    count = count + 1;
                    last = end;
                    search = end;
                }
            },
        }
    }
    let ghost before = out@;
    let mut j: usize = last;
    while j < cs.len()
        invariant
            last <= j <= cs@.len(),
            cs@ == s,
            out@ == before + s.subrange(last as int, j as int),
        decreases cs@.len() - j,
    {
        out.push(cs[j]);
        j = j + 1;
        assert(out@ =~= before + s.subrange(last as int, j as int));
    }
    (string_of(&out), count)
}

/// The code ranges of a Markdown text (see [`code_ranges_of`]).
pub fn extract_code_ranges(content: &str) -> (r: Vec<CodeRange>)
    ensures
        r@ == code_ranges_of(content@),
{
    let opts = ParseOptions::none();
    let events = markdown_event_stream(content, &opts);
    let mut ranges: Vec<CodeRange> = Vec::new();
    let mut open: Option<usize> = None;
    let mut i: usize = 0;
    while i < events.len()
        invariant
            i <= events@.len(),
            events@ == markdown_events(content@, ParseOptions::spec_none()),
            code_scan(events@.take(i as int)) == (ranges@, open),
        decreases events@.len() - i,
    {
        assert(events@.take(i + 1).drop_last() =~= events@.take(i as int));
        let ev = &events[i];
        match &ev.0 {
            MdEvent::Start(MdTag::CodeBlock { .. }) => {
                open = Some(ev.1);
            },
            MdEvent::End { code_block: true } => {
                match open {
                    Some(b) => {
                        ranges.push(CodeRange { start: b, end: ev.2 });
                        open = None;
                    },
                    None => {},
                }
            },
            MdEvent::Code(_) => {
                ranges.push(CodeRange { start: ev.1, end: ev.2 });
            },
            _ => {},
        }
        i = i + 1;
    }
    assert(events@.take(events@.len() as int) =~= events@);
    ranges
}

/// Counts the occurrences of `[[title]]` outside code in a Markdown text.
pub fn count_wikilinks_outside_codeblocks(content: &str, title: &str) -> (n: usize)
    ensures
        n == count_from(content@, link_of(title@), code_ranges_of(content@), 0),
{
    let code = extract_code_ranges(content);
    count_links_outside(content, title, &code)
}


/// Replacement counts of every file, summed.
pub open spec fn files_count(files: Seq<(String, String)>, victim: Seq<char>) -> nat
    decreases files.len(),
{
    if files.len() == 0 {
        0
    } else {
        files_count(files.drop_last(), victim)
            + count_from(files.last().1@, link_of(victim), code_ranges_of(files.last().1@), 0)
    }
}

/// Characters of every file's content, summed.
pub open spec fn files_chars(files: Seq<(String, String)>) -> nat
    decreases files.len(),
{
    if files.len() == 0 {
        0
    } else {
        files_chars(files.drop_last()) + files.last().1@.len()
    }
}

/// A file's content with `[[victim]]` outside code renamed to `[[survivor]]`.
pub open spec fn renamed(content: Seq<char>, victim: Seq<char>, survivor: Seq<char>) -> Seq<char> {
    rewrite_from(content, link_of(victim), link_of(survivor), code_ranges_of(content), 0)
}

/// Renames `[[victim_title]]` to `[[survivor_title]]` outside code in every
/// file's content, in place; file paths stay. Returns the number of links
/// renamed over all files. Only the exact link is renamed, not
/// `[[victim_title extended]]` nor `[[prefix victim_title]]`.
pub fn replace_wikilinks_in_memory(files: &mut Vec<(String, String)>, victim_title: &str, survivor_title: &str) -> (r: Result<usize, String>)
    requires
        files_chars(old(files)@) <= usize::MAX,
    ensures
        final(files)@.len() == old(files)@.len(),
        forall|i: int| 0 <= i < old(files)@.len() ==> (#[trigger] final(files)@[i]).0@ == old(files)@[i].0@
            && final(files)@[i].1@ == renamed(old(files)@[i].1@, victim_title@, survivor_title@),
        r == Ok::<usize, String>(files_count(old(files)@, victim_title@) as usize),
        files_count(old(files)@, victim_title@) <= files_chars(old(files)@),
{
    let ghost start = files@;
    let mut total: usize = 0;
    let mut i: usize = 0;
    while i < files.len()
        invariant
            i <= files@.len(),
            files@.len() == start.len(),
            files_chars(start) <= usize::MAX,
            forall|j: int| i <= j < start.len() ==> #[trigger] files@[j] == start[j],
            forall|j: int| 0 <= j < i ==> (#[trigger] files@[j]).0@ == start[j].0@
                && files@[j].1@ == renamed(start[j].1@, victim_title@, survivor_title@),
            total == files_count(start.take(i as int), victim_title@),
            total <= files_chars(start.take(i as int)),
        decreases files@.len() - i,
    {
        proof {
            assert(start.take(i + 1).drop_last() =~= start.take(i as int));
            lemma_files_chars_prefix(start, i + 1);
        }
        let path = files[i].0.clone();
        let code = extract_code_ranges(files[i].1.as_str());
        let (text, n) = rewrite_links_outside(files[i].1.as_str(), victim_title, survivor_title, &code);
        files.set(i, (path, text));
        total = total + n;
        i = i + 1;
    }
    assert(start.take(start.len() as int) =~= start);
    Ok(total)
}

/// The characters of a prefix of the files are at most those of all files.
proof fn lemma_files_chars_prefix(files: Seq<(String, String)>, k: int)
    requires
        0 <= k <= files.len(),
    ensures
        files_chars(files.take(k)) <= files_chars(files),
    decreases files.len() - k,
{
    if k < files.len() {
        lemma_files_chars_prefix(files, k + 1);
        assert(files.take(k + 1).drop_last() =~= files.take(k));
    } else {
        assert(files.take(k) =~= files);
    }
}

/// The links to `[[v]]` outside code in `content`, summed over the titles `v`.
pub open spec fn victims_count(content: Seq<char>, victims: Seq<Seq<char>>) -> nat
    decreases victims.len(),
{
    if victims.len() == 0 {
        0
    } else {
        victims_count(content, victims.drop_last())
            + count_from(content, link_of(victims.last()), code_ranges_of(content), 0)
    }
}

/// The files that merging would touch, in order, each with its number of
/// links to rewrite: those with at least one.
pub open spec fn impacts(files: Seq<(String, String)>, victims: Seq<Seq<char>>) -> Seq<(Seq<char>, nat)>
    decreases files.len(),
{
    if files.len() == 0 {
        Seq::empty()
    } else {
        let n = victims_count(files.last().1@, victims);
        if n > 0 {
            impacts(files.drop_last(), victims).push((files.last().0@, n))
        } else {
            impacts(files.drop_last(), victims)
        }
    }
}

/// The links that merging would rewrite, over all files.
pub open spec fn impacts_total(files: Seq<(String, String)>, victims: Seq<Seq<char>>) -> nat
    decreases files.len(),
{
    if files.len() == 0 {
        0
    } else {
        impacts_total(files.drop_last(), victims) + victims_count(files.last().1@, victims)
    }
}

/// The path and count of each impact.
pub open spec fn impact_view(v: Seq<FileImpact>) -> Seq<(Seq<char>, nat)> {
    v.map_values(|f: FileImpact| (f.path@, f.link_count as nat))
}

/// What merging the titles `victims` into another would change in the
/// vault's files (each given once, with its content): the files with links
/// `[[victim]]` outside code, in order, with their counts, and the totals.
pub fn merge_preview(files: &Vec<(String, String)>, victims: &Vec<String>) -> (r: MergePreview)
    requires
        victims@.len() * files_chars(files@) <= usize::MAX,
    ensures
        impact_view(r.affected_files@) == impacts(files@, victims@.map_values(|v: String| v@)),
        r.files_to_modify == r.affected_files@.len(),
        r.total_wikilinks == impacts_total(files@, victims@.map_values(|v: String| v@)),
{
    let ghost vs = victims@.map_values(|v: String| v@);
    let ghost nv = victims@.len() as int;
    let mut affected: Vec<FileImpact> = Vec::new();
    let mut total: usize = 0;
    let mut i: usize = 0;
    assert(impact_view(affected@) =~= Seq::<(Seq<char>, nat)>::empty());
    while i < files.len()
        invariant
            i <= files@.len(),
            vs == victims@.map_values(|v: String| v@),
            nv == victims@.len(),
            nv * files_chars(files@) <= usize::MAX,
            impact_view(affected@) == impacts(files@.take(i as int), vs),
            total == impacts_total(files@.take(i as int), vs),
            total <= nv * files_chars(files@.take(i as int)),
        decreases files@.len() - i,
    {
        proof {
            assert(files@.take(i + 1).drop_last() =~= files@.take(i as int));
            lemma_files_chars_prefix(files@, i + 1);
        }
        let content = files[i].1.as_str();
        let ghost len = content@.len() as int;
        let code = extract_code_ranges(content);
        let mut here: usize = 0;
        let mut j: usize = 0;
        while j < victims.len()
            invariant
                j <= victims@.len(),
                i < files@.len(),
                content@ == files@[i as int].1@,
                len == content@.len(),
                code@ == code_ranges_of(content@),
                vs == victims@.map_values(|v: String| v@),
                nv == victims@.len(),
                nv * files_chars(files@) <= usize::MAX,
                total <= nv * files_chars(files@.take(i as int)),
                files_chars(files@.take(i + 1)) == files_chars(files@.take(i as int)) + len,
                files_chars(files@.take(i + 1)) <= files_chars(files@),
                here == victims_count(content@, vs.take(j as int)),
                here <= j * len,
            decreases victims@.len() - j,
        {
            assert(vs.take(j + 1).drop_last() =~= vs.take(j as int));
            assert(vs.take(j + 1).last() == victims@[j as int]@);
            let n = count_links_outside(content, victims[j].as_str(), &code);
            assert(here + n <= (j + 1) * len) by (nonlinear_arith)
                requires
                    here <= j * len,
                    n <= len,
            ;
            assert((j + 1) * len <= nv * len) by (nonlinear_arith)
                requires
                    j + 1 <= nv,
                    len >= 0,
            ;
            assert(total + nv * len <= nv * files_chars(files@)) by (nonlinear_arith)
                requires
                    total <= nv * files_chars(files@.take(i as int)),
                    files_chars(files@.take(i as int)) + len <= files_chars(files@),
                    nv >= 0,
            ;
            here = here + n;
            j = j + 1;
        }
        assert(vs.take(victims@.len() as int) =~= vs);
        assert(total + here <= nv * files_chars(files@.take(i + 1))) by (nonlinear_arith)
            requires
                total <= nv * files_chars(files@.take(i as int)),
                here <= nv * len,
                files_chars(files@.take(i + 1)) == files_chars(files@.take(i as int)) + len,
        {
            assert(here <= nv * len);
        }
        assert(nv * files_chars(files@.take(i + 1)) <= nv * files_chars(files@)) by (nonlinear_arith)
            requires
                files_chars(files@.take(i + 1)) <= files_chars(files@),
                nv >= 0,
        ;
        if here > 0 {
            let ghost before = affected@;
            affected.push(FileImpact { path: files[i].0.clone(), link_count: here });
            assert(impact_view(affected@) =~= impact_view(before).push((files@[i as int].0@, here as nat)));
        }
        total = total + here;
        i = i + 1;
    }
    assert(files@.take(files@.len() as int) =~= files@);
    let count = affected.len();
    MergePreview { files_to_modify: count, total_wikilinks: total, affected_files: affected }
}

/// Renaming a title to itself leaves every text as it was.
pub proof fn law_rename_to_same_title(s: Seq<char>, p: Seq<char>, code: Seq<CodeRange>, from: int)
    requires
        0 <= from <= s.len(),
    ensures
        rewrite_from(s, p, p, code, from) == s.subrange(from, s.len() as int),
    decreases s.len() - from,
{
    if from < s.len() {
        if p.len() > 0 && occurs_at(s, p, from) {
            law_rename_to_same_title(s, p, code, from + p.len());
            assert(p + s.subrange(from + p.len(), s.len() as int) =~= s.subrange(from, s.len() as int));
        } else {
            law_rename_to_same_title(s, p, code, from + 1);
            assert(seq![s[from]] + s.subrange(from + 1, s.len() as int) =~= s.subrange(from, s.len() as int));
        }
    } else {
        assert(s.subrange(from, s.len() as int) =~= Seq::<char>::empty());
    }
}

/// A text with no link to rename is left as it was.
pub proof fn law_nothing_to_rename(s: Seq<char>, p: Seq<char>, r: Seq<char>, code: Seq<CodeRange>, from: int)
    requires
        0 <= from <= s.len(),
        count_from(s, p, code, from) == 0,
    ensures
        rewrite_from(s, p, r, code, from) == s.subrange(from, s.len() as int),
    decreases s.len() - from,
{
    if from < s.len() {
        if p.len() > 0 && occurs_at(s, p, from) {
            law_nothing_to_rename(s, p, r, code, from + p.len());
            assert(p + s.subrange(from + p.len(), s.len() as int) =~= s.subrange(from, s.len() as int));
        } else {
            law_nothing_to_rename(s, p, r, code, from + 1);
            assert(seq![s[from]] + s.subrange(from + 1, s.len() as int) =~= s.subrange(from, s.len() as int));
        }
    } else {
        assert(s.subrange(from, s.len() as int) =~= Seq::<char>::empty());
    }
}

/// The count that renaming reports for one file is the count that
/// [`count_wikilinks_outside_codeblocks`] gives for it.
pub proof fn law_rename_count_is_preview_count(path: String, content: String, victim: Seq<char>)
    ensures
        files_count(seq![(path, content)], victim) == count_from(content@, link_of(victim), code_ranges_of(content@), 0),
{
    let one = seq![(path, content)];
    assert(one.drop_last() =~= Seq::<(String, String)>::empty());
    assert(files_count(one.drop_last(), victim) == 0);
    assert(one.last() == (path, content));
}

/// The preview of a merge counts exactly the links that the rewrite then
/// renames: for one title, the preview's total over the files is the count
/// that [`replace_wikilinks_in_memory`] reports for them.
pub proof fn law_preview_matches_rewrite(files: Seq<(String, String)>, victim: Seq<char>)
    ensures
        impacts_total(files, seq![victim]) == files_count(files, victim),
    decreases files.len(),
{
    if files.len() > 0 {
        law_preview_matches_rewrite(files.drop_last(), victim);
        let one = seq![victim];
        assert(one.drop_last() =~= Seq::<Seq<char>>::empty());
        assert(one.last() == victim);
        assert(victims_count(files.last().1@, one.drop_last()) == 0);
        assert(victims_count(files.last().1@, one)
            == count_from(files.last().1@, link_of(victim), code_ranges_of(files.last().1@), 0));
    }
}

/// The length of a rewritten text: each counted occurrence of `p` is
/// replaced by `r`, everything else is kept.
proof fn lemma_rewrite_len(s: Seq<char>, p: Seq<char>, r: Seq<char>, code: Seq<CodeRange>, from: int)
    requires
        0 <= from <= s.len(),
    ensures
        rewrite_from(s, p, r, code, from).len() == (s.len() - from) + count_from(s, p, code, from) * (r.len() - p.len()),
    decreases s.len() - from,
{
    if from < s.len() {
        if p.len() > 0 && occurs_at(s, p, from) {
            lemma_rewrite_len(s, p, r, code, from + p.len());
            let c = count_from(s, p, code, from + p.len());
            let d = r.len() - p.len();
            if in_code(byte_offset(s, from), code) {
                assert(rewrite_from(s, p, r, code, from).len() == p.len() + (s.len() - from - p.len()) + c * d);
                assert(count_from(s, p, code, from) == c);
            } else {
                assert(count_from(s, p, code, from) == 1 + c);
                assert(rewrite_from(s, p, r, code, from).len() == r.len() + (s.len() - from - p.len()) + c * d);
                assert(r.len() + (s.len() - from - p.len()) + c * d == (s.len() - from) + (1 + c) * d)
                    by (nonlinear_arith)
                    requires
                        d == r.len() - p.len(),
                ;
            }
        } else {
            lemma_rewrite_len(s, p, r, code, from + 1);
            assert(count_from(s, p, code, from) == count_from(s, p, code, from + 1));
        }
    } else {
        let c = count_from(s, p, code, from);
        assert(c == 0);
        assert(c * (r.len() - p.len()) == 0) by (nonlinear_arith)
            requires
                c == 0,
        ;
    }
}

/// A counted occurrence makes the rewritten text differ from the original
/// when `r` is not `p`.
proof fn lemma_rewrite_changes(s: Seq<char>, p: Seq<char>, r: Seq<char>, code: Seq<CodeRange>, from: int)
    requires
        0 <= from <= s.len(),
        p != r,
        count_from(s, p, code, from) > 0,
    ensures
        rewrite_from(s, p, r, code, from) != s.subrange(from, s.len() as int),
    decreases s.len() - from,
{
    let tail = s.subrange(from, s.len() as int);
    if p.len() > 0 && occurs_at(s, p, from) {
        let next = from + p.len();
        let rest = s.subrange(next, s.len() as int);
        assert(tail =~= p + rest);
        if in_code(byte_offset(s, from), code) {
            lemma_rewrite_changes(s, p, r, code, next);
            if rewrite_from(s, p, r, code, from) == tail {
                assert((p + rewrite_from(s, p, r, code, next)).subrange(p.len() as int, tail.len() as int)
                    =~= rewrite_from(s, p, r, code, next));
                assert((p + rest).subrange(p.len() as int, tail.len() as int) =~= rest);
                lemma_rewrite_len(s, p, r, code, next);
            }
        } else {
            let out = r + rewrite_from(s, p, r, code, next);
            if out == tail {
                if r.len() == p.len() {
                    assert(out.subrange(0, r.len() as int) =~= r);
                    assert((p + rest).subrange(0, p.len() as int) =~= p);
                } else {
                    lemma_rewrite_len(s, p, r, code, next);
                    let c = count_from(s, p, code, next);
                    let d = r.len() - p.len();
                    assert(out.len() == (s.len() - from) + (1 + c) * d) by (nonlinear_arith)
                        requires
                            out.len() == r.len() + (s.len() - next) + c * d,
                            d == r.len() - p.len(),
                            next == from + p.len(),
                    ;
                    assert((1 + c) * d != 0) by (nonlinear_arith)
                        requires
                            c >= 0,
                            d != 0,
                    ;
                }
            }
        }
    } else {
        lemma_rewrite_changes(s, p, r, code, from + 1);
        let rest = s.subrange(from + 1, s.len() as int);
        assert(tail =~= seq![s[from]] + rest);
        if rewrite_from(s, p, r, code, from) == tail {
            assert((seq![s[from]] + rewrite_from(s, p, r, code, from + 1)).subrange(1, tail.len() as int)
                =~= rewrite_from(s, p, r, code, from + 1));
            assert((seq![s[from]] + rest).subrange(1, tail.len() as int) =~= rest);
        }
    }
}

/// Renaming a title to another changes every text that links to it outside
/// code (the converse of [`law_nothing_to_rename`]).
pub proof fn law_linked_text_changes(content: Seq<char>, victim: Seq<char>, survivor: Seq<char>)
    requires
        victim != survivor,
        count_from(content, link_of(victim), code_ranges_of(content), 0) > 0,
    ensures
        renamed(content, victim, survivor) != content,
{
    if link_of(victim) == link_of(survivor) {
        reveal_strlit("[[");
        reveal_strlit("]]");
        assert(link_of(victim).subrange(2, 2 + victim.len() as int) =~= victim);
        assert(link_of(survivor).subrange(2, 2 + survivor.len() as int) =~= survivor);
    }
    lemma_rewrite_changes(content, link_of(victim), link_of(survivor), code_ranges_of(content), 0);
    assert(content.subrange(0, content.len() as int) =~= content);
}

} // verus!
