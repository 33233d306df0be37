//! URL-safe anchors for headings.
//!
//! A slug keeps ASCII lower-case letters, digits and CJK characters of the
//! lower-cased heading text, turns runs of spaces, dashes and underscores
//! into single dashes, drops everything else, and falls back to `heading`.

use vstd::prelude::*;
use crate::text::{chars_of, lowercase, string_of, sub_chars, to_lowercase};

verus! {

/// The CJK ranges that slugs keep: unified ideographs, extension A, CJK
/// symbols and punctuation, and compatibility ideographs.
pub open spec fn cjk(ch: char) -> bool {
    ||| ('\u{4E00}' <= ch && ch <= '\u{9FFF}')
    ||| ('\u{3400}' <= ch && ch <= '\u{4DBF}')
    ||| ('\u{3000}' <= ch && ch <= '\u{303F}')
    ||| ('\u{F900}' <= ch && ch <= '\u{FAFF}')
}

/// Whether `ch` lies in one of the CJK ranges that slugs keep.
pub fn is_cjk(ch: char) -> (r: bool)
    ensures
        r == cjk(ch),
{
    ('\u{4E00}' <= ch && ch <= '\u{9FFF}') || ('\u{3400}' <= ch && ch <= '\u{4DBF}')
        || ('\u{3000}' <= ch && ch <= '\u{303F}') || ('\u{F900}' <= ch && ch <= '\u{FAFF}')
}

/// Characters that a slug keeps as they are.
pub open spec fn slug_keeps(ch: char) -> bool {
    ('a' <= ch && ch <= 'z') || ('0' <= ch && ch <= '9') || cjk(ch)
}

/// Characters that a slug turns into a dash.
pub open spec fn slug_separator(ch: char) -> bool {
    ch == ' ' || ch == '-' || ch == '_'
}

/// One step of slug building: `acc` is the slug so far.
pub open spec fn slug_step(acc: Seq<char>, ch: char) -> Seq<char> {
    if slug_keeps(ch) {
        acc.push(ch)
    } else if slug_separator(ch) && acc.len() > 0 && acc.last() != '-' {
        acc.push('-')
    } else {
        acc
    }
}

/// The slug of `s` before trailing dashes are removed.
pub open spec fn slug_body(s: Seq<char>) -> Seq<char>
    decreases s.len(),
{
    if s.len() == 0 {
        Seq::empty()
    } else {
        slug_step(slug_body(s.drop_last()), s.last())
    }
}

/// `s` without trailing dashes.
pub open spec fn without_trailing_dashes(s: Seq<char>) -> Seq<char>
    decreases s.len(),
{
    if s.len() > 0 && s.last() == '-' {
        without_trailing_dashes(s.drop_last())
    } else {
        s
    }
}

/// The slug of an already lower-cased text.
pub open spec fn slug_of(lower: Seq<char>) -> Seq<char> {
    let t = without_trailing_dashes(slug_body(lower));
    if t.len() == 0 {
        "heading"@
    } else {
        t
    }
}

/// The slug of an already lower-cased text.
pub fn slug_from_lowercase(lower: &str) -> (r: String)
    ensures
        r@ == slug_of(lower@),
{
    let cs = chars_of(lower);
    let mut acc: Vec<char> = Vec::new();
    let mut i: usize = 0;
    while i < cs.len()
        invariant
            cs@ == lower@,
            i <= cs.len(),
            acc@ == slug_body(cs@.take(i as int)),
        decreases cs.len() - i,
    {
        let ch = cs[i];
        assert(cs@.take(i + 1).drop_last() =~= cs@.take(i as int));
        if ('a' <= ch && ch <= 'z') || ('0' <= ch && ch <= '9') || is_cjk(ch) {
            acc.push(ch);
        } else if (ch == ' ' || ch == '-' || ch == '_') && acc.len() > 0 && acc[acc.len() - 1] != '-' {
            acc.push('-');
        }
        i = i + 1;
    }
    assert(cs@.take(cs.len() as int) =~= cs@);
    let mut n: usize = acc.len();
    assert(acc@.take(n as int) =~= acc@);
    while n > 0 && acc[n - 1] == '-'
        invariant
            n <= acc.len(),
            without_trailing_dashes(acc@) == without_trailing_dashes(acc@.take(n as int)),
        decreases n,
    {
        assert(acc@.take(n as int).drop_last() =~= acc@.take(n - 1));
        n = n - 1;
    }
    if n == 0 {
        "heading".to_owned()
    } else {
        let kept = sub_chars(&acc, 0, n);
        assert(kept@ =~= acc@.take(n as int));
        string_of(&kept)
    }
}

/// The URL-safe slug of a heading text: the text is lower-cased, then
/// reduced as [`slug_of`] describes.
pub fn generate_slug(text: &str) -> (r: String)
    ensures
        r@ == slug_of(lowercase(text@)),
{
    let lower = to_lowercase(text);
    slug_from_lowercase(lower.as_str())
}

/// A text that slug building leaves as it is: kept characters and dashes,
/// no leading dash, no two dashes in a row.
pub open spec fn slug_shaped(t: Seq<char>) -> bool {
    &&& forall|i: int| 0 <= i < t.len() ==> slug_keeps(#[trigger] t[i]) || t[i] == '-'
    &&& t.len() > 0 ==> t[0] != '-'
    &&& forall|i: int| 0 < i < t.len() && #[trigger] t[i] == '-' ==> t[i - 1] != '-'
}

proof fn lemma_body_shaped(s: Seq<char>)
    ensures
        slug_shaped(slug_body(s)),
    decreases s.len(),
{
    if s.len() > 0 {
        lemma_body_shaped(s.drop_last());
        let acc = slug_body(s.drop_last());
        let out = slug_body(s);
        assert(out == slug_step(acc, s.last()));
        if out != acc {
            assert forall|i: int| 0 <= i < acc.len() implies out[i] == acc[i] by {}
        }
    }
}

proof fn lemma_trim_shaped(t: Seq<char>)
    requires
        slug_shaped(t),
    ensures
        slug_shaped(without_trailing_dashes(t)),
        without_trailing_dashes(t).len() > 0 ==> without_trailing_dashes(t).last() != '-',
    decreases t.len(),
{
    if t.len() > 0 && t.last() == '-' {
        let d = t.drop_last();
        assert forall|i: int| 0 < i < d.len() && #[trigger] d[i] == '-' implies d[i - 1] != '-' by {
            assert(t[i] == d[i] && t[i - 1] == d[i - 1]);
        }
        lemma_trim_shaped(d);
    }
}

proof fn lemma_body_of_shaped(t: Seq<char>)
    requires
        slug_shaped(t),
    ensures
        slug_body(t) == t,
    decreases t.len(),
{
    if t.len() > 0 {
        let d = t.drop_last();
        assert forall|i: int| 0 < i < d.len() && #[trigger] d[i] == '-' implies d[i - 1] != '-' by {
            assert(t[i] == d[i] && t[i - 1] == d[i - 1]);
        }
        lemma_body_of_shaped(d);
        let c = t.last();
        assert(slug_keeps(t[t.len() - 1]) || t[t.len() - 1] == '-');
        if !slug_keeps(c) {
            assert(c == '-');
            assert(t.len() > 1);
            assert(t[t.len() - 1] == '-');
            assert(d.last() == t[t.len() - 2]);
        }
        assert(d.push(c) =~= t);
    }
}

/// A slug is its own slug: building the slug of a slug gives it back.
pub proof fn law_slug_of_idempotent(lower: Seq<char>)
    ensures
        slug_of(slug_of(lower)) == slug_of(lower),
{
    lemma_body_shaped(lower);
    lemma_trim_shaped(slug_body(lower));
    let t = without_trailing_dashes(slug_body(lower));
    let u = slug_of(lower);
    if t.len() == 0 {
        reveal_strlit("heading");
        assert(slug_shaped(u));
        assert(u.last() != '-');
    }
    assert(slug_shaped(u));
    lemma_body_of_shaped(u);
    assert(u.len() > 0 ==> u.last() != '-');
    assert(without_trailing_dashes(u) == u);
}

/// A non-empty run of lower-case ASCII letters and digits.
pub open spec fn ascii_word(a: Seq<char>) -> bool {
    a.len() > 0 && forall|i: int| 0 <= i < a.len() ==> ('a' <= #[trigger] a[i] <= 'z') || ('0' <= a[i] <= '9')
}

/// A non-empty run of spaces, dashes and underscores.
pub open spec fn separator_run(s: Seq<char>) -> bool {
    s.len() > 0 && forall|i: int| 0 <= i < s.len() ==> (#[trigger] s[i] == ' ' || s[i] == '-' || s[i] == '_')
}

proof fn lemma_body_append_word(p: Seq<char>, q: Seq<char>)
    requires
        forall|i: int| 0 <= i < q.len() ==> ('a' <= #[trigger] q[i] <= 'z') || ('0' <= q[i] <= '9'),
    ensures
        slug_body(p + q) == slug_body(p) + q,
    decreases q.len(),
{
    if q.len() == 0 {
        assert(p + q =~= p);
        assert(slug_body(p) + q =~= slug_body(p));
    } else {
        let d = q.drop_last();
        lemma_body_append_word(p, d);
        assert((p + q).drop_last() =~= p + d);
        assert((p + q).last() == q.last());
        assert(q.last() == q[q.len() - 1]);
        assert(slug_keeps(q.last()));
        assert((slug_body(p) + d).push(q.last()) =~= slug_body(p) + q);
    }
}

proof fn lemma_body_word_then_separators(a: Seq<char>, seps: Seq<char>)
    requires
        ascii_word(a),
        separator_run(seps),
    ensures
        slug_body(a + seps) == a.push('-'),
    decreases seps.len(),
{
    lemma_body_append_word(Seq::empty(), a);
    assert(Seq::<char>::empty() + a =~= a);
    assert(slug_body(Seq::<char>::empty()) + a =~= a);
    let d = seps.drop_last();
    let c = seps.last();
    assert(c == seps[seps.len() - 1]);
    assert((a + seps).drop_last() =~= a + d);
    assert((a + seps).last() == c);
    assert(!slug_keeps(c));
    if d.len() == 0 {
        assert(a + d =~= a);
        assert(a.last() == a[a.len() - 1]);
    } else {
        assert forall|i: int| 0 <= i < d.len() implies (#[trigger] d[i] == ' ' || d[i] == '-' || d[i] == '_') by {
            assert(d[i] == seps[i]);
        }
        lemma_body_word_then_separators(a, d);
    }
}

/// In a slug, a word is kept as it is, and the spaces, dashes and
/// underscores between two words become exactly one dash.
pub proof fn law_separators_become_one_dash(a: Seq<char>, seps: Seq<char>, b: Seq<char>)
    requires
        ascii_word(a),
        separator_run(seps),
        ascii_word(b),
    ensures
        slug_of(a) == a,
        slug_of(a + seps + b) == a + seq!['-'] + b,
{
    lemma_body_append_word(Seq::empty(), a);
    assert(Seq::<char>::empty() + a =~= a);
    assert(slug_body(Seq::<char>::empty()) + a =~= a);
    assert(a.last() == a[a.len() - 1]);
    assert(without_trailing_dashes(a) == a);
    lemma_body_word_then_separators(a, seps);
    lemma_body_append_word(a + seps, b);
    let r = a + seq!['-'] + b;
    assert(a.push('-') + b =~= r);
    assert(r.last() == b[b.len() - 1]);
    assert(without_trailing_dashes(r) == r);
}

} // verus!
