//! The custom `ms://` protocol through which the front end reads syntax
//! trees, the knowledge graph and vault assets: how a request is routed,
//! what it asks for, the asset paths refused outright, the content type an
//! asset is served with, and the body of an error answer.

use vstd::prelude::*;
use crate::admin::cloud_sync::{all_digits, digits_part, digits_value, field_value};
use crate::admin::models::{has_char, has_double_dot, occurs_in};
use crate::text::{chars_of, find_char, find_char_index, has_prefix, push_str, starts_with_chars, str_eq, string_of, sub_chars};

verus! {

/// The position just after the last `.` of `s`, or 0.
pub open spec fn after_last_dot(s: Seq<char>) -> int
    decreases s.len(),
{
    if s.len() == 0 {
        0
    } else if s.last() == '.' {
        s.len() as int
    } else {
        after_last_dot(s.drop_last())
    }
}

/// The content type of an asset by the text after its last `.` (the whole
/// path when it has none).
pub open spec fn content_type_of(path: Seq<char>) -> Seq<char> {
    let ext = path.skip(after_last_dot(path));
    if ext == "png"@ {
        "image/png"@
    } else if ext == "jpg"@ || ext == "jpeg"@ {
        "image/jpeg"@
    } else if ext == "webp"@ {
        "image/webp"@
    } else if ext == "gif"@ {
        "image/gif"@
    } else if ext == "svg"@ {
        "image/svg+xml"@
    } else {
        "application/octet-stream"@
    }
}

/// The content type of an asset (see [`content_type_of`]).
pub fn guess_content_type(path: &str) -> (r: &'static str)
    ensures
        r@ == content_type_of(path@),
{
    let cs = chars_of(path);
    let mut i: usize = cs.len();
    assert(cs@.take(i as int) =~= cs@);
    while i > 0 && cs[i - 1] != '.'
        invariant
            i <= cs@.len(),
            cs@ == path@,
            after_last_dot(path@) == after_last_dot(cs@.take(i as int)),
        decreases i,
    {
        assert(cs@.take(i as int).drop_last() =~= cs@.take(i - 1));
        i = i - 1;
    }
    let ext = string_of(&sub_chars(&cs, i, cs.len()));
    assert(ext@ =~= path@.skip(i as int));
    let e = ext.as_str();
    if str_eq(e, "png") {
        "image/png"
    } else if str_eq(e, "jpg") || str_eq(e, "jpeg") {
        "image/jpeg"
    } else if str_eq(e, "webp") {
        "image/webp"
    } else if str_eq(e, "gif") {
        "image/gif"
    } else if str_eq(e, "svg") {
        "image/svg+xml"
    } else {
        "application/octet-stream"
    }
}

/// Whether an asset path (relative to the vault's `assets` folder) is
/// refused before the file system is asked: one that starts with `/` or
/// `\`, or that holds `..` or `:`.
pub open spec fn asset_path_refused(rel: Seq<char>) -> bool {
    ||| rel.len() > 0 && (rel[0] == '/' || rel[0] == '\\')
    ||| occurs_in(rel, seq!['.', '.'])
    ||| rel.contains(':')
}

/// Refuses an asset path that could leave the assets folder (see
/// [`asset_path_refused`]); the paths it lets through are then resolved
/// and checked against the folder on disk.
pub fn check_asset_path(rel: &str) -> (r: Result<(), String>)
    ensures
        asset_path_refused(rel@) <==> r is Err,
        r matches Err(m) ==> m@ == "invalid asset path"@,
{
    let cs = chars_of(rel);
    if (cs.len() > 0 && (cs[0] == '/' || cs[0] == '\\')) || has_double_dot(&cs) || has_char(&cs, ':') {
        Err("invalid asset path".to_string())
    } else {
        Ok(())
    }
}

// ───────────────────────────── requests ─────────────────────────────

/// `s` with every leading repetition of `p` removed, as
/// `str::trim_start_matches` does with a non-empty pattern.
pub open spec fn strip_leading(s: Seq<char>, p: Seq<char>) -> Seq<char>
    decreases s.len(),
{
    if p.len() > 0 && has_prefix(s, p) {
        strip_leading(s.skip(p.len() as int), p)
    } else {
        s
    }
}

/// `s` without its trailing `c` characters, as `str::trim_end_matches`
/// does with a character.
pub open spec fn strip_trailing(s: Seq<char>, c: char) -> Seq<char>
    decreases s.len(),
{
    if s.len() > 0 && s.last() == c {
        strip_trailing(s.drop_last(), c)
    } else {
        s
    }
}

/// The text before the first `c`, or all of `s` without one.
pub open spec fn before_char(s: Seq<char>, c: char) -> Seq<char> {
    match find_char(s, c) {
        Some(i) => s.take(i),
        None => s,
    }
}

/// The text after the first `c`, or nothing without one.
pub open spec fn after_char(s: Seq<char>, c: char) -> Seq<char> {
    match find_char(s, c) {
        Some(i) => s.skip(i + 1),
        None => Seq::empty(),
    }
}

/// A position that [`find_char`] gives holds the character searched for.
pub proof fn lemma_find_char_bounds(s: Seq<char>, c: char)
    ensures
        find_char(s, c) matches Some(i) ==> 0 <= i < s.len() && s[i] == c,
    decreases s.len(),
{
    if s.len() > 0 && s[0] != c {
        lemma_find_char_bounds(s.drop_first(), c);
    }
}

fn strip_leading_chars(s: Vec<char>, p: &Vec<char>) -> (r: Vec<char>)
    ensures
        r@ == strip_leading(s@, p@),
{
    let ghost s0 = s@;
    let mut cur = s;
    while p.len() > 0 && starts_with_chars(cur.as_slice(), p.as_slice())
        invariant
            strip_leading(cur@, p@) == strip_leading(s0, p@),
        decreases cur.len(),
    {
        let next = sub_chars(cur.as_slice(), p.len(), cur.len());
        assert(next@ =~= cur@.skip(p.len() as int));
        cur = next;
    }
    cur
}

pub(crate) fn strip_trailing_chars(s: &Vec<char>, c: char) -> (r: Vec<char>)
    ensures
        r@ == strip_trailing(s@, c),
{
    let mut j: usize = s.len();
    assert(s@.take(j as int) =~= s@);
    while j > 0 && s[j - 1] == c
        invariant
            j <= s.len(),
            strip_trailing(s@.take(j as int), c) == strip_trailing(s@, c),
        decreases j,
    {
        assert(s@.take(j as int).drop_last() =~= s@.take(j - 1));
        j = j - 1;
    }
    let r = sub_chars(s.as_slice(), 0, j);
    assert(r@ =~= s@.take(j as int));
    r
}

/// Splits `s` at its first `c`: the text before it and the text after it
/// (see [`before_char`] and [`after_char`]).
fn split_at_char(s: &Vec<char>, c: char) -> (r: (Vec<char>, Vec<char>))
    ensures
        r.0@ == before_char(s@, c),
        r.1@ == after_char(s@, c),
{
    match find_char_index(s.as_slice(), c) {
        Some(i) => (sub_chars(s.as_slice(), 0, i), sub_chars(s.as_slice(), i + 1, s.len())),
        None => {
            let whole = sub_chars(s.as_slice(), 0, s.len());
            assert(whole@ =~= s@);
            (whole, Vec::new())
        },
    }
}

/// What a request of the protocol asks for.
#[derive(Debug, PartialEq, Eq)]
pub enum MsRoute {
    /// The syntax tree of a card; carries the request path.
    Ast(String),
    /// The whole knowledge graph.
    FullGraph,
    /// The neighbourhood of a card in the graph (read from the whole URI).
    Neighborhood,
    /// A vault asset; carries the request path.
    Asset(String),
    /// Nothing served here; carries the request path.
    NotFound(String),
}

/// The model of a route: paths as sequences.
pub enum MsRouteModel {
    Ast(Seq<char>),
    FullGraph,
    Neighborhood,
    Asset(Seq<char>),
    NotFound(Seq<char>),
}

/// The model of a route.
pub open spec fn route_model(r: MsRoute) -> MsRouteModel {
    match r {
        MsRoute::Ast(p) => MsRouteModel::Ast(p@),
        MsRoute::FullGraph => MsRouteModel::FullGraph,
        MsRoute::Neighborhood => MsRouteModel::Neighborhood,
        MsRoute::Asset(p) => MsRouteModel::Asset(p@),
        MsRoute::NotFound(p) => MsRouteModel::NotFound(p@),
    }
}

/// The path of a request: the URI without its leading `ms://localhost`
/// and without its query.
pub open spec fn request_path(uri: Seq<char>) -> Seq<char> {
    before_char(strip_leading(uri, "ms://localhost"@), '?')
}

/// The route of a request by its path: `/api/ast/…` trees,
/// `/api/graph/full`, `/api/graph/neighborhood/…`, `/assets/…`, and
/// nothing else.
pub open spec fn route_of(uri: Seq<char>) -> MsRouteModel {
    let path = request_path(uri);
    if has_prefix(path, "/api/ast/"@) {
        MsRouteModel::Ast(path)
    } else if path == "/api/graph/full"@ {
        MsRouteModel::FullGraph
    } else if has_prefix(path, "/api/graph/neighborhood/"@) {
        MsRouteModel::Neighborhood
    } else if has_prefix(path, "/assets/"@) {
        MsRouteModel::Asset(path)
    } else {
        MsRouteModel::NotFound(path)
    }
}

/// Routes a request of the protocol (see [`route_of`]).
pub fn ms_route(uri: &str) -> (r: MsRoute)
    ensures
        route_model(r) == route_of(uri@),
{
    let stripped = strip_leading_chars(chars_of(uri), &chars_of("ms://localhost"));
    let (path_chars, _) = split_at_char(&stripped, '?');
    let path = string_of(path_chars.as_slice());
    if starts_with_chars(path_chars.as_slice(), chars_of("/api/ast/").as_slice()) {
        MsRoute::Ast(path)
    } else if str_eq(path.as_str(), "/api/graph/full") {
        MsRoute::FullGraph
    } else if starts_with_chars(path_chars.as_slice(), chars_of("/api/graph/neighborhood/").as_slice()) {
        MsRoute::Neighborhood
    } else if starts_with_chars(path_chars.as_slice(), chars_of("/assets/").as_slice()) {
        MsRoute::Asset(path)
    } else {
        MsRoute::NotFound(path)
    }
}

/// The card a tree request names: the path after `/api/ast/`, without
/// trailing slashes.
pub open spec fn ast_uuid_of(path: Seq<char>) -> Seq<char> {
    strip_trailing(strip_leading(path, "/api/ast/"@), '/')
}

/// The card a tree request names, or `None` when it names none (a bad
/// request).
pub fn ast_uuid(path: &str) -> (r: Option<String>)
    ensures
        r is None <==> ast_uuid_of(path@).len() == 0,
        r matches Some(u) ==> u@ == ast_uuid_of(path@),
{
    let rest = strip_leading_chars(chars_of(path), &chars_of("/api/ast/"));
    let uuid = strip_trailing_chars(&rest, '/');
    if uuid.len() == 0 { None } else { Some(string_of(uuid.as_slice())) }
}

/// The asset an asset request names: the path after `/assets/`.
pub open spec fn asset_rel_of(path: Seq<char>) -> Seq<char> {
    strip_leading(path, "/assets/"@)
}

/// The asset an asset request names, or `None` when it names none (a bad
/// request).
pub fn asset_rel(path: &str) -> (r: Option<String>)
    ensures
        r is None <==> asset_rel_of(path@).len() == 0,
        r matches Some(a) ==> a@ == asset_rel_of(path@),
{
    let rest = strip_leading_chars(chars_of(path), &chars_of("/assets/"));
    if rest.len() == 0 { None } else { Some(string_of(rest.as_slice())) }
}

/// The value of the first `depth=` parameter of a query (parameters are
/// separated by `&`).
pub open spec fn depth_param(query: Seq<char>) -> Option<Seq<char>>
    decreases query.len(),
{
    let part = before_char(query, '&');
    if has_prefix(part, "depth="@) {
        Some(part.skip(6))
    } else {
        match find_char(query, '&') {
            Some(i) => {
                proof {
                    lemma_find_char_bounds(query, '&');
                }
                depth_param(query.skip(i + 1))
            },
            None => None,
        }
    }
}

/// A decimal field as `str::parse::<usize>` reads it: its value when it is
/// well formed and fits.
pub open spec fn usize_value(t: Seq<char>) -> Option<nat> {
    match field_value(t) {
        Some(v) => if v <= usize::MAX { Some(v) } else { None },
        None => None,
    }
}

/// The depth a neighbourhood request asks for: its first `depth=`
/// parameter when that reads as a number, else 2.
pub open spec fn depth_of(query: Seq<char>) -> nat {
    match depth_param(query) {
        Some(v) => match usize_value(v) {
            Some(n) => n,
            None => 2,
        },
        None => 2,
    }
}

/// The card and the depth a neighbourhood request asks for: the card is
/// what follows `ms://localhost/api/graph/neighborhood/` up to the query,
/// without trailing slashes.
pub open spec fn neighborhood_of(uri: Seq<char>) -> (Seq<char>, nat) {
    let part = strip_leading(uri, "ms://localhost/api/graph/neighborhood/"@);
    (strip_trailing(before_char(part, '?'), '/'), depth_of(after_char(part, '?')))
}

/// The number written by a prefix of ASCII digits is at most that of the
/// whole.
proof fn lemma_digits_prefix(d: Seq<char>, j: int)
    requires
        0 <= j <= d.len(),
        forall|k: int| 0 <= k < d.len() ==> '0' <= #[trigger] d[k] <= '9',
    ensures
        digits_value(d.take(j)) <= digits_value(d),
    decreases d.len(),
{
    if j < d.len() {
        assert(d.drop_last().take(j) =~= d.take(j));
        lemma_digits_prefix(d.drop_last(), j);
    } else {
        assert(d.take(j) =~= d);
    }
}

/// Reads a decimal number as `str::parse::<usize>` does (see
/// [`usize_value`]).
pub fn parse_usize(t: &[char]) -> (r: Option<usize>)
    ensures
        r matches Some(v) ==> usize_value(t@) == Some(v as nat),
        r is None ==> usize_value(t@) is None,
{
    let mut start: usize = 0;
    if t.len() > 0 && t[0] == '+' {
        start = 1;
    }
    let ghost d = t@.subrange(start as int, t@.len() as int);
    assert(d =~= digits_part(t@));
    if start == t.len() {
        return None;
    }
    let mut v: usize = 0;
    let mut i: usize = start;
    while i < t.len()
        invariant
            start <= i <= t.len(),
            start < t.len(),
            d == t@.subrange(start as int, t@.len() as int),
            d == digits_part(t@),
            forall|j: int| start <= j < i ==> '0' <= #[trigger] t@[j] <= '9',
            v == digits_value(t@.subrange(start as int, i as int)),
        decreases t.len() - i,
    {
        let c = t[i];
        if !('0' <= c && c <= '9') {
            assert(d[i - start] == t@[i as int]);
            assert(!all_digits(d));
            return None;
        }
        assert(t@.subrange(start as int, i + 1).drop_last() =~= t@.subrange(start as int, i as int));
        let digit: usize = ((c as u32) - 48) as usize;
        let next = match v.checked_mul(10) {
            Some(m) => m.checked_add(digit),
            None => None,
        };
        match next {
            Some(n) => v = n,
            None => {
                proof {
                    if all_digits(d) {
                        assert(d.take(i + 1 - start) =~= t@.subrange(start as int, i + 1));
                        lemma_digits_prefix(d, i + 1 - start);
                    }
                }
                return None;
            },
        }
        i = i + 1;
    }
    assert forall|j: int| 0 <= j < d.len() implies '0' <= #[trigger] d[j] <= '9' by {
        assert(d[j] == t@[start + j]);
    }
    Some(v)
}

fn depth_param_chars(query: &Vec<char>) -> (r: Option<Vec<char>>)
    ensures
        match depth_param(query@) {
            Some(v) => r matches Some(w) && w@ == v,
            None => r is None,
        },
    decreases query.len(),
{
    proof {
        reveal_strlit("depth=");
    }
    let key = chars_of("depth=");
    let (part, rest) = split_at_char(query, '&');
    if starts_with_chars(part.as_slice(), key.as_slice()) {
        let v = sub_chars(part.as_slice(), 6, part.len());
        assert(v@ =~= part@.skip(6));
        Some(v)
    } else {
        proof {
            lemma_find_char_bounds(query@, '&');
        }
        match find_char_index(query.as_slice(), '&') {
            Some(_) => depth_param_chars(&rest),
            None => None,
        }
    }
}

/// The card and the depth a neighbourhood request asks for (see
/// [`neighborhood_of`]).
pub fn neighborhood_request(uri: &str) -> (r: (String, usize))
    ensures
        r.0@ == neighborhood_of(uri@).0,
        r.1 as nat == neighborhood_of(uri@).1,
{
    let part = strip_leading_chars(chars_of(uri), &chars_of("ms://localhost/api/graph/neighborhood/"));
    let (head, query) = split_at_char(&part, '?');
    let uuid = strip_trailing_chars(&head, '/');
    let depth: usize = match depth_param_chars(&query) {
        Some(v) => match parse_usize(v.as_slice()) {
            Some(n) => n,
            None => 2,
        },
        None => 2,
    };
    (string_of(uuid.as_slice()), depth)
}

/// The JSON body of an error answer carrying `message`.
pub open spec fn error_body_text(message: Seq<char>) -> Seq<char> {
    "{\"error\":\""@ + message + "\"}"@
}

/// The JSON body of an error answer (see [`error_body_text`]); the message
/// is written as it is.
pub fn error_body(message: &str) -> (r: String)
    ensures
        r@ == error_body_text(message@),
{
    let mut r = String::new();
    push_str(&mut r, "{\"error\":\"");
    push_str(&mut r, message);
    push_str(&mut r, "\"}");
    r
}

} // verus!
