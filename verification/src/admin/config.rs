//! Client settings and the WebSocket address derived from the API address.
//!
//! When the API server is remote but the WebSocket address still points at
//! the local default, the WebSocket address follows the API address:
//! `https://host/api` becomes `wss://host/api/ws`, `http://` becomes `ws://`.

use vstd::prelude::*;
use crate::text::{chars_of, has_prefix, push_str, skip_space_end, skip_space_start, starts_with_chars, str_eq, string_of, sub_chars, trimmed};

verus! {

/// Settings of the client.
#[derive(Debug, Clone)]
pub struct SysConfig {
    pub api_base_url: String,
    pub ws_url: String,
    pub s3_endpoint: String,
    pub s3_region: String,
    pub s3_bucket: String,
    pub s3_access_key: Option<String>,
    pub s3_secret_key: Option<String>,
    pub s3_public_url_base: Option<String>,
    pub s3_use_path_style: bool,
    /// Root directory of the local vault.
    pub vault_path: Option<String>,
}

/// The default API address.
pub open spec fn default_api_url() -> Seq<char> {
    "http://localhost:8080/api/v1"@
}

/// The default WebSocket address.
pub open spec fn default_ws_url() -> Seq<char> {
    "ws://localhost:8080/api/v1/ws"@
}

impl Default for SysConfig {
    /// Local API and WebSocket addresses, region `us-east-1`, nothing else set.
    fn default() -> (r: SysConfig)
        ensures
            r.api_base_url@ == default_api_url(),
            r.ws_url@ == default_ws_url(),
            r.s3_endpoint@.len() == 0,
            r.s3_region@ == "us-east-1"@,
            r.s3_bucket@.len() == 0,
            r.s3_access_key is None,
            r.s3_secret_key is None,
            r.s3_public_url_base is None,
            !r.s3_use_path_style,
            r.vault_path is None,
    {
        SysConfig {
            api_base_url: "http://localhost:8080/api/v1".to_owned(),
            ws_url: "ws://localhost:8080/api/v1/ws".to_owned(),
            s3_endpoint: String::new(),
            s3_region: "us-east-1".to_owned(),
            s3_bucket: String::new(),
            s3_access_key: None,
            s3_secret_key: None,
            s3_public_url_base: None,
            s3_use_path_style: false,
            vault_path: None,
        }
    }
}

/// ASCII lower case of a character.
pub open spec fn ascii_lower(c: char) -> char {
    if 'A' <= c && c <= 'Z' { ((c as u32) + 32) as char } else { c }
}

/// Whether `p` occurs in `s`.
pub open spec fn contains(s: Seq<char>, p: Seq<char>) -> bool {
    exists|i: int| 0 <= i && i + p.len() <= s.len() && #[trigger] s.subrange(i, i + p.len()) == p
}

/// Whether a URL points at this machine (`localhost`, `127.0.0.1` or `0.0.0.0`,
/// in any ASCII case).
pub open spec fn loopback(url: Seq<char>) -> bool {
    let lower = url.map_values(|c: char| ascii_lower(c));
    contains(lower, "localhost"@) || contains(lower, "127.0.0.1"@) || contains(lower, "0.0.0.0"@)
}

/// Whether `p` occurs in `s`.
fn contains_chars(s: &Vec<char>, p: &str) -> (b: bool)
    ensures
        b == contains(s@, p@),
{
    let pc = chars_of(p);
    let n = s.len();
    let m = pc.len();
    if m > n {
        assert forall|i: int| 0 <= i && i + pc@.len() <= s@.len() implies #[trigger] s@.subrange(i, i + pc@.len()) != pc@ by {}
        return false;
    }
    let mut k: usize = 0;
    while k <= n - m
        invariant
            m <= n,
            n == s@.len(),
            m == pc@.len(),
            pc@ == p@,
            forall|i: int| 0 <= i < k && i + m <= n ==> #[trigger] s@.subrange(i, i + m) != pc@,
        decreases n - k,
    {
        let mut j: usize = 0;
        while j < m && s[k + j] == pc[j]
            invariant
                j <= m,
                k + m <= n,
                n == s@.len(),
                m == pc@.len(),
                forall|t: int| 0 <= t < j ==> s@[k + t] == pc@[t],
            decreases m - j,
        {
            j = j + 1;
        }
        if j == m {
            assert(s@.subrange(k as int, k + m) =~= pc@);
            return true;
        }
        assert(s@.subrange(k as int, k + m)[j as int] != pc@[j as int]);
        k = k + 1;
    }
    false
}

/// Whether a URL points at this machine (see [`loopback`]).
pub fn is_loopback_url(url: &str) -> (b: bool)
    ensures
        b == loopback(url@),
{
    let cs = chars_of(url);
    let mut lower: Vec<char> = Vec::new();
    let mut i: usize = 0;
    while i < cs.len()
        invariant
            i <= cs@.len(),
            cs@ == url@,
            lower@ == url@.take(i as int).map_values(|c: char| ascii_lower(c)),
        decreases cs@.len() - i,
    {
        let c = cs[i];
        let d = if 'A' <= c && c <= 'Z' { ((c as u8) + 32) as char } else { c };
        lower.push(d);
        i = i + 1;
        assert(lower@ =~= url@.take(i as int).map_values(|c: char| ascii_lower(c)));
    }
    assert(url@.take(cs@.len() as int) =~= url@);
    contains_chars(&lower, "localhost") || contains_chars(&lower, "127.0.0.1") || contains_chars(&lower, "0.0.0.0")
}

/// `s` without its trailing `/` characters.
pub open spec fn without_trailing_slashes(s: Seq<char>) -> Seq<char>
    decreases s.len(),
{
    if s.len() > 0 && s.last() == '/' {
        without_trailing_slashes(s.drop_last())
    } else {
        s
    }
}

/// `s` without every leading repetition of `p`.
pub open spec fn without_leading(s: Seq<char>, p: Seq<char>) -> Seq<char>
    decreases s.len(),
{
    if p.len() > 0 && has_prefix(s, p) {
        without_leading(s.skip(p.len() as int), p)
    } else {
        s
    }
}

/// The WebSocket address that follows an API address.
pub open spec fn ws_url_for(api: Seq<char>) -> Seq<char> {
    let t = without_trailing_slashes(trimmed(api));
    if has_prefix(t, "https://"@) {
        "wss://"@ + without_leading(t, "https://"@) + "/ws"@
    } else if has_prefix(t, "http://"@) {
        "ws://"@ + without_leading(t, "http://"@) + "/ws"@
    } else if has_prefix(t, "wss://"@) || has_prefix(t, "ws://"@) {
        t + "/ws"@
    } else if t.len() == 0 {
        default_ws_url()
    } else {
        "ws://"@ + t + "/ws"@
    }
}

/// `cs` without every leading repetition of `p`.
pub(crate) fn strip_prefix_all(cs: &Vec<char>, p: &str) -> (r: Vec<char>)
    requires
        p@.len() > 0,
    ensures
        r@ == without_leading(cs@, p@),
{
    let pc = chars_of(p);
    let mut rest = sub_chars(cs, 0, cs.len());
    assert(rest@ =~= cs@);
    while starts_with_chars(&rest, &pc)
        invariant
            pc@ == p@,
            pc@.len() > 0,
            without_leading(cs@, p@) == without_leading(rest@, p@),
        decreases rest@.len(),
    {
        let next = sub_chars(&rest, pc.len(), rest.len());
        assert(next@ == rest@.skip(p@.len() as int));
        rest = next;
    }
    rest
}

/// Derives the WebSocket address from an API address (see [`ws_url_for`]).
pub fn derive_ws_url(api_base_url: &str) -> (r: String)
    ensures
        r@ == ws_url_for(api_base_url@),
        has_prefix(r@, "ws://"@) || has_prefix(r@, "wss://"@),
{
    proof {
        reveal_strlit("https://");
        reveal_strlit("http://");
        reveal_strlit("wss://");
        reveal_strlit("ws://");
        reveal_strlit("ws://localhost:8080/api/v1/ws");
    }
    let cs = chars_of(api_base_url);
    let lo = skip_space_start(&cs);
    let hi0 = skip_space_end(&cs, lo);
    let mut hi = hi0;
    while hi > lo && cs[hi - 1] == '/'
        invariant
            lo <= hi <= hi0 <= cs@.len(),
            without_trailing_slashes(cs@.subrange(lo as int, hi0 as int))
                == without_trailing_slashes(cs@.subrange(lo as int, hi as int)),
        decreases hi,
    {
        assert(cs@.subrange(lo as int, hi as int).drop_last() =~= cs@.subrange(lo as int, hi - 1));
        hi = hi - 1;
    }
    let t = sub_chars(&cs, lo, hi);
    let mut out = String::new();
    if starts_with_chars(&t, &chars_of("https://")) {
        push_str(&mut out, "wss://");
        let rest = strip_prefix_all(&t, "https://");
        push_str(&mut out, string_of(&rest).as_str());
        push_str(&mut out, "/ws");
    } else if starts_with_chars(&t, &chars_of("http://")) {
        push_str(&mut out, "ws://");
        let rest = strip_prefix_all(&t, "http://");
        push_str(&mut out, string_of(&rest).as_str());
        push_str(&mut out, "/ws");
    } else if starts_with_chars(&t, &chars_of("wss://")) || starts_with_chars(&t, &chars_of("ws://")) {
        push_str(&mut out, string_of(&t).as_str());
        push_str(&mut out, "/ws");
    } else if t.len() == 0 {
        push_str(&mut out, "ws://localhost:8080/api/v1/ws");
    } else {
        push_str(&mut out, "ws://");
        push_str(&mut out, string_of(&t).as_str());
        push_str(&mut out, "/ws");
    }
    proof {
        lemma_ws_scheme(api_base_url@);
    }
    out
}

/// The derived address always has a WebSocket scheme.
proof fn lemma_ws_scheme(api: Seq<char>)
    ensures
        has_prefix(ws_url_for(api), "ws://"@) || has_prefix(ws_url_for(api), "wss://"@),
{
    reveal_strlit("https://");
    reveal_strlit("http://");
    reveal_strlit("wss://");
    reveal_strlit("ws://");
    reveal_strlit("/ws");
    reveal_strlit("ws://localhost:8080/api/v1/ws");
    let t = without_trailing_slashes(trimmed(api));
    let w = ws_url_for(api);
    if has_prefix(t, "https://"@) {
        assert(w.subrange(0, 6) =~= "wss://"@);
    } else if has_prefix(t, "http://"@) {
        assert(w.subrange(0, 5) =~= "ws://"@);
    } else if has_prefix(t, "wss://"@) {
        assert(w.subrange(0, 6) =~= t.subrange(0, 6));
    } else if has_prefix(t, "ws://"@) {
        assert(w.subrange(0, 5) =~= t.subrange(0, 5));
    } else if t.len() == 0 {
        assert(w.subrange(0, 5) =~= "ws://"@);
    } else {
        assert(w.subrange(0, 5) =~= "ws://"@);
    }
}

/// Whether the WebSocket address still is a local default.
pub open spec fn ws_is_local_default(ws: Seq<char>) -> bool {
    ws.len() == 0 || ws == default_ws_url() || loopback(ws)
}

/// With a remote API address and a local default WebSocket address, the
/// WebSocket address follows the API address; otherwise nothing changes.
pub fn normalize_ws_url(config: &mut SysConfig)
    ensures
        !loopback(old(config).api_base_url@) && ws_is_local_default(old(config).ws_url@) ==>
            final(config).ws_url@ == ws_url_for(old(config).api_base_url@),
        !(!loopback(old(config).api_base_url@) && ws_is_local_default(old(config).ws_url@)) ==>
            final(config).ws_url@ == old(config).ws_url@,
        final(config).api_base_url == old(config).api_base_url,
        final(config).s3_endpoint == old(config).s3_endpoint,
        final(config).s3_region == old(config).s3_region,
        final(config).s3_bucket == old(config).s3_bucket,
        final(config).s3_access_key == old(config).s3_access_key,
        final(config).s3_secret_key == old(config).s3_secret_key,
        final(config).s3_public_url_base == old(config).s3_public_url_base,
        final(config).s3_use_path_style == old(config).s3_use_path_style,
        final(config).vault_path == old(config).vault_path,
{
    let api_is_remote = !is_loopback_url(config.api_base_url.as_str());
    let ws_is_default_local = config.ws_url.as_str().is_empty()
        || str_eq(config.ws_url.as_str(), "ws://localhost:8080/api/v1/ws")
        || is_loopback_url(config.ws_url.as_str());
    if api_is_remote && ws_is_default_local {
        config.ws_url = derive_ws_url(config.api_base_url.as_str());
    }
}

} // verus!
