//! The HTTP gateway between the front end and the server: the methods it
//! accepts, the address and authorisation of a request, and what an answer
//! leads to (an expired session is refreshed once before giving up).

use vstd::prelude::*;
use crate::text::{decimal, push_decimal, push_str, str_eq, to_uppercase, uppercase};

verus! {

/// The methods the gateway sends.
#[derive(Debug, Clone, Copy, PartialEq, Eq, Structural)]
pub enum HttpMethod {
    Get,
    Post,
    Put,
    Patch,
    Delete,
}

/// The method a name stands for, compared in upper case.
pub open spec fn method_of(name: Seq<char>) -> Option<HttpMethod> {
    let u = uppercase(name);
    if u == "GET"@ {
        Some(HttpMethod::Get)
    } else if u == "POST"@ {
        Some(HttpMethod::Post)
    } else if u == "PUT"@ {
        Some(HttpMethod::Put)
    } else if u == "PATCH"@ {
        Some(HttpMethod::Patch)
    } else if u == "DELETE"@ {
        Some(HttpMethod::Delete)
    } else {
        None
    }
}

/// Reads the method of a request (see [`method_of`]); any other name is
/// refused with `unsupported HTTP method: <name>`.
pub fn parse_method(method: &str) -> (r: Result<HttpMethod, String>)
    ensures
        method_of(method@) matches Some(m) ==> r == Ok::<HttpMethod, String>(m),
        method_of(method@) is None ==> (r matches Err(e) && e@ == "unsupported HTTP method: "@ + method@),
{
    let u = to_uppercase(method);
    let s = u.as_str();
    if str_eq(s, "GET") {
        Ok(HttpMethod::Get)
    } else if str_eq(s, "POST") {
        Ok(HttpMethod::Post)
    } else if str_eq(s, "PUT") {
        Ok(HttpMethod::Put)
    } else if str_eq(s, "PATCH") {
        Ok(HttpMethod::Patch)
    } else if str_eq(s, "DELETE") {
        Ok(HttpMethod::Delete)
    } else {
        let mut e = String::new();
        push_str(&mut e, "unsupported HTTP method: ");
        push_str(&mut e, method);
        Err(e)
    }
}

/// The address of a request: the server's base address followed by the
/// endpoint, as given.
pub fn api_url(base: &str, endpoint: &str) -> (r: String)
    ensures
        r@ == base@ + endpoint@,
{
    let mut r = String::new();
    push_str(&mut r, base);
    push_str(&mut r, endpoint);
    r
}

/// The `Authorization` header value for an access token.
pub fn bearer(token: &str) -> (r: String)
    ensures
        r@ == "Bearer "@ + token@,
{
    let mut r = String::new();
    push_str(&mut r, "Bearer ");
    push_str(&mut r, token);
    r
}

/// What an answer of the server leads to.
#[derive(Debug, Clone, Copy, PartialEq, Eq, Structural)]
pub enum AnswerKind {
    /// 2xx: the body is read as JSON.
    Success,
    /// 401: the session is refreshed (or a refresh under way awaited) and
    /// the request sent once more.
    Unauthorized,
    /// Anything else: the request failed.
    Failed,
}

/// Classifies an answer by its HTTP status.
pub fn answer_kind(status: u16) -> (r: AnswerKind)
    ensures
        status == 401 ==> r == AnswerKind::Unauthorized,
        200 <= status <= 299 ==> r == AnswerKind::Success,
        status != 401 && !(200 <= status <= 299) ==> r == AnswerKind::Failed,
{
    if status == 401 {
        AnswerKind::Unauthorized
    } else if 200 <= status && status <= 299 {
        AnswerKind::Success
    } else {
        AnswerKind::Failed
    }
}

/// The error of a failed answer: `HTTP <status>: <body>`, the status as
/// the HTTP library writes it (code and reason).
pub fn http_error(status_text: &str, body: &str) -> (r: String)
    ensures
        r@ == "HTTP "@ + status_text@ + ": "@ + body@,
{
    let mut r = String::new();
    push_str(&mut r, "HTTP ");
    push_str(&mut r, status_text);
    push_str(&mut r, ": ");
    push_str(&mut r, body);
    r
}

/// After refreshing an expired session: send the request again, or tell
/// the user that the session expired.
pub fn after_refresh(refreshed: bool) -> (r: Result<(), String>)
    ensures
        refreshed <==> r is Ok,
        r matches Err(e) ==> e@ == "认证已过期，请重新登录"@,
{
    if refreshed {
        Ok(())
    } else {
        Err("认证已过期，请重新登录".to_string())
    }
}

/// The text of a failed answer of the synchronisation server: when the
/// body is the server's error object (`{"code": <integer>, "message": <text>}`,
/// read by the caller into `server_message`), its message and the status
/// code; otherwise `HTTP <status> — <body>`, the status as the HTTP library
/// writes it (code and reason).
pub fn format_api_error(status_code: u16, status_text: &str, server_message: Option<&str>, body: &str) -> (r: String)
    ensures
        server_message matches Some(m) ==> r@ == m@ + " (HTTP "@ + decimal(status_code as nat) + ")"@,
        server_message is None ==> r@ == "HTTP "@ + status_text@ + " — "@ + body@,
{
    let mut r = String::new();
    match server_message {
        Some(m) => {
            push_str(&mut r, m);
            push_str(&mut r, " (HTTP ");
            push_decimal(&mut r, status_code as u64);
            push_str(&mut r, ")");
        },
        None => {
            push_str(&mut r, "HTTP ");
            push_str(&mut r, status_text);
            push_str(&mut r, " — ");
            push_str(&mut r, body);
        },
    }
    r
}

} // verus!
