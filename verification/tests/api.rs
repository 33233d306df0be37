use memory_stream::admin::api::{after_refresh, answer_kind, api_url, bearer, http_error, parse_method, AnswerKind, HttpMethod};

#[test]
fn methods_are_read_in_any_case() {
    assert_eq!(parse_method("get"), Ok(HttpMethod::Get));
    assert_eq!(parse_method("Post"), Ok(HttpMethod::Post));
    assert_eq!(parse_method("PUT"), Ok(HttpMethod::Put));
    assert_eq!(parse_method("patch"), Ok(HttpMethod::Patch));
    assert_eq!(parse_method("delete"), Ok(HttpMethod::Delete));
    assert_eq!(parse_method("head"), Err("unsupported HTTP method: head".to_string()));
}

#[test]
fn request_parts_and_answers() {
    assert_eq!(api_url("http://localhost:8080/api/v1", "/cards"), "http://localhost:8080/api/v1/cards");
    assert_eq!(bearer("tok"), "Bearer tok");
    assert_eq!(answer_kind(200), AnswerKind::Success);
    assert_eq!(answer_kind(299), AnswerKind::Success);
    assert_eq!(answer_kind(401), AnswerKind::Unauthorized);
    assert_eq!(answer_kind(404), AnswerKind::Failed);
    assert_eq!(answer_kind(302), AnswerKind::Failed);
    assert_eq!(http_error("404 Not Found", "nope"), "HTTP 404 Not Found: nope");
    assert_eq!(after_refresh(true), Ok(()));
    assert_eq!(after_refresh(false), Err("认证已过期，请重新登录".to_string()));
}

#[test]
fn server_errors_are_formatted() {
    assert_eq!(
        memory_stream::admin::api::format_api_error(409, "409 Conflict", Some("version mismatch"), "{..}"),
        "version mismatch (HTTP 409)"
    );
    assert_eq!(
        memory_stream::admin::api::format_api_error(502, "502 Bad Gateway", None, "upstream down"),
        "HTTP 502 Bad Gateway — upstream down"
    );
}
