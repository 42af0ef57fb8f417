use http::uri::{Authority, Scheme};
use tower_proxy::rewrite::{AppendPrefix, PathRewriter, ReplaceAll, RequestTarget, Static, TrimPrefix};
use tower_proxy::ProxyError;

fn target(path: &str, query: Option<&str>) -> RequestTarget {
    RequestTarget { path: path.to_owned(), query: query.map(str::to_owned) }
}

#[test]
fn rewrite_uri_keeps_the_query() {
    let scheme = Scheme::HTTP;
    let authority = Authority::from_static("backend:8080");
    let rewritten = TrimPrefix("/api")
        .rewrite_uri(&target("/api/users", Some("id=1")), &scheme, &authority)
        .unwrap();
    assert_eq!(rewritten.uri.to_string(), "http://backend:8080/users?id=1");
    assert_eq!(rewritten.uri.path(), "/users");
    assert_eq!(rewritten.uri.query(), Some("id=1"));
    assert_eq!(rewritten.path_and_query, "/users?id=1");
}

#[test]
fn rewrite_uri_without_query() {
    let scheme = Scheme::HTTPS;
    let authority = Authority::from_static("new.example:8443");
    let rewritten = AppendPrefix("/v1").rewrite_uri(&target("/items", None), &scheme, &authority).unwrap();
    assert_eq!(rewritten.uri.to_string(), "https://new.example:8443/v1/items");
    assert_eq!(rewritten.uri.query(), None);
    let rewritten = ReplaceAll("foo", "baz")
        .rewrite_uri(&target("/foo/bar", None), &Scheme::HTTP, &Authority::from_static("localhost:3000"))
        .unwrap();
    assert_eq!(rewritten.uri.to_string(), "http://localhost:3000/baz/bar");
}

#[test]
fn rewrite_uri_refuses_an_invalid_path() {
    let scheme = Scheme::HTTP;
    let authority = Authority::from_static("localhost");
    let result = Static("/with space").rewrite_uri(&target("/foo", Some("q=1")), &scheme, &authority);
    assert!(result.is_err());
}

#[test]
fn proxy_error_messages() {
    let err = http::Uri::builder().path_and_query("/bad path").build().unwrap_err();
    let text = format!("{}", err);
    let proxy_error = ProxyError::InvalidUri(err);
    assert_eq!(proxy_error.to_string(), format!("Invalid uri: {}", text));
    assert_eq!(proxy_error.message_with("x"), "Invalid uri: x");
    assert_eq!(proxy_error.status_code(), 500);
}
