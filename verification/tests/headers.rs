use http::header::{HeaderName, HeaderValue};
use http::HeaderMap;
use hyper_h2::headers::strip_connection_headers;

fn headers(fields: &[(&'static str, &str)]) -> HeaderMap {
    let mut map = HeaderMap::new();
    for (name, value) in fields {
        map.append(*name, HeaderValue::from_bytes(value.as_bytes()).unwrap());
    }
    map
}

fn stripped(fields: &[(&'static str, &str)], is_request: bool) -> HeaderMap {
    let mut map = headers(fields);
    strip_connection_headers(&mut map, is_request);
    map
}

#[test]
fn fixed_connection_headers_are_removed() {
    let input = [
        ("keep-alive", "timeout=5"),
        ("proxy-connection", "keep-alive"),
        ("transfer-encoding", "chunked"),
        ("upgrade", "websocket"),
        ("host", "example.org"),
        ("accept", "text/html"),
        ("accept", "text/plain"),
    ];
    let output = headers(&input[4..]);
    assert_eq!(stripped(&input, true), output);
    assert_eq!(stripped(&input, false), output);
}

#[test]
fn every_value_of_a_removed_header_goes() {
    let map = stripped(&[("upgrade", "a"), ("upgrade", "b"), ("x-a", "1")], true);
    assert_eq!(map, headers(&[("x-a", "1")]));
    assert_eq!(map.len(), 1);
}

#[test]
fn te_trailers_is_kept_in_requests_only() {
    let input = [("te", "trailers")];
    assert_eq!(stripped(&input, true), headers(&input));
    assert_eq!(stripped(&input, false), headers(&[]));
}

#[test]
fn other_te_values_are_removed() {
    assert!(stripped(&[("te", "gzip")], true).is_empty());
    assert!(stripped(&[("te", "Trailers")], true).is_empty());
    assert!(stripped(&[("te", "trailers, gzip")], true).is_empty());
    assert!(stripped(&[("te", "gzip"), ("te", "trailers")], true).is_empty());
    assert!(stripped(&[("te", "gzip")], false).is_empty());
}

#[test]
fn te_is_kept_only_if_every_value_is_trailers() {
    assert!(stripped(&[("te", "trailers"), ("te", "gzip")], true).is_empty());
    let input = [("te", "trailers"), ("te", "trailers")];
    let map = stripped(&input, true);
    assert_eq!(map, headers(&input));
    assert_eq!(map.get_all("te").iter().count(), 2);
    assert!(stripped(&input, false).is_empty());
}

#[test]
fn headers_listed_by_connection_are_removed() {
    let input = [
        ("connection", "X-One ,\tx-two,, bad name ,te,X-THREE "),
        ("x-one", "1"),
        ("x-two", "2"),
        ("x-three", "3"),
        ("x-four", "4"),
        ("te", "trailers"),
    ];
    assert_eq!(stripped(&input, true), headers(&[("x-four", "4")]));
}

#[test]
fn every_connection_value_is_read() {
    let input = [
        ("connection", "x-a"),
        ("connection", "x-b"),
        ("x-a", "1"),
        ("x-b", "2"),
        ("host", "h"),
    ];
    assert_eq!(stripped(&input, true), headers(&[("host", "h")]));
    assert_eq!(stripped(&input, false), headers(&[("host", "h")]));
}

#[test]
fn unreadable_connection_value_lists_nothing() {
    let mut map = headers(&[("x-one", "1")]);
    map.insert("connection", HeaderValue::from_bytes(b"x-one, \xfa").unwrap());
    strip_connection_headers(&mut map, true);
    assert_eq!(map, headers(&[("x-one", "1")]));

    let mut map = headers(&[("x-one", "1"), ("x-two", "2")]);
    map.append("connection", HeaderValue::from_bytes(b"x-one, \xfa").unwrap());
    map.append("connection", HeaderValue::from_static("x-two"));
    strip_connection_headers(&mut map, true);
    assert_eq!(map, headers(&[("x-one", "1")]));
}

#[test]
fn names_that_a_map_cannot_be_asked_for_are_skipped() {
    let mut map = headers(&[("connection", "x\"y")]);
    map.insert(HeaderName::from_static("x\"y"), HeaderValue::from_static("1"));
    strip_connection_headers(&mut map, true);
    assert_eq!(map.len(), 1);
}

#[test]
fn long_names_are_found() {
    let name: &'static str = "x-aaaaaaaaaaaaaaaaaaaaaaaaaaaaaaaaaaaaaaaaaaaaaaaaaaaaaaaaaaaaaaaaaaaaaaaaaaaaaaaaaa";
    let listed = name.to_uppercase();
    let mut map = headers(&[("connection", listed.as_str())]);
    map.insert(name, HeaderValue::from_static("1"));
    strip_connection_headers(&mut map, true);
    assert!(map.is_empty());
}

#[test]
fn stripping_twice_changes_nothing_more() {
    let mut map = headers(&[
        ("connection", "x-one"),
        ("x-one", "1"),
        ("te", "trailers"),
        ("upgrade", "h2c"),
        ("host", "example.org"),
    ]);
    strip_connection_headers(&mut map, true);
    let once = map.clone();
    strip_connection_headers(&mut map, true);
    assert_eq!(map, once);
    assert_eq!(map, headers(&[("te", "trailers"), ("host", "example.org")]));
}

#[test]
fn nothing_to_strip() {
    let input = [("host", "example.org"), ("content-length", "3")];
    assert_eq!(stripped(&input, true), headers(&input));
    assert!(stripped(&[], false).is_empty());
}
