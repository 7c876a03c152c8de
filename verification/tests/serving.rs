use restc::http::{match_route, not_found_response, ok_response, parse_request, parse_request_text, RouteTable};

#[test]
fn request_line_and_body_are_read() {
    let req = parse_request(b"post /items HTTP/1.1\r\nHost: x\r\n\r\n{\"a\":1}").expect("a request");
    assert_eq!(req.method, "POST");
    assert_eq!(req.path, "/items");
    assert_eq!(req.body, "{\"a\":1}");
}

#[test]
fn request_without_blank_line_has_empty_body() {
    let req = parse_request(b"GET   /   HTTP/1.1").expect("a request");
    assert_eq!(req.method, "GET");
    assert_eq!(req.path, "/");
    assert_eq!(req.body, "");
}

#[test]
fn request_line_needs_method_and_path() {
    assert!(parse_request(b"").is_none());
    assert!(parse_request(b"GET\r\n\r\nbody").is_none());
    assert!(parse_request(b"\r\nGET / HTTP/1.1").is_none());
}

#[test]
fn invalid_bytes_are_replaced() {
    let req = parse_request(b"GET /\xff HTTP/1.1").expect("a request");
    assert_eq!(req.path, "/\u{FFFD}");
}

#[test]
fn ok_response_counts_body_bytes() {
    assert_eq!(
        ok_response("{}"),
        "HTTP/1.1 200 OK\r\nContent-Type: application/json\r\nContent-Length: 2\r\n\r\n{}"
    );
    assert!(ok_response("é").starts_with("HTTP/1.1 200 OK\r\nContent-Type: application/json\r\nContent-Length: 2\r\n"));
    assert_eq!(not_found_response(), "HTTP/1.1 404 NOT FOUND\r\nContent-Length: 9\r\n\r\nNot Found");
}

#[test]
fn later_registration_of_a_route_wins() {
    let mut t = RouteTable::new();
    t.insert("get", "/a", 0);
    t.insert("POST", "/a", 1);
    assert_eq!(t.lookup("GET", "/a"), Some(0));
    assert_eq!(t.lookup("get", "/a"), None);
    t.insert("Get", "/a", 5);
    assert_eq!(t.lookup("GET", "/a"), Some(5));
    assert_eq!(t.lookup("POST", "/a"), Some(1));
    assert_eq!(t.lookup("POST", "/b"), None);
}

#[test]
fn first_matching_route_ignores_ascii_case() {
    let routes = vec![
        ("post".to_string(), "/a".to_string()),
        ("get".to_string(), "/a".to_string()),
        ("GET".to_string(), "/a".to_string()),
    ];
    assert_eq!(match_route(&routes, "GET", "/a"), Some(1));
    assert_eq!(match_route(&routes, "Post", "/a"), Some(0));
    assert_eq!(match_route(&routes, "GET", "/b"), None);
    assert_eq!(match_route(&routes, "PUT", "/a"), None);
}

#[test]
fn request_text_keeps_method_as_written() {
    let req = parse_request_text("get /a\nx: y\r\n\r\n\r\nbody").expect("a request");
    assert_eq!(req.method, "get");
    assert_eq!(req.path, "/a");
    assert_eq!(req.body, "\r\nbody");
    let req = parse_request_text("\u{3000}PUT\u{2003}/x\r").expect("a request");
    assert_eq!(req.method, "PUT");
    assert_eq!(req.path, "/x");
}

#[test]
fn routes_keyed_as_given() {
    let mut t = RouteTable::new();
    t.insert_key("get".to_string(), "/a", 3);
    assert_eq!(t.lookup("get", "/a"), Some(3));
    assert_eq!(t.lookup("GET", "/a"), None);
}
