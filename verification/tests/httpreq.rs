use stealpool::httpreq::{
    build_response, method_supported, parse_request_line, resolve_path, status_line, to_decimal,
    Request, RequestError, RequestType,
};

#[test]
fn from_str_parses_every_method() {
    assert_eq!(RequestType::from_str("GET"), Ok(RequestType::GET));
    assert_eq!(RequestType::from_str("HEAD"), Ok(RequestType::HEAD));
    assert_eq!(RequestType::from_str("POST"), Ok(RequestType::POST));
    assert_eq!(RequestType::from_str("PUT"), Ok(RequestType::PUT));
    assert_eq!(RequestType::from_str("DELETE"), Ok(RequestType::DELETE));
    assert_eq!(RequestType::from_str("CONNECT"), Ok(RequestType::CONNECT));
    assert_eq!(RequestType::from_str("OPTIONS"), Ok(RequestType::OPTIONS));
    assert_eq!(RequestType::from_str("TRACE"), Ok(RequestType::TRACE));
    assert_eq!(RequestType::from_str("PATCH"), Ok(RequestType::PATCH));
}

#[test]
fn from_str_rejects_unknown_names() {
    assert_eq!(RequestType::from_str(""), Err(()));
    assert_eq!(RequestType::from_str("get"), Err(()));
    assert_eq!(RequestType::from_str("GETS"), Err(()));
    assert_eq!(RequestType::from_str("FOO"), Err(()));
}

#[test]
fn from_bytes_matches_from_str() {
    assert_eq!(RequestType::from_bytes("GET".as_bytes()), Ok(RequestType::GET));
    assert_eq!(RequestType::from_bytes("PATCHY".as_bytes()), Err(()));
}

#[test]
fn parse_request_line_accepts_a_get() {
    let r: Request = parse_request_line("GET /index.html HTTP/1.1".as_bytes()).unwrap();
    assert_eq!(r.method, RequestType::GET);
    assert_eq!(r.path, "/index.html".as_bytes().to_vec());
}

#[test]
fn parse_request_line_accepts_a_head_of_root() {
    let r: Request = parse_request_line("HEAD / HTTP/1.1".as_bytes()).unwrap();
    assert_eq!(r.method, RequestType::HEAD);
    assert_eq!(r.path, "/".as_bytes().to_vec());
}

#[test]
fn parse_request_line_wants_three_fields() {
    assert_eq!(
        parse_request_line("GET /index.html".as_bytes()).unwrap_err(),
        RequestError::BadRequestLine
    );
    assert_eq!(
        parse_request_line("GET /a HTTP/1.1 extra".as_bytes()).unwrap_err(),
        RequestError::BadRequestLine
    );
    assert_eq!(
        parse_request_line("GET  /a HTTP/1.1".as_bytes()).unwrap_err(),
        RequestError::BadRequestLine
    );
    assert_eq!(parse_request_line("".as_bytes()).unwrap_err(), RequestError::BadRequestLine);
}

#[test]
fn parse_request_line_wants_http_1_1() {
    assert_eq!(
        parse_request_line("GET / HTTP/1.0".as_bytes()).unwrap_err(),
        RequestError::UnsupportedVersion
    );
    assert_eq!(
        parse_request_line("GET / http/1.1".as_bytes()).unwrap_err(),
        RequestError::UnsupportedVersion
    );
}

#[test]
fn parse_request_line_wants_a_known_method() {
    assert_eq!(
        parse_request_line("FETCH / HTTP/1.1".as_bytes()).unwrap_err(),
        RequestError::InvalidMethod
    );
}

#[test]
fn only_get_and_head_are_served() {
    assert!(method_supported(RequestType::GET));
    assert!(method_supported(RequestType::HEAD));
    assert!(!method_supported(RequestType::POST));
    assert!(!method_supported(RequestType::DELETE));
}

#[test]
fn root_is_routed_to_the_default_page() {
    assert_eq!(resolve_path("/".as_bytes()), "./web/hello.html".as_bytes().to_vec());
}

#[test]
fn paths_are_rooted_under_the_web_directory() {
    assert_eq!(resolve_path("/hi.html".as_bytes()), "./web/hi.html".as_bytes().to_vec());
}

#[test]
fn status_lines_are_exact() {
    assert_eq!(status_line(true), "HTTP/1.1 200 OK".as_bytes().to_vec());
    assert_eq!(status_line(false), "HTTP/1.1 404 NOT FOUND".as_bytes().to_vec());
}

#[test]
fn decimal_rendering_is_exact() {
    assert_eq!(to_decimal(0), "0".as_bytes().to_vec());
    assert_eq!(to_decimal(7), "7".as_bytes().to_vec());
    assert_eq!(to_decimal(10), "10".as_bytes().to_vec());
    assert_eq!(to_decimal(12345), "12345".as_bytes().to_vec());
}

#[test]
fn get_response_carries_the_body() {
    let r = build_response(&status_line(true), "hi".as_bytes(), true);
    assert_eq!(r, "HTTP/1.1 200 OK\r\nContent-Length: 2\r\n\r\nhi".as_bytes().to_vec());
}

#[test]
fn head_response_keeps_the_length_but_drops_the_body() {
    let r = build_response(&status_line(false), "gone!".as_bytes(), false);
    assert_eq!(r, "HTTP/1.1 404 NOT FOUND\r\nContent-Length: 5\r\n\r\n".as_bytes().to_vec());
}
