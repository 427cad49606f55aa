use http_server::http::{response, route};

#[test]
fn home_request_gets_the_home_page() {
    assert_eq!(route("GET / HTTP/1.1"), ("HTTP/1.1 200 OK", "hello.html"));
}

#[test]
fn other_requests_get_not_found() {
    assert_eq!(route("GET /other HTTP/1.1"), ("HTTP/1.1 404 NOT FOUND", "404.html"));
    assert_eq!(route("POST / HTTP/1.1"), ("HTTP/1.1 404 NOT FOUND", "404.html"));
    assert_eq!(route("GET / HTTP/1.0"), ("HTTP/1.1 404 NOT FOUND", "404.html"));
    assert_eq!(route("get / http/1.1"), ("HTTP/1.1 404 NOT FOUND", "404.html"));
    assert_eq!(route("GET / HTTP/1.1 "), ("HTTP/1.1 404 NOT FOUND", "404.html"));
    assert_eq!(route(""), ("HTTP/1.1 404 NOT FOUND", "404.html"));
}

#[test]
fn response_carries_status_length_and_content() {
    assert_eq!(
        response("HTTP/1.1 200 OK", "<h1>Hello!</h1>"),
        "HTTP/1.1 200 OK\r\nContent-Length: 15\r\n\r\n<h1>Hello!</h1>"
    );
}

#[test]
fn response_to_empty_content_has_length_zero() {
    assert_eq!(response("HTTP/1.1 404 NOT FOUND", ""), "HTTP/1.1 404 NOT FOUND\r\nContent-Length: 0\r\n\r\n");
}

#[test]
fn response_length_has_no_leading_zeros() {
    assert_eq!(response("S", "123456789"), "S\r\nContent-Length: 9\r\n\r\n123456789");
    assert_eq!(response("S", "1234567890"), "S\r\nContent-Length: 10\r\n\r\n1234567890");
    let hundred = "x".repeat(100);
    assert_eq!(response("S", &hundred), format!("S\r\nContent-Length: 100\r\n\r\n{}", hundred));
    let long = "y".repeat(12_345);
    assert_eq!(response("S", &long), format!("S\r\nContent-Length: 12345\r\n\r\n{}", long));
    let round = "z".repeat(70_608);
    assert_eq!(response("S", &round), format!("S\r\nContent-Length: 70608\r\n\r\n{}", round));
}

#[test]
fn response_length_counts_bytes() {
    assert_eq!(response("S", "h\u{e9}llo"), "S\r\nContent-Length: 6\r\n\r\nh\u{e9}llo");
    assert_eq!(response("S", "\u{20ac}"), "S\r\nContent-Length: 3\r\n\r\n\u{20ac}");
}

#[test]
fn response_matches_the_formatted_text() {
    for content in ["", "a", "line one\nline two\n", "<!DOCTYPE html>\n<html></html>\n"] {
        for status in ["HTTP/1.1 200 OK", "HTTP/1.1 404 NOT FOUND"] {
            let length = content.len();
            let expected = format!("{status}\r\nContent-Length: {length}\r\n\r\n{content}");
            assert_eq!(response(status, content), expected);
        }
    }
}

#[test]
fn routed_response_for_the_home_page() {
    let (status, filename) = route("GET / HTTP/1.1");
    assert_eq!(filename, "hello.html");
    assert_eq!(response(status, "hi"), "HTTP/1.1 200 OK\r\nContent-Length: 2\r\n\r\nhi");
}
