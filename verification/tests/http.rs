use hello::http::Route;
use hello::http::build_response;
use hello::http::fmt_usize;
use hello::http::handle_request;
use hello::http::route_of;

#[test]
fn fmt_usize_exact_values() {
    assert_eq!(fmt_usize(0), "0");
    assert_eq!(fmt_usize(7), "7");
    assert_eq!(fmt_usize(10), "10");
    assert_eq!(fmt_usize(105), "105");
    assert_eq!(fmt_usize(98_007), "98007");
    assert_eq!(fmt_usize(usize::MAX), usize::MAX.to_string());
}

#[test]
fn route_of_matches_only_the_root_request() {
    assert_eq!(route_of("GET / HTTP/1.1"), Route::Home);
    assert_eq!(route_of(""), Route::NotFound);
    assert_eq!(route_of("GET /about HTTP/1.1"), Route::NotFound);
    assert_eq!(route_of("POST / HTTP/1.1"), Route::NotFound);
    assert_eq!(route_of("GET / HTTP/1.1 "), Route::NotFound);
    assert_eq!(route_of("get / http/1.1"), Route::NotFound);
}

#[test]
fn build_response_exact_text() {
    let r = build_response("HTTP/1.1 200 OK", "<html>hi</html>");
    assert_eq!(r, "HTTP/1.1 200 OK\r\nContent-Length: 15\r\n\r\n<html>hi</html>");
}

#[test]
fn build_response_empty_body() {
    let r = build_response("HTTP/1.1 404 NOT FOUND", "");
    assert_eq!(r, "HTTP/1.1 404 NOT FOUND\r\nContent-Length: 0\r\n\r\n");
}

#[test]
fn content_length_counts_bytes_not_chars() {
    // "h\u{e9}llo" is five characters but six bytes.
    let r = build_response("HTTP/1.1 200 OK", "h\u{e9}llo");
    assert_eq!(r, "HTTP/1.1 200 OK\r\nContent-Length: 6\r\n\r\nh\u{e9}llo");
}

#[test]
fn handle_request_serves_home_page() {
    let r = handle_request("GET / HTTP/1.1", "<p>welcome</p>", "<p>missing</p>");
    assert_eq!(r, "HTTP/1.1 200 OK\r\nContent-Length: 14\r\n\r\n<p>welcome</p>");
}

#[test]
fn handle_request_serves_not_found_page() {
    let r = handle_request("GET /other HTTP/1.1", "<p>welcome</p>", "<p>missing</p>");
    assert_eq!(
        r,
        "HTTP/1.1 404 NOT FOUND\r\nContent-Length: 14\r\n\r\n<p>missing</p>"
    );
}
