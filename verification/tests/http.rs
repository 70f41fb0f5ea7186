use hello::http::{classify, decimal_text, response, Route};

#[test]
fn the_root_request_line_is_recognised() {
    assert_eq!(classify(b"GET / HTTP/1.1\r\n"), Route::Home);
    assert_eq!(classify(b"GET / HTTP/1.1\r\nHost: localhost\r\n\r\n"), Route::Home);
}

#[test]
fn the_sleep_request_line_is_recognised() {
    assert_eq!(classify(b"GET /sleep HTTP/1.1\r\n"), Route::Sleep);
    assert_eq!(classify(b"GET /sleep HTTP/1.1\r\nAccept: */*\r\n\r\n"), Route::Sleep);
}

#[test]
fn anything_else_is_not_found() {
    assert_eq!(classify(b""), Route::NotFound);
    assert_eq!(classify(b"GET / HTTP/1.1\r"), Route::NotFound);
    assert_eq!(classify(b"GET / HTTP/1.0\r\n"), Route::NotFound);
    assert_eq!(classify(b"GET /sleep HTTP/1.1\n"), Route::NotFound);
    assert_eq!(classify(b"GET /other HTTP/1.1\r\n"), Route::NotFound);
    assert_eq!(classify(b"POST / HTTP/1.1\r\n"), Route::NotFound);
    assert_eq!(classify(b" GET / HTTP/1.1\r\n"), Route::NotFound);
    assert_eq!(classify(b"get / http/1.1\r\n"), Route::NotFound);
}

#[test]
fn a_request_in_a_zero_filled_buffer_is_recognised() {
    let mut buffer = [0u8; 1024];
    let line = b"GET /sleep HTTP/1.1\r\n";
    buffer[..line.len()].copy_from_slice(line);
    assert_eq!(classify(&buffer), Route::Sleep);
    assert_eq!(classify(&[0u8; 1024]), Route::NotFound);
}

#[test]
fn each_route_has_its_status_line_page_and_delay() {
    assert_eq!(Route::Home.status_line(), "HTTP/1.1 200 OK");
    assert_eq!(Route::Sleep.status_line(), "HTTP/1.1 200 OK");
    assert_eq!(Route::NotFound.status_line(), "HTTP/1.1 404 Not Found");
    assert_eq!(Route::Home.page(), "hello.html");
    assert_eq!(Route::Sleep.page(), "hello.html");
    assert_eq!(Route::NotFound.page(), "404.html");
    assert_eq!(Route::Home.delay_seconds(), 0);
    assert_eq!(Route::Sleep.delay_seconds(), 5);
    assert_eq!(Route::NotFound.delay_seconds(), 0);
}

#[test]
fn numbers_are_written_in_decimal() {
    assert_eq!(decimal_text(0), "0");
    assert_eq!(decimal_text(7), "7");
    assert_eq!(decimal_text(9), "9");
    assert_eq!(decimal_text(10), "10");
    assert_eq!(decimal_text(205), "205");
    assert_eq!(decimal_text(1024), "1024");
    assert_eq!(decimal_text(9_876_543_210), "9876543210");
    assert_eq!(decimal_text(usize::MAX), usize::MAX.to_string());
}

#[test]
fn a_response_is_status_line_length_and_body() {
    assert_eq!(
        response("HTTP/1.1 200 OK", "hello"),
        "HTTP/1.1 200 OK\r\nContent-Length: 5\r\n\r\nhello"
    );
    assert_eq!(
        response("HTTP/1.1 404 Not Found", ""),
        "HTTP/1.1 404 Not Found\r\nContent-Length: 0\r\n\r\n"
    );
}

#[test]
fn the_length_of_a_response_counts_bytes() {
    assert_eq!(
        response("HTTP/1.1 200 OK", "h\u{e9}llo w\u{f6}rld"),
        "HTTP/1.1 200 OK\r\nContent-Length: 13\r\n\r\nh\u{e9}llo w\u{f6}rld"
    );
    let body = "x".repeat(1234);
    let text = response("HTTP/1.1 200 OK", &body);
    assert!(text.starts_with("HTTP/1.1 200 OK\r\nContent-Length: 1234\r\n\r\nxxx"));
    assert_eq!(text.len(), 15 + 18 + 4 + 4 + 1234);
}
