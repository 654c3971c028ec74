use hr_monitor::http::{
    build_response, classify_request, format_u128, render_reading_json, respond, starts_with,
    substitute_port, RequestKind,
};
use hr_monitor::store::Reading;

fn request(line: &str) -> Vec<u8> {
    // What an accepted connection's buffer starts with.
    format!("{line}\r\nHost: localhost\r\n\r\n").into_bytes()
}

#[test]
fn classify_recognises_the_two_prefixes() {
    assert_eq!(classify_request(&request("GET / HTTP/1.1")), RequestKind::RootPage);
    assert_eq!(
        classify_request(&request("GET /heart-rate HTTP/1.1")),
        RequestKind::HeartRateQuery
    );
    assert_eq!(classify_request(&request("GET /unknown HTTP/1.1")), RequestKind::NotFound);
    assert_eq!(classify_request(&request("POST / HTTP/1.1")), RequestKind::NotFound);
    assert_eq!(classify_request(b""), RequestKind::NotFound);
}

#[test]
fn starts_with_is_exact_prefix_matching() {
    assert!(starts_with(b"GET / HTTP/1.1", b"GET / HTTP"));
    assert!(!starts_with(b"GET /x HTTP/1.1", b"GET / HTTP"));
    assert!(!starts_with(b"GET", b"GET / HTTP"));
    assert!(starts_with(b"anything", b""));
}

#[test]
fn format_u128_renders_decimal() {
    assert_eq!(format_u128(0), b"0".to_vec());
    assert_eq!(format_u128(7), b"7".to_vec());
    assert_eq!(format_u128(72), b"72".to_vec());
    assert_eq!(format_u128(1000), b"1000".to_vec());
    assert_eq!(
        format_u128(u128::MAX),
        b"340282366920938463463374607431768211455".to_vec()
    );
}

#[test]
fn json_body_before_any_sample_is_the_sentinel() {
    assert_eq!(render_reading_json(None), b"{\"ts\": none, \"rate\": none}".to_vec());
}

#[test]
fn json_body_carries_timestamp_and_rate() {
    let body = render_reading_json(Some(Reading { ts_millis: 1000, value: 72 }));
    assert_eq!(body, b"{\"ts_millis\": 1000, \"rate\": 72}".to_vec());
}

#[test]
fn response_frames_status_type_and_exact_length() {
    let resp = build_response(b"HTTP/1.1 200 OK", b"text/html", b"hello");
    assert_eq!(
        resp,
        b"HTTP/1.1 200 OK\r\nContent-Type: text/html\r\nContent-Length: 5\r\n\r\nhello".to_vec()
    );
}

#[test]
fn heart_rate_query_before_any_sample() {
    let resp = respond(&request("GET /heart-rate HTTP/1.1"), b"<html></html>", None);
    let expected = "HTTP/1.1 200 OK\r\nContent-Type: application/json\r\nContent-Length: 26\r\n\r\n{\"ts\": none, \"rate\": none}";
    assert_eq!(resp, expected.as_bytes().to_vec());
}

#[test]
fn heart_rate_query_after_one_sample() {
    let resp = respond(
        &request("GET /heart-rate HTTP/1.1"),
        b"<html></html>",
        Some(Reading { ts_millis: 1000, value: 72 }),
    );
    let expected = "HTTP/1.1 200 OK\r\nContent-Type: application/json\r\nContent-Length: 31\r\n\r\n{\"ts_millis\": 1000, \"rate\": 72}";
    assert_eq!(resp, expected.as_bytes().to_vec());
}

#[test]
fn unknown_path_is_not_found_as_html() {
    let resp = respond(&request("GET /unknown HTTP/1.1"), b"<html></html>", None);
    let expected =
        "HTTP/1.1 404 NOT FOUND\r\nContent-Type: text/html\r\nContent-Length: 13\r\n\r\n404 Not Found";
    assert_eq!(resp, expected.as_bytes().to_vec());
}

#[test]
fn root_page_serves_the_html_body() {
    let resp = respond(&request("GET / HTTP/1.1"), b"<html>hi</html>", None);
    let expected = "HTTP/1.1 200 OK\r\nContent-Type: text/html\r\nContent-Length: 15\r\n\r\n<html>hi</html>";
    assert_eq!(resp, expected.as_bytes().to_vec());
}

#[test]
fn port_placeholder_is_substituted_everywhere() {
    let page = b"<a href=\"http://localhost:{{PORT}}\">{{PORT}}</a>";
    let out = substitute_port(page, 3030);
    assert_eq!(out, b"<a href=\"http://localhost:3030\">3030</a>".to_vec());
}

#[test]
fn page_without_placeholder_is_unchanged() {
    let page = b"<html>nothing to fill in</html>";
    assert_eq!(substitute_port(page, 8080), page.to_vec());
}
