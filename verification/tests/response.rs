use orient::model::find_header;
use orient::response::{headers_received, Reply, Resource, TransportFailure};
use orient::session::Session;
use orient::text::parse_length;

fn pair(key: &str, value: &str) -> (String, String) {
    (key.to_string(), value.to_string())
}

fn reply(headers: Vec<(String, String)>, body: Option<&str>) -> Reply {
    Reply {
        url: "http://localhost/api".to_string(),
        status: 200,
        status_text: "OK".to_string(),
        content_type: "application/json".to_string(),
        headers,
        body: body.map(|text| text.to_string()),
    }
}

const BODY_42: &str = "{\"message\": \"forty-two bytes of body...\"}\n";

#[test]
fn length_falls_back_to_the_body() {
    assert_eq!(BODY_42.len(), 42);
    let capture = Resource::from_response(Ok(reply(vec![pair("date", "today")], Some(BODY_42))));
    let capture = capture.unwrap();
    assert_eq!(capture.length, 42);
    assert_eq!(capture.body, BODY_42);
}

#[test]
fn length_comes_from_the_header() {
    let headers = vec![pair("date", "today"), pair("Content-Length", "100")];
    let capture = Resource::from_response(Ok(reply(headers, Some(BODY_42)))).unwrap();
    assert_eq!(capture.length, 100);
    let headers = vec![pair("content-length", "100")];
    let capture = Resource::from_response(Ok(reply(headers, Some("")))).unwrap();
    assert_eq!(capture.length, 100);
}

#[test]
fn a_declared_length_of_zero_is_taken() {
    let headers = vec![pair("content-length", "0")];
    let capture = Resource::from_reply(reply(headers, Some("abc")));
    assert_eq!(capture.length, 0);
}

#[test]
fn a_malformed_length_counts_as_absent() {
    for value in ["", "abc", "12a", "-1", "1 ", " 1", "1_000", "+", "99999999999999999999999999"] {
        let headers = vec![pair("content-length", value)];
        let capture = Resource::from_reply(reply(headers, Some("h\u{e9}llo")));
        assert_eq!(capture.length, 6);
    }
}

#[test]
fn the_first_length_header_decides() {
    let headers = vec![pair("content-length", "7"), pair("content-length", "9")];
    assert_eq!(Resource::from_reply(reply(headers, Some(""))).length, 7);
    let headers = vec![pair("content-length", "x"), pair("content-length", "9")];
    assert_eq!(Resource::from_reply(reply(headers, Some("ab"))).length, 2);
}

#[test]
fn an_undecodable_body_becomes_empty() {
    let capture = Resource::from_reply(reply(Vec::new(), None));
    assert_eq!(capture.body, "");
    assert_eq!(capture.length, 0);
}

#[test]
fn the_capture_keeps_what_was_received() {
    let headers = vec![pair("X-Two", "b"), pair("x-one", "a"), pair("X-Two", "c")];
    let mut received = reply(headers.clone(), Some("{}"));
    received.status = 404;
    received.status_text = "Not Found".to_string();
    let capture = Resource::from_response(Ok(received)).unwrap();
    assert_eq!(
        capture,
        Resource {
            url: "http://localhost/api".to_string(),
            body: "{}".to_string(),
            headers,
            length: 2,
            content_type: "application/json".to_string(),
            status: 404,
            status_text: "Not Found".to_string(),
        }
    );
}

#[test]
fn a_transport_failure_leaves_no_capture() {
    let failure = TransportFailure { reason: "connection refused".to_string() };
    assert_eq!(Resource::from_response(Err(failure)), None);
}

#[test]
fn parse_length_reads_decimal_digits() {
    assert_eq!(parse_length("0"), Some(0));
    assert_eq!(parse_length("100"), Some(100));
    assert_eq!(parse_length("+42"), Some(42));
    assert_eq!(parse_length("007"), Some(7));
    assert_eq!(parse_length(&usize::MAX.to_string()), Some(usize::MAX));
    assert_eq!(parse_length("340282366920938463463374607431768211456"), None);
    assert_eq!(parse_length("++1"), None);
    assert_eq!(parse_length("1+"), None);
    assert_eq!(parse_length("\u{661}"), None);
}

#[test]
fn parse_length_agrees_with_the_standard_parser() {
    for value in ["", "+", "-", "-0", "+0", "12", "1.5", "0x10", "18446744073709551615", "18446744073709551616", " 3"] {
        assert_eq!(parse_length(value), value.parse::<usize>().ok());
    }
}

#[test]
fn find_header_takes_the_first_match() {
    let headers = vec![pair("A", "1"), pair("Content-Length", "5"), pair("content-length", "6")];
    assert_eq!(find_header(&headers, b"content-length"), Some("5"));
    assert_eq!(find_header(&headers, b"a"), Some("1"));
    assert_eq!(find_header(&headers, b"b"), None);
}

#[test]
fn captures_arrive_in_completion_order() {
    let mut session = Session::new();
    let mut first = reply(Vec::new(), Some("first"));
    first.url = "http://localhost/slow".to_string();
    let mut second = reply(Vec::new(), Some("second"));
    second.url = "http://localhost/fast".to_string();
    assert!(!session.poll());
    assert!(session.resource.is_none());
    assert!(session.complete(Ok(second)));
    assert!(session.complete(Ok(first)));
    assert!(session.poll());
    assert_eq!(session.resource.as_ref().unwrap().url, "http://localhost/fast");
    assert!(session.poll());
    assert_eq!(session.resource.as_ref().unwrap().url, "http://localhost/slow");
    assert!(!session.poll());
    assert_eq!(session.resource.as_ref().unwrap().body, "first");
}

#[test]
fn a_failed_call_leaves_the_display_unchanged() {
    let mut session = Session::new();
    assert!(session.complete(Ok(reply(Vec::new(), Some("shown")))));
    assert!(session.poll());
    let failure = TransportFailure { reason: "timeout".to_string() };
    assert!(!session.complete(Err(failure)));
    assert!(!session.poll());
    assert_eq!(session.resource.as_ref().unwrap().body, "shown");
}

#[test]
fn a_repeated_header_gets_each_of_its_values() {
    let names = vec!["set-cookie".to_string(), "date".to_string(), "set-cookie".to_string()];
    let cookies = vec!["a=1".to_string(), "b=2".to_string()];
    let values = vec![cookies.clone(), vec!["today".to_string()], cookies];
    assert_eq!(
        headers_received(&names, &values),
        vec![pair("set-cookie", "a=1"), pair("date", "today"), pair("set-cookie", "b=2")]
    );
}

#[test]
fn a_header_without_a_value_gets_the_empty_text() {
    let names = vec!["x".to_string(), "x".to_string(), "y".to_string()];
    let values = vec![vec!["only".to_string()], vec!["only".to_string()]];
    assert_eq!(
        headers_received(&names, &values),
        vec![pair("x", "only"), pair("x", ""), pair("y", "")]
    );
    assert_eq!(headers_received(&Vec::new(), &values), Vec::new());
}
