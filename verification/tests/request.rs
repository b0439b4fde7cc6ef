use orient::method::{ContentType, Method};
use orient::model::{keyed_pairs, Location};
use orient::request::{
    append_queries, build_request, drop_named, fits, Outbound, Payload, URL_LIMIT,
};
use orient::text::name_is;

fn pair(key: &str, value: &str) -> (String, String) {
    (key.to_string(), value.to_string())
}

fn sample(method: Method, content_type: ContentType) -> Location {
    let mut location = Location::with_id(
        "id-1".to_string(),
        "sample".to_string(),
        "http://localhost/api".to_string(),
        method,
    );
    location.content_type = content_type;
    location.params = vec![pair("a", "1"), pair("", "skipped"), pair("b", ""), pair("a", "2")];
    location.form_params = vec![pair("", "x"), pair("user", "u"), pair("", ""), pair("pass", "p")];
    location.header = vec![pair("", ""), pair("Accept", "*/*"), pair("X-Trace", "t")];
    location.body = "{\"k\": 1}".to_string();
    location
}

#[test]
fn keyed_pairs_skips_empty_keys() {
    let pairs = vec![pair("", "v"), pair("k", ""), pair("", ""), pair("k", "again")];
    assert_eq!(keyed_pairs(&pairs), vec![pair("k", ""), pair("k", "again")]);
    assert_eq!(keyed_pairs(&Vec::new()), Vec::new());
}

#[test]
fn get_appends_keyed_params_in_order() {
    let outbound = build_request(&sample(Method::Get, ContentType::Json)).unwrap();
    assert_eq!(
        outbound,
        Outbound {
            method: "GET".to_string(),
            url: "http://localhost/api".to_string(),
            headers: vec![pair("Accept", "*/*"), pair("X-Trace", "t")],
            query: vec![pair("a", "1"), pair("b", ""), pair("a", "2")],
            target: "http://localhost/api?a=1&b=&a=2".to_string(),
            payload: Payload::Empty,
        }
    );
}

#[test]
fn get_sends_no_body_whatever_the_content_type() {
    let outbound = build_request(&sample(Method::Get, ContentType::FormUrlEncoded)).unwrap();
    assert_eq!(outbound.payload, Payload::Empty);
    assert_eq!(outbound.query, vec![pair("a", "1"), pair("b", ""), pair("a", "2")]);
}

#[test]
fn post_json_sets_the_content_type() {
    let outbound = build_request(&sample(Method::Post, ContentType::Json)).unwrap();
    assert_eq!(outbound.method, "POST");
    assert_eq!(
        outbound.headers,
        vec![
            pair("Accept", "*/*"),
            pair("X-Trace", "t"),
            pair("Content-Type", "application/json"),
        ]
    );
    assert!(outbound.query.is_empty());
    assert_eq!(outbound.target, "http://localhost/api");
    assert_eq!(outbound.payload, Payload::Text("{\"k\": 1}".to_string()));
}

#[test]
fn post_json_overrides_a_user_content_type() {
    let mut location = sample(Method::Post, ContentType::Json);
    location.header = vec![
        pair("Content-Type", "text/plain"),
        pair("Accept", "*/*"),
        pair("content-type", "text/html"),
        pair("CONTENT-TYPE", "x"),
        pair("Content-Typ", "kept"),
    ];
    let outbound = build_request(&location).unwrap();
    assert_eq!(
        outbound.headers,
        vec![
            pair("Accept", "*/*"),
            pair("Content-Typ", "kept"),
            pair("Content-Type", "application/json"),
        ]
    );
}

#[test]
fn a_user_content_type_stays_where_no_json_is_sent() {
    let mut location = sample(Method::Put, ContentType::Json);
    location.header = vec![pair("Content-Type", "text/plain")];
    assert_eq!(
        build_request(&location).unwrap().headers,
        vec![pair("Content-Type", "text/plain")]
    );
}

#[test]
fn post_form_sends_keyed_form_params() {
    let outbound = build_request(&sample(Method::Post, ContentType::FormUrlEncoded)).unwrap();
    assert_eq!(outbound.headers, vec![pair("Accept", "*/*"), pair("X-Trace", "t")]);
    assert_eq!(outbound.query, vec![pair("a", "1"), pair("b", ""), pair("a", "2")]);
    assert_eq!(outbound.target, "http://localhost/api?a=1&b=&a=2");
    assert_eq!(outbound.payload, Payload::Form(vec![pair("user", "u"), pair("pass", "p")]));
}

#[test]
fn post_form_data_is_a_bare_call() {
    let outbound = build_request(&sample(Method::Post, ContentType::FormData)).unwrap();
    assert_eq!(outbound.headers, vec![pair("Accept", "*/*"), pair("X-Trace", "t")]);
    assert!(outbound.query.is_empty());
    assert_eq!(outbound.payload, Payload::Empty);
}

#[test]
fn other_methods_are_bare_calls() {
    let cases = [
        (Method::Put, "PUT"),
        (Method::Patch, "PATCH"),
        (Method::Delete, "DELETE"),
        (Method::Head, "HEAD"),
    ];
    for (method, text) in cases {
        for content_type in [ContentType::Json, ContentType::FormUrlEncoded, ContentType::FormData] {
            let outbound = build_request(&sample(method, content_type)).unwrap();
            assert_eq!(outbound.method, text);
            assert_eq!(outbound.url, "http://localhost/api");
            assert_eq!(outbound.headers, vec![pair("Accept", "*/*"), pair("X-Trace", "t")]);
            assert!(outbound.query.is_empty());
            assert_eq!(outbound.target, "http://localhost/api");
            assert_eq!(outbound.payload, Payload::Empty);
        }
    }
}

#[test]
fn an_empty_url_is_passed_on() {
    let location = Location::with_id("i".to_string(), "n".to_string(), String::new(), Method::Get);
    let outbound = build_request(&location).unwrap();
    assert_eq!(outbound.url, "");
    assert_eq!(outbound.target, "");
    assert!(outbound.headers.is_empty());
    assert!(outbound.query.is_empty());
}

#[test]
fn name_is_ignores_ascii_case_only() {
    assert!(name_is("Content-Type", b"content-type"));
    assert!(name_is("CONTENT-TYPE", b"content-type"));
    assert!(name_is("content-type", b"content-type"));
    assert!(!name_is("content-type ", b"content-type"));
    assert!(!name_is("content_type", b"content-type"));
    assert!(!name_is("", b"content-type"));
    assert!(name_is("", b""));
    assert!(!name_is("\u{212a}", b"k"));
}

#[test]
fn drop_named_keeps_the_other_rows() {
    let pairs = vec![pair("A", "1"), pair("b", "2"), pair("a", "3")];
    assert_eq!(drop_named(&pairs, b"a"), vec![pair("b", "2")]);
    assert_eq!(drop_named(&pairs, b"c"), pairs);
}

#[test]
fn append_queries_encodes_the_pairs() {
    let pairs = vec![pair("q x", "a&b"), pair("n", "1")];
    assert_eq!(
        append_queries("http://host/p?x=1", &pairs),
        Some("http://host/p?x=1&q+x=a%26b&n=1".to_string())
    );
    assert_eq!(append_queries("http://host", &pairs), Some("http://host/?q+x=a%26b&n=1".to_string()));
    assert_eq!(append_queries("http://host/p", &Vec::new()), Some("http://host/p".to_string()));
    assert_eq!(
        append_queries("http://host/p#part", &pairs),
        Some("http://host/p?q+x=a%26b&n=1#part".to_string())
    );
}

#[test]
fn append_queries_leaves_a_url_without_host_alone() {
    let pairs = vec![pair("a", "1")];
    assert_eq!(append_queries("", &pairs), Some(String::new()));
    assert_eq!(append_queries("not a url", &pairs), Some("not a url".to_string()));
}

#[test]
fn get_with_params_on_an_unparsable_url() {
    let mut location = sample(Method::Get, ContentType::Json);
    location.url = "localhost/api".to_string();
    let outbound = build_request(&location).unwrap();
    assert_eq!(outbound.query, vec![pair("a", "1"), pair("b", ""), pair("a", "2")]);
    assert_eq!(outbound.target, "localhost/api");
}

#[test]
fn the_limit_is_sixteen_mebibytes() {
    assert_eq!(URL_LIMIT, 16 * 1024 * 1024);
    assert!(fits(""));
    assert!(fits(&"a".repeat(URL_LIMIT)));
    assert!(!fits(&"a".repeat(URL_LIMIT + 1)));
    assert!(!fits(&"\u{e9}".repeat(URL_LIMIT / 2 + 1)));
}

#[test]
fn a_pair_beyond_the_limit_gives_no_url() {
    let long = "k".repeat(URL_LIMIT + 1);
    assert_eq!(append_queries("http://host/p#part", &vec![pair(&long, "v")]), None);
    assert_eq!(append_queries("http://host/p#part", &vec![pair("k", &long)]), None);
    assert_eq!(append_queries("http://host/p", &vec![pair("a", "1"), pair("k", &long)]), None);
    let url = format!("http://host/{}", long);
    assert_eq!(append_queries(&url, &vec![pair("a", "1")]), None);
    assert_eq!(append_queries(&url, &Vec::new()), Some(url.clone()));
}

#[test]
fn a_pair_at_the_limit_is_appended() {
    let key = "k".repeat(URL_LIMIT);
    let target = append_queries("http://host/p#part", &vec![pair(&key, "v")]).unwrap();
    assert_eq!(target.len(), "http://host/p?=v#part".len() + URL_LIMIT);
    assert!(target.starts_with("http://host/p?kkk"));
    assert!(target.ends_with("kkk=v#part"));
    assert_eq!(append_queries(&target, &vec![pair("a", "1")]), None);
}

#[test]
fn a_request_beyond_the_limit_is_not_built() {
    let mut location = sample(Method::Get, ContentType::Json);
    location.params = vec![pair("a", "1"), pair("big", &"v".repeat(URL_LIMIT + 1))];
    assert_eq!(build_request(&location), None);
    location.method = Method::Post;
    location.content_type = ContentType::FormUrlEncoded;
    assert_eq!(build_request(&location), None);
    location.content_type = ContentType::Json;
    assert_eq!(build_request(&location).unwrap().target, "http://localhost/api");
    location.method = Method::Delete;
    location.url = format!("http://host/{}#f", "p".repeat(URL_LIMIT));
    assert_eq!(build_request(&location).unwrap().target, location.url);
}
