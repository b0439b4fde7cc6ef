//! The policy that turns a stored request into an outbound call.

use vstd::prelude::*;
use vstd::utf8::{is_ascii_chars, is_ascii_chars_encode_utf8};
use crate::method::{method_text, ContentType, Method};
use crate::model::{
    header_value, keyed, keyed_pairs, lemma_header_value_last, lemma_keyed_members, rows_of,
    Location, LocationView, Row,
};
use crate::text::{
    ascii_lower, byte_len, bytes_of, content_type_bytes, content_type_name, is_named, name_is,
};

verus! {

/// The body of an outbound call.
#[derive(Clone, Debug, PartialEq, Eq)]
pub enum Payload {
    /// No body is sent.
    Empty,
    /// The text is sent as it is.
    Text(String),
    /// The pairs are sent as a URL-encoded form.
    Form(Vec<(String, String)>),
}

/// What a payload holds.
pub enum PayloadView {
    Empty,
    Text(Seq<char>),
    Form(Seq<Row>),
}

impl View for Payload {
    type V = PayloadView;

    open spec fn view(&self) -> PayloadView {
        match self {
            Payload::Empty => PayloadView::Empty,
            Payload::Text(text) => PayloadView::Text(text@),
            Payload::Form(pairs) => PayloadView::Form(rows_of(pairs@)),
        }
    }
}

/// A concrete outbound call: everything the transport needs to send it.
#[derive(Clone, Debug, PartialEq, Eq)]
pub struct Outbound {
    pub method: String,
    /// The URL of the stored request.
    pub url: String,
    /// The request headers, in the order in which they are set.
    pub headers: Vec<(String, String)>,
    /// The query parameters, in order.
    pub query: Vec<(String, String)>,
    /// The URL to call: `url` with the query parameters appended.
    pub target: String,
    pub payload: Payload,
}

/// What an outbound call holds.
pub struct OutboundView {
    pub method: Seq<char>,
    pub url: Seq<char>,
    pub headers: Seq<Row>,
    pub query: Seq<Row>,
    pub target: Seq<char>,
    pub payload: PayloadView,
}

impl View for Outbound {
    type V = OutboundView;

    open spec fn view(&self) -> OutboundView {
        OutboundView {
            method: self.method@,
            url: self.url@,
            headers: rows_of(self.headers@),
            query: rows_of(self.query@),
            target: self.target@,
            payload: self.payload@,
        }
    }
}

/// The most bytes that a URL, a key or a value may have when a query
/// parameter is appended: 16 MiB.
pub const URL_LIMIT: usize = 16777216;

/// Whether a text is short enough to take part in appending a query parameter.
pub open spec fn within_limit(text: Seq<char>) -> bool {
    byte_len(text) <= URL_LIMIT
}

/// The URL that `ureq::Request::query` leaves in a request for `url` when
/// it appends the query parameter `key`, `value`.
pub uninterp spec fn url_with_query(url: Seq<char>, key: Seq<char>, value: Seq<char>) -> Seq<char>;

/// Calls `ureq::Request::query` on a request for `url` and reads the
/// request's URL back. That method parses the URL, appends the pair to its
/// query in percent-encoded form and writes the URL out again; a URL that
/// does not parse, or has no host, it leaves as it is. The method of the
/// request plays no part in this. The contract only names the result: it
/// is a function of the three texts alone.
///
/// The URL type behind that method counts the bytes of a URL in 32 bits
/// and stops the program where a URL with a fragment outgrows them. The
/// three texts are therefore held to `URL_LIMIT` bytes each: written out
/// with every byte percent-encoded they stay far below 4 GiB together.
#[verifier::external_body]
fn append_query(url: &str, key: &str, value: &str) -> (next: String)
    requires
        within_limit(url@),
        within_limit(key@),
        within_limit(value@),
    ensures
        next@ == url_with_query(url@, key@, value@),
{
    ureq::request("GET", url).query(key, value).url().to_string()
}

/// The URL after the rows were appended as query parameters, one after the other.
pub open spec fn url_with_queries(url: Seq<char>, rows: Seq<Row>) -> Seq<char>
    decreases rows.len(),
{
    if rows.len() == 0 {
        url
    } else {
        url_with_query(url_with_queries(url, rows.drop_last()), rows.last().0, rows.last().1)
    }
}

/// Whether the rows can be appended one after the other: each key and
/// value, and the URL that each of them is appended to, is within the limit.
pub open spec fn queries_within_limit(url: Seq<char>, rows: Seq<Row>) -> bool
    decreases rows.len(),
{
    if rows.len() == 0 {
        true
    } else {
        &&& queries_within_limit(url, rows.drop_last())
        &&& within_limit(url_with_queries(url, rows.drop_last()))
        &&& within_limit(rows.last().0)
        &&& within_limit(rows.last().1)
    }
}

/// Rows that cannot be appended up to some point cannot be appended as a whole.
pub proof fn lemma_limit_passed_stays_passed(url: Seq<char>, rows: Seq<Row>, k: int)
    requires
        0 <= k <= rows.len(),
        !queries_within_limit(url, rows.take(k)),
    ensures
        !queries_within_limit(url, rows),
    decreases rows.len(),
{
    if k == rows.len() {
        assert(rows.take(k) =~= rows);
    } else {
        assert(rows.drop_last().take(k) =~= rows.take(k));
        lemma_limit_passed_stays_passed(url, rows.drop_last(), k);
    }
}

/// Tells whether a text has at most `URL_LIMIT` bytes.
pub fn fits(text: &str) -> (short: bool)
    ensures
        short == within_limit(text@),
{
    text.as_bytes().len() <= URL_LIMIT
}

/// Appends the pairs to a URL as query parameters, in their order. There
/// is no URL where a key, a value or the URL that one of them would be
/// appended to is beyond the limit.
pub fn append_queries(url: &str, pairs: &Vec<(String, String)>) -> (target: Option<String>)
    ensures
        target.is_some() == queries_within_limit(url@, rows_of(pairs@)),
        target.is_some() ==> target.unwrap()@ == url_with_queries(url@, rows_of(pairs@)),
{
    let ghost rows = rows_of(pairs@);
    let mut target = url.to_owned();
    let mut i: usize = 0;
    assert(rows.take(0) =~= Seq::<Row>::empty());
    while i < pairs.len()
        invariant
            rows == rows_of(pairs@),
            i <= pairs.len(),
            queries_within_limit(url@, rows.take(i as int)),
            target@ == url_with_queries(url@, rows.take(i as int)),
        decreases pairs.len() - i,
    {
        assert(rows.take(i + 1).drop_last() =~= rows.take(i as int));
        assert(rows.take(i + 1).last() == rows[i as int]);
        let key = pairs[i].0.as_str();
        let value = pairs[i].1.as_str();
        if !fits(target.as_str()) || !fits(key) || !fits(value) {
            proof {
                lemma_limit_passed_stays_passed(url@, rows, i + 1);
            }
            return None;
        }
        target = append_query(target.as_str(), key, value);
        i = i + 1;
    }
    assert(rows.take(i as int) =~= rows);
    Some(target)
}

/// The rows whose key is not the header name `lower`, ignoring ASCII case.
pub open spec fn without_name(rows: Seq<Row>, lower: Seq<u8>) -> Seq<Row> {
    rows.filter(|row: Row| !is_named(row.0, lower))
}

/// Whether a request of this method and content type carries a JSON body.
pub open spec fn sends_json(location: LocationView) -> bool {
    location.method == Method::Post && location.content_type == ContentType::Json
}

/// Whether a request of this method and content type carries a URL-encoded form.
pub open spec fn sends_form(location: LocationView) -> bool {
    location.method == Method::Post && location.content_type == ContentType::FormUrlEncoded
}

/// The headers of the outbound call: the rows with a key, and for a JSON
/// body the JSON content type in place of any content type among them.
pub open spec fn outbound_headers(location: LocationView) -> Seq<Row> {
    if sends_json(location) {
        without_name(keyed(location.header), content_type_name()).push(
            ("Content-Type"@, "application/json"@),
        )
    } else {
        keyed(location.header)
    }
}

/// The query parameters of the outbound call.
pub open spec fn outbound_query(location: LocationView) -> Seq<Row> {
    if location.method == Method::Get || sends_form(location) {
        keyed(location.params)
    } else {
        Seq::empty()
    }
}

/// The body of the outbound call.
pub open spec fn outbound_payload(location: LocationView) -> PayloadView {
    if sends_json(location) {
        PayloadView::Text(location.body)
    } else if sends_form(location) {
        PayloadView::Form(keyed(location.form_params))
    } else {
        PayloadView::Empty
    }
}

/// Whether the outbound call of a stored request can be built: its query
/// parameters can be appended to its URL.
pub open spec fn can_build(location: LocationView) -> bool {
    queries_within_limit(location.url, outbound_query(location))
}

/// The outbound call that a stored request stands for.
pub open spec fn outbound_of(location: LocationView) -> OutboundView {
    OutboundView {
        method: method_text(location.method),
        url: location.url,
        headers: outbound_headers(location),
        query: outbound_query(location),
        target: url_with_queries(location.url, outbound_query(location)),
        payload: outbound_payload(location),
    }
}

/// Copies the pairs whose key is not the header name `lower`, ignoring ASCII case.
pub fn drop_named(pairs: &Vec<(String, String)>, lower: &[u8]) -> (kept: Vec<(String, String)>)
    ensures
        rows_of(kept@) == without_name(rows_of(pairs@), lower@),
{
    let mut kept: Vec<(String, String)> = Vec::new();
    let mut i: usize = 0;
    proof {
        reveal(Seq::filter);
        assert(rows_of(pairs@).take(0) =~= Seq::<Row>::empty());
        assert(rows_of(kept@) =~= Seq::<Row>::empty());
    }
    while i < pairs.len()
        invariant
            i <= pairs.len(),
            rows_of(kept@) == without_name(rows_of(pairs@).take(i as int), lower@),
        decreases pairs.len() - i,
    {
        let ghost before = rows_of(pairs@).take(i as int);
        let ghost row = rows_of(pairs@)[i as int];
        proof {
            reveal(Seq::filter);
            assert(before.push(row).drop_last() =~= before);
            assert(rows_of(pairs@).take(i + 1) =~= before.push(row));
        }
        let ghost kept_before = kept@;
        if !name_is(pairs[i].0.as_str(), lower) {
            let key = pairs[i].0.clone();
            let value = pairs[i].1.clone();
            kept.push((key, value));
            assert(rows_of(kept@) =~= rows_of(kept_before).push(row));
        }
        i = i + 1;
    }
    assert(rows_of(pairs@).take(i as int) =~= rows_of(pairs@));
    kept
}

/// Builds the outbound call for a stored request. There is none where a
/// query parameter cannot be appended for its size.
pub fn build_request(location: &Location) -> (outbound: Option<Outbound>)
    ensures
        outbound.is_some() == can_build(location@),
        outbound.is_some() ==> outbound.unwrap()@ == outbound_of(location@),
{
    let sent = keyed_pairs(&location.header);
    let json = location.method == Method::Post && location.content_type == ContentType::Json;
    let form = location.method == Method::Post && location.content_type
        == ContentType::FormUrlEncoded;
    let headers = if json {
        let name = content_type_bytes();
        let mut kept = drop_named(&sent, name.as_slice());
        let ghost kept_before = kept@;
        kept.push(("Content-Type".to_owned(), "application/json".to_owned()));
        assert(rows_of(kept@) =~= rows_of(kept_before).push(
            ("Content-Type"@, "application/json"@),
        ));
        kept
    } else {
        sent
    };
    let query = if location.method == Method::Get || form {
        keyed_pairs(&location.params)
    } else {
        let none: Vec<(String, String)> = Vec::new();
        assert(rows_of(none@) =~= Seq::<Row>::empty());
        none
    };
    let payload = if json {
        Payload::Text(location.body.clone())
    } else if form {
        Payload::Form(keyed_pairs(&location.form_params))
    } else {
        Payload::Empty
    };
    match append_queries(location.url.as_str(), &query) {
        Some(target) => Some(
            Outbound {
                method: location.method.to_text(),
                url: location.url.clone(),
                headers,
                query,
                target,
                payload,
            },
        ),
        None => None,
    }
}

/// A GET request carries no body, and its query parameters are the
/// parameter rows that have a key, in their order and no others.
pub proof fn lemma_get_query(location: LocationView)
    requires
        location.method == Method::Get,
    ensures
        outbound_of(location).payload == PayloadView::Empty,
        outbound_of(location).query == keyed(location.params),
        outbound_of(location).target == url_with_queries(location.url, keyed(location.params)),
        forall|row: Row| #[trigger]
            outbound_of(location).query.contains(row) <==> location.params.contains(row)
                && row.0.len() > 0,
{
    lemma_keyed_members(location.params);
}

/// A call without query parameters can always be built, and goes to the
/// URL of its stored request as it is.
pub proof fn lemma_bare_target(location: LocationView)
    requires
        location.method != Method::Get,
        !sends_form(location),
    ensures
        can_build(location),
        outbound_of(location).query.len() == 0,
        outbound_of(location).target == location.url,
{
}

/// A call whose stored request has no parameter row with a key can always
/// be built, and goes to the URL of its stored request as it is.
pub proof fn lemma_no_params_target(location: LocationView)
    requires
        keyed(location.params).len() == 0,
    ensures
        can_build(location),
        outbound_of(location).target == location.url,
{
}

/// A call with one query parameter can be built exactly when its URL, the
/// key and the value are within the limit.
pub proof fn lemma_one_param(location: LocationView)
    requires
        location.method == Method::Get,
        keyed(location.params).len() == 1,
    ensures
        can_build(location) <==> within_limit(location.url) && within_limit(
            keyed(location.params)[0].0,
        ) && within_limit(keyed(location.params)[0].1),
{
    let rows = keyed(location.params);
    assert(rows.drop_last().len() == 0);
    assert(queries_within_limit(location.url, rows.drop_last()));
    assert(url_with_queries(location.url, rows.drop_last()) == location.url);
}

/// The text `Content-Type` is a content type header name.
pub proof fn lemma_content_type_is_named()
    ensures
        is_named("Content-Type"@, content_type_name()),
{
    reveal_strlit("Content-Type");
    let name = "Content-Type"@;
    assert(name.len() == 12);
    assert(is_ascii_chars(name));
    is_ascii_chars_encode_utf8(name);
    let bytes = bytes_of(name);
    let lower = content_type_name();
    assert forall|i: int| 0 <= i < bytes.len() implies ascii_lower(#[trigger] bytes[i]) == lower[i] by {
        assert(bytes[i] == name[i] as u8);
    }
}

/// A POST request with JSON content sends its body text as it is, and its
/// content type header is the JSON one: the last header is
/// `Content-Type: application/json`, no header before it is a content type,
/// whatever the request's own header rows say, and so the content type
/// that a reader of the headers finds is `application/json`.
pub proof fn lemma_json_content_type(location: LocationView)
    requires
        location.method == Method::Post,
        location.content_type == ContentType::Json,
    ensures
        outbound_of(location).payload == PayloadView::Text(location.body),
        outbound_of(location).headers.len() > 0,
        outbound_of(location).headers.last() == ("Content-Type"@, "application/json"@),
        forall|i: int|
            0 <= i < outbound_of(location).headers.len() - 1 ==> !is_named(
                (#[trigger] outbound_of(location).headers[i]).0,
                content_type_name(),
            ),
        header_value(outbound_of(location).headers, content_type_name()) == Some(
            "application/json"@,
        ),
{
    let sent = keyed(location.header);
    let pred = |row: Row| !is_named(row.0, content_type_name());
    let kept = without_name(sent, content_type_name());
    assert forall|i: int| 0 <= i < kept.len() implies !is_named(
        (#[trigger] kept[i]).0,
        content_type_name(),
    ) by {
        sent.lemma_filter_pred(pred, i);
    }
    lemma_content_type_is_named();
    lemma_header_value_last(outbound_of(location).headers, content_type_name());
}

/// A POST request with URL-encoded content sends as its form exactly the
/// form rows that have a key, in their order: no row with an empty key is
/// part of the body.
pub proof fn lemma_form_body(location: LocationView)
    requires
        location.method == Method::Post,
        location.content_type == ContentType::FormUrlEncoded,
    ensures
        outbound_of(location).payload == PayloadView::Form(keyed(location.form_params)),
        outbound_of(location).query == keyed(location.params),
        forall|row: Row| #[trigger]
            keyed(location.form_params).contains(row) <==> location.form_params.contains(row)
                && row.0.len() > 0,
{
    lemma_keyed_members(location.form_params);
}

/// Every header row with a key is set on the call, whatever the method;
/// only where a JSON body is sent, the rows that are a content type give
/// way to the JSON one.
pub proof fn lemma_headers_kept(location: LocationView, row: Row)
    requires
        location.header.contains(row),
        row.0.len() > 0,
        !sends_json(location) || !is_named(row.0, content_type_name()),
    ensures
        outbound_of(location).headers.contains(row),
{
    let sent = keyed(location.header);
    lemma_keyed_members(location.header);
    assert(sent.contains(row));
    if sends_json(location) {
        let pred = |row: Row| !is_named(row.0, content_type_name());
        let kept = without_name(sent, content_type_name());
        let i = choose|i: int| 0 <= i < sent.len() && sent[i] == row;
        sent.lemma_filter_contains(pred, i);
        let k = choose|k: int| 0 <= k < kept.len() && kept[k] == row;
        assert(outbound_of(location).headers[k] == row);
    }
}

/// Every header row of an outbound call has a key.
pub proof fn lemma_headers_have_keys(location: LocationView)
    ensures
        forall|i: int|
            0 <= i < outbound_of(location).headers.len() ==> (#[trigger] outbound_of(
                location,
            ).headers[i]).0.len() > 0,
{
    let sent = keyed(location.header);
    lemma_keyed_members(sent);
    lemma_keyed_members(location.header);
    let headers = outbound_of(location).headers;
    assert forall|i: int| 0 <= i < headers.len() implies (#[trigger] headers[i]).0.len() > 0 by {
        if sends_json(location) {
            let pred = |row: Row| !is_named(row.0, content_type_name());
            let kept = without_name(sent, content_type_name());
            if i < kept.len() {
                assert(kept.contains(kept[i]));
                sent.lemma_filter_contains_rev(pred, kept[i]);
                assert(sent.contains(kept[i]));
            } else {
                reveal_strlit("Content-Type");
                assert("Content-Type"@.len() == 12);
            }
        } else {
            assert(sent.contains(sent[i]));
        }
    }
}

} // verus!
