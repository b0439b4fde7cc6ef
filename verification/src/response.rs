//! The capture of a completed HTTP call.

use vstd::prelude::*;
use crate::model::{find_header, header_value, rows_of, texts_of, Row};
use crate::text::{
    byte_len, bytes_of, content_length_bytes, content_length_name, decimal_length, parse_length,
};

verus! {

/// What the transport hands over when a call has completed, whatever its status.
#[derive(Clone, Debug, PartialEq, Eq)]
pub struct Reply {
    /// The URL that answered, after any redirects.
    pub url: String,
    pub status: u16,
    pub status_text: String,
    pub content_type: String,
    /// The response headers as received, in their order.
    pub headers: Vec<(String, String)>,
    /// The body as text; `None` where it could not be decoded.
    pub body: Option<String>,
}

/// What a reply holds.
pub struct ReplyView {
    pub url: Seq<char>,
    pub status: u16,
    pub status_text: Seq<char>,
    pub content_type: Seq<char>,
    pub headers: Seq<Row>,
    pub body: Option<Seq<char>>,
}

impl View for Reply {
    type V = ReplyView;

    open spec fn view(&self) -> ReplyView {
        ReplyView {
            url: self.url@,
            status: self.status,
            status_text: self.status_text@,
            content_type: self.content_type@,
            headers: rows_of(self.headers@),
            body: match self.body {
                Some(text) => Some(text@),
                None => None,
            },
        }
    }
}

/// A call that never completed: no connection, a timeout, a failed handshake.
#[derive(Clone, Debug, PartialEq, Eq)]
pub struct TransportFailure {
    pub reason: String,
}

/// The normalised capture of one completed call.
#[derive(Clone, Debug, PartialEq, Eq)]
pub struct Resource {
    pub url: String,
    pub body: String,
    pub headers: Vec<(String, String)>,
    pub length: usize,
    pub content_type: String,
    pub status: usize,
    pub status_text: String,
}

/// What a capture holds.
pub struct ResourceView {
    pub url: Seq<char>,
    pub body: Seq<char>,
    pub headers: Seq<Row>,
    pub length: usize,
    pub content_type: Seq<char>,
    pub status: usize,
    pub status_text: Seq<char>,
}

impl View for Resource {
    type V = ResourceView;

    open spec fn view(&self) -> ResourceView {
        ResourceView {
            url: self.url@,
            body: self.body@,
            headers: rows_of(self.headers@),
            length: self.length,
            content_type: self.content_type@,
            status: self.status,
            status_text: self.status_text@,
        }
    }
}

/// The length that the headers declare: the value of the first
/// `Content-Length` header, where it reads as a length.
pub open spec fn declared_length(headers: Seq<Row>) -> Option<usize> {
    match header_value(headers, content_length_name()) {
        Some(value) => decimal_length(bytes_of(value)),
        None => None,
    }
}

/// The body text of a reply: empty where the body could not be decoded.
pub open spec fn body_text(body: Option<Seq<char>>) -> Seq<char> {
    match body {
        Some(text) => text,
        None => Seq::empty(),
    }
}

/// The length of a capture: the declared one, else the byte length of the body text.
pub open spec fn capture_length(headers: Seq<Row>, body: Seq<char>) -> usize {
    match declared_length(headers) {
        Some(length) => length,
        None => byte_len(body) as usize,
    }
}

/// The capture of a reply.
pub open spec fn capture_of(reply: ReplyView) -> ResourceView {
    ResourceView {
        url: reply.url,
        body: body_text(reply.body),
        headers: reply.headers,
        length: capture_length(reply.headers, body_text(reply.body)),
        content_type: reply.content_type,
        status: reply.status as usize,
        status_text: reply.status_text,
    }
}

/// How often `name` stands among the first `upto` names.
pub open spec fn occurrences(names: Seq<Seq<char>>, name: Seq<char>, upto: int) -> nat
    decreases upto,
{
    if upto <= 0 {
        0
    } else {
        occurrences(names, name, upto - 1) + if names[upto - 1] == name {
            1nat
        } else {
            0nat
        }
    }
}

/// The value that belongs to the header at `index`: where its name stands
/// for the n-th time, the n-th of the values received under that name;
/// the empty text where the transport handed over fewer.
pub open spec fn value_received(
    names: Seq<Seq<char>>,
    values: Seq<Seq<Seq<char>>>,
    index: int,
) -> Seq<char> {
    let nth = occurrences(names, names[index], index) as int;
    if index < values.len() && nth < values[index].len() {
        values[index][nth]
    } else {
        Seq::empty()
    }
}

/// The texts of the value lists, one list for each header.
pub open spec fn value_texts(values: Seq<Vec<String>>) -> Seq<Seq<Seq<char>>> {
    Seq::new(values.len(), |i: int| texts_of(values[i]@))
}

/// Pairs the header names of a response, in the order received, with
/// their values. `values` holds for each name all the values received
/// under it, in order, so that a repeated name gets each of its values once.
pub fn headers_received(names: &Vec<String>, values: &Vec<Vec<String>>) -> (headers: Vec<
    (String, String),
>)
    ensures
        headers@.len() == names@.len(),
        forall|i: int|
            0 <= i < names@.len() ==> (#[trigger] headers@[i]).0@ == names@[i]@ && headers@[i].1@
                == value_received(texts_of(names@), value_texts(values@), i),
{
    let mut headers: Vec<(String, String)> = Vec::new();
    let mut i: usize = 0;
    while i < names.len()
        invariant
            i <= names.len(),
            headers@.len() == i,
            forall|k: int|
                0 <= k < i ==> (#[trigger] headers@[k]).0@ == names@[k]@ && headers@[k].1@
                    == value_received(texts_of(names@), value_texts(values@), k),
        decreases names.len() - i,
    {
        let mut nth: usize = 0;
        let mut j: usize = 0;
        while j < i
            invariant
                j <= i,
                i < names.len(),
                nth <= j,
                nth == occurrences(texts_of(names@), names@[i as int]@, j as int),
            decreases i - j,
        {
            if names[j] == names[i] {
                nth = nth + 1;
            }
            j = j + 1;
        }
        let value = if i < values.len() && nth < values[i].len() {
            values[i][nth].clone()
        } else {
            String::new()
        };
        headers.push((names[i].clone(), value));
        i = i + 1;
    }
    headers
}

impl Resource {
    /// Captures a completed call. A call that failed in transport leaves no capture.
    pub fn from_response(response: Result<Reply, TransportFailure>) -> (capture: Option<Resource>)
        ensures
            match response {
                Ok(reply) => capture.is_some() && capture.unwrap()@ == capture_of(reply@),
                Err(_) => capture.is_none(),
            },
    {
        match response {
            Ok(reply) => Some(Resource::from_reply(reply)),
            Err(_) => None,
        }
    }

    /// Captures a reply: the length is the one its headers declare, else
    /// the byte length of its body text.
    pub fn from_reply(reply: Reply) -> (capture: Resource)
        ensures
            capture@ == capture_of(reply@),
    {
        let name = content_length_bytes();
        let declared = match find_header(&reply.headers, name.as_slice()) {
            Some(value) => parse_length(value),
            None => None,
        };
        let body = match reply.body {
            Some(text) => text,
            None => String::new(),
        };
        let length: usize = match declared {
            Some(length) => length,
            None => body.as_str().len(),
        };
        Resource {
            url: reply.url,
            body,
            headers: reply.headers,
            length,
            content_type: reply.content_type,
            status: reply.status as usize,
            status_text: reply.status_text,
        }
    }
}

/// Where the headers declare a length, the capture has it, whatever the body.
pub proof fn lemma_length_declared(reply: ReplyView, length: usize)
    requires
        declared_length(reply.headers) == Some(length),
    ensures
        capture_of(reply).length == length,
{
}

/// Where no header is a `Content-Length` that reads as a length, the
/// capture's length is the byte length of its body text.
pub proof fn lemma_length_of_body(reply: ReplyView)
    requires
        declared_length(reply.headers).is_none(),
    ensures
        capture_of(reply).length == byte_len(capture_of(reply).body) as usize,
        reply.body.is_none() ==> capture_of(reply).body.len() == 0,
{
}

} // verus!
