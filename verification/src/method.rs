//! HTTP methods and body content types of a stored request.

use vstd::prelude::*;

verus! {

/// The HTTP method of a stored request.
#[derive(Clone, Copy, Debug, PartialEq, Eq, Structural)]
pub enum Method {
    Get,
    Post,
    Put,
    Patch,
    Delete,
    Head,
}

/// How the body of a stored request is serialised when it is sent.
#[derive(Clone, Copy, Debug, PartialEq, Eq, Structural)]
pub enum ContentType {
    Json,
    FormUrlEncoded,
    FormData,
}

/// The wire name of a method.
pub open spec fn method_text(method: Method) -> Seq<char> {
    match method {
        Method::Get => "GET"@,
        Method::Post => "POST"@,
        Method::Put => "PUT"@,
        Method::Patch => "PATCH"@,
        Method::Delete => "DELETE"@,
        Method::Head => "HEAD"@,
    }
}

/// The method that an upper-cased text names; `Get` for any other text.
pub open spec fn method_of_upper(upper: Seq<char>) -> Method {
    if upper == "POST"@ {
        Method::Post
    } else if upper == "PUT"@ {
        Method::Put
    } else if upper == "PATCH"@ {
        Method::Patch
    } else if upper == "DELETE"@ {
        Method::Delete
    } else if upper == "HEAD"@ {
        Method::Head
    } else {
        Method::Get
    }
}

/// The upper-case form of a text as `str::to_uppercase` computes it.
pub uninterp spec fn uppercase_of(text: Seq<char>) -> Seq<char>;

/// Calls `str::to_uppercase`, which maps every character to its Unicode
/// upper-case equivalent. The contract only names the result: it is a
/// function of the text alone.
#[verifier::external_body]
fn uppercase(text: &str) -> (upper: String)
    ensures
        upper@ == uppercase_of(text@),
{
    text.to_uppercase()
}

impl Default for Method {
    fn default() -> (method: Method)
        ensures
            method == Method::Get,
    {
        Method::Get
    }
}

impl Default for ContentType {
    fn default() -> (content_type: ContentType)
        ensures
            content_type == ContentType::Json,
    {
        ContentType::Json
    }
}

impl Method {
    /// The wire name of the method, in upper case.
    pub fn to_text(self: &Self) -> (text: String)
        ensures
            text@ == method_text(*self),
    {
        match self {
            Method::Get => "GET".to_owned(),
            Method::Post => "POST".to_owned(),
            Method::Put => "PUT".to_owned(),
            Method::Patch => "PATCH".to_owned(),
            Method::Delete => "DELETE".to_owned(),
            Method::Head => "HEAD".to_owned(),
        }
    }

    /// The method named by a text that is already in upper case.
    pub fn from_upper(upper: &String) -> (method: Method)
        ensures
            method == method_of_upper(upper@),
    {
        if *upper == "POST".to_owned() {
            Method::Post
        } else if *upper == "PUT".to_owned() {
            Method::Put
        } else if *upper == "PATCH".to_owned() {
            Method::Patch
        } else if *upper == "DELETE".to_owned() {
            Method::Delete
        } else if *upper == "HEAD".to_owned() {
            Method::Head
        } else {
            Method::Get
        }
    }

    /// The method named by a text, whatever its case; `Get` where the text
    /// names none.
    pub fn from_text(method: String) -> (result: Method)
        ensures
            result == method_of_upper(uppercase_of(method@)),
    {
        let upper = uppercase(method.as_str());
        Method::from_upper(&upper)
    }
}

/// Reading back the wire name of a method gives that method.
pub proof fn lemma_method_text_round_trip(method: Method)
    ensures
        method_of_upper(method_text(method)) == method,
{
    reveal_strlit("GET");
    reveal_strlit("POST");
    reveal_strlit("PUT");
    reveal_strlit("PATCH");
    reveal_strlit("DELETE");
    reveal_strlit("HEAD");
    assert("GET"@.len() == 3);
    assert("POST"@.len() == 4);
    assert("PUT"@.len() == 3);
    assert("PATCH"@.len() == 5);
    assert("DELETE"@.len() == 6);
    assert("HEAD"@.len() == 4);
    assert("GET"@[0] == 'G');
    assert("PUT"@[0] == 'P');
    assert("POST"@[0] == 'P');
    assert("HEAD"@[0] == 'H');
}

} // verus!
