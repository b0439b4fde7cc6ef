//! Stored requests, the directories that group them, and the
//! key-value rows they are made of.

use vstd::prelude::*;
use crate::method::{ContentType, Method};
use crate::text::{is_named, name_is};

verus! {

/// A key-value row as contracts see it.
pub type Row = (Seq<char>, Seq<char>);

/// The rows of a list of string pairs.
pub open spec fn rows_of(pairs: Seq<(String, String)>) -> Seq<Row> {
    Seq::new(pairs.len(), |i: int| (pairs[i].0@, pairs[i].1@))
}

/// The rows that are sent: those whose key is not empty, in their order.
pub open spec fn keyed(rows: Seq<Row>) -> Seq<Row> {
    rows.filter(|row: Row| row.0.len() > 0)
}

/// Appending a row to a list appends it to the sent rows exactly when its key is not empty.
pub proof fn lemma_keyed_push(rows: Seq<Row>, row: Row)
    ensures
        keyed(rows.push(row)) == if row.0.len() > 0 {
            keyed(rows).push(row)
        } else {
            keyed(rows)
        },
{
    reveal(Seq::filter);
    assert(rows.push(row).drop_last() =~= rows);
}

/// The sent rows are rows of the list, none has an empty key, and every row
/// of the list with a key is among them.
pub proof fn lemma_keyed_members(rows: Seq<Row>)
    ensures
        forall|row: Row| #[trigger] keyed(rows).contains(row) <==> rows.contains(row) && row.0.len() > 0,
        keyed(rows).len() <= rows.len(),
{
    let pred = |row: Row| row.0.len() > 0;
    rows.lemma_filter_len(pred);
    assert forall|row: Row| #[trigger] keyed(rows).contains(row) <==> rows.contains(row) && row.0.len() > 0 by {
        if keyed(rows).contains(row) {
            let i = choose|i: int| 0 <= i < keyed(rows).len() && keyed(rows)[i] == row;
            rows.lemma_filter_pred(pred, i);
            rows.lemma_filter_contains_rev(pred, row);
        }
        if rows.contains(row) && row.0.len() > 0 {
            let i = choose|i: int| 0 <= i < rows.len() && rows[i] == row;
            rows.lemma_filter_contains(pred, i);
        }
    }
}

/// Copies the pairs whose key is not empty, in their order.
pub fn keyed_pairs(pairs: &Vec<(String, String)>) -> (sent: Vec<(String, String)>)
    ensures
        rows_of(sent@) == keyed(rows_of(pairs@)),
{
    let mut sent: Vec<(String, String)> = Vec::new();
    let mut i: usize = 0;
    proof {
        reveal(Seq::filter);
        assert(rows_of(pairs@).take(0) =~= Seq::<Row>::empty());
        assert(rows_of(sent@) =~= Seq::<Row>::empty());
    }
    while i < pairs.len()
        invariant
            i <= pairs.len(),
            rows_of(sent@) == keyed(rows_of(pairs@).take(i as int)),
        decreases pairs.len() - i,
    {
        let ghost before = rows_of(pairs@).take(i as int);
        let ghost row = rows_of(pairs@)[i as int];
        proof {
            lemma_keyed_push(before, row);
            assert(rows_of(pairs@).take(i + 1) =~= before.push(row));
        }
        let ghost sent_before = sent@;
        if !pairs[i].0.as_str().is_empty() {
            let key = pairs[i].0.clone();
            let value = pairs[i].1.clone();
            sent.push((key, value));
            assert(rows_of(sent@) =~= rows_of(sent_before).push(row));
        }
        i = i + 1;
    }
    assert(rows_of(pairs@).take(i as int) =~= rows_of(pairs@));
    sent
}

/// The value of the first header whose name is `lower`, ignoring ASCII case.
pub open spec fn header_value(rows: Seq<Row>, lower: Seq<u8>) -> Option<Seq<char>>
    decreases rows.len(),
{
    if rows.len() == 0 {
        None
    } else if is_named(rows[0].0, lower) {
        Some(rows[0].1)
    } else {
        header_value(rows.drop_first(), lower)
    }
}

/// Finds the value of the first header named `lower`, ignoring ASCII case.
pub fn find_header<'a>(headers: &'a Vec<(String, String)>, lower: &[u8]) -> (value: Option<&'a str>)
    ensures
        match value {
            Some(text) => header_value(rows_of(headers@), lower@) == Some(text@),
            None => header_value(rows_of(headers@), lower@).is_none(),
        },
{
    let ghost rows = rows_of(headers@);
    let mut i: usize = 0;
    assert(rows.skip(0) =~= rows);
    while i < headers.len()
        invariant
            rows == rows_of(headers@),
            i <= headers.len(),
            header_value(rows, lower@) == header_value(rows.skip(i as int), lower@),
        decreases headers.len() - i,
    {
        let ghost rest = rows.skip(i as int);
        assert(rest[0] == rows[i as int]);
        assert(rest.drop_first() =~= rows.skip(i + 1));
        if name_is(headers[i].0.as_str(), lower) {
            return Some(headers[i].1.as_str());
        }
        i = i + 1;
    }
    assert(rows.skip(i as int).len() == 0);
    None
}

/// Where only the last row is named `lower`, its value is the one found.
pub proof fn lemma_header_value_last(rows: Seq<Row>, lower: Seq<u8>)
    requires
        rows.len() > 0,
        is_named(rows.last().0, lower),
        forall|i: int| 0 <= i < rows.len() - 1 ==> !is_named((#[trigger] rows[i]).0, lower),
    ensures
        header_value(rows, lower) == Some(rows.last().1),
    decreases rows.len(),
{
    if rows.len() > 1 {
        let rest = rows.drop_first();
        assert(rest.last() == rows.last());
        assert forall|i: int| 0 <= i < rest.len() - 1 implies !is_named(
            (#[trigger] rest[i]).0,
            lower,
        ) by {
            assert(rest[i] == rows[i + 1]);
        }
        lemma_header_value_last(rest, lower);
    }
}

/// One stored request.
#[derive(Clone, Debug, PartialEq, Eq)]
pub struct Location {
    pub id: String,
    pub name: String,
    pub url: String,
    pub method: Method,
    pub params: Vec<(String, String)>,
    pub body: String,
    pub form_params: Vec<(String, String)>,
    pub header: Vec<(String, String)>,
    pub content_type: ContentType,
}

/// What a stored request holds.
pub struct LocationView {
    pub id: Seq<char>,
    pub name: Seq<char>,
    pub url: Seq<char>,
    pub method: Method,
    pub params: Seq<Row>,
    pub body: Seq<char>,
    pub form_params: Seq<Row>,
    pub header: Seq<Row>,
    pub content_type: ContentType,
}

impl View for Location {
    type V = LocationView;

    open spec fn view(&self) -> LocationView {
        LocationView {
            id: self.id@,
            name: self.name@,
            url: self.url@,
            method: self.method,
            params: rows_of(self.params@),
            body: self.body@,
            form_params: rows_of(self.form_params@),
            header: rows_of(self.header@),
            content_type: self.content_type,
        }
    }
}

/// What a new request starts from: no parameters, no
/// body, one blank header row, JSON content.
pub open spec fn fresh_location(
    id: Seq<char>,
    name: Seq<char>,
    url: Seq<char>,
    method: Method,
) -> LocationView {
    LocationView {
        id,
        name,
        url,
        method,
        params: Seq::empty(),
        body: Seq::empty(),
        form_params: Seq::empty(),
        header: seq![(Seq::<char>::empty(), Seq::<char>::empty())],
        content_type: ContentType::Json,
    }
}

/// The request that holds nothing: empty texts, no rows, a GET with
/// JSON content.
pub open spec fn blank_location() -> LocationView {
    LocationView {
        id: Seq::empty(),
        name: Seq::empty(),
        url: Seq::empty(),
        method: Method::Get,
        params: Seq::empty(),
        body: Seq::empty(),
        form_params: Seq::empty(),
        header: Seq::empty(),
        content_type: ContentType::Json,
    }
}

impl Default for Location {
    fn default() -> (location: Location)
        ensures
            location@ == blank_location(),
    {
        let location = Location {
            id: String::new(),
            name: String::new(),
            url: String::new(),
            method: Method::Get,
            params: Vec::new(),
            body: String::new(),
            form_params: Vec::new(),
            header: Vec::new(),
            content_type: ContentType::Json,
        };
        assert(location@.params =~= Seq::<Row>::empty());
        assert(location@.form_params =~= Seq::<Row>::empty());
        assert(location@.header =~= Seq::<Row>::empty());
        location
    }
}

/// Copies a list of string pairs.
pub fn copy_pairs(pairs: &Vec<(String, String)>) -> (copy: Vec<(String, String)>)
    ensures
        rows_of(copy@) == rows_of(pairs@),
{
    let mut copy: Vec<(String, String)> = Vec::new();
    let mut i: usize = 0;
    while i < pairs.len()
        invariant
            i <= pairs.len(),
            copy@.len() == i,
            forall|j: int| 0 <= j < i ==> copy@[j].0@ == pairs@[j].0@ && copy@[j].1@ == pairs@[j].1@,
        decreases pairs.len() - i,
    {
        let key = pairs[i].0.clone();
        let value = pairs[i].1.clone();
        copy.push((key, value));
        i = i + 1;
    }
    assert(rows_of(copy@) =~= rows_of(pairs@));
    copy
}

/// Calls `uuid::Uuid::new_v4` and writes the identifier out in its
/// hyphenated form. The identifier is random, so the contract states only
/// what holds of every outcome: the hyphenated form has 36 characters.
#[verifier::external_body]
pub(crate) fn fresh_id() -> (id: String)
    ensures
        id@.len() == 36,
{
    uuid::Uuid::new_v4().to_string()
}

impl Location {
    /// A new stored request under a freshly generated identifier.
    pub fn create(name: String, url: String, method: Method) -> (location: Location)
        ensures
            location@ == fresh_location(location@.id, name@, url@, method),
            location@.id.len() == 36,
    {
        Location::with_id(fresh_id(), name, url, method)
    }

    /// A new stored request under the given identifier.
    pub fn with_id(id: String, name: String, url: String, method: Method) -> (location: Location)
        ensures
            location@ == fresh_location(id@, name@, url@, method),
    {
        let mut header: Vec<(String, String)> = Vec::new();
        header.push((String::new(), String::new()));
        let location = Location {
            id,
            name,
            url,
            method,
            params: Vec::new(),
            body: String::new(),
            form_params: Vec::new(),
            header,
            content_type: ContentType::Json,
        };
        assert(location@.header =~= fresh_location(id@, name@, url@, method).header);
        assert(location@.params =~= Seq::<Row>::empty());
        assert(location@.form_params =~= Seq::<Row>::empty());
        location
    }

    /// A copy that holds the same request.
    pub fn duplicate(&self) -> (copy: Location)
        ensures
            copy@ == self@,
    {
        Location {
            id: self.id.clone(),
            name: self.name.clone(),
            url: self.url.clone(),
            method: self.method,
            params: copy_pairs(&self.params),
            body: self.body.clone(),
            form_params: copy_pairs(&self.form_params),
            header: copy_pairs(&self.header),
            content_type: self.content_type,
        }
    }
}

/// A named group of stored requests.
#[derive(Clone, Debug, PartialEq, Eq)]
pub struct Directory {
    pub id: String,
    pub name: String,
    pub parent: String,
    pub leaf: bool,
    pub locations: Vec<String>,
}

/// What a directory holds.
pub struct DirectoryView {
    pub id: Seq<char>,
    pub name: Seq<char>,
    pub parent: Seq<char>,
    pub leaf: bool,
    pub locations: Seq<Seq<char>>,
}

/// The texts of a list of strings.
pub open spec fn texts_of(strings: Seq<String>) -> Seq<Seq<char>> {
    Seq::new(strings.len(), |i: int| strings[i]@)
}

impl View for Directory {
    type V = DirectoryView;

    open spec fn view(&self) -> DirectoryView {
        DirectoryView {
            id: self.id@,
            name: self.name@,
            parent: self.parent@,
            leaf: self.leaf,
            locations: texts_of(self.locations@),
        }
    }
}

impl Default for Directory {
    fn default() -> (directory: Directory)
        ensures
            directory@ == (DirectoryView {
                id: Seq::empty(),
                name: Seq::empty(),
                parent: Seq::empty(),
                leaf: false,
                locations: Seq::empty(),
            }),
    {
        let directory = Directory {
            id: String::new(),
            name: String::new(),
            parent: String::new(),
            leaf: false,
            locations: Vec::new(),
        };
        assert(directory@.locations =~= Seq::<Seq<char>>::empty());
        directory
    }
}

} // verus!
