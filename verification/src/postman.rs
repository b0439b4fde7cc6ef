//! The Postman collection shape and its mapping onto directories and
//! stored requests.

use vstd::prelude::*;
use crate::method::{method_of_upper, uppercase_of, ContentType, Method};
use crate::model::{copy_pairs, rows_of, Directory, DirectoryView, Location, LocationView, Row};

verus! {

/// A Postman collection export.
#[derive(Clone, Debug, PartialEq, Eq)]
pub struct Postman {
    pub info: PostmanInfo,
    pub item: Vec<PostmanItem>,
}

/// The header block of a collection export.
#[derive(Clone, Debug, PartialEq, Eq)]
pub struct PostmanInfo {
    pub _postman_id: String,
    pub name: String,
}

/// One request of a collection export.
#[derive(Clone, Debug, PartialEq, Eq)]
pub struct PostmanItem {
    pub id: String,
    pub name: String,
    pub request: PostmanRequest,
}

/// The request of an item.
#[derive(Clone, Debug, PartialEq, Eq)]
pub struct PostmanRequest {
    pub method: String,
    /// The header rows, as (key, value).
    pub header: Vec<(String, String)>,
    pub body: PostmanBody,
    pub url: PostmanUrl,
}

/// The URL of a request.
#[derive(Clone, Debug, PartialEq, Eq)]
pub struct PostmanUrl {
    pub raw: String,
}

/// The body of a request.
#[derive(Clone, Debug, PartialEq, Eq)]
pub struct PostmanBody {
    /// The URL-encoded form rows, as (key, value).
    pub urlencoded: Vec<(String, String)>,
    pub raw: String,
}

/// What an item of a collection export holds.
pub struct ItemView {
    pub id: Seq<char>,
    pub name: Seq<char>,
    pub method: Seq<char>,
    pub header: Seq<Row>,
    pub urlencoded: Seq<Row>,
    pub raw: Seq<char>,
    pub url: Seq<char>,
}

impl View for PostmanItem {
    type V = ItemView;

    open spec fn view(&self) -> ItemView {
        ItemView {
            id: self.id@,
            name: self.name@,
            method: self.request.method@,
            header: rows_of(self.request.header@),
            urlencoded: rows_of(self.request.body.urlencoded@),
            raw: self.request.body.raw@,
            url: self.request.url.raw@,
        }
    }
}

/// What a collection export holds.
pub struct PostmanView {
    pub id: Seq<char>,
    pub name: Seq<char>,
    pub items: Seq<ItemView>,
}

impl View for Postman {
    type V = PostmanView;

    open spec fn view(&self) -> PostmanView {
        PostmanView {
            id: self.info._postman_id@,
            name: self.info.name@,
            items: Seq::new(self.item@.len(), |i: int| self.item@[i]@),
        }
    }
}

/// The stored request that an item becomes. Its method is the one
/// that the item's method text names in any case, `Get` where it names
/// none; its content type is JSON whatever the item's body is.
pub open spec fn location_of(item: ItemView) -> LocationView {
    LocationView {
        id: item.id,
        name: item.name,
        url: item.url,
        method: method_of_upper(uppercase_of(item.method)),
        params: Seq::empty(),
        body: item.raw,
        form_params: item.urlencoded,
        header: item.header,
        content_type: ContentType::Json,
    }
}

/// The identifiers of the items, in their order.
pub open spec fn item_ids(items: Seq<ItemView>) -> Seq<Seq<char>> {
    Seq::new(items.len(), |i: int| items[i].id)
}

/// The directory that a collection export becomes.
pub open spec fn directory_of(doc: PostmanView) -> DirectoryView {
    DirectoryView {
        id: doc.id,
        name: doc.name,
        parent: Seq::empty(),
        leaf: false,
        locations: item_ids(doc.items),
    }
}

impl PostmanItem {
    /// The stored request that the item becomes.
    pub fn to_location(&self) -> (location: Location)
        ensures
            location@ == location_of(self@),
    {
        let method = Method::from_text(self.request.method.clone());
        let location = Location {
            id: self.id.clone(),
            name: self.name.clone(),
            url: self.request.url.raw.clone(),
            method,
            params: Vec::new(),
            body: self.request.body.raw.clone(),
            form_params: copy_pairs(&self.request.body.urlencoded),
            header: copy_pairs(&self.request.header),
            content_type: ContentType::Json,
        };
        assert(location@.params =~= Seq::<Row>::empty());
        location
    }
}

/// The outcome of mapping a collection export: its directory, and its
/// stored requests in source order, each under its identifier.
pub open spec fn imports(
    doc: PostmanView,
    directory: DirectoryView,
    entries: Seq<(String, Location)>,
) -> bool {
    &&& directory == directory_of(doc)
    &&& entries.len() == doc.items.len()
    &&& forall|i: int|
        0 <= i < entries.len() ==> (#[trigger] entries[i]).0@ == doc.items[i].id && entries[i].1@
            == location_of(doc.items[i])
}

/// Maps a collection export onto a directory and its stored requests.
pub fn import_collection(doc: &Postman) -> (outcome: (Directory, Vec<(String, Location)>))
    ensures
        imports(doc@, outcome.0@, outcome.1@),
{
    let mut ids: Vec<String> = Vec::new();
    let mut entries: Vec<(String, Location)> = Vec::new();
    let mut i: usize = 0;
    while i < doc.item.len()
        invariant
            i <= doc.item.len(),
            ids@.len() == i,
            entries@.len() == i,
            forall|k: int| 0 <= k < i ==> (#[trigger] ids@[k])@ == doc@.items[k].id,
            forall|k: int|
                0 <= k < i ==> (#[trigger] entries@[k]).0@ == doc@.items[k].id && entries@[k].1@
                    == location_of(doc@.items[k]),
        decreases doc.item.len() - i,
    {
        let item = &doc.item[i];
        ids.push(item.id.clone());
        entries.push((item.id.clone(), item.to_location()));
        i = i + 1;
    }
    let directory = Directory {
        id: doc.info._postman_id.clone(),
        name: doc.info.name.clone(),
        parent: String::new(),
        leaf: false,
        locations: ids,
    };
    assert(directory@.locations =~= item_ids(doc@.items));
    (directory, entries)
}

} // verus!
