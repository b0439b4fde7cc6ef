use orient::method::{ContentType, Method};
use orient::model::{Directory, Location};
use orient::postman::{
    import_collection, Postman, PostmanBody, PostmanInfo, PostmanItem, PostmanRequest, PostmanUrl,
};
use orient::table::Table;
use orient::text::write_decimal;
use orient::workspace::{directory_name, ImportError, Workspace};

fn pair(key: &str, value: &str) -> (String, String) {
    (key.to_string(), value.to_string())
}

fn item(id: &str, method: &str) -> PostmanItem {
    PostmanItem {
        id: id.to_string(),
        name: format!("name of {}", id),
        request: PostmanRequest {
            method: method.to_string(),
            header: vec![pair("Accept", "*/*"), pair("", "")],
            body: PostmanBody {
                urlencoded: vec![pair("user", "u")],
                raw: format!("raw of {}", id),
            },
            url: PostmanUrl { raw: format!("http://localhost/{}", id) },
        },
    }
}

fn document() -> Postman {
    Postman {
        info: PostmanInfo { _postman_id: "col-1".to_string(), name: "Collection".to_string() },
        item: vec![item("i1", "post"), item("i2", "POST"), item("i3", "PoSt"), item("i4", "fetch")],
    }
}

fn key(text: &str) -> String {
    text.to_string()
}

#[test]
fn import_collection_maps_every_item() {
    let (directory, entries) = import_collection(&document());
    assert_eq!(
        directory,
        Directory {
            id: "col-1".to_string(),
            name: "Collection".to_string(),
            parent: String::new(),
            leaf: false,
            locations: vec![key("i1"), key("i2"), key("i3"), key("i4")],
        }
    );
    assert_eq!(entries.len(), 4);
    assert_eq!(entries[0].0, "i1");
    assert_eq!(
        entries[0].1,
        Location {
            id: "i1".to_string(),
            name: "name of i1".to_string(),
            url: "http://localhost/i1".to_string(),
            method: Method::Post,
            params: Vec::new(),
            body: "raw of i1".to_string(),
            form_params: vec![pair("user", "u")],
            header: vec![pair("Accept", "*/*"), pair("", "")],
            content_type: ContentType::Json,
        }
    );
    assert_eq!(entries[1].1.method, Method::Post);
    assert_eq!(entries[2].1.method, Method::Post);
    assert_eq!(entries[3].0, "i4");
    assert_eq!(entries[3].1.method, Method::Get);
}

#[test]
fn import_normalises_put() {
    let doc = Postman {
        info: PostmanInfo { _postman_id: "c".to_string(), name: "c".to_string() },
        item: vec![item("a", "put"), item("b", "Head"), item("c", "patch"), item("d", "DELETE")],
    };
    let (_, entries) = import_collection(&doc);
    let methods: Vec<Method> = entries.iter().map(|entry| entry.1.method).collect();
    assert_eq!(methods, vec![Method::Put, Method::Head, Method::Patch, Method::Delete]);
}

#[test]
fn import_files_one_directory_and_every_item() {
    let mut workspace = Workspace::new();
    workspace.import(&document());
    assert_eq!(workspace.directory.len(), 1);
    assert_eq!(workspace.buffers.len(), 4);
    let directory = workspace.directory.get(&key("col-1")).unwrap();
    assert_eq!(directory.locations.len(), 4);
    for id in ["i1", "i2", "i3", "i4"] {
        let location = workspace.buffers.get(&key(id)).unwrap();
        assert_eq!(location.id, id);
        assert_eq!(location.url, format!("http://localhost/{}", id));
    }
    assert_eq!(workspace.buffers.get(&key("i3")).unwrap().method, Method::Post);
}

#[test]
fn import_of_an_empty_collection() {
    let mut workspace = Workspace::new();
    let doc = Postman {
        info: PostmanInfo { _postman_id: String::new(), name: String::new() },
        item: Vec::new(),
    };
    workspace.import(&doc);
    assert_eq!(workspace.buffers.len(), 0);
    assert!(workspace.directory.get(&String::new()).unwrap().locations.is_empty());
}

#[test]
fn importing_twice_overwrites() {
    let mut workspace = Workspace::new();
    workspace.import(&document());
    let mut edited = workspace.buffers.get(&key("i1")).unwrap().duplicate();
    edited.name = "edited".to_string();
    workspace.buffers.insert(key("i1"), edited);
    assert_eq!(workspace.buffers.get(&key("i1")).unwrap().name, "edited");
    workspace.import(&document());
    assert_eq!(workspace.directory.len(), 1);
    assert_eq!(workspace.buffers.len(), 4);
    assert_eq!(workspace.buffers.get(&key("i1")).unwrap().name, "name of i1");
    assert_eq!(workspace.directory.get(&key("col-1")).unwrap().locations.len(), 4);
}

#[test]
fn a_later_item_with_the_same_id_wins() {
    let mut workspace = Workspace::new();
    let doc = Postman {
        info: PostmanInfo { _postman_id: "c".to_string(), name: "c".to_string() },
        item: vec![item("same", "get"), item("same", "delete")],
    };
    workspace.import(&doc);
    assert_eq!(workspace.buffers.len(), 1);
    assert_eq!(workspace.buffers.get(&key("same")).unwrap().method, Method::Delete);
    assert_eq!(
        workspace.directory.get(&key("c")).unwrap().locations,
        vec![key("same"), key("same")]
    );
}

#[test]
fn import_keeps_unrelated_entries() {
    let mut workspace = Workspace::new();
    workspace.add_directory(key("mine"), key("new 0"));
    let own = Location::with_id(key("own"), key("n"), key("u"), Method::Get);
    assert!(workspace.add_location(&key("mine"), own.duplicate()));
    workspace.import(&document());
    assert_eq!(workspace.buffers.get(&key("own")), Some(&own));
    assert_eq!(workspace.directory.get(&key("mine")).unwrap().locations, vec![key("own")]);
    assert_eq!(workspace.directory.len(), 2);
    assert_eq!(workspace.buffers.len(), 5);
}

#[test]
fn a_failed_import_step_changes_nothing() {
    let mut workspace = Workspace::new();
    workspace.import(&document());
    let outcome = workspace.import_entry(Err(ImportError::Document("expected value".to_string())));
    assert_eq!(outcome, Err(ImportError::Document("expected value".to_string())));
    let outcome = workspace.import_entry(Err(ImportError::Archive("no archive".to_string())));
    assert_eq!(outcome, Err(ImportError::Archive("no archive".to_string())));
    assert_eq!(workspace.directory.len(), 1);
    assert_eq!(workspace.buffers.len(), 4);
    let doc = Postman {
        info: PostmanInfo { _postman_id: "col-2".to_string(), name: "Other".to_string() },
        item: vec![item("j1", "get")],
    };
    assert_eq!(workspace.import_entry(Ok(doc)), Ok(()));
    assert_eq!(workspace.directory.len(), 2);
    assert_eq!(workspace.buffers.len(), 5);
}

#[test]
fn deleting_a_directory_keeps_its_locations() {
    let mut workspace = Workspace::new();
    workspace.add_directory(key("d"), key("new 0"));
    let l1 = Location::with_id(key("L1"), key("one"), key("u1"), Method::Get);
    let l2 = Location::with_id(key("L2"), key("two"), key("u2"), Method::Post);
    assert!(workspace.add_location(&key("d"), l1.duplicate()));
    assert!(workspace.add_location(&key("d"), l2.duplicate()));
    assert_eq!(workspace.directory.get(&key("d")).unwrap().locations, vec![key("L1"), key("L2")]);
    workspace.delete_directory(&key("d"));
    assert!(workspace.directory.get(&key("d")).is_none());
    assert_eq!(workspace.directory.len(), 0);
    assert_eq!(workspace.buffers.get(&key("L1")), Some(&l1));
    assert_eq!(workspace.buffers.get(&key("L2")), Some(&l2));
    workspace.delete_directory(&key("d"));
    assert_eq!(workspace.buffers.len(), 2);
}

#[test]
fn add_location_needs_its_directory() {
    let mut workspace = Workspace::new();
    let location = Location::with_id(key("L"), key("n"), key("u"), Method::Get);
    assert!(!workspace.add_location(&key("missing"), location));
    assert_eq!(workspace.buffers.len(), 0);
    assert_eq!(workspace.directory.len(), 0);
}

#[test]
fn add_directory_starts_empty_at_the_root() {
    let mut workspace = Workspace::new();
    workspace.add_directory(key("d"), key("new 0"));
    assert_eq!(
        workspace.directory.get(&key("d")),
        Some(&Directory {
            id: key("d"),
            name: key("new 0"),
            parent: String::new(),
            leaf: false,
            locations: Vec::new(),
        })
    );
}

#[test]
fn unlinking_keeps_the_location_in_the_store() {
    let mut workspace = Workspace::new();
    workspace.add_directory(key("d"), key("dir"));
    for id in ["a", "b", "a", "c"] {
        let location = Location::with_id(key(id), key("n"), key("u"), Method::Get);
        assert!(workspace.add_location(&key("d"), location));
    }
    workspace.unlink_location(&key("d"), &key("a"));
    assert_eq!(workspace.directory.get(&key("d")).unwrap().locations, vec![key("b"), key("c")]);
    assert!(workspace.buffers.contains_key(&key("a")));
    workspace.unlink_location(&key("nowhere"), &key("b"));
    assert_eq!(workspace.directory.get(&key("d")).unwrap().locations, vec![key("b"), key("c")]);
}

#[test]
fn renaming_a_directory() {
    let mut workspace = Workspace::new();
    workspace.add_directory(key("d"), key("old"));
    workspace.rename_directory(&key("d"), key("fresh"));
    assert_eq!(workspace.directory.get(&key("d")).unwrap().name, "fresh");
    assert_eq!(workspace.directory.get(&key("d")).unwrap().id, "d");
    workspace.rename_directory(&key("e"), key("x"));
    assert_eq!(workspace.directory.len(), 1);
}

#[test]
fn table_insert_is_an_upsert() {
    let mut table: Table<Location> = Table::new();
    assert_eq!(table.len(), 0);
    assert!(table.get(&key("a")).is_none());
    table.insert(key("a"), Location::with_id(key("a"), key("first"), key("u"), Method::Get));
    table.insert(key("b"), Location::with_id(key("b"), key("other"), key("u"), Method::Get));
    table.insert(key("a"), Location::with_id(key("a"), key("second"), key("u"), Method::Get));
    assert_eq!(table.len(), 2);
    assert_eq!(table.get(&key("a")).unwrap().name, "second");
    assert_eq!(table.get(&key("b")).unwrap().name, "other");
    let mut keys = table.keys();
    keys.sort();
    assert_eq!(keys, vec![key("a"), key("b")]);
}

#[test]
fn table_remove_takes_the_entry_out() {
    let mut table: Table<Location> = Table::new();
    table.insert(key("a"), Location::with_id(key("a"), key("first"), key("u"), Method::Get));
    table.insert(key("b"), Location::with_id(key("b"), key("other"), key("u"), Method::Get));
    let removed = table.remove(&key("a")).unwrap();
    assert_eq!(removed.name, "first");
    assert!(!table.contains_key(&key("a")));
    assert!(table.contains_key(&key("b")));
    assert!(table.remove(&key("a")).is_none());
    assert_eq!(table.len(), 1);
}

#[test]
fn merge_files_in_order() {
    let mut workspace = Workspace::new();
    let directory = Directory::empty(key("d"), key("dir"));
    let entries = vec![
        (key("x"), Location::with_id(key("x"), key("one"), key("u"), Method::Get)),
        (key("y"), Location::with_id(key("y"), key("two"), key("u"), Method::Get)),
        (key("x"), Location::with_id(key("x"), key("three"), key("u"), Method::Get)),
    ];
    workspace.merge(directory, entries);
    assert_eq!(workspace.buffers.len(), 2);
    assert_eq!(workspace.buffers.get(&key("x")).unwrap().name, "three");
    assert_eq!(workspace.buffers.get(&key("y")).unwrap().name, "two");
    assert!(workspace.directory.contains_key(&key("d")));
}

#[test]
fn each_location_has_one_owner() {
    let mut workspace = Workspace::new();
    let first = workspace.new_directory();
    let second = workspace.new_directory();
    assert_eq!(workspace.directory.get(&second).unwrap().name, "new 1");
    assert_ne!(first, second);
    let a = workspace.new_location(&first).unwrap();
    let b = workspace.new_location(&second).unwrap();
    let c = workspace.new_location(&first).unwrap();
    assert!(workspace.new_location(&key("missing")).is_none());
    workspace.import(&document());
    let mut seen: Vec<String> = Vec::new();
    for directory in workspace.directory.keys() {
        for id in &workspace.directory.get(&directory).unwrap().locations {
            assert!(!seen.contains(id));
            assert!(workspace.buffers.contains_key(id));
            seen.push(id.clone());
        }
    }
    assert_eq!(seen.len(), 7);
    assert!(seen.contains(&a) && seen.contains(&b) && seen.contains(&c));
    workspace.unlink_location(&first, &a);
    workspace.delete_directory(&second);
    assert_eq!(workspace.directory.get(&first).unwrap().locations, vec![c.clone()]);
    assert!(workspace.buffers.contains_key(&a));
    assert!(workspace.buffers.contains_key(&b));
}

#[test]
fn new_location_starts_as_a_get_of_httpbin() {
    let mut workspace = Workspace::new();
    let directory = workspace.new_directory();
    assert_eq!(directory.chars().count(), 36);
    assert_eq!(workspace.directory.get(&directory).unwrap().name, "new 0");
    let id = workspace.new_location(&directory).unwrap();
    let location = workspace.buffers.get(&id).unwrap();
    assert_eq!(
        *location,
        Location {
            id: id.clone(),
            name: "Item get".to_string(),
            url: "https://httpbin.org/get".to_string(),
            method: Method::Get,
            params: Vec::new(),
            body: String::new(),
            form_params: Vec::new(),
            header: vec![(String::new(), String::new())],
            content_type: ContentType::Json,
        }
    );
    assert_eq!(workspace.directory.get(&directory).unwrap().locations, vec![id]);
}

#[test]
fn blank_defaults() {
    let location = Location::default();
    assert_eq!(location.id, "");
    assert_eq!(location.method, Method::Get);
    assert_eq!(location.content_type, ContentType::Json);
    assert!(location.header.is_empty());
    let directory = Directory::default();
    assert_eq!(directory, Directory::empty(String::new(), String::new()));
}

#[test]
fn a_new_directory_is_added_beside_the_others() {
    let mut workspace = Workspace::new();
    workspace.import(&document());
    let before = workspace.directory.keys();
    let id = workspace.new_directory();
    assert!(!before.contains(&id));
    assert_eq!(workspace.directory.len(), 2);
    assert_eq!(
        workspace.directory.get(&id),
        Some(&Directory {
            id: id.clone(),
            name: "new 1".to_string(),
            parent: String::new(),
            leaf: false,
            locations: Vec::new(),
        })
    );
    assert_eq!(workspace.directory.get(&key("col-1")).unwrap().locations.len(), 4);
    assert_eq!(workspace.buffers.len(), 4);
}

#[test]
fn directory_names_count_in_decimal() {
    assert_eq!(directory_name(0), "new 0");
    assert_eq!(directory_name(7), "new 7");
    assert_eq!(directory_name(10), "new 10");
    assert_eq!(directory_name(1203), "new 1203");
    for count in [0usize, 1, 9, 10, 99, 100, 101, 65535, 1000000, usize::MAX] {
        assert_eq!(directory_name(count), format!("new {}", count));
        assert_eq!(write_decimal(count), count.to_string());
    }
}

#[test]
fn import_all_stops_at_the_first_failure() {
    let second = Postman {
        info: PostmanInfo { _postman_id: "col-2".to_string(), name: "Second".to_string() },
        item: vec![item("j1", "get"), item("i1", "delete")],
    };
    let third = Postman {
        info: PostmanInfo { _postman_id: "col-3".to_string(), name: "Third".to_string() },
        item: vec![item("k1", "get")],
    };
    let mut workspace = Workspace::new();
    assert_eq!(workspace.import_all(vec![Ok(document()), Ok(second.clone()), Ok(third.clone())]), Ok(()));
    assert_eq!(workspace.directory.len(), 3);
    assert_eq!(workspace.buffers.len(), 6);
    assert_eq!(workspace.buffers.get(&key("i1")).unwrap().method, Method::Delete);

    let mut workspace = Workspace::new();
    let outcome = workspace.import_all(vec![
        Ok(document()),
        Err(ImportError::Document("bad".to_string())),
        Ok(third),
        Err(ImportError::Archive("later".to_string())),
    ]);
    assert_eq!(outcome, Err(ImportError::Document("bad".to_string())));
    assert_eq!(workspace.directory.len(), 1);
    assert_eq!(workspace.buffers.len(), 4);
    assert!(!workspace.directory.contains_key(&key("col-3")));
    assert_eq!(workspace.import_all(Vec::new()), Ok(()));
    assert_eq!(workspace.directory.len(), 1);
}
