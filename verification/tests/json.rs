use msod_stat::item::{Item, ItemType};
use msod_stat::json::Json;
use msod_stat::page::{decode_item, decode_items, decode_page, parse_item, parse_page, SyncLink};
use serde_json::{Number, Value};

fn object(members: Vec<(&str, Value)>) -> Value {
    let mut map = serde_json::Map::new();
    for (key, value) in members {
        map.insert(key.to_string(), value);
    }
    Value::Object(map)
}

fn text(s: &str) -> Value {
    Value::String(s.to_string())
}

fn number(n: u64) -> Value {
    Value::Number(Number::from(n))
}

fn hashes() -> Value {
    object(vec![
        ("quickXorHash", text("ZBIxs/4bmb5QuzTKkGJbU+7IsfM=")),
        ("sha1Hash", text("9784E164A3626978D838EE21A0319C0DFB39001B")),
    ])
}

fn view() -> Value {
    object(vec![(
        "view",
        object(vec![
            ("sortBy", text("takenOrCreatedDateTime")),
            ("sortOrder", text("descending")),
            ("viewType", text("thumbnails")),
        ]),
    )])
}

fn parent() -> Value {
    object(vec![("path", text("NAME")), ("driveType", text("personal"))])
}

fn item_from(data: &str) -> Item {
    parse_item(data).unwrap()
}

#[test]
fn json_file() {
    let data = object(vec![
        ("id", text("ID")),
        ("name", text("NAME")),
        ("size", number(8192)),
        ("parentReference", parent()),
        ("file", object(vec![("hashes", hashes())])),
    ])
    .to_string();
    let item: Item = item_from(&data);
    assert_eq!(item.id, "ID");
    assert_eq!(item.name, "NAME");
    assert_eq!(item.size, 8192);
    match item.item_type {
        ItemType::File { .. } => {}
        _ => {
            panic!("Not a file!");
        }
    }
    assert!(item.deleted.is_none());
}

#[test]
fn json_package() {
    let data = object(vec![
        ("id", text("ID")),
        ("name", text("NAME")),
        ("size", number(8192)),
        ("parentReference", parent()),
        ("package", view()),
    ])
    .to_string();
    let item: Item = item_from(&data);
    assert_eq!(item.id, "ID");
    assert_eq!(item.name, "NAME");
    assert_eq!(item.size, 8192);
    assert_eq!(item.item_type, ItemType::Package {});
    assert!(item.deleted.is_none());
}

#[test]
fn json_folder() {
    let data = object(vec![
        ("id", text("ID")),
        ("name", text("NAME")),
        ("size", number(8192)),
        ("parentReference", parent()),
        ("folder", view()),
    ])
    .to_string();
    let item: Item = item_from(&data);
    assert_eq!(item.id, "ID");
    assert_eq!(item.name, "NAME");
    assert_eq!(item.size, 8192);
    assert_eq!(item.item_type, ItemType::Folder {});
    assert!(item.deleted.is_none());
}

#[test]
fn json_deleted() {
    let data = object(vec![
        ("id", text("ID")),
        ("name", text("NAME")),
        ("size", number(8192)),
        // a file that was deleted together with its parent has no parent path
        ("parentReference", object(vec![("driveType", text("personal"))])),
        ("file", object(vec![("hashes", hashes())])),
        ("deleted", object(vec![])),
    ])
    .to_string();
    let item: Item = item_from(&data);
    assert_eq!(item.id, "ID");
    assert_eq!(item.name, "NAME");
    assert_eq!(item.size, 8192);
    match item.item_type {
        ItemType::File { .. } => {}
        _ => {
            panic!("Not a file!");
        }
    }
    assert!(item.deleted.is_some());
}

#[test]
fn the_hashes_and_the_parent_are_read() {
    let item = item_from(
        r#"{"id":"ID","name":"NAME","size":1,
            "parentReference":{"path":"/drive/root:/x","driveType":"business"},
            "file":{"hashes":{"sha1Hash":"S","quickXorHash":"Q"}}}"#,
    );
    assert_eq!(item.parent.path, Some("/drive/root:/x".to_string()));
    assert_eq!(item.parent.drive_type, "business");
    match item.item_type {
        ItemType::File { hashes: Some(h) } => {
            assert_eq!(h.sha, Some("S".to_string()));
            assert_eq!(h.xor, Some("Q".to_string()));
        }
        _ => panic!("no hashes"),
    }
}

#[test]
fn a_missing_size_is_zero() {
    let item = item_from(
        r#"{"id":"ID","name":"NAME","parentReference":{"driveType":"personal"},"file":{},"deleted":{}}"#,
    );
    assert_eq!(item.size, 0);
    assert_eq!(item.parent.path, None);
    assert_eq!(item.item_type, ItemType::File { hashes: None });
    assert!(item.deleted.is_some());
}

#[test]
fn null_stands_for_a_missing_optional_member() {
    let item = item_from(
        r#"{"id":"ID","name":"NAME","size":3,"parentReference":{"path":null,"driveType":"personal"},
            "file":{"hashes":{"sha1Hash":null}},"deleted":null}"#,
    );
    assert_eq!(item.parent.path, None);
    assert!(item.deleted.is_none());
    match item.item_type {
        ItemType::File { hashes: Some(h) } => {
            assert_eq!(h.sha, None);
            assert_eq!(h.xor, None);
        }
        _ => panic!("no hashes"),
    }
}

#[test]
fn unknown_members_are_passed_over() {
    let item = item_from(
        r#"{"@odata.type":"x","id":"ID","name":"NAME","size":3,"extra":[1,2.5,-3,true],
            "parentReference":{"driveType":"personal","id":"P"},"folder":{"childCount":2}}"#,
    );
    assert_eq!(item.item_type, ItemType::Folder {});
}

#[test]
fn an_item_needs_exactly_one_kind() {
    let none = r#"{"id":"ID","name":"NAME","size":3,"parentReference":{"driveType":"personal"}}"#;
    assert!(parse_item(none).is_none());
    let two = r#"{"id":"ID","name":"NAME","size":3,"parentReference":{"driveType":"personal"},
                  "file":{},"folder":{}}"#;
    assert!(parse_item(two).is_none());
    let not_an_object =
        r#"{"id":"ID","name":"NAME","size":3,"parentReference":{"driveType":"personal"},"folder":1}"#;
    assert!(parse_item(not_an_object).is_none());
}

#[test]
fn an_item_needs_its_required_members() {
    let full = r#"{"id":"ID","name":"NAME","size":3,"parentReference":{"driveType":"personal"},"file":{}}"#;
    assert!(parse_item(full).is_some());
    for broken in [
        r#"{"name":"NAME","size":3,"parentReference":{"driveType":"personal"},"file":{}}"#,
        r#"{"id":"ID","size":3,"parentReference":{"driveType":"personal"},"file":{}}"#,
        r#"{"id":"ID","name":"NAME","size":3,"file":{}}"#,
        r#"{"id":"ID","name":"NAME","size":3,"parentReference":{},"file":{}}"#,
        r#"{"id":7,"name":"NAME","size":3,"parentReference":{"driveType":"personal"},"file":{}}"#,
        r#"{"id":"ID","name":"NAME","size":"3","parentReference":{"driveType":"personal"},"file":{}}"#,
        r#"{"id":"ID","name":"NAME","size":-3,"parentReference":{"driveType":"personal"},"file":{}}"#,
        r#"{"id":"ID","name":"NAME","size":3.5,"parentReference":{"driveType":"personal"},"file":{}}"#,
        r#"{"id":"ID","name":"NAME","size":3,"parentReference":{"driveType":"personal"},"file":{},"deleted":true}"#,
        r#"{"id":"ID","name":"NAME","size":3,"parentReference":{"driveType":"personal"},"file":{"hashes":5}}"#,
        r#"["id"]"#,
        r#"{"id":"ID""#,
        "",
    ] {
        assert!(parse_item(broken).is_none(), "{}", broken);
    }
}

#[test]
fn the_largest_size_is_read() {
    let item = item_from(
        r#"{"id":"ID","name":"NAME","size":18446744073709551615,"parentReference":{"driveType":"personal"},"file":{}}"#,
    );
    assert_eq!(item.size, u64::MAX);
}

#[test]
fn a_page_with_a_next_link() {
    let page = parse_page(
        r#"{"value":[{"id":"a","name":"f","size":10,
                      "parentReference":{"path":"/drive/root:/d","driveType":"personal"},
                      "file":{"hashes":{"sha1Hash":"H"}}},
                     {"id":"b","name":"g","parentReference":{"driveType":"personal"},"folder":{}}],
            "@odata.nextLink":"https://example/delta?p=2"}"#,
    )
    .unwrap();
    assert_eq!(page.value.len(), 2);
    assert_eq!(page.value[0].id, "a");
    assert_eq!(page.value[1].id, "b");
    assert_eq!(page.link, SyncLink::More("https://example/delta?p=2".to_string()));
}

#[test]
fn a_page_with_a_delta_link() {
    let page = parse_page(r#"{"value":[],"@odata.deltaLink":"https://example/delta?token=T"}"#).unwrap();
    assert!(page.value.is_empty());
    assert_eq!(page.link, SyncLink::Done("https://example/delta?token=T".to_string()));
}

#[test]
fn a_page_needs_exactly_one_link_and_its_items() {
    for broken in [
        r#"{"value":[]}"#,
        r#"{"value":[],"@odata.nextLink":"n","@odata.deltaLink":"d"}"#,
        r#"{"@odata.deltaLink":"d"}"#,
        r#"{"value":{},"@odata.deltaLink":"d"}"#,
        r#"{"value":[],"@odata.deltaLink":5}"#,
        r#"{"value":[{"id":"a"}],"@odata.deltaLink":"d"}"#,
        r#"[]"#,
        "not json",
    ] {
        assert!(parse_page(broken).is_none(), "{}", broken);
    }
}

#[test]
fn documents_built_by_hand_are_read_alike() {
    let file = Json::Object(vec![
        ("id".to_string(), Json::Text("a".to_string())),
        ("name".to_string(), Json::Text("f".to_string())),
        ("size".to_string(), Json::Number(Some(10))),
        (
            "parentReference".to_string(),
            Json::Object(vec![("driveType".to_string(), Json::Text("personal".to_string()))]),
        ),
        ("file".to_string(), Json::Object(vec![])),
    ]);
    let item = decode_item(&file).unwrap();
    assert_eq!(item.id, "a");
    assert_eq!(item.size, 10);

    let not_whole = Json::Object(vec![
        ("id".to_string(), Json::Text("a".to_string())),
        ("name".to_string(), Json::Text("f".to_string())),
        ("size".to_string(), Json::Number(None)),
        (
            "parentReference".to_string(),
            Json::Object(vec![("driveType".to_string(), Json::Text("personal".to_string()))]),
        ),
        ("file".to_string(), Json::Object(vec![])),
    ]);
    assert!(decode_item(&not_whole).is_none());
    assert!(decode_items(&vec![Json::Null]).is_none());
    assert_eq!(decode_items(&vec![]).unwrap().len(), 0);
    assert!(decode_page(&Json::Array(vec![])).is_none());
    assert!(decode_page(&Json::Bool(true)).is_none());
}
