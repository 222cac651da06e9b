use marktor::{
    add_bookmark, delete_bookmark, get_bookmark, list_bookmark, update_bookmark, Bookmark,
    BookmarkList, Config, FileContents, Json, StoreError, DEFAULT_LOCATION,
};

fn pairs(rows: &[Bookmark]) -> Vec<(String, String)> {
    rows.iter().map(|b| (b.name.clone(), b.url.clone())).collect()
}

fn list_of(records: &[(&str, &str)]) -> BookmarkList {
    let mut list = BookmarkList::new();
    for (name, url) in records {
        list.add(Bookmark::new(name.to_string(), url.to_string()));
    }
    list
}

fn owned(records: &[(&str, &str)]) -> Vec<(String, String)> {
    records.iter().map(|(n, u)| (n.to_string(), u.to_string())).collect()
}

fn to_value(v: &Json) -> serde_json::Value {
    match v {
        Json::Null => serde_json::Value::Null,
        Json::Bool(b) => serde_json::Value::Bool(*b),
        Json::Number(n) => serde_json::from_str(n).unwrap(),
        Json::Str(s) => serde_json::Value::String(s.clone()),
        Json::Array(items) => serde_json::Value::Array(items.iter().map(to_value).collect()),
        Json::Object(fields) => {
            let mut map = serde_json::Map::new();
            for (k, v) in fields {
                map.insert(k.clone(), to_value(v));
            }
            serde_json::Value::Object(map)
        }
    }
}

fn from_value(v: &serde_json::Value) -> Json {
    match v {
        serde_json::Value::Null => Json::Null,
        serde_json::Value::Bool(b) => Json::Bool(*b),
        serde_json::Value::Number(n) => Json::Number(n.to_string()),
        serde_json::Value::String(s) => Json::Str(s.clone()),
        serde_json::Value::Array(items) => Json::Array(items.iter().map(from_value).collect()),
        serde_json::Value::Object(map) => Json::Object(
            map.iter().map(|(k, v)| (k.clone(), from_value(v))).collect(),
        ),
    }
}

fn parse(text: &str) -> FileContents {
    match serde_json::from_str::<serde_json::Value>(text) {
        Ok(v) => FileContents::Parsed(from_value(&v)),
        Err(_) => FileContents::Malformed,
    }
}

fn load_text(text: &str) -> Result<Vec<(String, String)>, StoreError> {
    BookmarkList::load(parse(text)).map(|l| pairs(&l.bookmarks))
}

#[test]
fn load_missing_file_gives_empty_list() {
    let list = BookmarkList::load(FileContents::Missing).unwrap();
    assert!(list.bookmarks.is_empty());
}

#[test]
fn load_unreadable_file_is_io_error() {
    assert!(matches!(BookmarkList::load(FileContents::Unreadable), Err(StoreError::Io)));
}

#[test]
fn load_text_that_is_not_json_is_parse_error() {
    assert!(matches!(BookmarkList::load(FileContents::Malformed), Err(StoreError::Parse)));
    assert_eq!(load_text("{\"bookmarks\": ["), Err(StoreError::Parse));
}

#[test]
fn load_rejects_other_shapes() {
    assert_eq!(load_text("[]"), Err(StoreError::Parse));
    assert_eq!(load_text("[[\"a\", \"u\"]]"), Err(StoreError::Parse));
    assert_eq!(load_text("{}"), Err(StoreError::Parse));
    assert_eq!(load_text("{\"bookmarks\": {}}"), Err(StoreError::Parse));
    assert_eq!(load_text("{\"bookmarks\": [{\"name\": 1, \"url\": \"u\"}]}"), Err(StoreError::Parse));
    assert_eq!(load_text("{\"bookmarks\": [{\"name\": \"a\"}]}"), Err(StoreError::Parse));
    assert_eq!(
        load_text("{\"bookmarks\": [{\"name\": \"a\", \"url\": \"u\"}, 3]}"),
        Err(StoreError::Parse)
    );
    assert_eq!(load_text("\"bookmarks\""), Err(StoreError::Parse));
}

#[test]
fn load_accepts_any_field_order_and_whitespace() {
    let text = "{ \"bookmarks\" : [ { \"url\" : \"u1\" , \"name\" : \"a\" } ,\n {\"name\":\"b\",\"url\":\"u2\"} ] }";
    assert_eq!(load_text(text), Ok(owned(&[("a", "u1"), ("b", "u2")])));
}

#[test]
fn load_ignores_extra_fields() {
    let text = "{\"version\": 2, \"bookmarks\": [{\"name\": \"a\", \"url\": \"u\", \"tag\": null}]}";
    assert_eq!(load_text(text), Ok(owned(&[("a", "u")])));
}

#[test]
fn load_empty_bookmarks_array() {
    assert_eq!(load_text("{\"bookmarks\": []}"), Ok(vec![]));
}

#[test]
fn save_then_load_keeps_records_and_order() {
    let records = [
        ("zeta", "http://z.onion"),
        ("alpha", "http://a.onion"),
        ("quote \" and \\ slash", "tab\tnewline\n"),
        ("ünïcødé ☃", "http://例え.テスト"),
        ("zeta", "http://z2.onion"),
    ];
    let list = list_of(&records);
    let config = Config::new("p.json".to_string());
    let request = list.save(&config);
    assert_eq!(request.location, "p.json");
    let text = serde_json::to_string_pretty(&to_value(&request.document)).unwrap();
    assert_eq!(load_text(&text), Ok(owned(&records)));
    let direct = BookmarkList::load(FileContents::Parsed(request.document)).unwrap();
    assert_eq!(pairs(&direct.bookmarks), owned(&records));
}

#[test]
fn save_of_empty_list() {
    let request = BookmarkList::new().save(&Config::new("e.json".to_string()));
    let expected: serde_json::Value = serde_json::from_str("{\"bookmarks\": []}").unwrap();
    assert_eq!(to_value(&request.document), expected);
}

#[test]
fn to_json_writes_name_then_url() {
    let doc = list_of(&[("a", "u")]).to_json();
    let text = serde_json::to_string(&to_value(&doc)).unwrap();
    assert_eq!(text, "{\"bookmarks\":[{\"name\":\"a\",\"url\":\"u\"}]}");
    match doc {
        Json::Object(fields) => {
            assert_eq!(fields.len(), 1);
            assert_eq!(fields[0].0, "bookmarks");
            match &fields[0].1 {
                Json::Array(items) => match &items[0] {
                    Json::Object(f) => {
                        assert_eq!(f[0].0, "name");
                        assert_eq!(f[1].0, "url");
                    }
                    _ => panic!("record is not an object"),
                },
                _ => panic!("bookmarks is not an array"),
            }
        }
        _ => panic!("document is not an object"),
    }
}

#[test]
fn add_keeps_duplicate_names() {
    let mut list = BookmarkList::new();
    list.add(Bookmark::new("a".to_string(), "u1".to_string()));
    list.add(Bookmark::new("a".to_string(), "u2".to_string()));
    assert_eq!(pairs(&list.bookmarks), owned(&[("a", "u1"), ("a", "u2")]));
}

#[test]
fn update_replaces_url_of_existing_record() {
    let mut list = list_of(&[("a", "u1")]);
    list.update("a", "u2");
    assert_eq!(pairs(&list.bookmarks), owned(&[("a", "u2")]));
}

#[test]
fn update_appends_when_name_absent() {
    let mut list = list_of(&[("a", "u1")]);
    list.update("b", "u1");
    assert_eq!(pairs(&list.bookmarks), owned(&[("a", "u1"), ("b", "u1")]));
}

#[test]
fn update_changes_every_match_in_place() {
    let mut list = list_of(&[("a", "u1"), ("b", "v"), ("a", "u3"), ("A", "w")]);
    list.update("a", "new");
    assert_eq!(
        pairs(&list.bookmarks),
        owned(&[("a", "new"), ("b", "v"), ("a", "new"), ("A", "w")])
    );
}

#[test]
fn update_on_empty_list_appends() {
    let mut list = BookmarkList::new();
    list.update("x", "y");
    assert_eq!(pairs(&list.bookmarks), owned(&[("x", "y")]));
}

#[test]
fn delete_removes_every_match() {
    let mut list = list_of(&[("a", "u1"), ("b", "u2"), ("a", "u3")]);
    list.delete("a");
    assert_eq!(pairs(&list.bookmarks), owned(&[("b", "u2")]));
}

#[test]
fn delete_without_match_changes_nothing() {
    let mut list = list_of(&[("a", "u1"), ("b", "u2")]);
    list.delete("A");
    assert_eq!(pairs(&list.bookmarks), owned(&[("a", "u1"), ("b", "u2")]));
}

#[test]
fn delete_keeps_order_of_the_rest() {
    let mut list = list_of(&[("c", "1"), ("x", "2"), ("a", "3"), ("x", "4"), ("b", "5")]);
    list.delete("x");
    assert_eq!(pairs(&list.bookmarks), owned(&[("c", "1"), ("a", "3"), ("b", "5")]));
}

#[test]
fn search_ignores_case() {
    let list = list_of(&[("Alpha", "u1"), ("beta", "u2")]);
    // "beta" holds a lowercase "a", so both names contain "A" once case is ignored.
    assert_eq!(pairs(&list.get("A")), owned(&[("Alpha", "u1"), ("beta", "u2")]));
    assert_eq!(pairs(&get_bookmark(&list, "AL")), owned(&[("Alpha", "u1")]));
    assert_eq!(pairs(&list.get("ALPHA")), owned(&[("Alpha", "u1")]));
    assert_eq!(pairs(&list.get("Bet")), owned(&[("beta", "u2")]));
}

#[test]
fn search_matches_substrings_in_order() {
    let list = list_of(&[("tor-wiki", "u1"), ("Wikipedia", "u2"), ("news", "u3"), ("WIKI", "u4")]);
    assert_eq!(
        pairs(&list.get("wIk")),
        owned(&[("tor-wiki", "u1"), ("Wikipedia", "u2"), ("WIKI", "u4")])
    );
    assert_eq!(pairs(&list.get("ws")), owned(&[("news", "u3")]));
    assert_eq!(pairs(&list.get("zzz")), vec![]);
}

#[test]
fn search_looks_at_names_only() {
    let list = list_of(&[("a", "http://secret.onion")]);
    assert_eq!(pairs(&list.get("secret")), vec![]);
}

#[test]
fn search_with_empty_query_gives_everything() {
    let list = list_of(&[("a", "1"), ("b", "2")]);
    assert_eq!(pairs(&list.get("")), owned(&[("a", "1"), ("b", "2")]));
}

#[test]
fn search_folds_ascii_only() {
    let list = list_of(&[("ÉCOLE", "1"), ("école", "2")]);
    assert_eq!(pairs(&list.get("école")), owned(&[("école", "2")]));
}

#[test]
fn list_gives_every_record_in_order() {
    let list = list_of(&[("b", "2"), ("a", "1"), ("b", "3")]);
    assert_eq!(pairs(&list.list()), owned(&[("b", "2"), ("a", "1"), ("b", "3")]));
    assert_eq!(pairs(&list_bookmark(&list)), owned(&[("b", "2"), ("a", "1"), ("b", "3")]));
}

#[test]
fn config_defaults_to_fixed_file() {
    assert_eq!(Config::from_argument(None).location, DEFAULT_LOCATION);
    assert_eq!(DEFAULT_LOCATION, "marktor.json");
    assert_eq!(Config::from_argument(Some("other.json")).location, "other.json");
    assert_eq!(Config::new("x".to_string()).location, "x");
}

#[test]
fn add_update_delete_scenario() {
    let config = Config::from_argument(Some("P.json"));
    let mut list = BookmarkList::load(FileContents::Missing).unwrap();

    let request = add_bookmark(&config, &mut list, "tor-wiki", "http://example.onion");
    assert_eq!(request.location, "P.json");
    let expected: serde_json::Value = serde_json::from_str(
        "{\"bookmarks\":[{\"name\":\"tor-wiki\",\"url\":\"http://example.onion\"}]}",
    )
    .unwrap();
    assert_eq!(to_value(&request.document), expected);

    let request = update_bookmark(&config, &mut list, "tor-wiki", "http://example2.onion");
    let expected: serde_json::Value = serde_json::from_str(
        "{\"bookmarks\":[{\"name\":\"tor-wiki\",\"url\":\"http://example2.onion\"}]}",
    )
    .unwrap();
    assert_eq!(to_value(&request.document), expected);

    let request = delete_bookmark(&config, &mut list, "tor-wiki");
    let expected: serde_json::Value = serde_json::from_str("{\"bookmarks\":[]}").unwrap();
    assert_eq!(to_value(&request.document), expected);
    assert!(list.bookmarks.is_empty());
}
