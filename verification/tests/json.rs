use responses_fix::json::{Json, Member};

fn text(value: &str) -> Json {
    Json::Text(value.to_string())
}

fn member(name: &str, value: Json) -> Member {
    Member { name: name.to_string(), value }
}

#[test]
fn get_finds_a_member_of_an_object() {
    let doc = Json::Object(vec![member("a", text("1")), member("b", text("2"))]);
    assert_eq!(doc.get("a"), Some(&text("1")));
    assert_eq!(doc.get("b"), Some(&text("2")));
    assert_eq!(doc.get("c"), None);
}

#[test]
fn get_on_anything_but_an_object_finds_nothing() {
    assert_eq!(Json::Null.get("a"), None);
    assert_eq!(text("a").get("a"), None);
    assert_eq!(Json::Array(vec![text("a")]).get("a"), None);
    assert_eq!(Json::Bool(true).get("a"), None);
    assert_eq!(Json::Number(serde_json::Number::from(1u64)).get("a"), None);
}

#[test]
fn get_takes_the_last_of_equal_names() {
    let doc = Json::Object(vec![member("a", text("1")), member("a", text("2"))]);
    assert_eq!(doc.get("a"), Some(&text("2")));
}

#[test]
fn as_text_is_for_strings_only() {
    assert_eq!(text("abc").as_text(), Some("abc"));
    assert_eq!(text("").as_text(), Some(""));
    assert_eq!(Json::Number(serde_json::Number::from(12u64)).as_text(), None);
    assert_eq!(Json::Null.as_text(), None);
}

#[test]
fn as_items_is_for_arrays_only() {
    let items = vec![text("a"), Json::Null];
    assert_eq!(Json::Array(vec![text("a"), Json::Null]).as_items(), Some(&items));
    assert_eq!(Json::Object(vec![]).as_items(), None);
}

#[test]
fn get_text_needs_a_string_member() {
    let doc = Json::Object(vec![member("a", text("1")), member("n", Json::Null)]);
    assert_eq!(doc.get_text("a"), Some("1"));
    assert_eq!(doc.get_text("n"), None);
    assert_eq!(doc.get_text("zz"), None);
}

#[test]
fn duplicate_is_equal_to_its_source() {
    let doc = Json::Object(vec![
        member("list", Json::Array(vec![Json::Bool(false), Json::Number(serde_json::Number::from_f64(-1.5).unwrap())])),
        member("inner", Json::Object(vec![member("k", text("v"))])),
        member("nothing", Json::Null),
    ]);
    assert_eq!(doc.duplicate(), doc);
}

#[test]
fn with_member_replaces_in_place() {
    let doc = Json::Object(vec![member("a", text("1")), member("b", text("2"))]);
    let changed = doc.with_member("a", text("9"));
    assert_eq!(changed, Json::Object(vec![member("a", text("9")), member("b", text("2"))]));
}

#[test]
fn with_member_appends_a_new_name() {
    let doc = Json::Object(vec![member("a", text("1"))]);
    let changed = doc.with_member("b", Json::Null);
    assert_eq!(changed, Json::Object(vec![member("a", text("1")), member("b", Json::Null)]));
}

#[test]
fn with_member_replaces_the_last_of_equal_names() {
    let doc = Json::Object(vec![member("a", text("1")), member("a", text("2"))]);
    let changed = doc.with_member("a", text("9"));
    assert_eq!(changed, Json::Object(vec![member("a", text("1")), member("a", text("9"))]));
    assert_eq!(changed.get("a"), Some(&text("9")));
}

#[test]
fn with_member_leaves_anything_but_an_object() {
    assert_eq!(text("x").with_member("a", Json::Null), text("x"));
    assert_eq!(Json::Null.with_member("a", text("x")), Json::Null);
}
