//! Documents and texts.
use aivyx_broker::json::{Json, Member};
use aivyx_broker::text::endpoint;

fn member(key: &str, n: u64) -> Member {
    Member { key: key.to_string(), value: Json::Unsigned(n) }
}

fn number(value: Option<&Json>) -> Option<u64> {
    match value {
        Some(Json::Unsigned(n)) => Some(*n),
        _ => None,
    }
}

#[test]
fn of_two_members_with_one_key_the_later_counts() {
    let mut object = Json::Object(vec![member("a", 1), member("b", 2), member("a", 3)]);
    assert_eq!(number(object.get("a")), Some(3));
    assert_eq!(number(object.get("b")), Some(2));
    assert_eq!(number(object.remove("a").as_ref()), Some(3));
    assert!(object.get("a").is_none());
    assert_eq!(number(object.get("b")), Some(2));
    assert!(object.remove("a").is_none());
}

#[test]
fn an_inserted_member_replaces_what_was_there() {
    let mut object = Json::object();
    object.insert("a", Json::Unsigned(1));
    object.insert("a", Json::Unsigned(2));
    assert_eq!(number(object.get("a")), Some(2));
    match &object {
        Json::Object(members) => assert_eq!(members.len(), 1),
        other => panic!("expected an object, got {other:?}"),
    }
}

#[test]
fn only_objects_have_members() {
    let mut list = Json::Array(vec![Json::Bool(true)]);
    list.insert("a", Json::Null);
    assert!(list.get("a").is_none());
    assert!(list.remove("a").is_none());
    assert_eq!(list.as_array().unwrap().len(), 1);
    assert!(Json::Null.as_array().is_none());
    assert!(Json::text("x").is_text("x"));
    assert!(!Json::text("x").is_text("y"));
    assert!(!Json::Null.is_text("x"));
}

#[test]
fn a_clone_is_the_whole_document() {
    let document = Json::Array(vec![
        Json::Null,
        Json::Bool(false),
        Json::Negative(-7),
        Json::Float(1.5f64.to_bits()),
        Json::Object(vec![Member { key: "k".to_string(), value: Json::text("v") }]),
    ]);
    assert_eq!(format!("{:?}", document.clone()), format!("{document:?}"));
}

#[test]
fn an_address_has_one_slash_before_its_path() {
    assert_eq!(endpoint("http://h/", "/p"), "http://h/p");
    assert_eq!(endpoint("http://h/base", "/p"), "http://h/base/p");
    assert_eq!(endpoint("///", "/p"), "/p");
    assert_eq!(endpoint("", "/p"), "/p");
    assert_eq!(endpoint("http://h\u{e9}//", "/p"), "http://h\u{e9}/p");
}
