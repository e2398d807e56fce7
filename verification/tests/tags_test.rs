use logsnag::models::{InsightValue, TagHashMap};

#[test]
fn tags_insert_and_get() {
    let mut tags = TagHashMap::new();
    tags.insert("guild-id", "test-guild-id");
    tags.insert("User_Name", "test-username-id");
    assert_eq!(tags.len(), 2);
    assert_eq!(tags.get("guild-id").map(String::as_str), Some("test-guild-id"));
    assert_eq!(tags.get("username").map(String::as_str), Some("test-username-id"));
    assert_eq!(tags.get("missing"), None);
}

#[test]
fn tags_lookup_normalizes_the_key() {
    let mut tags = TagHashMap::new();
    tags.insert("User_Name", "someone");
    // any spelling with the same normal form finds the entry
    assert_eq!(tags.get("USERNAME").map(String::as_str), Some("someone"));
    assert_eq!(tags.get("user_name").map(String::as_str), Some("someone"));
}

#[test]
fn tags_same_key_twice_keeps_most_recent_value() {
    let mut tags = TagHashMap::new();
    tags.insert("User_Name", "first");
    tags.insert("username", "second");
    assert_eq!(tags.len(), 1);
    assert_eq!(tags.get("username").map(String::as_str), Some("second"));
}

#[test]
fn tags_values_are_normalized_too() {
    let mut tags = TagHashMap::new();
    tags.insert("key", "Some Value 42!");
    assert_eq!(tags.get("key").map(String::as_str), Some("some-value-"));
}

#[test]
fn tags_clone_keeps_entries() {
    let mut tags = TagHashMap::new();
    tags.insert("a", "b");
    let copy = tags.clone();
    assert_eq!(copy.get("a").map(String::as_str), Some("b"));
    assert_eq!(copy.len(), 1);
}

#[test]
fn tags_empty() {
    let tags = TagHashMap::new();
    assert!(tags.is_empty());
    assert_eq!(tags.len(), 0);
}

#[test]
fn insight_value_from_conversions() {
    assert_eq!(InsightValue::from(32), InsightValue::Int(32));
    assert_eq!(InsightValue::from(true), InsightValue::Bool(true));
    assert_eq!(InsightValue::from(String::from("online")), InsightValue::Str(String::from("online")));
}
