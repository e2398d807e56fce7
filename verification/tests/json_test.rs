use logsnag::models::{Insight, InsightValue, Log, TagHashMap};

#[test]
fn log_without_optionals_has_exactly_three_members() {
    let log = Log::new("my-project", "test", "Test Event");
    let json = log.to_json();
    assert_eq!(json, "{\"project\":\"my-project\",\"channel\":\"test\",\"event\":\"Test Event\"}");
    let parsed: serde_json::Value = serde_json::from_str(&json).unwrap();
    let object = parsed.as_object().unwrap();
    assert_eq!(object.len(), 3);
    assert_eq!(object.get("project").unwrap().as_str(), Some("my-project"));
    assert_eq!(object.get("channel").unwrap().as_str(), Some("test"));
    assert_eq!(object.get("event").unwrap().as_str(), Some("Test Event"));
    assert!(object.get("description").is_none());
    assert!(object.get("icon").is_none());
    assert!(object.get("notify").is_none());
    assert!(object.get("tags").is_none());
}

#[test]
fn log_with_all_optionals() {
    let mut log = Log::new("p", "c", "e");
    log.description = Some(String::from("A description here"));
    log.icon = Some(String::from("❤️"));
    log.notify = Some(true);
    let mut tags = TagHashMap::new();
    tags.insert("guild-id", "test-guild-id");
    log.tags = Some(tags);
    let json = log.to_json();
    let parsed: serde_json::Value = serde_json::from_str(&json).unwrap();
    let object = parsed.as_object().unwrap();
    assert_eq!(object.len(), 7);
    assert_eq!(object.get("description").unwrap().as_str(), Some("A description here"));
    assert_eq!(object.get("icon").unwrap().as_str(), Some("❤️"));
    assert_eq!(object.get("notify").unwrap().as_bool(), Some(true));
    let tag_object = object.get("tags").unwrap().as_object().unwrap();
    assert_eq!(tag_object.len(), 1);
    assert_eq!(tag_object.get("guild-id").unwrap().as_str(), Some("test-guild-id"));
}

#[test]
fn log_with_empty_tag_set_omits_tags() {
    let mut log = Log::new("p", "c", "e");
    log.tags = Some(TagHashMap::new());
    let json = log.to_json();
    assert_eq!(json, "{\"project\":\"p\",\"channel\":\"c\",\"event\":\"e\"}");
}

#[test]
fn log_tag_inserted_twice_serializes_once_with_latest_value() {
    let mut tags = TagHashMap::new();
    tags.insert("User_Name", "first");
    tags.insert("username", "second");
    let mut log = Log::new("p", "c", "e");
    log.tags = Some(tags);
    let json = log.to_json();
    assert_eq!(
        json,
        "{\"project\":\"p\",\"channel\":\"c\",\"event\":\"e\",\"tags\":{\"username\":\"second\"}}"
    );
}

#[test]
fn log_escapes_string_contents() {
    let mut log = Log::new("p", "c", "e");
    log.description = Some(String::from("say \"hi\"\\\n\tdone\u{1}"));
    let json = log.to_json();
    let parsed: serde_json::Value = serde_json::from_str(&json).unwrap();
    assert_eq!(
        parsed.as_object().unwrap().get("description").unwrap().as_str(),
        Some("say \"hi\"\\\n\tdone\u{1}")
    );
}

#[test]
fn insight_int_value_is_a_bare_number() {
    let insight = Insight::new("my-project", "Insight Title", InsightValue::Int(32));
    let json = insight.to_json();
    assert_eq!(json, "{\"project\":\"my-project\",\"title\":\"Insight Title\",\"value\":32}");
    let parsed: serde_json::Value = serde_json::from_str(&json).unwrap();
    let value = parsed.as_object().unwrap().get("value").unwrap();
    assert!(value.is_i64());
    assert_eq!(value.as_i64(), Some(32));
}

#[test]
fn insight_negative_and_extreme_int_values() {
    let negative = Insight::new("p", "t", InsightValue::Int(-5)).to_json();
    assert_eq!(negative, "{\"project\":\"p\",\"title\":\"t\",\"value\":-5}");
    let zero = Insight::new("p", "t", InsightValue::Int(0)).to_json();
    assert_eq!(zero, "{\"project\":\"p\",\"title\":\"t\",\"value\":0}");
    let smallest = Insight::new("p", "t", InsightValue::Int(i32::MIN)).to_json();
    assert_eq!(smallest, "{\"project\":\"p\",\"title\":\"t\",\"value\":-2147483648}");
    let largest = Insight::new("p", "t", InsightValue::Int(i32::MAX)).to_json();
    assert_eq!(largest, "{\"project\":\"p\",\"title\":\"t\",\"value\":2147483647}");
}

#[test]
fn insight_string_and_bool_values() {
    let text = Insight::new("p", "t", InsightValue::Str(String::from("online"))).to_json();
    assert_eq!(text, "{\"project\":\"p\",\"title\":\"t\",\"value\":\"online\"}");
    let flag = Insight::new("p", "t", InsightValue::Bool(false)).to_json();
    assert_eq!(flag, "{\"project\":\"p\",\"title\":\"t\",\"value\":false}");
}

#[test]
fn insight_with_icon() {
    let mut insight = Insight::new("p", "t", InsightValue::Bool(true));
    insight.icon = Some(String::from("❤️"));
    let json = insight.to_json();
    assert_eq!(json, "{\"project\":\"p\",\"title\":\"t\",\"value\":true,\"icon\":\"❤️\"}");
}
