use logsnag::norm::normalize;

#[test]
fn normalize_underscore_key() {
    let (key, value) = normalize("User_Name", "test-username-id");
    // the underscore is stripped, not converted, and letters are lower-cased
    assert_eq!(key, "username");
    assert_eq!(value, "test-username-id");
}

#[test]
fn normalize_already_normal() {
    let (key, value) = normalize("guild-id", "test-guild-id");
    assert_eq!(key, "guild-id");
    assert_eq!(value, "test-guild-id");
}

#[test]
fn normalize_strips_digits_and_punctuation() {
    let (key, value) = normalize("A1 b!!", "Count: 42");
    assert_eq!(key, "a-b");
    assert_eq!(value, "count-");
}

#[test]
fn normalize_collapses_whitespace_runs() {
    let (key, value) = normalize("a  \t b", "x\n\ny");
    assert_eq!(key, "a-b");
    assert_eq!(value, "x-y");
}

#[test]
fn normalize_empty_input() {
    let (key, value) = normalize("", "");
    assert_eq!(key, "");
    assert_eq!(value, "");
}

#[test]
fn normalize_only_disallowed_characters() {
    let (key, value) = normalize("123_!?", "€€");
    assert_eq!(key, "");
    assert_eq!(value, "");
}

#[test]
fn normalize_mixed_case() {
    let (key, value) = normalize("GuildID", "UPPER lower");
    assert_eq!(key, "guildid");
    assert_eq!(value, "upper-lower");
}
