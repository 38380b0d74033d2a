use chat_relay::store::{archive_created_at, created_at_from, json_file_name, session_created_at};

#[test]
fn file_name_of_a_document() {
    assert_eq!(json_file_name("abc"), "abc.json");
    assert_eq!(json_file_name(""), ".json");
    assert_eq!(json_file_name("20250101_120000"), "20250101_120000.json");
}

#[test]
fn archive_name_reads_as_a_date() {
    assert_eq!(archive_created_at("20250101_120000"), "2025-01-01T12:00:00");
    assert_eq!(archive_created_at("20241231_235959_extra"), "2024-12-31T23:59:59");
    assert_eq!(archive_created_at("short"), "short");
    assert_eq!(archive_created_at("2025010_12000"), "2025010_12000");
    assert_eq!(archive_created_at(""), "");
    assert_eq!(archive_created_at("é0250101_1200000"), "é0250101_1200000");
}

#[test]
fn created_at_from_a_lookup() {
    let now = "2025-06-01T10:00:00+00:00".to_string();
    assert_eq!(created_at_from(None, now.clone()), now);
    assert_eq!(created_at_from(Some(None), now.clone()), "");
    assert_eq!(created_at_from(Some(Some("then".to_string())), now), "then");
}

#[test]
fn created_at_kept_from_the_stored_session() {
    let now = "NOW".to_string();
    let doc = r#"{"meta":{"id":"a","created_at":"2024-01-01T00:00:00Z"},"messages":[]}"#;
    assert_eq!(session_created_at(Some(doc), now.clone()), "2024-01-01T00:00:00Z");
    assert_eq!(session_created_at(Some(r#"{"meta":{}}"#), now.clone()), "");
    assert_eq!(session_created_at(Some(r#"{"meta":{"created_at":5}}"#), now.clone()), "");
    assert_eq!(session_created_at(Some("not json"), now.clone()), "NOW");
    assert_eq!(session_created_at(None, now), "NOW");
}
