use chasqui::domain::{Page, Timestamp};
use chasqui::model::{DbPage, JsonPage, ModelError};
use chrono::NaiveDateTime;

fn timestamp(text: &str) -> Option<Timestamp> {
    NaiveDateTime::parse_from_str(text, "%Y-%m-%d %H:%M:%S")
        .ok()
        .and_then(|at| Timestamp::new(at.and_utc().timestamp(), at.and_utc().timestamp_subsec_nanos()))
}

fn create_test_page() -> Page {
    Page {
        identifier: "test-slug".to_string(),
        filename: "test.md".to_string(),
        name: Some("Test Page".to_string()),
        html_content: "<h1>Hello</h1>".to_string(),
        md_content: "# Hello".to_string(),
        md_content_hash: "hash123".to_string(),
        tags: vec!["rust".to_string(), "api".to_string()],
        modified_datetime: timestamp("2023-01-01 12:00:00"),
        created_datetime: timestamp("2023-01-01 10:00:00"),
    }
}

#[test]
fn test_page_to_db_page_serialization() {
    let page = create_test_page();
    let db_page = DbPage::from(&page);

    assert_eq!(db_page.identifier, "test-slug");
    assert_eq!(db_page.tags, Some(r#"["rust","api"]"#.to_string()));
}

#[test]
fn test_db_page_to_page_deserialization() {
    let db_page = DbPage {
        identifier: "db-slug".to_string(),
        filename: "db.md".to_string(),
        name: None,
        html_content: "".to_string(),
        md_content: "".to_string(),
        md_content_hash: "".to_string(),
        tags: Some(r#"["tag1","tag2"]"#.to_string()),
        modified_datetime: None,
        created_datetime: None,
    };

    let page = Page::try_from(db_page).expect("Should convert from DB model");

    assert_eq!(page.identifier, "db-slug");
    assert_eq!(page.tags, vec!["tag1".to_string(), "tag2".to_string()]);
}

#[test]
fn test_page_to_json_page_formatting() {
    let page = create_test_page();
    let json_page = JsonPage::from(&page);

    assert_eq!(json_page.modified_datetime, Some("2023-01-01 12:00:00".to_string()));
    assert_eq!(json_page.tags, vec!["rust".to_string(), "api".to_string()]);
}

#[test]
fn test_tags_round_trip_empty() {
    let mut page = create_test_page();
    page.tags = vec![];

    let db_page = DbPage::from(&page);
    assert_eq!(db_page.tags, None);

    let round_trip_page = Page::try_from(db_page).expect("Should convert back");
    assert!(round_trip_page.tags.is_empty());
}

#[test]
fn test_malformed_db_tags_fails() {
    let db_page = DbPage {
        identifier: "bad".to_string(),
        filename: "bad.md".to_string(),
        name: None,
        html_content: "".to_string(),
        md_content: "".to_string(),
        md_content_hash: "".to_string(),
        tags: Some("not-json".to_string()),
        modified_datetime: None,
        created_datetime: None,
    };

    let result = Page::try_from(db_page);
    assert!(result.is_err());
}

#[test]
fn page_survives_the_way_through_the_stored_row() {
    let mut page = create_test_page();
    page.tags = vec!["quo\"te".to_string(), "back\\slash".to_string(), "né\n".to_string(), String::new()];
    page.name = None;
    page.created_datetime = None;
    let back = Page::try_from(DbPage::from(&page)).unwrap();
    assert_eq!(back, page);

    let plain = create_test_page();
    assert_eq!(Page::try_from(DbPage::from(&plain)).unwrap(), plain);
}

#[test]
fn stored_row_with_tags_of_the_wrong_shape_is_refused() {
    let mut row = DbPage::from(&create_test_page());
    row.tags = Some(r#"["a", 1]"#.to_string());
    assert_eq!(Page::try_from(row.clone()).err(), Some(ModelError::MalformedTags));
    row.tags = Some(r#"{"a": "b"}"#.to_string());
    assert_eq!(Page::try_from(row.clone()).err(), Some(ModelError::MalformedTags));
    row.tags = Some(String::new());
    assert!(Page::try_from(row.clone()).is_err());
    row.tags = Some("[]".to_string());
    assert!(Page::try_from(row).unwrap().tags.is_empty());
}

#[test]
fn wire_row_keeps_absent_dates_absent_and_formats_the_others() {
    let mut page = create_test_page();
    page.modified_datetime = None;
    page.created_datetime = Timestamp::new(0, 0);
    let wire = JsonPage::from(&page);
    assert_eq!(wire.modified_datetime, None);
    assert_eq!(wire.created_datetime, Some("1970-01-01 00:00:00".to_string()));
    assert_eq!(wire.identifier, page.identifier);
    assert_eq!(wire.filename, page.filename);
    assert_eq!(wire.name, page.name);
    assert_eq!(wire.html_content, page.html_content);
    assert_eq!(wire.md_content, page.md_content);
    assert_eq!(wire.md_content_hash, page.md_content_hash);

    // a moment beyond the calendar is no timestamp
    assert!(Timestamp::new(i64::MAX, 0).is_none());
    assert!(Timestamp::new(i64::MIN, 0).is_none());
    assert!(Timestamp::new(0, 2_000_000_000).is_none());
    // a leap second is one
    let leap = Timestamp::new(1483228799, 1_500_000_000).unwrap();
    assert_eq!((leap.secs(), leap.nanos()), (1483228799, 1_500_000_000));
    page.created_datetime = Some(leap);
    assert_eq!(JsonPage::from(&page).created_datetime, Some("2016-12-31 23:59:60".to_string()));

    // the fraction of a second is not written
    page.created_datetime = Timestamp::new(1672574400, 999_999_999);
    assert_eq!(JsonPage::from(&page).created_datetime, Some("2023-01-01 12:00:00".to_string()));
}

#[test]
fn rows_are_built_from_their_parts() {
    let page = create_test_page();
    let row = DbPage::with_tags(&page, Some("[]".to_string()));
    assert_eq!(row.tags, Some("[]".to_string()));
    assert_eq!(row.identifier, page.identifier);
    assert_eq!(row.modified_datetime, page.modified_datetime);

    let back = Page::with_tags(row, vec!["x".to_string()]);
    assert_eq!(back.tags, vec!["x".to_string()]);
    assert_eq!(back.md_content_hash, page.md_content_hash);

    let wire = JsonPage::with_dates(&page, None, Some("then".to_string()));
    assert_eq!(wire.modified_datetime, None);
    assert_eq!(wire.created_datetime, Some("then".to_string()));
    assert_eq!(wire.tags, page.tags);
}
