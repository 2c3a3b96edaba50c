use analytics::migrate::{
    check_source, escape_path, preflight, proprium_index, source_custom_cards, source_property_id, MigrateError,
};

#[test]
fn refuses_non_empty_destination_without_force() {
    assert!(matches!(preflight(1, 0, 0, false), Err(MigrateError::DestinationNotEmpty)));
    assert!(matches!(preflight(0, 0, 3, false), Err(MigrateError::DestinationNotEmpty)));
    assert!(matches!(preflight(2, 5, 0, true), Ok(true)));
    assert!(matches!(preflight(0, 0, 0, false), Ok(false)));
    assert!(matches!(preflight(0, 0, 0, true), Ok(false)));
}

#[test]
fn source_needs_properties() {
    assert!(matches!(check_source(0), Err(MigrateError::NothingToMigrate)));
    assert!(check_source(4).is_ok());
}

#[test]
fn attach_path_quoting() {
    assert_eq!(escape_path("/data/db.sqlite3"), "/data/db.sqlite3");
    assert_eq!(escape_path("/o'neil/it's.db"), "/o''neil/it''s.db");
}

#[test]
fn django_ids_keep_their_bytes() {
    let id = match source_property_id("67e5504410b1426f9247bb680e5fe0c8") {
        Ok(v) => v,
        Err(_) => panic!("rejected"),
    };
    assert_eq!(id, *uuid::Uuid::parse_str("67e55044-10b1-426f-9247-bb680e5fe0c8").unwrap().as_bytes());
    assert!(matches!(source_property_id("xyz"), Err(MigrateError::BadPropertyId)));
    assert_eq!(source_custom_cards(None), "[]");
    assert_eq!(source_custom_cards(Some("[{\"event\":\"a\"}]")), "[{\"event\":\"a\"}]");
}

#[test]
fn finds_last_proprium() {
    let rows = vec![
        ("Blog".to_string(), 0),
        ("Proprium".to_string(), 1),
        ("Proprium".to_string(), 0),
        ("Proprium".to_string(), 1),
        ("Shop".to_string(), 1),
    ];
    assert_eq!(proprium_index(&rows), Some(3));
    assert_eq!(proprium_index(&vec![("Proprium".to_string(), 0)]), None);
}

#[test]
fn quoted_paths_read_back() {
    for p in ["/data/db.sqlite3", "it's", "''", "'", "a''b'"] {
        let q = escape_path(p);
        assert_eq!(q.replace("''", "'"), p);
        assert_eq!(q.matches('\'').count() % 2, 0);
    }
}
