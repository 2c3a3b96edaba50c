use analytics::dates::{first_event_label, parse_date_to_ms, wall_clock};
use analytics::event_data::{EventData, JsonValue};
use analytics::ids::{stored_proprium, uuid_from_slice};
use analytics::models::{CustomCard, PropertyRow};

fn row(id: Vec<u8>) -> PropertyRow {
    PropertyRow {
        id,
        name: "Blog".to_string(),
        custom_cards: "[]".to_string(),
        is_protected: 1,
        is_public: 0,
        created_at: 5,
        updated_at: 6,
    }
}

#[test]
fn rows_become_properties() {
    let bytes: Vec<u8> = (1..=16).collect();
    let p = row(bytes.clone()).into_property(Some(vec![CustomCard { event: "signup".to_string(), value: true }]));
    assert_eq!(p.id.to_vec(), bytes);
    assert_eq!(p.name, "Blog");
    assert!(p.is_protected && !p.is_public);
    assert_eq!((p.created_at, p.updated_at), (5, 6));
    assert_eq!(p.custom_cards.len(), 1);
    let q = row(vec![1, 2, 3]).into_property(None);
    assert_eq!(q.id, [0u8; 16]);
    assert!(q.custom_cards.is_empty());
}

#[test]
fn property_ids_in_urls() {
    let id = *uuid::Uuid::parse_str("67E55044-10B1-426F-9247-BB680E5FE0C8").unwrap().as_bytes();
    let p = row(id.to_vec()).into_property(None);
    assert_eq!(p.id_text(), "67e55044-10b1-426f-9247-bb680e5fe0c8");
}

#[test]
fn stored_proprium_ids() {
    assert_eq!(stored_proprium(None), None);
    assert_eq!(stored_proprium(Some("garbage")), None);
    let id = stored_proprium(Some("67e55044-10b1-426f-9247-bb680e5fe0c8")).unwrap();
    assert_eq!(id[0], 0x67);
    assert_eq!(uuid_from_slice(&id), Some(id));
    assert_eq!(uuid_from_slice(&id[..15]), None);
}

#[test]
fn dates() {
    assert!(parse_date_to_ms("2024-13-01", false).is_none());
    assert!(parse_date_to_ms("yesterday", true).is_none());
    let a = parse_date_to_ms("2024-03-10", false).unwrap();
    let b = parse_date_to_ms("2024-03-10", true).unwrap();
    assert!(b > a);
    assert_eq!(first_event_label(None), None);
    assert_eq!(first_event_label(Some(1_709_251_200_000)), Some("Mar 1, 2024".to_string()));
    assert_eq!(first_event_label(Some(i64::MAX)), None);
}

#[test]
fn event_data_map_behaviour() {
    let mut d = EventData::new();
    assert!(d.is_empty());
    d.insert("a".to_string(), JsonValue::Str("1".to_string()));
    d.insert("b".to_string(), JsonValue::Str("2".to_string()));
    d.insert("a".to_string(), JsonValue::Str("3".to_string()));
    assert_eq!(d.entries().len(), 2);
    assert_eq!(d.get_str("a"), Some("3".to_string()));
    match d.remove("b") {
        Some(JsonValue::Str(s)) => assert_eq!(s, "2"),
        _ => panic!("b missing"),
    }
    assert!(d.get("b").is_none());
    assert!(d.remove("b").is_none());
    assert!(!d.is_empty());
}

#[test]
fn period_bounds_are_start_and_end_of_day() {
    assert_eq!(wall_clock(false), (0, 0, 0));
    assert_eq!(wall_clock(true), (23, 59, 59));
    let a = parse_date_to_ms("2024-01-15", false).unwrap();
    let b = parse_date_to_ms("2024-01-15", true).unwrap();
    let utc = 1_705_276_800_000i64;
    assert!((a - utc).abs() < 86_400_000 && (a - utc) % 1000 == 0);
    assert!((b - (utc + 86_399_000)).abs() < 86_400_000);
}
