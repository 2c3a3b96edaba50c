use analytics::geo::{candidate_urls, dbip_url, month_offset, needs_download, region_label, unpack_db, DB_MAX_AGE_SECS};
use std::io::Write;

#[test]
fn refresh_after_thirty_days() {
    assert!(needs_download(None));
    assert!(!needs_download(Some(0)));
    assert!(!needs_download(Some(DB_MAX_AGE_SECS - 1)));
    assert!(needs_download(Some(DB_MAX_AGE_SECS)));
    assert_eq!(DB_MAX_AGE_SECS, 30 * 24 * 60 * 60);
}

#[test]
fn months_back() {
    assert_eq!(month_offset(2024, 3, 15, 0), (2024, 3, 1));
    assert_eq!(month_offset(2024, 3, 15, 2), (2024, 1, 1));
    assert_eq!(month_offset(2024, 1, 31, 1), (2023, 12, 1));
    assert_eq!(month_offset(2024, 2, 5, 14), (2022, 12, 1));
    assert_eq!(month_offset(2024, 12, 5, 12), (2023, 12, 1));
    assert_eq!(month_offset(-262143, 1, 9, 1), (-262143, 1, 9));
}

#[test]
fn dbip_file_names() {
    assert_eq!(dbip_url(2024, 3), "https://download.db-ip.com/free/dbip-city-lite-2024-03.mmdb.gz");
    assert_eq!(dbip_url(2023, 11), "https://download.db-ip.com/free/dbip-city-lite-2023-11.mmdb.gz");
    assert_eq!(
        candidate_urls(2024, 2, 1),
        vec![
            "https://download.db-ip.com/free/dbip-city-lite-2024-02.mmdb.gz".to_string(),
            "https://download.db-ip.com/free/dbip-city-lite-2024-01.mmdb.gz".to_string(),
            "https://download.db-ip.com/free/dbip-city-lite-2023-12.mmdb.gz".to_string(),
        ]
    );
}

#[test]
fn unpacks_gzip_downloads() {
    let mut enc = flate2::write::GzEncoder::new(Vec::new(), flate2::Compression::default());
    enc.write_all(b"mmdb contents").unwrap();
    let gz = enc.finish().unwrap();
    assert_eq!(unpack_db(&gz), Some(b"mmdb contents".to_vec()));
    assert_eq!(unpack_db(b"mmdb contents"), None);
    assert_eq!(unpack_db(&[]), None);
    assert_eq!(unpack_db(&gz[..gz.len() - 4]), None);
}

#[test]
fn region_prefers_english_name() {
    assert_eq!(region_label(Some("Texas"), Some("TX")), Some("Texas".to_string()));
    assert_eq!(region_label(None, Some("TX")), Some("TX".to_string()));
    assert_eq!(region_label(None, None), None);
}
