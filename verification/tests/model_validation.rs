use picstore::config::ServerConfig;
use picstore::error::ValidationError;
use picstore::error::StoreError;
use picstore::order::{OrderBy, select_sql};
use picstore::record::{PictureRecord, Zoned};
use picstore::row::RawRow;
use picstore::scan::{ScanAction, ScanCounter, MAX_SCAN_FAULTS};
use picstore::writer::{Batcher, BATCH_THRESHOLD};

#[test]
fn zoned_requires_a_time_zone() {
    assert!(matches!(Zoned::new(0, None), Err(ValidationError::MissingTimeZone)));
}

#[test]
fn zoned_rejects_unresolvable_zone() {
    assert!(matches!(
        Zoned::new(0, Some("No/Such_Zone".to_string())),
        Err(ValidationError::UnresolvableTimeZone)
    ));
}

#[test]
fn zoned_rejects_out_of_range_instant() {
    assert!(matches!(
        Zoned::new(i128::MAX, Some("UTC".to_string())),
        Err(ValidationError::InstantOutOfRange)
    ));
    assert!(matches!(
        Zoned::new(i128::MIN, Some("UTC".to_string())),
        Err(ValidationError::InstantOutOfRange)
    ));
}

#[test]
fn zoned_accepts_a_resolvable_zone() {
    let z = Zoned::new(42, Some("UTC".to_string())).expect("valid");
    assert_eq!(z.timestamp, 42);
    assert_eq!(z.tz, "UTC");
    let z = Zoned::new(-42, Some("America/New_York".to_string())).expect("valid");
    assert_eq!(z.tz, "America/New_York");
}

#[test]
fn picture_record_rejects_non_text_path() {
    let z = Zoned { timestamp: 0, tz: "UTC".to_string() };
    assert!(matches!(PictureRecord::new(None, z), Err(ValidationError::InvalidPath)));
}

#[test]
fn picture_record_accepts_text_path() {
    let z = Zoned { timestamp: 7, tz: "UTC".to_string() };
    let r = PictureRecord::new(Some("/p".to_string()), z).expect("valid");
    assert_eq!(r.path, "/p");
    assert_eq!(r.fs_create_time.timestamp, 7);
}

#[test]
fn order_by_parses_its_names() {
    assert!(matches!(OrderBy::from_param("FsCreateTime"), Some(OrderBy::FsCreateTime)));
    assert!(matches!(OrderBy::from_param("FsModifyTime"), Some(OrderBy::FsModifyTime)));
    assert!(matches!(OrderBy::from_param("ExifCreateTime"), Some(OrderBy::ExifCreateTime)));
    assert!(OrderBy::from_param("fscreatetime").is_none());
    assert!(OrderBy::from_param("").is_none());
    assert!(OrderBy::from_param("FsCreateTime ").is_none());
}

#[test]
fn select_sql_shapes() {
    assert_eq!(
        select_sql(OrderBy::FsCreateTime, 0).expect("supported"),
        "SELECT path, fs_create_time_timestamp, fs_create_time_timezone FROM records ORDER BY fs_create_time_timestamp"
    );
    assert_eq!(
        select_sql(OrderBy::FsCreateTime, 25).expect("supported"),
        "SELECT path, fs_create_time_timestamp, fs_create_time_timezone FROM records ORDER BY fs_create_time_timestamp LIMIT ?1"
    );
    assert!(matches!(
        select_sql(OrderBy::FsModifyTime, 0),
        Err(StoreError::UnsupportedOrderKey)
    ));
    assert!(matches!(
        select_sql(OrderBy::ExifCreateTime, 3),
        Err(StoreError::UnsupportedOrderKey)
    ));
}

#[test]
fn scan_counter_skips_then_stops() {
    let malformed = RawRow {
        path: None,
        fs_create_time_timestamp: None,
        fs_create_time_timezone: None,
    };
    let valid = RawRow {
        path: Some("/v".to_string()),
        fs_create_time_timestamp: Some("1970-01-01T00:00:00Z".to_string()),
        fs_create_time_timezone: Some("UTC".to_string()),
    };
    let mut counter = ScanCounter::new();
    assert!(matches!(counter.on_row(&valid), ScanAction::Yield(_)));
    for _ in 0..MAX_SCAN_FAULTS {
        assert!(matches!(counter.on_row(&malformed), ScanAction::Skip));
    }
    // The cap is spent: a decodable row still serves, one more malformed
    // row ends the scan.
    assert!(matches!(counter.on_row(&valid), ScanAction::Yield(_)));
    assert!(matches!(counter.on_row(&malformed), ScanAction::Stop));
}

#[test]
fn scan_counter_yields_decoded_fields() {
    let valid = RawRow {
        path: Some("/v".to_string()),
        fs_create_time_timestamp: Some("1970-01-01T00:00:01Z".to_string()),
        fs_create_time_timezone: Some("UTC".to_string()),
    };
    let mut counter = ScanCounter::new();
    match counter.on_row(&valid) {
        ScanAction::Yield(p) => {
            assert_eq!(p.path, "/v");
            assert_eq!(p.fs_create_time.timestamp, 1_000_000_000);
            assert_eq!(p.fs_create_time.tz, "UTC");
            assert!(p.exif_create_time.is_none());
        },
        _ => panic!("a valid row must be served"),
    }
}

#[test]
fn decode_is_pinned_by_the_zone_outcome() {
    let valid = RawRow {
        path: Some("/v".to_string()),
        fs_create_time_timestamp: Some("1970-01-01T00:00:01Z".to_string()),
        fs_create_time_timezone: Some("UTC".to_string()),
    };
    let p = picstore::row::decode_row_with(&valid, true).expect("decodes");
    assert_eq!(p.path, "/v");
    assert_eq!(p.fs_create_time.timestamp, 1_000_000_000);
    assert!(picstore::row::decode_row_with(&valid, false).is_none());
    let missing_ts = RawRow {
        path: Some("/v".to_string()),
        fs_create_time_timestamp: None,
        fs_create_time_timezone: Some("UTC".to_string()),
    };
    assert!(picstore::row::decode_row_with(&missing_ts, true).is_none());
}

fn plain_record(i: usize) -> PictureRecord {
    PictureRecord {
        path: format!("/r{}", i),
        fs_create_time: Zoned { timestamp: i as i128, tz: "UTC".to_string() },
    }
}

#[test]
fn batcher_commits_past_threshold() {
    let mut b = Batcher::new();
    for i in 0..BATCH_THRESHOLD {
        assert!(b.accept(plain_record(i)).is_none());
    }
    assert_eq!(b.pending(), BATCH_THRESHOLD);
    let batch = b.accept(plain_record(BATCH_THRESHOLD)).expect("batch due");
    assert_eq!(batch.len(), BATCH_THRESHOLD + 1);
    assert_eq!(b.pending(), 0);
}

#[test]
fn batcher_restores_a_failed_batch() {
    let mut b = Batcher::new();
    assert!(b.accept(plain_record(0)).is_none());
    assert!(b.accept(plain_record(1)).is_none());
    let batch = b.drain();
    assert_eq!(batch.len(), 2);
    assert_eq!(b.pending(), 0);
    // A commit that failed hands the batch back for a retry.
    b.restore(batch);
    assert_eq!(b.pending(), 2);
    let again = b.drain();
    assert_eq!(again.len(), 2);
    assert_eq!(again[0].path, "/r0");
    assert_eq!(again[1].path, "/r1");
}

#[test]
fn server_config_remembers_its_path() {
    let c = ServerConfig::new("/tmp/store.db".to_string());
    assert_eq!(c.store_path, "/tmp/store.db");
}
