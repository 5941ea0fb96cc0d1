use picstore::order::OrderBy;
use picstore::error::StoreError;
use picstore::record::{PictureRecord, Zoned};
use picstore::row::RawRow;
use picstore::store::{MemBackend, MemReader, MemWriter};

fn rec(path: &str, nanos: i128) -> PictureRecord {
    PictureRecord {
        path: path.to_string(),
        fs_create_time: Zoned { timestamp: nanos, tz: "UTC".to_string() },
    }
}

fn valid_row(path: &str, ts_text: &str) -> RawRow {
    RawRow {
        path: Some(path.to_string()),
        fs_create_time_timestamp: Some(ts_text.to_string()),
        fs_create_time_timezone: Some("UTC".to_string()),
    }
}

fn written_backend(records: Vec<PictureRecord>) -> MemBackend {
    let mut writer = MemWriter::new(MemBackend::new());
    for r in records {
        writer.on_op(r).expect("accept ok");
    }
    writer.flush().expect("flush ok");
    writer.into_backend()
}

#[test]
fn scenario_a_ordered_load() {
    let backend = written_backend(vec![rec("/a", 1_000), rec("/b", 2_000), rec("/c", 3_000)]);
    let reader = MemReader::new(&backend);
    let out = reader.load(OrderBy::FsCreateTime, 0).expect("load ok");
    let paths: Vec<&str> = out.iter().map(|p| p.path.as_str()).collect();
    assert_eq!(paths, vec!["/a", "/b", "/c"]);
    assert_eq!(out[0].fs_create_time.timestamp, 1_000);
    assert_eq!(out[1].fs_create_time.timestamp, 2_000);
    assert_eq!(out[2].fs_create_time.timestamp, 3_000);
    assert!(out.iter().all(|p| p.exif_create_time.is_none()));
    assert!(out.iter().all(|p| p.fs_create_time.tz == "UTC"));
}

#[test]
fn scenario_b_limited_load() {
    let backend = written_backend(vec![rec("/a", 1_000), rec("/b", 2_000), rec("/c", 3_000)]);
    let reader = MemReader::new(&backend);
    let out = reader.load(OrderBy::FsCreateTime, 2).expect("load ok");
    let paths: Vec<&str> = out.iter().map(|p| p.path.as_str()).collect();
    assert_eq!(paths, vec!["/a", "/b"]);
}

#[test]
fn scenario_c_two_commits() {
    let mut writer = MemWriter::new(MemBackend::new());
    for i in 0..1500 {
        writer.on_op(rec(&format!("/f{}", i), i as i128)).expect("accept ok");
    }
    // One automatic commit happened when the buffer exceeded the threshold.
    assert_eq!(writer.num_commits(), 1);
    writer.flush().expect("flush ok");
    assert_eq!(writer.num_commits(), 2);
    let backend = writer.into_backend();
    assert_eq!(backend.row_count(), 1500);
    let reader = MemReader::new(&backend);
    let out = reader.load(OrderBy::FsCreateTime, 0).expect("load ok");
    assert_eq!(out.len(), 1500);
}

#[test]
fn load_unsorted_input_is_sorted() {
    let backend = written_backend(vec![rec("/c", 3_000), rec("/a", 1_000), rec("/b", 2_000)]);
    let reader = MemReader::new(&backend);
    let out = reader.load(OrderBy::FsCreateTime, 0).expect("load ok");
    let paths: Vec<&str> = out.iter().map(|p| p.path.as_str()).collect();
    assert_eq!(paths, vec!["/a", "/b", "/c"]);
    for w in out.windows(2) {
        assert!(w[0].fs_create_time.timestamp <= w[1].fs_create_time.timestamp);
    }
}

#[test]
fn round_trip_multiset() {
    // Duplicate paths and equal instants are kept as a multiset.
    let records = vec![
        rec("/dup", 5_000),
        rec("/dup", 5_000),
        rec("/x", 1_000),
        rec("/y", 9_000),
        rec("/x", 7_000),
    ];
    let mut expected: Vec<(String, i128)> =
        records.iter().map(|r| (r.path.clone(), r.fs_create_time.timestamp)).collect();
    let backend = written_backend(records);
    let reader = MemReader::new(&backend);
    let out = reader.load(OrderBy::FsCreateTime, 0).expect("load ok");
    let mut got: Vec<(String, i128)> =
        out.iter().map(|p| (p.path.clone(), p.fs_create_time.timestamp)).collect();
    expected.sort();
    got.sort();
    assert_eq!(got, expected);
}

#[test]
fn limit_is_prefix_of_unbounded() {
    let records = vec![
        rec("/e", 50),
        rec("/d", 40),
        rec("/a", 10),
        rec("/c", 30),
        rec("/b", 20),
    ];
    let backend = written_backend(records);
    let reader = MemReader::new(&backend);
    let all = reader.load(OrderBy::FsCreateTime, 0).expect("load ok");
    for n in 1..7usize {
        let bounded = reader.load(OrderBy::FsCreateTime, n).expect("load ok");
        assert!(bounded.len() <= n);
        assert_eq!(bounded.len(), n.min(all.len()));
        for (b, a) in bounded.iter().zip(all.iter()) {
            assert_eq!(b.path, a.path);
            assert_eq!(b.fs_create_time.timestamp, a.fs_create_time.timestamp);
        }
    }
}

#[test]
fn fault_tolerance_at_cap_keeps_all_valid_rows() {
    let mut backend = MemBackend::new();
    // Ten malformed rows of assorted shapes interleaved among valid ones.
    backend.push_row(valid_row("/v0", "1970-01-01T00:00:00Z"));
    for i in 0..10 {
        backend.push_row(match i % 3 {
            0 => RawRow {
                path: None,
                fs_create_time_timestamp: Some("1970-01-01T00:00:00Z".to_string()),
                fs_create_time_timezone: Some("UTC".to_string()),
            },
            1 => valid_row("/bad-ts", "not-a-timestamp"),
            _ => RawRow {
                path: Some("/bad-tz".to_string()),
                fs_create_time_timestamp: Some("1970-01-01T00:00:00Z".to_string()),
                fs_create_time_timezone: Some("No/Such_Zone".to_string()),
            },
        });
        backend.push_row(valid_row(&format!("/v{}", i + 1), "1970-01-01T00:00:01Z"));
    }
    let reader = MemReader::new(&backend);
    let out = reader.load(OrderBy::FsCreateTime, 0).expect("load ok");
    // All eleven valid rows survive exactly ten malformed ones.
    assert_eq!(out.len(), 11);
}

#[test]
fn fault_tolerance_beyond_cap_truncates() {
    let mut backend = MemBackend::new();
    backend.push_row(valid_row("/before", "1970-01-01T00:00:00Z"));
    for _ in 0..10 {
        backend.push_row(valid_row("/bad", "not-a-timestamp"));
    }
    backend.push_row(valid_row("/still-served", "1970-01-01T00:00:01Z"));
    // The eleventh malformed row ends the scan.
    backend.push_row(valid_row("/bad-again", "not-a-timestamp"));
    backend.push_row(valid_row("/dropped", "1970-01-01T00:00:02Z"));
    let reader = MemReader::new(&backend);
    let out = reader.load(OrderBy::FsCreateTime, 0).expect("load ok");
    let paths: Vec<&str> = out.iter().map(|p| p.path.as_str()).collect();
    assert_eq!(paths, vec!["/before", "/still-served"]);
}

#[test]
fn unsupported_order_keys_are_rejected() {
    let backend = written_backend(vec![rec("/a", 1_000)]);
    let reader = MemReader::new(&backend);
    assert!(matches!(
        reader.load(OrderBy::FsModifyTime, 0),
        Err(StoreError::UnsupportedOrderKey)
    ));
    assert!(matches!(
        reader.load(OrderBy::ExifCreateTime, 0),
        Err(StoreError::UnsupportedOrderKey)
    ));
}

#[test]
fn reader_snapshot_is_pinned() {
    let backend = written_backend(vec![rec("/first", 1_000)]);
    let early_reader = MemReader::new(&backend);
    // A second, independent writer commits more rows afterwards.
    let mut writer = MemWriter::new(backend);
    writer.on_op(rec("/second", 2_000)).expect("accept ok");
    writer.flush().expect("flush ok");
    let backend = writer.into_backend();
    let late_reader = MemReader::new(&backend);
    // The early reader's scans stay pinned to its snapshot; the late
    // reader sees the later commit.  Neither shares state with the
    // writer or with the other.
    assert_eq!(early_reader.load(OrderBy::FsCreateTime, 0).expect("load ok").len(), 1);
    assert_eq!(late_reader.load(OrderBy::FsCreateTime, 0).expect("load ok").len(), 2);
    assert_eq!(early_reader.load(OrderBy::FsCreateTime, 0).expect("load ok").len(), 1);
}

#[test]
fn flush_of_empty_buffer_is_a_noop() {
    let mut writer = MemWriter::new(MemBackend::new());
    writer.flush().expect("flush ok");
    assert_eq!(writer.num_commits(), 0);
    writer.on_op(rec("/a", 1)).expect("accept ok");
    writer.flush().expect("flush ok");
    writer.flush().expect("flush ok");
    assert_eq!(writer.num_commits(), 1);
    assert_eq!(writer.into_backend().row_count(), 1);
}

#[test]
fn empty_store_loads_empty() {
    let backend = MemBackend::new();
    let reader = MemReader::new(&backend);
    let out = reader.load(OrderBy::FsCreateTime, 0).expect("load ok");
    assert!(out.is_empty());
    let out = reader.load(OrderBy::FsCreateTime, 5).expect("load ok");
    assert!(out.is_empty());
}

#[test]
fn seeded_text_rows_decode_exactly() {
    // A row left by another writer of the same schema is served with the
    // instant its text denotes.
    let mut backend = MemBackend::new();
    backend.push_row(valid_row("/textual", "1970-01-01T00:00:01Z"));
    backend.push_row(valid_row("/negative", "1969-12-31T23:59:59.999999999Z"));
    let reader = MemReader::new(&backend);
    let out = reader.load(OrderBy::FsCreateTime, 0).expect("load ok");
    assert_eq!(out.len(), 2);
    assert_eq!(out[0].path, "/negative");
    assert_eq!(out[0].fs_create_time.timestamp, -1);
    assert_eq!(out[1].path, "/textual");
    assert_eq!(out[1].fs_create_time.timestamp, 1_000_000_000);
}

#[test]
fn written_and_seeded_rows_agree() {
    // What the writer persists for an instant is the same text a seeded
    // row would carry: both decode to the same served entry.
    let backend = written_backend(vec![rec("/w", 1_000_000_000)]);
    let mut seeded = MemBackend::new();
    seeded.push_row(valid_row("/w", "1970-01-01T00:00:01Z"));
    let a = MemReader::new(&backend).load(OrderBy::FsCreateTime, 0).expect("load ok");
    let b = MemReader::new(&seeded).load(OrderBy::FsCreateTime, 0).expect("load ok");
    assert_eq!(a.len(), 1);
    assert_eq!(b.len(), 1);
    assert_eq!(a[0].path, b[0].path);
    assert_eq!(a[0].fs_create_time.timestamp, b[0].fs_create_time.timestamp);
    assert_eq!(a[0].fs_create_time.tz, b[0].fs_create_time.tz);
}
