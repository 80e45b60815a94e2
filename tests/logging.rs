use copper_helpers::clock::{Clock, Timestamp};
use copper_helpers::mirror::{ConfigError, ExtraTextLogger, Level};
use copper_helpers::runtime::{serialize_entry, LoggerRuntime};
use copper_helpers::setup::{
    basic_copper_setup, needs_call_site_index, SetupError, PREALLOCATED_SIZE, STRUCTURED_BUFFER_SIZE,
};
use copper_helpers::store::{LogStore, StorageError};
use copper_helpers::stream::{LogStream, UnifiedLogType};

fn le32(n: usize) -> Vec<u8> {
    vec![(n % 256) as u8, ((n >> 8) % 256) as u8, ((n >> 16) % 256) as u8, ((n >> 24) % 256) as u8]
}

fn frame(tag: u8, payload: &[u8]) -> Vec<u8> {
    let mut v = vec![tag];
    v.extend(le32(payload.len()));
    v.extend_from_slice(payload);
    v
}

#[test]
fn setup_then_one_event_leaves_one_framed_record() {
    let mut ctx = basic_copper_setup(1 << 20, false, String::new(), None).unwrap();
    let payload: Vec<u8> = vec![7, 8, 9];
    let shown = ctx.logger_runtime.log(&mut ctx.unified_logger, Level::Info, &payload).unwrap();
    assert!(!shown);
    assert_eq!(ctx.unified_logger.len(), 0);
    ctx.logger_runtime.flush(&mut ctx.unified_logger).unwrap();
    let bytes = ctx.unified_logger.bytes().clone();
    assert_eq!(bytes.len(), 5 + 8 + 3);
    assert_eq!(bytes[0], 1);
    assert_eq!(bytes[1..5].to_vec(), le32(11));
    assert_eq!(bytes[13..].to_vec(), payload);
}

#[test]
fn setup_without_room_is_a_storage_error() {
    let r = basic_copper_setup(PREALLOCATED_SIZE - 1, false, String::new(), None);
    assert!(matches!(r, Err(SetupError::Storage(StorageError::NoSpace))));
}

#[test]
fn setup_with_missing_index_is_a_config_error() {
    let r = basic_copper_setup(1 << 20, true, "target/debug/log_index".to_string(), None);
    assert!(matches!(r, Err(SetupError::Config(ConfigError::MissingIndex))));
}

#[test]
fn setup_with_index_attaches_mirror() {
    let index = vec!["main.rs:10".to_string(), "main.rs:20".to_string()];
    let mut ctx = basic_copper_setup(1 << 20, true, "idx".to_string(), Some(index)).unwrap();
    let m = ctx.logger_runtime.text_mirror().unwrap();
    assert_eq!(m.location(), "idx");
    assert_eq!(m.level(), Level::Debug);
    assert_eq!(m.call_site(1).unwrap(), "main.rs:20");
    assert!(m.call_site(2).is_none());
    let shown = ctx.logger_runtime.log(&mut ctx.unified_logger, Level::Debug, &vec![1]).unwrap();
    assert!(shown);
}

#[test]
fn setup_reserves_the_preallocation_before_any_record() {
    let ctx = basic_copper_setup(1 << 20, false, String::new(), None).unwrap();
    assert!(ctx.unified_logger.reserved_size() >= PREALLOCATED_SIZE);
    assert_eq!(PREALLOCATED_SIZE, 100 * 1024);
    assert_eq!(ctx.unified_logger.len(), 0);
    let s = ctx.logger_runtime.structured_stream();
    assert_eq!(s.log_type(), UnifiedLogType::StructuredLogLine);
    assert_eq!(s.buffered_len(), 0);
    assert_eq!(STRUCTURED_BUFFER_SIZE, 4096);
}

#[test]
fn disabled_mirror_ignores_index() {
    assert!(!needs_call_site_index(false));
    assert!(needs_call_site_index(true));
    let index = vec!["x".to_string()];
    let mut ctx = basic_copper_setup(1 << 20, false, "idx".to_string(), Some(index)).unwrap();
    assert!(ctx.logger_runtime.text_mirror().is_none());
    let shown = ctx.logger_runtime.log(&mut ctx.unified_logger, Level::Critical, &vec![1]).unwrap();
    assert!(!shown);
}

#[test]
fn oversized_record_is_written_whole_at_once() {
    let mut store = LogStore::create(64, 1 << 16).unwrap();
    let mut s = LogStream::open(UnifiedLogType::CopperList, 16);
    s.write(&mut store, &vec![1, 2]).unwrap();
    assert_eq!(s.buffered_len(), 7);
    assert_eq!(store.len(), 0);
    let big: Vec<u8> = (0..100u8).collect();
    s.write(&mut store, &big).unwrap();
    assert_eq!(s.buffered_len(), 0);
    let mut expected = frame(2, &[1, 2]);
    expected.extend(frame(2, &big));
    assert_eq!(store.bytes().clone(), expected);
}

#[test]
fn stream_keeps_submission_order() {
    let mut store = LogStore::create(64, 1 << 16).unwrap();
    let mut s = LogStream::open(UnifiedLogType::StructuredLogLine, 20);
    let records: Vec<Vec<u8>> = vec![vec![1], vec![2, 2], vec![3, 3, 3], vec![4; 10], vec![5]];
    for r in &records {
        s.write(&mut store, r).unwrap();
    }
    s.flush(&mut store).unwrap();
    let mut expected = Vec::new();
    for r in &records {
        expected.extend(frame(1, r));
    }
    assert_eq!(store.bytes().clone(), expected);
}

#[test]
fn two_streams_write_whole_frames() {
    let mut store = LogStore::create(0, 1 << 16).unwrap();
    let mut a = LogStream::open(UnifiedLogType::StructuredLogLine, 0);
    let mut b = LogStream::open(UnifiedLogType::CopperList, 0);
    a.write(&mut store, &vec![10, 11, 12]).unwrap();
    b.write(&mut store, &vec![20]).unwrap();
    a.write(&mut store, &vec![13]).unwrap();
    let mut expected = frame(1, &[10, 11, 12]);
    expected.extend(frame(2, &[20]));
    expected.extend(frame(1, &[13]));
    assert_eq!(store.bytes().clone(), expected);
}

#[test]
fn store_append_frames_a_record() {
    let mut store = LogStore::create(8, 100).unwrap();
    store.append(3, &vec![0xaa; 300]).unwrap_err();
    store.append(3, &vec![9, 9]).unwrap();
    assert_eq!(store.bytes().clone(), vec![3, 2, 0, 0, 0, 9, 9]);
    assert_eq!(store.room(), 93);
}

#[test]
fn store_refuses_reservation_over_limit() {
    assert!(matches!(LogStore::create(10, 9), Err(StorageError::NoSpace)));
}

#[test]
fn store_full_is_no_space() {
    let mut store = LogStore::create(0, 10).unwrap();
    assert_eq!(store.append(0, &vec![1, 2, 3, 4, 5]), Ok(()));
    assert_eq!(store.append(0, &vec![1]), Err(StorageError::NoSpace));
    assert_eq!(store.len(), 10);
}

#[test]
fn flush_without_room_changes_nothing() {
    let mut store = LogStore::create(0, 6).unwrap();
    let mut s = LogStream::open(UnifiedLogType::Empty, 100);
    s.write(&mut store, &vec![1, 2]).unwrap();
    assert_eq!(s.flush(&mut store), Err(StorageError::NoSpace));
    assert_eq!(s.buffered_len(), 7);
    assert_eq!(store.len(), 0);
}

#[test]
fn storage_failure_stops_runtime() {
    let mut store = LogStore::create(0, 20).unwrap();
    let stream = LogStream::open(UnifiedLogType::StructuredLogLine, 0);
    let mut rt = LoggerRuntime::init(Clock::with_base(0), stream, None);
    assert_eq!(rt.log(&mut store, Level::Info, &vec![1]), Ok(false));
    assert_eq!(store.len(), 14);
    assert_eq!(rt.log(&mut store, Level::Info, &vec![1]), Err(StorageError::NoSpace));
    assert_eq!(rt.failure_state(), Some(StorageError::NoSpace));
    let mut bigger = LogStore::create(0, 1000).unwrap();
    assert_eq!(rt.log(&mut bigger, Level::Info, &vec![1]), Err(StorageError::NoSpace));
    assert_eq!(rt.flush(&mut bigger), Err(StorageError::NoSpace));
    assert_eq!(bigger.len(), 0);
}

#[test]
fn log_at_writes_stamped_entry() {
    let mut store = LogStore::create(0, 1000).unwrap();
    let stream = LogStream::open(UnifiedLogType::StructuredLogLine, 0);
    let mut rt = LoggerRuntime::init(Clock::with_base(5), stream, None);
    let ts = Timestamp { nanos: 0x0102 };
    assert_eq!(rt.log_at(&mut store, ts, Level::Warning, &vec![0xee]), Ok(false));
    assert_eq!(store.bytes().clone(), vec![1, 9, 0, 0, 0, 2, 1, 0, 0, 0, 0, 0, 0, 0xee]);
}

#[test]
fn serialized_entry_is_timestamp_then_payload() {
    let ts = Timestamp { nanos: 0x1122_3344_5566_7788 };
    let e = serialize_entry(ts, &vec![1, 2]);
    assert_eq!(e, vec![0x88, 0x77, 0x66, 0x55, 0x44, 0x33, 0x22, 0x11, 1, 2]);
}

#[test]
fn clock_copies_never_go_back() {
    let c = Clock::new();
    let d = c.clone();
    let mut last = c.now();
    for i in 0..100 {
        let t = if i % 2 == 0 { d.now() } else { c.now() };
        assert!(t.nanos >= last.nanos);
        last = t;
    }
}

#[test]
fn clock_reads_wall_time_and_saturates() {
    let c = Clock::new();
    // later than 2020-01-01 in nanoseconds since the epoch
    assert!(c.now().nanos > 1_577_836_800_000_000_000);
    let m = Clock::with_base(100);
    assert_eq!(m.stamp(23), Timestamp { nanos: 123 });
    assert_eq!(m.stamp(5).nanos <= m.stamp(6).nanos, true);
    let top = Clock::with_base(u64::MAX - 1);
    assert_eq!(top.stamp(10).nanos, u64::MAX);
    assert!(Clock::with_base(7).now().nanos >= 7);
}

#[test]
fn mirror_filters_by_severity() {
    let m = ExtraTextLogger::new("i".to_string(), Some(vec![]), Level::Warning).unwrap();
    assert!(!m.shows(Level::Info));
    assert!(m.shows(Level::Warning));
    assert!(m.shows(Level::Critical));
    assert!(matches!(
        ExtraTextLogger::new("i".to_string(), None, Level::Debug),
        Err(ConfigError::MissingIndex)
    ));
    let store = LogStore::create(0, 100);
    let mut store = store.unwrap();
    let mut rt = LoggerRuntime::init(Clock::with_base(0), LogStream::open(UnifiedLogType::Empty, 64), Some(m));
    assert_eq!(rt.log(&mut store, Level::Debug, &vec![]), Ok(false));
    assert_eq!(rt.log(&mut store, Level::Error, &vec![]), Ok(true));
}

#[test]
fn tags_are_distinct() {
    assert_eq!(UnifiedLogType::Empty.tag(), 0);
    assert_eq!(UnifiedLogType::StructuredLogLine.tag(), 1);
    assert_eq!(UnifiedLogType::CopperList.tag(), 2);
    assert_eq!(UnifiedLogType::LastEntry.tag(), 3);
    assert!(Level::Error.at_least(Level::Info));
    assert!(!Level::Debug.at_least(Level::Info));
}

#[test]
fn clock_from_wall_reading() {
    assert_eq!(Clock::from_wall(Some(42)).stamp(0).nanos, 42);
    assert_eq!(Clock::from_wall(None).stamp(0).nanos, 0);
    assert_eq!(Clock::from_wall(Some(u128::MAX)).stamp(0).nanos, u64::MAX);
    assert_eq!(Clock::from_wall(Some(u64::MAX as u128 + 1)).stamp(0).nanos, u64::MAX);
}

#[test]
fn outside_failure_stops_runtime() {
    let mut store = LogStore::create(0, 1000).unwrap();
    let stream = LogStream::open(UnifiedLogType::StructuredLogLine, 64);
    let mut rt = LoggerRuntime::init(Clock::with_base(0), stream, None);
    rt.record_failure(StorageError::WriteFailed);
    assert_eq!(rt.failure_state(), Some(StorageError::WriteFailed));
    assert_eq!(rt.log(&mut store, Level::Error, &vec![1]), Err(StorageError::WriteFailed));
    assert_eq!(rt.flush(&mut store), Err(StorageError::WriteFailed));
    assert_eq!(store.len(), 0);
}
