use killa::every;
use killa::BridgePoll;
use killa::Collector;
use killa::ColumnKind;
use killa::Error;
use killa::KillaData;
use killa::MemHarvest;
use killa::PollEvent;
use killa::ProcRecord;
use killa::ProcessUptimeCollector;
use killa::Progress;
use killa::ProgressTracker;
use killa::RawData;

fn record(name: &str, pid: i32, command: &str, mem: u64, cpu_centi: u64) -> ProcRecord {
    ProcRecord {
        name: name.to_string(),
        pid,
        command: command.to_string(),
        mem_usage_bytes: mem,
        cpu_centi,
        time_ms: 1_000,
    }
}

fn empty_raw() -> RawData {
    RawData { list_of_processes: None, memory: None }
}

#[test]
fn checked_percent_half_is_fifty() {
    let m = MemHarvest { used_bytes: 50, total_bytes: 100 };
    // 50 of 100 bytes used renders as 50.0 percent.
    assert_eq!(m.checked_percent_tenths(), Some(500));
}

#[test]
fn checked_percent_zero_total_is_unavailable() {
    let m = MemHarvest { used_bytes: 50, total_bytes: 0 };
    assert_eq!(m.checked_percent_tenths(), None);
}

#[test]
fn checked_percent_rounds_down() {
    let m = MemHarvest { used_bytes: 1, total_bytes: 3 };
    // 33.33..% truncates to 33.3%.
    assert_eq!(m.checked_percent_tenths(), Some(333));
}

#[test]
fn transform_normalizes_cpu_by_core_count() {
    let raw = RawData {
        list_of_processes: Some(vec![record("init", 1, "init", 2_500_000, 1_000)]),
        memory: Some(MemHarvest { used_bytes: 50, total_bytes: 100 }),
    };
    // 10.00% across 2 cores is 5.0% per core: 50 tenths.
    let data = KillaData::from_data(raw, 2);
    assert_eq!(data.rows.len(), 1);
    assert_eq!(data.rows[0].cpu_tenths, 50);
    assert_eq!(data.rows[0].mem_bytes, 2_500_000);
    assert_eq!(data.rows[0].mem_mb(), 2);
    assert_eq!(data.memory.used_bytes, 50);
}

#[test]
fn transform_lowercases_search_keys() {
    let raw = RawData {
        list_of_processes: Some(vec![record("FireFox", 3, "/usr/bin/FireFox --Flag", 0, 0)]),
        memory: None,
    };
    let data = KillaData::from_data(raw, 1);
    assert_eq!(data.rows[0].program_name, "FireFox");
    assert_eq!(data.rows[0].program_name_lowercase, "firefox");
    assert_eq!(data.rows[0].command_lowercase, "/usr/bin/firefox --flag");
}

#[test]
fn transform_missing_parts_become_empty() {
    let data = KillaData::from_collected(empty_raw());
    assert_eq!(data.rows.len(), 0);
    assert_eq!(data.memory, MemHarvest { used_bytes: 0, total_bytes: 0 });
}

#[test]
fn bridge_reports_end_of_stream_exactly_once() {
    let mut bridge = Collector::new();
    match bridge.poll_next(PollEvent::Update(empty_raw())) {
        BridgePoll::Ready(_) => {},
        other => panic!("expected a snapshot, got {:?}", other),
    }
    assert!(matches!(bridge.poll_next(PollEvent::Empty), BridgePoll::Pending));
    assert!(matches!(bridge.poll_next(PollEvent::Other), BridgePoll::Pending));
    assert!(matches!(bridge.poll_next(PollEvent::Disconnected), BridgePoll::EndOfStream));
    // Every later poll is pending: the end of the stream is reported once.
    assert!(matches!(bridge.poll_next(PollEvent::Disconnected), BridgePoll::Pending));
    assert!(matches!(bridge.poll_next(PollEvent::Update(empty_raw())), BridgePoll::Pending));
}

#[test]
fn every_first_tick_comes_one_period_after_first_poll() {
    let mut schedule = every(500);
    assert!(!schedule.poll_at(1_000));
    assert!(!schedule.poll_at(1_499));
    assert!(schedule.poll_at(1_500));
    assert!(!schedule.poll_at(1_999));
    assert!(schedule.poll_at(2_100));
    // A late tick reschedules from the late poll: nothing fires at 2 350.
    assert!(!schedule.poll_at(2_350));
    assert!(schedule.poll_at(2_600));
}

#[test]
fn uptimes_computes_start_time_from_ticks() {
    let c = ProcessUptimeCollector::new(100, 1_700_000_000);
    // 12 345 ticks at 100 ticks per second is 123 seconds after boot.
    assert_eq!(c.start_time_from_ticks(12_345), Some(1_700_000_123));
}

#[test]
fn uptimes_zero_ticks_per_second_falls_back_to_one() {
    let c = ProcessUptimeCollector::new(0, 1_000);
    assert_eq!(c.clock_ticks_per_sec, 1);
    assert_eq!(c.start_time_from_ticks(30), Some(1_030));
}

#[test]
fn uptimes_caches_and_evicts_by_pid() {
    let mut c = ProcessUptimeCollector::new(100, 1_700_000_000);
    assert_eq!(c.lookup(42), None);
    assert_eq!(c.record(42, 500), Some(1_700_000_005));
    assert_eq!(c.record(43, 1_000), Some(1_700_000_010));
    assert_eq!(c.lookup(42), Some(1_700_000_005));
    // Pid 42 is gone from the live set: its entry is dropped, 43 stays.
    c.evict_absent(&vec![43]);
    assert_eq!(c.lookup(42), None);
    assert_eq!(c.lookup(43), Some(1_700_000_010));
}

#[test]
fn uptimes_overflowing_start_time_is_rejected() {
    let c = ProcessUptimeCollector::new(1, u64::MAX - 10);
    assert_eq!(c.start_time_from_ticks(100), None);
}

#[test]
fn download_progress_counts_chunks() {
    let started = ProgressTracker::start(Some(2_000));
    let mut tracker = started.expect("a declared length must start the tracker");
    assert_eq!(
        tracker.on_chunk(500),
        Progress::Downloading { percent_tenths: 250 },
    );
    assert_eq!(
        tracker.on_chunk(1_500),
        Progress::Downloading { percent_tenths: 1_000 },
    );
}

#[test]
fn download_without_content_length_is_refused() {
    assert_eq!(ProgressTracker::start(None), Err(Error::NoContentLength));
}

#[test]
fn column_labels_match_the_table_headers() {
    assert_eq!(ColumnKind::Name.label(), "Name");
    assert_eq!(ColumnKind::Memory.label(), "Memory");
    assert_eq!(ColumnKind::Cpu.label(), "CPU");
    assert_eq!(ColumnKind::Pid.label(), "ID");
    assert_eq!(ColumnKind::Command.label(), "Command");
    assert_eq!(ColumnKind::Started.label(), "Started");
    assert_eq!(ColumnKind::CpuTime.label(), "Time");
}
