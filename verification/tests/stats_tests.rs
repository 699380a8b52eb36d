use chum::fs::DirState;
use chum::s3;
use chum::stats::StatsCollector;
use chum::textfmt::{u128_string, u64_string};
use chum::utils::{ChumError, OutputFormat};
use chum::webdav;
use chum::worker::{bytes_to_human, Operation, WorkerInfo, WorkerStat};

fn wi(id: u64, op: Operation, size: u64, ttfb: u128, rtt: u128) -> WorkerInfo {
    WorkerInfo { id, op, size, ttfb, rtt }
}

#[test]
fn test_decimal_rendering() {
    assert_eq!(u64_string(0), "0");
    assert_eq!(u64_string(7), "7");
    assert_eq!(u64_string(1234), "1234");
    assert_eq!(u64_string(u64::MAX), "18446744073709551615");
    assert_eq!(u128_string(340282366920938463463374607431768211455), "340282366920938463463374607431768211455");
}

#[test]
fn test_bytes_to_human() {
    assert_eq!(bytes_to_human(0), "0MB");
    assert_eq!(bytes_to_human(1048576), "1MB");
    assert_eq!(bytes_to_human(3 * 1048576 + 12345), "3MB");
}

#[test]
fn test_worker_stat_accumulation() {
    let mut s = WorkerStat::new();
    s.add_result(&wi(0, Operation::Read, 100, 4, 6));
    s.add_result(&wi(0, Operation::Read, 50, 2, 4));
    assert_eq!(s.objs, 2);
    assert_eq!(s.data, 150);
    assert_eq!(s.ttfb, 6);
    assert_eq!(s.rtt, 10);
    s.clear();
    assert_eq!(s.objs, 0);
    assert_eq!(s.data, 0);
    // accumulation saturates instead of wrapping
    let mut t = WorkerStat::new();
    t.data = u64::MAX - 1;
    t.add_result(&wi(0, Operation::Write, 100, 0, 0));
    assert_eq!(t.data, u64::MAX);
}

#[test]
fn test_serialize_relative_exact() {
    let s = WorkerStat { objs: 2, data: 4194304, ttfb: 10, rtt: 30 };
    assert_eq!(
        s.serialize_relative(),
        "2 objects, 4MB, avg ttfb 5ms, avg rtt 15ms"
    );
}

#[test]
fn test_serialize_absolute_exact() {
    let s = WorkerStat { objs: 4, data: 8388608, ttfb: 0, rtt: 0 };
    assert_eq!(
        s.serialize_absolute(2),
        "4 objects, 8MB, 2s, avg 2 objs/s, avg 4MB/s"
    );
}

#[test]
fn test_data_cap_termination() {
    // a ten-byte cap against five-byte writes: reached exactly at the
    // second write, not before
    let mut c = StatsCollector::new(1, 10);
    assert!(!c.cap_reached());
    c.record(Ok(wi(0, Operation::Write, 5, 0, 0)));
    assert!(!c.cap_reached());
    c.record(Ok(wi(0, Operation::Write, 5, 0, 0)));
    assert!(c.cap_reached());
    // only writes count against the cap
    let mut r = StatsCollector::new(1, 10);
    r.record(Ok(wi(0, Operation::Read, 100, 0, 0)));
    assert!(!r.cap_reached());
    // a zero cap means unbounded
    let mut u = StatsCollector::new(1, 0);
    u.record(Ok(wi(0, Operation::Write, 1000, 0, 0)));
    assert!(!u.cap_reached());
}

#[test]
fn test_tabular_line_exact() {
    let mut c = StatsCollector::new(1, 0);
    c.record(Ok(wi(0, Operation::Read, 100, 4, 6)));
    c.record(Ok(wi(0, Operation::Write, 40, 0, 8)));
    c.record(Err(ChumError::new("boom")));
    assert_eq!(c.render_tabular(42), "42 1 1 100 40 4 0 6 8 1");
}

#[test]
fn test_human_report_exact() {
    let mut c = StatsCollector::new(1, 0);
    c.record(Ok(wi(0, Operation::Read, 100, 4, 6)));
    let report = c.render_human(&OutputFormat::Human, 1);
    let expected = "---\n\
        Tick (read)\t1 objects, 0MB, avg ttfb 4ms, avg rtt 6ms\n\
        Tick (write)No activity this tick\n\
        Tick (delete)No activity this tick\n\
        Tick (error)No activity this tick\n\
        Total (read)\t1 objects, 0MB, 1s, avg 1 objs/s, avg 0MB/s\n\
        Total (write)No activity this tick\n\
        Total (delete)No activity this tick\n\
        Total (error)No activity this tick\n";
    assert_eq!(report, expected);
}

#[test]
fn test_verbose_report_lists_workers() {
    let mut c = StatsCollector::new(2, 0);
    c.record(Ok(wi(1, Operation::Write, 1048576, 0, 2)));
    let report = c.render_human(&OutputFormat::HumanVerbose, 1);
    assert!(report.contains("Thread (write)\n\t1: 1 objects, 1MB, avg ttfb 0ms, avg rtt 2ms\n"));
    assert!(report.contains("Thread (read)\n"));
}

#[test]
fn test_reset_tick_keeps_lifetime() {
    let mut c = StatsCollector::new(1, 10);
    c.record(Ok(wi(0, Operation::Write, 10, 0, 0)));
    assert!(c.cap_reached());
    c.reset_tick();
    // the interval tier is zeroed, the lifetime volume is not
    assert_eq!(c.render_tabular(0), "0 0 0 0 0 0 0 0 0 0");
    assert!(c.cap_reached());
    let report = c.render_human(&OutputFormat::Human, 1);
    assert!(report.contains("Total (write)\t1 objects, 0MB, 1s, avg 1 objs/s, avg 0MB/s\n"));
    assert!(report.contains("Tick (write)No activity this tick\n"));
}

#[test]
fn test_errors_bucketed_separately() {
    let mut c = StatsCollector::new(1, 0);
    c.record(Err(ChumError::new("first")));
    c.record(Err(ChumError::new("second")));
    let report = c.render_human(&OutputFormat::Human, 1);
    assert!(report.contains("Tick (error)\t2 errors\n"));
    assert!(report.contains("Total (error)\t2 errors\n"));
}

#[test]
fn test_webdav_path() {
    assert_eq!(
        webdav::get_path("10.0.0.1:8080".to_string(), "abc".to_string()),
        "http://10.0.0.1:8080/api/v1/object/abc"
    );
}

#[test]
fn test_s3_path() {
    assert_eq!(s3::get_path("deadbeef"), "v2/chum/de/deadbeef");
}

#[test]
fn test_fs_path_layout() {
    let mut d = DirState::new();
    let p1 = d.get_path("/data", "obj1");
    assert!(p1.starts_with("/data/"));
    assert!(p1.ends_with("/0/obj1"));
    let p2 = d.get_path("/data", "obj2");
    assert!(p2.ends_with("/0/obj2"));
    // the date components are in range: TARGET/YEAR/MONTHDAY/SHARD/NAME
    let parts: Vec<&str> = p1.split('/').collect();
    let monthday = parts[parts.len() - 3];
    assert!(monthday.len() >= 2 && monthday.len() <= 4);
}

#[test]
fn test_fs_shard_rollover() {
    let mut d = DirState::new();
    for _ in 0..100000 {
        d.get_path("t", "f");
    }
    // the shard only rolls over once the entry bound is passed
    let at_bound = d.get_path("t", "f");
    assert!(at_bound.ends_with("/1/f"));
}
