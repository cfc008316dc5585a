use sysmon::estimator::UsageEstimator;
use sysmon::processes::{EnumerationError, Process, ProcessManager};
use sysmon::ranker::{rank, top};
use sysmon::record::{parse_sample, RawRecord, RawSample, ReadError};

fn stat_line(pid: u32, state: &str, utime: u64, stime: u64) -> Vec<u8> {
    format!(
        "{} (proc{}) {} 1 {} {} 0 -1 4194304 100 0 0 0 {} {} 0 0 20 0 1 0 100 1000 10",
        pid, pid, state, pid, pid, utime, stime
    )
    .into_bytes()
}

fn record(pid: u32, ticks: u64, at_ms: u64) -> RawRecord {
    RawRecord {
        pid,
        comm: format!("proc{}\n", pid).into_bytes(),
        stat: stat_line(pid, "S", ticks, 0),
        sampled_at: at_ms,
    }
}

fn sample(pid: u32, ticks: u64, at_ms: u64) -> RawSample {
    RawSample { pid, name: String::new(), state: String::new(), cpu_ticks: ticks, sampled_at: at_ms }
}

fn proc(pid: u32, cpu: u64) -> Process {
    let mut p = Process::new(pid, format!("p{}", pid), "R".to_string());
    p.cpu_usage = cpu;
    p
}

fn keys(ps: &[Process]) -> Vec<(u32, u64)> {
    ps.iter().map(|p| (p.pid, p.cpu_usage)).collect()
}

fn engine(cores: u32) -> ProcessManager {
    ProcessManager::new(UsageEstimator::new(100, cores))
}

#[test]
fn first_sighting_reports_zero() {
    let mut e = UsageEstimator::new(100, 4);
    assert_eq!(e.update(&sample(7, 123456, 5000)), 0);
    assert_eq!(e.update(&sample(8, 0, 0)), 0);
}

#[test]
fn two_cycles_give_rate_from_elapsed_time() {
    let mut e = UsageEstimator::new(100, 4);
    assert_eq!(e.update(&sample(100, 500, 0)), 0);
    // 200 ticks at 100 per second over one second: 200.00 %.
    assert_eq!(e.update(&sample(100, 700, 1000)), 20000);
}

#[test]
fn rate_is_clamped_to_ceiling() {
    let mut e = UsageEstimator::new(100, 1);
    e.update(&sample(100, 500, 0));
    assert_eq!(e.update(&sample(100, 700, 1000)), 10000);
}

#[test]
fn rate_depends_on_differences_only() {
    let mut a = UsageEstimator::new(100, 8);
    let mut b = UsageEstimator::new(100, 8);
    a.update(&sample(1, 0, 0));
    b.update(&sample(1, 90000, 777000));
    let ra = a.update(&sample(1, 50, 2000));
    let rb = b.update(&sample(1, 90050, 779000));
    assert_eq!(ra, rb);
    // 50 ticks over 2 s at 100/s: 25.00 %.
    assert_eq!(ra, 2500);
}

#[test]
fn counter_decrease_is_fresh_sighting() {
    let mut e = UsageEstimator::new(100, 4);
    e.update(&sample(42, 1000, 0));
    assert_eq!(e.update(&sample(42, 10, 1000)), 0);
    // The stored entry was replaced by (10, 1000): 100 ticks in 1 s is 100 %.
    assert_eq!(e.update(&sample(42, 110, 2000)), 10000);
}

#[test]
fn clock_not_advancing_reports_zero() {
    let mut e = UsageEstimator::new(100, 4);
    e.update(&sample(3, 100, 1000));
    assert_eq!(e.update(&sample(3, 200, 1000)), 0);
    assert_eq!(e.update(&sample(3, 300, 500)), 0);
}

#[test]
fn rank_orders_by_usage_then_pid() {
    let r = rank(vec![proc(5, 100), proc(3, 900), proc(9, 100), proc(1, 100), proc(2, 0)]);
    assert_eq!(keys(&r), vec![(3, 900), (1, 100), (5, 100), (9, 100), (2, 0)]);
}

#[test]
fn rank_is_idempotent() {
    let once = rank(vec![proc(4, 10), proc(2, 10), proc(8, 30), proc(6, 0)]);
    let first = keys(&once);
    let twice = rank(once);
    assert_eq!(keys(&twice), first);
}

#[test]
fn rank_of_empty_is_empty() {
    assert!(rank(Vec::new()).is_empty());
}

#[test]
fn top_is_bounded() {
    let r = rank(vec![proc(1, 5), proc(2, 7), proc(3, 6)]);
    assert_eq!(keys(top(&r, 2)), vec![(2, 7), (3, 6)]);
    assert_eq!(top(&r, 10).len(), 3);
    assert_eq!(top(&r, 0).len(), 0);
    assert_eq!(top(&[], 3).len(), 0);
}

#[test]
fn parse_sample_reads_counters() {
    let rec = RawRecord {
        pid: 1234,
        comm: b"  bash \n".to_vec(),
        stat: stat_line(1234, "R", 150, 50),
        sampled_at: 9,
    };
    let s = parse_sample(&rec).unwrap();
    assert_eq!(s.pid, 1234);
    assert_eq!(s.name, "bash");
    assert_eq!(s.state, "R");
    assert_eq!(s.cpu_ticks, 200);
    assert_eq!(s.sampled_at, 9);
}

#[test]
fn parse_sample_rejects_short_record() {
    let rec = RawRecord {
        pid: 1,
        comm: b"init\n".to_vec(),
        stat: b"1 (init) S 0 1 1 0 -1 4194304 100 0 0 0 15".to_vec(),
        sampled_at: 0,
    };
    assert_eq!(parse_sample(&rec).err(), Some(ReadError::MalformedRecord));
}

#[test]
fn parse_sample_rejects_non_numeric_counter() {
    let mut rec = record(1, 10, 0);
    rec.stat = b"1 (init) S 0 1 1 0 -1 4194304 100 0 0 0 1x 15 0".to_vec();
    assert_eq!(parse_sample(&rec).err(), Some(ReadError::MalformedRecord));
}

#[test]
fn end_to_end_two_cycles() {
    let mut m = engine(4);
    assert_eq!(m.refresh_processes(Ok(vec![Ok(record(100, 500, 0))])), Ok(()));
    assert_eq!(keys(m.get_top_processes(10)), vec![(100, 0)]);
    assert_eq!(m.refresh_processes(Ok(vec![Ok(record(100, 700, 1000))])), Ok(()));
    assert_eq!(keys(m.get_top_processes(10)), vec![(100, 20000)]);
    assert_eq!(m.get_top_processes(10)[0].name, "proc100");
    assert_eq!(m.get_top_processes(10)[0].status, "S");
}

#[test]
fn vanished_process_leaves_snapshot() {
    let mut m = engine(4);
    m.refresh_processes(Ok(vec![Ok(record(100, 500, 0)), Ok(record(200, 50, 0))])).unwrap();
    assert_eq!(m.get_process_count(), 2);
    let r = m.refresh_processes(Ok(vec![Ok(record(100, 600, 1000)), Err(ReadError::ProcessVanished)]));
    assert_eq!(r, Ok(()));
    assert_eq!(keys(m.get_top_processes(10)), vec![(100, 10000)]);
    assert_eq!(m.get_process_count(), 1);
}

#[test]
fn skipped_read_does_not_change_others() {
    let mut a = engine(4);
    let mut b = engine(4);
    a.refresh_processes(Ok(vec![Ok(record(1, 0, 0)), Ok(record(2, 0, 0))])).unwrap();
    b.refresh_processes(Ok(vec![Ok(record(1, 0, 0)), Ok(record(2, 0, 0))])).unwrap();
    let mut bad = record(3, 0, 1000);
    bad.stat = b"3 (x) S".to_vec();
    a.refresh_processes(Ok(vec![Ok(record(1, 30, 1000)), Ok(record(2, 70, 1000))])).unwrap();
    b.refresh_processes(Ok(vec![
        Err(ReadError::ProcessVanished),
        Ok(record(1, 30, 1000)),
        Ok(bad),
        Ok(record(2, 70, 1000)),
        Err(ReadError::MalformedRecord),
    ]))
    .unwrap();
    assert_eq!(keys(a.get_top_processes(10)), keys(b.get_top_processes(10)));
    assert_eq!(keys(b.get_top_processes(10)), vec![(2, 7000), (1, 3000)]);
}

#[test]
fn enumeration_failure_keeps_snapshot() {
    let mut m = engine(4);
    m.refresh_processes(Ok(vec![Ok(record(10, 0, 0)), Ok(record(11, 0, 0))])).unwrap();
    m.refresh_processes(Ok(vec![Ok(record(10, 40, 1000)), Ok(record(11, 90, 1000))])).unwrap();
    let before: Vec<(u32, u64, String, String)> =
        m.get_top_processes(10).iter().map(|p| (p.pid, p.cpu_usage, p.name.clone(), p.status.clone())).collect();
    assert_eq!(m.refresh_processes(Err(EnumerationError)), Err(EnumerationError));
    let after: Vec<(u32, u64, String, String)> =
        m.get_top_processes(10).iter().map(|p| (p.pid, p.cpu_usage, p.name.clone(), p.status.clone())).collect();
    assert_eq!(before, after);
    // The previous counters were kept too.
    m.refresh_processes(Ok(vec![Ok(record(10, 140, 2000))])).unwrap();
    assert_eq!(keys(m.get_top_processes(10)), vec![(10, 10000)]);
}

#[test]
fn new_engine_is_empty() {
    let m = engine(2);
    assert_eq!(m.get_process_count(), 0);
    assert!(m.get_top_processes(3).is_empty());
}

#[test]
fn process_new_has_no_usage() {
    let p = Process::new(5, "a".to_string(), "S".to_string());
    assert_eq!(p.pid, 5);
    assert_eq!(p.cpu_usage, 0);
}

#[test]
fn counters_of_absent_pids_are_forgotten() {
    let mut m = engine(4);
    m.refresh_processes(Ok(vec![Ok(record(100, 500, 0)), Ok(record(200, 50, 0))])).unwrap();
    m.refresh_processes(Ok(vec![Ok(record(100, 600, 1000))])).unwrap();
    // pid 200 was not sampled in the second cycle: its return is a first sighting.
    m.refresh_processes(Ok(vec![Ok(record(100, 700, 2000)), Ok(record(200, 150, 2000))])).unwrap();
    assert_eq!(keys(m.get_top_processes(10)), vec![(100, 10000), (200, 0)]);
}
