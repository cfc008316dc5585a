use sysmon::control::{handle_key_event, refresh_due, Key, KeyAction};
use sysmon::cpu::{count_processors, parse_hundredths, uptime_parts, CpuInfo};
use sysmon::memory::parse_memory_info;
use sysmon::sysinfo::SystemInfo;
use sysmon::text::{parse_u64, split_fields};

#[test]
fn parse_u64_reads_digits() {
    assert_eq!(parse_u64(b"0"), Some(0));
    assert_eq!(parse_u64(b"18446744073709551615"), Some(u64::MAX));
    assert_eq!(parse_u64(b"18446744073709551616"), None);
    assert_eq!(parse_u64(b""), None);
    assert_eq!(parse_u64(b"12a"), None);
    assert_eq!(parse_u64(b"-1"), None);
}

#[test]
fn split_fields_on_whitespace() {
    let f = split_fields(b"  a bc\t\nd  ");
    assert_eq!(f, vec![b"a".to_vec(), b"bc".to_vec(), b"d".to_vec()]);
    assert!(split_fields(b" \n ").is_empty());
}

#[test]
fn parse_hundredths_reads_fixed_point() {
    assert_eq!(parse_hundredths(b"0.52"), Some(52));
    assert_eq!(parse_hundredths(b"3.4"), Some(340));
    assert_eq!(parse_hundredths(b"12"), Some(1200));
    assert_eq!(parse_hundredths(b"7.129"), Some(712));
    assert_eq!(parse_hundredths(b"1."), None);
    assert_eq!(parse_hundredths(b".5"), None);
    assert_eq!(parse_hundredths(b"1.2.3"), None);
    assert_eq!(parse_hundredths(b"abc"), None);
}

#[test]
fn count_processors_counts_line_starts() {
    let text = b"processor\t: 0\nmodel name\t: some processor\nprocessor\t: 1\n\nprocessor\t: 2\n";
    assert_eq!(count_processors(text), 3);
    assert_eq!(count_processors(b""), 0);
    assert_eq!(count_processors(b"xprocessor\n"), 0);
}

#[test]
fn uptime_parts_split_seconds() {
    assert_eq!(uptime_parts(0), (0, 0, 0));
    assert_eq!(uptime_parts(90061), (1, 1, 1));
    assert_eq!(uptime_parts(86399), (0, 23, 59));
}

#[test]
fn collect_cpu_info_reads_records() {
    let mut c = CpuInfo::new();
    assert_eq!(c.get_uptime(), None);
    c.collect_cpu_info(
        Some(b"processor\t: 0\nprocessor\t: 1\n"),
        Some(b"0.52 0.58 0.59 1/467 12345\n"),
        Some(b"350735.47 234388.90\n"),
    );
    assert_eq!(c.get_core_count(), 2);
    assert_eq!(c.get_thread_count(), 4);
    assert_eq!(c.get_load_avg(), (52, 58, 59));
    assert_eq!(c.get_uptime(), Some((4, 1, 25)));
    c.collect_cpu_info(None, Some(b"1.0"), Some(b"x"));
    assert_eq!(c.get_core_count(), 2);
    assert_eq!(c.get_load_avg(), (52, 58, 59));
    assert_eq!(c.get_uptime(), Some((4, 1, 25)));
}

#[test]
fn memory_info_from_summary() {
    let text = b"MemTotal:       16000000 kB\nMemFree:         1000000 kB\nMemAvailable:    4000000 kB\nSwapTotal:       2000000 kB\nSwapFree:        1500000 kB\n";
    let m = parse_memory_info(text);
    assert_eq!(m.total, 16000000);
    assert_eq!(m.available, 4000000);
    assert_eq!(m.used_percent, 7500);
    assert_eq!(m.swap_total, 2000000);
    assert_eq!(m.swap_used_percent, 2500);
}

#[test]
fn memory_info_without_swap() {
    let m = parse_memory_info(b"MemTotal: 100 kB\nMemAvailable: 100 kB\nSwapTotal: 0 kB\nSwapFree: 0 kB\n");
    assert_eq!(m.used_percent, 0);
    assert_eq!(m.swap_used_percent, 0);
    let empty = parse_memory_info(b"");
    assert_eq!(empty.total, 0);
    assert_eq!(empty.used_percent, 0);
}

#[test]
fn keys_map_to_actions() {
    assert_eq!(handle_key_event(Key::Char('q')), KeyAction::Quit);
    assert_eq!(handle_key_event(Key::Esc), KeyAction::Quit);
    assert_eq!(handle_key_event(Key::Char('r')), KeyAction::Refresh);
    assert_eq!(handle_key_event(Key::Char('x')), KeyAction::Ignore);
    assert_eq!(handle_key_event(Key::Other), KeyAction::Ignore);
}

#[test]
fn refresh_due_at_interval() {
    assert!(!refresh_due(999, 1000));
    assert!(refresh_due(1000, 1000));
    assert!(refresh_due(5000, 1000));
}

#[test]
fn system_info_joins_os_and_arch() {
    let mut s = SystemInfo::new();
    assert_eq!(s.get_os_version(), "");
    s.collect_system_info("linux", "x86_64");
    assert_eq!(s.get_os_version(), "linux x86_64");
}
