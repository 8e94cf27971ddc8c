use sysmon::dashboard::{
    cpu_usage_line, display_row, memory_order, memory_usage_line, transform, Dashboard,
    ProcessSample, SystemSnapshot,
};
use sysmon::decimal::{decimal_text, mib_centi_of};

fn sample(pid: u32, name: &str, cpu_centi: u64, memory_kb: u64) -> ProcessSample {
    ProcessSample { pid, name: name.to_string(), cpu_centi, memory_kb }
}

fn snapshot(processes: Vec<ProcessSample>) -> SystemSnapshot {
    SystemSnapshot { cpu_centi: 1234, used_memory_kb: 2048, total_memory_kb: 4096, processes }
}

fn pids(d: &Dashboard) -> Vec<String> {
    d.rows.iter().map(|r| r.pid_text.clone()).collect()
}

#[test]
fn pids_follow_memory_descending() {
    let s = snapshot(vec![sample(1, "a", 0, 100), sample(2, "b", 0, 5000), sample(3, "c", 0, 2000)]);
    let d = transform(&s);
    assert_eq!(pids(&d), vec!["2", "3", "1"]);
}

#[test]
fn one_row_per_process_memory_never_grows() {
    let mem = [7u64, 0, 90000, 1024, 1023, 1025, 333, 90000, 5];
    let procs: Vec<ProcessSample> =
        mem.iter().enumerate().map(|(i, m)| sample(i as u32 + 10, "p", 0, *m)).collect();
    let d = transform(&snapshot(procs));
    assert_eq!(d.rows.len(), mem.len());
    let shown: Vec<f64> = d
        .rows
        .iter()
        .map(|r| r.memory_text.trim_end_matches(" MB").parse::<f64>().unwrap())
        .collect();
    for w in shown.windows(2) {
        assert!(w[0] >= w[1]);
    }
}

#[test]
fn equal_memory_keeps_snapshot_order() {
    let s = snapshot(vec![
        sample(5, "x", 0, 10),
        sample(4, "y", 0, 20),
        sample(3, "z", 0, 10),
        sample(2, "w", 0, 20),
    ]);
    assert_eq!(memory_order(&s.processes), vec![1, 3, 0, 2]);
    assert_eq!(pids(&transform(&s)), vec!["4", "2", "5", "3"]);
}

#[test]
fn empty_snapshot_has_no_rows() {
    let d = transform(&snapshot(vec![]));
    assert!(d.rows.is_empty());
    assert_eq!(d.cpu_line, "CPU Usage: 12.34%");
    assert_eq!(d.memory_line, "Memory Usage: 2.00 / 4.00 MB");
}

#[test]
fn transform_twice_gives_identical_text() {
    let make = || snapshot(vec![sample(9, "init", 50, 4096), sample(8, "sh", 1, 4096), sample(7, "vim", 1999, 12)]);
    let a = transform(&make());
    let b = transform(&make());
    assert_eq!(a.cpu_line, b.cpu_line);
    assert_eq!(a.memory_line, b.memory_line);
    assert_eq!(a.rows.len(), b.rows.len());
    for (x, y) in a.rows.iter().zip(b.rows.iter()) {
        assert_eq!(x.pid_text, y.pid_text);
        assert_eq!(x.name_text, y.name_text);
        assert_eq!(x.cpu_text, y.cpu_text);
        assert_eq!(x.memory_text, y.memory_text);
    }
}

#[test]
fn memory_summary_of_half_of_sixteen_gib() {
    assert_eq!(memory_usage_line(8_388_608, 16_777_216), "Memory Usage: 8192.00 / 16384.00 MB");
}

#[test]
fn cpu_summary_at_zero_and_full() {
    assert_eq!(cpu_usage_line(0), "CPU Usage: 0.00%");
    assert_eq!(cpu_usage_line(10_000), "CPU Usage: 100.00%");
    assert_eq!(cpu_usage_line(5), "CPU Usage: 0.05%");
}

#[test]
fn row_cells_of_one_process() {
    let r = display_row(&sample(4321, "firefox", 1250, 1536));
    assert_eq!(r.pid_text, "4321");
    assert_eq!(r.name_text, "firefox");
    assert_eq!(r.cpu_text, "12.50%");
    assert_eq!(r.memory_text, "1.50 MB");
}

#[test]
fn decimal_text_edges() {
    assert_eq!(decimal_text(0), "0");
    assert_eq!(decimal_text(7), "7");
    assert_eq!(decimal_text(10), "10");
    assert_eq!(decimal_text(4_294_967_295), "4294967295");
    assert_eq!(decimal_text(u64::MAX), "18446744073709551615");
}

#[test]
fn mebibyte_rounding() {
    assert_eq!(mib_centi_of(0), 0);
    assert_eq!(mib_centi_of(1024), 100);
    assert_eq!(mib_centi_of(128), 12);
    assert_eq!(mib_centi_of(384), 38);
    assert_eq!(mib_centi_of(u64::MAX), 1_801_439_850_948_198_400);
}

#[test]
fn memory_text_agrees_with_float_formatting() {
    for kb in (0u64..6000).chain([1 << 20, 16_777_215, 123_456_789]) {
        let r = display_row(&sample(1, "p", 0, kb));
        assert_eq!(r.memory_text, format!("{:.2} MB", kb as f64 / 1024.0), "kb = {}", kb);
    }
}
