use wakey::senses::system::{
    cpu_time_deltas, is_battery_type, parse_capacity, parse_cpu_stat, parse_meminfo_value,
    ram_usage_mb, CpuStats,
};
use wakey::senses::window::{get_active_window, parse_wm_class};

#[test]
fn test_parse_cpu_stat() {
    let content = "cpu  100 20 30 400 10 5 5\ncpu0 50 10 15 200 5 2 2";
    let stats = parse_cpu_stat(content);

    assert_eq!(stats.user, 100);
    assert_eq!(stats.nice, 20);
    assert_eq!(stats.system, 30);
    assert_eq!(stats.idle, 400);
    assert_eq!(stats.iowait, 10);
    assert_eq!(stats.irq, 5);
    assert_eq!(stats.softirq, 5);
}

#[test]
fn test_parse_meminfo_value() {
    let content = "MemTotal:       16384000 kB\nMemAvailable:    8000000 kB\n";
    assert_eq!(parse_meminfo_value(content, "MemTotal"), 16384000);
    assert_eq!(parse_meminfo_value(content, "MemAvailable"), 8000000);
}

#[test]
fn test_parse_wm_class() {
    let output = "WM_CLASS(STRING) = \"firefox\", \"Firefox\"";
    assert_eq!(parse_wm_class(output), "firefox");

    let output = "WM_CLASS(STRING) = \"code\", \"Code\"";
    assert_eq!(parse_wm_class(output), "code");

    let output = "WM_CLASS = \"terminal\"";
    assert_eq!(parse_wm_class(output), "terminal");
}

#[test]
fn test_parse_wm_class_malformed() {
    let output = "WM_CLASS(STRING)";
    assert_eq!(parse_wm_class(output), "");

    let output = "";
    assert_eq!(parse_wm_class(output), "");
}

#[test]
fn cpu_stat_without_cpu_line_is_zero() {
    let stats = parse_cpu_stat("");
    assert_eq!(stats.user, 0);
    assert_eq!(stats.idle, 0);
    let stats = parse_cpu_stat("cpu 7");
    assert_eq!(stats.user, 7);
    assert_eq!(stats.softirq, 0);
}

#[test]
fn cpu_deltas_between_samples() {
    let prev = CpuStats { user: 1000, nice: 0, system: 500, idle: 8500, iowait: 0, irq: 0, softirq: 0 };
    let cur = CpuStats { user: 1100, nice: 0, system: 600, idle: 8700, iowait: 0, irq: 0, softirq: 0 };
    assert_eq!(cpu_time_deltas(prev, cur), Some((200, 400)));
    assert_eq!(cpu_time_deltas(prev, prev), None);
}

#[test]
fn missing_meminfo_key_is_zero() {
    let content = "MemTotal:       16384000 kB\n";
    assert_eq!(parse_meminfo_value(content, "SwapTotal"), 0);
    assert_eq!(parse_meminfo_value("MemTotal: lots kB", "MemTotal"), 0);
}

#[test]
fn ram_usage_in_megabytes() {
    let content = "MemTotal:       16384000 kB\nMemAvailable:    8000000 kB\n";
    assert_eq!(ram_usage_mb(content), (16384000 - 8000000) / 1024);
    assert_eq!(ram_usage_mb("MemAvailable: 5 kB"), 0);
}

#[test]
fn battery_readings() {
    assert_eq!(parse_capacity("87\n"), Some(87));
    assert_eq!(parse_capacity("full"), None);
    assert!(is_battery_type("Battery\n"));
    assert!(!is_battery_type("Mains"));
}

#[test]
fn active_window_needs_both_outputs() {
    let w = get_active_window(
        Some("main.rs - code\n"),
        Some("WM_CLASS(STRING) = \"code\", \"Code\"\n"),
    );
    assert_eq!(w, Some(("code".to_string(), "main.rs - code".to_string())));
    assert_eq!(get_active_window(None, Some("WM_CLASS = \"x\"")), None);
    assert_eq!(get_active_window(Some("title"), None), None);
    assert_eq!(get_active_window(Some("  "), Some("WM_CLASS = \"x\"")), None);
    assert_eq!(get_active_window(Some("title"), Some("WM_CLASS(STRING)")), None);
}
