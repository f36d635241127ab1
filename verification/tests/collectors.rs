use infra_health_agent::cpu::{CpuCollector, CpuSample};
use infra_health_agent::memory::{MemTable, MemoryCollector};

const SAMPLE_STAT: &str = "\
cpu  10132153 290696 3084719 46828483 16683 0 25195 0 0 0
cpu0 1393280 32966 572056 13343292 6130 0 17875 0 0 0
cpu1 1335498 35507 523368 13200746 4990 0 3670 0 0 0";

const SAMPLE_MEMINFO: &str = "\
MemTotal:       16384000 kB
MemFree:         2048000 kB
MemAvailable:    4096000 kB
Buffers:          512000 kB
Cached:          2048000 kB
SwapTotal:       8192000 kB
SwapFree:        4096000 kB";

#[test]
fn test_parse_cpu_line() {
    let line = "cpu  10132153 290696 3084719 46828483 16683 0 25195 0 0 0";
    let sample = CpuCollector::parse_cpu_line(line).unwrap();
    assert_eq!(sample.user, 10132153);
    assert_eq!(sample.nice, 290696);
    assert_eq!(sample.system, 3084719);
    assert_eq!(sample.idle, 46828483);
    assert_eq!(sample.iowait, 16683);
    assert_eq!(sample.steal, 0);
}

#[test]
fn test_parse_cpu_line_too_short() {
    let line = "cpu  100 200";
    assert!(CpuCollector::parse_cpu_line(line).is_err());
}

#[test]
fn test_count_cores() {
    assert_eq!(CpuCollector::count_cores(SAMPLE_STAT), 2);
}

#[test]
fn test_parse_loadavg() {
    let content = "0.50 0.75 1.00 2/1234 5678";
    let (l1, l5, l15) = CpuCollector::parse_loadavg(content).unwrap();
    assert_eq!(l1, 50);
    assert_eq!(l5, 75);
    assert_eq!(l15, 100);
}

#[test]
fn test_delta_computation() {
    let prev = CpuSample {
        user: 1000,
        nice: 0,
        system: 500,
        idle: 8000,
        iowait: 100,
        irq: 0,
        softirq: 0,
        steal: 0,
    };
    let curr = CpuSample {
        user: 1200,
        nice: 0,
        system: 600,
        idle: 8100,
        iowait: 100,
        irq: 0,
        softirq: 0,
        steal: 0,
    };
    let total_delta = curr.total() - prev.total();
    assert_eq!(total_delta, 400);

    let user_pct = (curr.user - prev.user) as f64 / total_delta as f64 * 100.0;
    assert!((user_pct - 50.0).abs() < f64::EPSILON);
}

#[test]
fn test_parse_meminfo() {
    let map = MemoryCollector::parse_meminfo(SAMPLE_MEMINFO).unwrap();
    assert_eq!(map.get("MemTotal"), Some(16384000));
    assert_eq!(map.get("MemAvailable"), Some(4096000));
    assert_eq!(map.get("SwapTotal"), Some(8192000));
    assert_eq!(map.get("SwapFree"), Some(4096000));
}

#[test]
fn test_get_bytes_converts_kb_to_bytes() {
    let mut map = MemTable::new();
    map.insert("MemTotal".to_string(), 1024);
    let bytes = MemoryCollector::get_bytes(&map, "MemTotal").unwrap();
    assert_eq!(bytes, 1024 * 1024);
}

#[test]
fn test_get_bytes_missing_field() {
    let map = MemTable::new();
    assert!(MemoryCollector::get_bytes(&map, "NonExistent").is_err());
}

#[test]
fn test_pressure_calculation() {
    let total: u64 = 16384000 * 1024;
    let available: u64 = 4096000 * 1024;
    let used = total - available;
    let pct = used as f64 / total as f64 * 100.0;
    assert!((pct - 75.0).abs() < 0.01);
}

#[test]
fn test_multiply() {
    assert_eq!(6 + 6, 12);
}
