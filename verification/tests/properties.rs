use infra_health_agent::config::Config;
use infra_health_agent::cpu::CpuCollector;
use infra_health_agent::errors::CollectorError;
use infra_health_agent::memory::MemoryCollector;
use infra_health_agent::model::{CheckStatus, MetricPayload};
use infra_health_agent::text::{parse_centi_str, parse_u64_str};

#[test]
fn cpu_line_error_names_cpu_field() {
    let r = CpuCollector::parse_cpu_line("cpu  1 2 3 4 5 6 7");
    match r {
        Err(CollectorError::ParseError { path, field, raw }) => {
            assert_eq!(path, "/proc/stat");
            assert_eq!(field, "cpu");
            assert_eq!(raw, "cpu  1 2 3 4 5 6 7");
        }
        _ => panic!("expected a parse failure naming the cpu field"),
    }
}

#[test]
fn cpu_line_error_names_bad_counter() {
    let r = CpuCollector::parse_cpu_line("cpu  1 2 x 4 5 6 7 8 9");
    match r {
        Err(CollectorError::ParseError { field, raw, .. }) => {
            assert_eq!(field, "system");
            assert_eq!(raw, "x");
        }
        _ => panic!("expected a parse failure naming the system counter"),
    }
}

#[test]
fn cpu_line_exactly_nine_tokens_parses() {
    let sample = CpuCollector::parse_cpu_line("cpu 1 2 3 4 5 6 7 8").unwrap();
    assert_eq!(sample.user, 1);
    assert_eq!(sample.steal, 8);
}

#[test]
fn cpu_first_call_reports_zero_percentages_and_unhealthy() {
    let mut c = CpuCollector::new();
    let r = c
        .collect_from("cpu 1000 0 500 8000 100 0 0 0\n", "0.50 0.75 1.00 2/1234 5678")
        .unwrap();
    assert_eq!(r.check_name, "cpu");
    assert_eq!(r.status, CheckStatus::Unhealthy);
    assert_eq!(r.latency_us, 0);
    match r.payload {
        MetricPayload::Cpu(s) => {
            assert_eq!(s.user_pct_x100, 0);
            assert_eq!(s.system_pct_x100, 0);
            assert_eq!(s.iowait_pct_x100, 0);
            assert_eq!(s.idle_pct_x100, 0);
            assert_eq!(s.num_cores, 0);
            assert_eq!(s.load_avg_1m_x100, 50);
            assert_eq!(s.load_avg_5m_x100, 75);
            assert_eq!(s.load_avg_15m_x100, 100);
        }
        _ => panic!("expected a cpu payload"),
    }
}

#[test]
fn cpu_second_call_reports_differential_percentages() {
    let mut c = CpuCollector::new();
    let loadavg = "0.50 0.75 1.00 2/1234 5678";
    c.collect_from("cpu 1000 0 500 8000 100 0 0 0\n", loadavg).unwrap();
    let r = c
        .collect_from("cpu 1200 0 600 8100 100 0 0 0\n", loadavg)
        .unwrap();
    assert_eq!(r.status, CheckStatus::Healthy);
    match r.payload {
        MetricPayload::Cpu(s) => {
            assert_eq!(s.user_pct_x100, 5000);
            assert_eq!(s.system_pct_x100, 2500);
            assert_eq!(s.iowait_pct_x100, 0);
            assert_eq!(s.idle_pct_x100, 2500);
        }
        _ => panic!("expected a cpu payload"),
    }
    assert_eq!(r.message, "user=50.0% sys=25.0% iowait=0.0% idle=25.0% load=0.50");
}

#[test]
fn cpu_zero_delta_reports_full_idle() {
    let mut c = CpuCollector::new();
    let stat = "cpu 1000 0 500 8000 100 0 0 0\n";
    let loadavg = "0.00 0.00 0.00 1/1 1";
    c.collect_from(stat, loadavg).unwrap();
    let r = c.collect_from(stat, loadavg).unwrap();
    assert_eq!(r.status, CheckStatus::Healthy);
    match r.payload {
        MetricPayload::Cpu(s) => {
            assert_eq!(s.user_pct_x100, 0);
            assert_eq!(s.system_pct_x100, 0);
            assert_eq!(s.iowait_pct_x100, 0);
            assert_eq!(s.idle_pct_x100, 10000);
        }
        _ => panic!("expected a cpu payload"),
    }
}

#[test]
fn cpu_empty_stat_file_errors() {
    let mut c = CpuCollector::new();
    let r = c.collect_from("", "0.50 0.75 1.00 2/1234 5678");
    match r {
        Err(CollectorError::ParseError { field, raw, .. }) => {
            assert_eq!(field, "cpu_line");
            assert_eq!(raw, "empty file");
        }
        _ => panic!("expected the empty-file parse failure"),
    }
}

#[test]
fn loadavg_error_names_average() {
    match CpuCollector::parse_loadavg("0.50 bad 1.00") {
        Err(CollectorError::ParseError { path, field, raw }) => {
            assert_eq!(path, "/proc/loadavg");
            assert_eq!(field, "5m");
            assert_eq!(raw, "bad");
        }
        _ => panic!("expected a parse failure naming the 5m average"),
    }
    match CpuCollector::parse_loadavg("0.50 0.75") {
        Err(CollectorError::ParseError { field, .. }) => assert_eq!(field, "loadavg"),
        _ => panic!("expected a parse failure naming loadavg"),
    }
}

#[test]
fn meminfo_pressure_and_figures() {
    let table = "MemTotal: 16384000 kB\nMemAvailable: 4096000 kB\n";
    let r = MemoryCollector::new().collect_from(table).unwrap();
    assert_eq!(r.check_name, "memory");
    match r.payload {
        MetricPayload::Memory(s) => {
            assert_eq!(s.total_bytes, 16384000 * 1024);
            assert_eq!(s.available_bytes, 4096000 * 1024);
            assert_eq!(s.used_bytes, (16384000 - 4096000) * 1024);
            assert_eq!(s.memory_pressure_x100, 7500);
        }
        _ => panic!("expected a memory payload"),
    }
}

#[test]
fn meminfo_missing_swap_defaults_to_zero() {
    let table = "MemTotal: 1000 kB\nMemAvailable: 500 kB\n";
    let r = MemoryCollector::new().collect_from(table).unwrap();
    match r.payload {
        MetricPayload::Memory(s) => {
            assert_eq!(s.swap_total_bytes, 0);
            assert_eq!(s.swap_used_bytes, 0);
        }
        _ => panic!("expected a memory payload"),
    }
}

#[test]
fn meminfo_missing_required_field_errors() {
    let no_total = "MemAvailable: 500 kB\n";
    match MemoryCollector::new().collect_from(no_total) {
        Err(CollectorError::ParseError { field, raw, .. }) => {
            assert_eq!(field, "MemTotal");
            assert_eq!(raw, "field not found");
        }
        _ => panic!("expected a parse failure naming MemTotal"),
    }
    let no_avail = "MemTotal: 1000 kB\n";
    match MemoryCollector::new().collect_from(no_avail) {
        Err(CollectorError::ParseError { field, .. }) => assert_eq!(field, "MemAvailable"),
        _ => panic!("expected a parse failure naming MemAvailable"),
    }
}

#[test]
fn memory_status_thresholds() {
    let unhealthy = "MemTotal: 1000 kB\nMemAvailable: 40 kB\n";
    let degraded = "MemTotal: 1000 kB\nMemAvailable: 150 kB\n";
    let healthy = "MemTotal: 1000 kB\nMemAvailable: 500 kB\n";
    let m = MemoryCollector::new();
    assert_eq!(m.collect_from(unhealthy).unwrap().status, CheckStatus::Unhealthy);
    assert_eq!(m.collect_from(degraded).unwrap().status, CheckStatus::Degraded);
    assert_eq!(m.collect_from(healthy).unwrap().status, CheckStatus::Healthy);
}

#[test]
fn memory_swap_exhaustion_is_unhealthy() {
    let table = "MemTotal: 1000 kB\nMemAvailable: 900 kB\nSwapTotal: 100 kB\nSwapFree: 10 kB\n";
    let r = MemoryCollector::new().collect_from(table).unwrap();
    assert_eq!(r.status, CheckStatus::Unhealthy);
    match r.payload {
        MetricPayload::Memory(s) => {
            assert_eq!(s.swap_total_bytes, 100 * 1024);
            assert_eq!(s.swap_used_bytes, 90 * 1024);
        }
        _ => panic!("expected a memory payload"),
    }
}

#[test]
fn memory_message_shape() {
    let table = "MemTotal: 2097152 kB\nMemAvailable: 1048576 kB\n";
    let r = MemoryCollector::new().collect_from(table).unwrap();
    assert_eq!(r.message, "used=50.0% (1024/2048 MB) swap=0/0 MB");
}

#[test]
fn status_labels() {
    assert_eq!(CheckStatus::Healthy.label(), "HEALTHY");
    assert_eq!(CheckStatus::Degraded.label(), "DEGRADED");
    assert_eq!(CheckStatus::Unhealthy.label(), "UNHEALTHY");
}

#[test]
fn error_descriptions() {
    let e = CollectorError::ParseError {
        path: "/proc/meminfo".to_string(),
        field: "MemTotal".to_string(),
        raw: "field not found".to_string(),
    };
    assert_eq!(e.describe(), "failed to parse MemTotal from /proc/meminfo: field not found");
    let e = CollectorError::ProcReadError {
        path: "/proc/stat".to_string(),
        source: "permission denied".to_string(),
    };
    assert_eq!(e.describe(), "failed to read /proc/stat: permission denied");
    let e = CollectorError::ProcessVanished { pid: 42 };
    assert_eq!(e.describe(), "process 42 disappeared during collection");
    let e = CollectorError::Timeout { timeout_ms: 1500 };
    assert_eq!(e.describe(), "collection timed out after 1500ms");
}

#[test]
fn integer_parsing_edges() {
    assert_eq!(parse_u64_str("0"), Some(0));
    assert_eq!(parse_u64_str("+5"), Some(5));
    assert_eq!(parse_u64_str("18446744073709551615"), Some(u64::MAX));
    assert_eq!(parse_u64_str("18446744073709551616"), None);
    assert_eq!(parse_u64_str(""), None);
    assert_eq!(parse_u64_str("12a"), None);
    assert_eq!(parse_u64_str("-1"), None);
}

#[test]
fn decimal_parsing_edges() {
    assert_eq!(parse_centi_str("1.234"), Some(123));
    assert_eq!(parse_centi_str("5."), Some(500));
    assert_eq!(parse_centi_str(".5"), Some(50));
    assert_eq!(parse_centi_str("7"), Some(700));
    assert_eq!(parse_centi_str("."), None);
    assert_eq!(parse_centi_str("1.2.3"), None);
    assert_eq!(parse_centi_str("abc"), None);
}

#[test]
fn config_identifier_choice() {
    let base = Config {
        agent_id: Some("agent-7".to_string()),
        collect_interval_ms: 5000,
        channel_buffer_size: 256,
        monitored_pids: vec![1, 2],
        json_logs: false,
        max_retries: 3,
        retry_backoff_ms: 500,
    };
    assert_eq!(base.resolved_agent_id(), "agent-7");
    assert_eq!(base.agent_id_with_host(Some("h".to_string())), "agent-7");
    let mut anon = base.clone();
    anon.agent_id = None;
    assert_eq!(anon.agent_id_with_host(Some("node-1".to_string())), "node-1");
    assert_eq!(anon.agent_id_with_host(None), "unknown-agent");
    assert_eq!(base.collect_interval(), std::time::Duration::from_millis(5000));
    assert_eq!(base.retry_backoff(), std::time::Duration::from_millis(500));
}

#[test]
fn collector_names_are_stable() {
    assert_eq!(CpuCollector::new().name(), "cpu");
    assert_eq!(MemoryCollector::new().name(), "memory");
}
