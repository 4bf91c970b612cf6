use infrawatch::system::usage_percent;
use infrawatch::text::sanitize;
use infrawatch::{
    data_point_metric, snapshot_metrics, DiskMetrics, MemoryMetrics, Metric, MetricDataPoint,
    MetricSource, ProcessMetric, ProcessesMetrics, Reading, SystemSnapshot, Timestamp,
};

fn at(seconds: i64) -> Timestamp {
    Timestamp { seconds, nanos: 0 }
}

fn disk(mount: &str, total: u64, available: u64) -> DiskMetrics {
    DiskMetrics::from_space(mount.to_string(), "ext4".to_string(), total, available, at(20))
}

fn process(pid: u32, cpu: i64, memory: u64) -> ProcessMetric {
    ProcessMetric { pid, name: format!("proc{pid}"), cpu_usage: cpu, memory }
}

fn snapshot() -> SystemSnapshot {
    SystemSnapshot {
        memory: MemoryMetrics::from_counters(1000, 250, 750, 64, 8, at(10)),
        disk: vec![disk("/", 4000, 1000), disk("/var/log", 200, 50)],
        processes: ProcessesMetrics {
            process_count: 42,
            process_info: vec![process(1, 1250, 4096), process(77, 300, 1024), process(9000, 5, 16)],
            timestamp: at(30),
        },
        hostname: "host-a".to_string(),
    }
}

fn names(ms: &[Metric]) -> Vec<String> {
    ms.iter().map(|m| m.name.clone()).collect()
}

#[test]
fn snapshot_round_trip_shape() {
    let ms = snapshot_metrics(&snapshot());
    assert_eq!(ms.len(), 21);
    let host = MetricSource::System { hostname: "host-a".to_string() };
    for m in &ms {
        assert!(m.source == host);
    }
}

#[test]
fn snapshot_metrics_in_order() {
    let ms = snapshot_metrics(&snapshot());
    let expected = vec![
        "memory.total_bytes",
        "memory.used_bytes",
        "memory.available_bytes",
        "memory.usage_percent",
        "memory.swap_total_bytes",
        "memory.swap_used_bytes",
        "disk._.total_bytes",
        "disk._.used_bytes",
        "disk._.available_bytes",
        "disk._.usage_percent",
        "disk._var_log.total_bytes",
        "disk._var_log.used_bytes",
        "disk._var_log.available_bytes",
        "disk._var_log.usage_percent",
        "process.count",
        "process.1.cpu_percent",
        "process.1.memory_bytes",
        "process.77.cpu_percent",
        "process.77.memory_bytes",
        "process.9000.cpu_percent",
        "process.9000.memory_bytes",
    ];
    assert_eq!(names(&ms), expected);
}

#[test]
fn snapshot_values_units_and_times() {
    let ms = snapshot_metrics(&snapshot());
    assert_eq!(ms[0].value, Reading::Finite(100_000));
    assert_eq!(ms[0].unit.as_deref(), Some("bytes"));
    assert_eq!(ms[0].timestamp, at(10));
    assert_eq!(ms[3].value, Reading::Finite(2500));
    assert_eq!(ms[3].unit.as_deref(), Some("%"));
    assert_eq!(ms[7].value, Reading::Finite(300_000));
    assert_eq!(ms[9].value, Reading::Finite(7500));
    assert_eq!(ms[9].timestamp, at(20));
    assert_eq!(ms[14].value, Reading::Finite(4200));
    assert_eq!(ms[14].unit, None);
    assert_eq!(ms[14].timestamp, at(30));
    assert_eq!(ms[15].value, Reading::Finite(1250));
    assert_eq!(ms[15].unit.as_deref(), Some("%"));
    assert_eq!(ms[16].value, Reading::Finite(409_600));
    assert_eq!(ms[16].timestamp, at(30));
}

#[test]
fn mount_point_is_sanitized() {
    let ms = snapshot_metrics(&snapshot());
    let var_log: Vec<&Metric> = ms.iter().filter(|m| m.name.contains("disk._var_log.")).collect();
    assert_eq!(var_log.len(), 4);
    assert!(ms.iter().all(|m| !m.name.contains('/')));
}

#[test]
fn sanitize_replaces_each_separator() {
    assert_eq!(sanitize("/mnt/My Disk.d"), "_mnt_My_Disk_d");
    assert_eq!(sanitize(""), "");
    assert_eq!(sanitize("plain"), "plain");
}

#[test]
fn huge_byte_counts_saturate() {
    let mut s = snapshot();
    s.memory.total_bytes = u64::MAX;
    let ms = snapshot_metrics(&s);
    assert_eq!(ms[0].value, Reading::Finite(i64::MAX));
}

#[test]
fn conversion_is_repeatable() {
    let s = snapshot();
    let first = snapshot_metrics(&s);
    let second = snapshot_metrics(&s);
    assert_eq!(first.len(), second.len());
    for (a, b) in first.iter().zip(second.iter()) {
        assert_eq!(a.name, b.name);
        assert_eq!(a.value, b.value);
        assert!(a.source == b.source);
        assert_eq!(a.unit, b.unit);
        assert_eq!(a.timestamp, b.timestamp);
    }
    assert_eq!(s.hostname, "host-a");
    assert_eq!(s.disk[1].mount_point, "/var/log");
}

#[test]
fn from_snapshot_matches_named_conversion() {
    let ms: Vec<Metric> = Vec::from(snapshot());
    assert_eq!(names(&ms), names(&snapshot_metrics(&snapshot())));
}

#[test]
fn cloud_point_without_resource_is_unknown() {
    let p = MetricDataPoint {
        metric_name: "CPUUtilization".to_string(),
        resource_id: None,
        value: Reading::Finite(1234),
        unit: None,
        timestamp: at(5),
    };
    let m = data_point_metric(&p);
    assert!(
        m.source
            == MetricSource::Cloud { provider: "aws".to_string(), instance_id: "unknown".to_string() }
    );
    assert_eq!(m.name, "CPUUtilization");
    assert_eq!(m.value, Reading::Finite(1234));
    assert_eq!(m.unit, None);
    assert_eq!(m.timestamp, at(5));
}

#[test]
fn cloud_point_keeps_resource_and_unit() {
    let p = MetricDataPoint {
        metric_name: "NetworkIn".to_string(),
        resource_id: Some("i-0abc".to_string()),
        value: Reading::NonFinite,
        unit: Some("Bytes".to_string()),
        timestamp: at(6),
    };
    let m = Metric::from(p);
    assert!(
        m.source
            == MetricSource::Cloud { provider: "aws".to_string(), instance_id: "i-0abc".to_string() }
    );
    assert_eq!(m.unit.as_deref(), Some("Bytes"));
    assert_eq!(m.value, Reading::NonFinite);
}

#[test]
fn usage_percent_in_hundredths() {
    assert_eq!(usage_percent(1, 3), 3333);
    assert_eq!(usage_percent(250, 1000), 2500);
    assert_eq!(usage_percent(5, 0), 0);
    assert_eq!(usage_percent(u64::MAX, 1), i64::MAX);
}

#[test]
fn disk_space_derivation() {
    let d = disk("/", 4000, 1000);
    assert_eq!(d.used_bytes, 3000);
    assert_eq!(d.usage_percent, 7500);
    let odd = disk("/", 10, 20);
    assert_eq!(odd.used_bytes, 0);
    assert_eq!(odd.usage_percent, 0);
}

#[test]
fn busiest_processes_ranked_ties_in_order() {
    let all = vec![
        process(1, 100, 1),
        process(2, 900, 1),
        process(3, 500, 1),
        process(4, 900, 1),
        process(5, 0, 1),
        process(6, 500, 1),
    ];
    let p = ProcessesMetrics::busiest(all.clone(), 4, at(1));
    assert_eq!(p.process_count, 6);
    assert_eq!(p.timestamp, at(1));
    let pids: Vec<u32> = p.process_info.iter().map(|q| q.pid).collect();
    assert_eq!(pids, vec![2, 4, 3, 6]);
    let everyone = ProcessesMetrics::busiest(all, 10, at(1));
    let pids: Vec<u32> = everyone.process_info.iter().map(|q| q.pid).collect();
    assert_eq!(pids, vec![2, 4, 3, 6, 1, 5]);
    let none = ProcessesMetrics::busiest(vec![], 5, at(1));
    assert_eq!(none.process_count, 0);
    assert!(none.process_info.is_empty());
}
