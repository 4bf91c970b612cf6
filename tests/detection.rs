use infrawatch::detect::{DEFAULT_MIN_SAMPLES, DEFAULT_WINDOW};
use infrawatch::stats::MAX_WINDOW;
use infrawatch::{
    snapshot_metrics, AnomalyDetector, BaselineDetector, DiskMetrics, MemoryMetrics, Metric,
    MetricSource, ProcessesMetrics, Reading, Severity, SystemSnapshot, Timestamp,
};

fn reading(name: &str, value: Reading) -> Metric {
    Metric {
        name: name.to_string(),
        value,
        source: MetricSource::System { hostname: "h".to_string() },
        unit: Some("%".to_string()),
        timestamp: Timestamp { seconds: 100, nanos: 0 },
    }
}

fn metric(name: &str, value: i64) -> Metric {
    reading(name, Reading::Finite(value))
}

fn series(name: &str, values: &[i64]) -> Vec<Metric> {
    values.iter().map(|v| metric(name, *v)).collect()
}

const NOW: Timestamp = Timestamp { seconds: 500, nanos: 7 };

#[test]
fn empty_batch_yields_nothing() {
    let mut d = BaselineDetector::standard();
    assert!(d.detect(&[]).is_empty());
    assert!(d.detect_at(&[], NOW).is_empty());
}

#[test]
fn cold_start_never_flags() {
    let mut d = BaselineDetector::standard();
    let batch = series("cpu", &[100, 1_000_000, -5_000_000, 7, 123_456_789]);
    assert_eq!(batch.len(), DEFAULT_MIN_SAMPLES);
    // the first five values are judged against fewer than five samples
    assert!(d.detect_at(&batch, NOW).is_empty());
}

#[test]
fn constant_series_then_jump_is_critical() {
    let mut d = BaselineDetector::standard();
    let mut batch = series("mem", &[10000; 5]);
    batch.push(metric("mem", 15000));
    let found = d.detect_at(&batch, NOW);
    assert_eq!(found.len(), 1);
    assert_eq!(found[0].severity, Severity::Critical);
    assert_eq!(found[0].metric.value, Reading::Finite(15000));
    assert_eq!(found[0].metric.name, "mem");
    assert_eq!(found[0].detected_at, NOW);
    assert_eq!(
        found[0].reason,
        "mem: value 150.00 against baseline mean 100.00 of 5 samples, |z| >= 3"
    );
}

#[test]
fn constant_series_same_value_is_quiet() {
    let mut d = BaselineDetector::standard();
    let batch = series("mem", &[10000; 12]);
    assert!(d.detect_at(&batch, NOW).is_empty());
}

#[test]
fn two_sigma_is_warning_three_is_critical() {
    // window 0, 0, 0, 0, 100: mean 20, sigma 40
    let base = [0, 0, 0, 0, 100];
    let mut d = BaselineDetector::new(5, 5).unwrap();
    assert!(d.detect_at(&series("x", &base), NOW).is_empty());
    let mut probe = d;
    let w = probe.detect_at(&[metric("x", 100)], NOW);
    assert_eq!(w.len(), 1);
    assert_eq!(w[0].severity, Severity::Warning);
    assert_eq!(w[0].reason, "x: value 1.00 against baseline mean 0.20 of 5 samples, |z| >= 2");

    let mut d = BaselineDetector::new(5, 5).unwrap();
    d.detect_at(&series("x", &base), NOW);
    let c = d.detect_at(&[metric("x", 140)], NOW);
    assert_eq!(c.len(), 1);
    assert_eq!(c[0].severity, Severity::Critical);

    let mut d = BaselineDetector::new(5, 5).unwrap();
    d.detect_at(&series("x", &base), NOW);
    let w = d.detect_at(&[metric("x", 139)], NOW);
    assert_eq!(w.len(), 1);
    assert_eq!(w[0].severity, Severity::Warning);

    let mut d = BaselineDetector::new(5, 5).unwrap();
    d.detect_at(&series("x", &base), NOW);
    assert!(d.detect_at(&[metric("x", 99)], NOW).is_empty());
}

#[test]
fn negative_mean_in_reason() {
    let mut d = BaselineDetector::new(5, 5).unwrap();
    d.detect_at(&series("t", &[-250; 5]), NOW);
    let found = d.detect_at(&[metric("t", -1)], NOW);
    assert_eq!(found.len(), 1);
    assert_eq!(found[0].reason, "t: value -0.01 against baseline mean -2.50 of 5 samples, |z| >= 3");
}

#[test]
fn step_change_stops_alarming() {
    let mut d = BaselineDetector::standard();
    d.detect_at(&series("load", &[1000; 20]), NOW);
    let shifted = series("load", &[5000; DEFAULT_WINDOW]);
    let found = d.detect_at(&shifted, NOW);
    assert!(!found.is_empty());
    assert_eq!(found[0].severity, Severity::Critical);
    let later = d.detect_at(&series("load", &[5000; 5]), NOW);
    assert!(later.is_empty());
}

#[test]
fn names_are_separate_series() {
    let mut d = BaselineDetector::standard();
    let mut batch = series("process.123.cpu_percent", &[500; 5]);
    batch.extend(series("process.456.cpu_percent", &[9000; 4]));
    batch.push(metric("process.456.cpu_percent", 500));
    assert!(d.detect_at(&batch, NOW).is_empty());
    let found = d.detect_at(&[metric("process.123.cpu_percent", 9000)], NOW);
    assert_eq!(found.len(), 1);
    assert_eq!(found[0].metric.name, "process.123.cpu_percent");
}

#[test]
fn non_finite_value_is_critical_and_not_folded() {
    let mut d = BaselineDetector::standard();
    let found = d.detect_at(&[reading("disk", Reading::NonFinite)], NOW);
    assert_eq!(found.len(), 1);
    assert_eq!(found[0].severity, Severity::Critical);
    assert_eq!(found[0].reason, "disk: value is not a finite number");
    // the window of "disk" is still empty: five ordinary values warm it up without flags
    assert!(d.detect_at(&series("disk", &[10, 10, 10, 10, 10]), NOW).is_empty());
    let jump = d.detect_at(&[metric("disk", i64::MAX)], NOW);
    assert_eq!(jump.len(), 1);
    assert_eq!(
        jump[0].reason,
        "disk: value 92233720368547758.07 against baseline mean 0.10 of 5 samples, |z| >= 3"
    );
}

#[test]
fn huge_finite_values_warm_up_quietly() {
    let mut d = BaselineDetector::standard();
    let big = series("object.store", &[i64::MAX, i64::MIN, i64::MAX, 36_028_797_018_963_969, i64::MIN]);
    assert!(d.detect_at(&big, NOW).is_empty());
}

#[test]
fn huge_values_follow_the_z_rule() {
    // window 0, L, 0, L, 0 with L = 2^55: mean 0.4 L, sigma about 0.49 L
    let l: i64 = 1 << 55;
    let mut probe = BaselineDetector::new(5, 5).unwrap();
    assert!(probe.detect_at(&series("s", &[0, l, 0, l, 0]), NOW).is_empty());
    assert!(probe.detect_at(&[metric("s", l + 1)], NOW).is_empty());
    let mut d = BaselineDetector::new(5, 5).unwrap();
    assert!(d.detect_at(&series("s", &[0, l, 0, l, 0]), NOW).is_empty());
    // |z| is 3 or more only well beyond the window
    let found = d.detect_at(&[metric("s", 2 * l)], NOW);
    assert_eq!(found.len(), 1);
    assert_eq!(found[0].severity, Severity::Critical);
}

#[test]
fn extreme_window_is_exact() {
    // a window at i64::MAX with one step down: the spread is tiny against the values
    let mut d = BaselineDetector::new(64, 64).unwrap();
    let mut values = vec![i64::MAX; 63];
    values.push(i64::MAX - 1);
    assert!(d.detect_at(&series("e", &values), NOW).is_empty());
    let quiet = d.detect_at(&[metric("e", i64::MAX)], NOW);
    assert!(quiet.is_empty());
    let far = d.detect_at(&[metric("e", i64::MIN)], NOW);
    assert_eq!(far.len(), 1);
    assert_eq!(far[0].severity, Severity::Critical);
}

#[test]
fn petabyte_disk_does_not_alarm_on_a_fresh_detector() {
    let at = Timestamp { seconds: 1, nanos: 0 };
    let s = SystemSnapshot {
        memory: MemoryMetrics::from_counters(1000, 250, 750, 0, 0, at),
        disk: vec![DiskMetrics::from_space(
            "/mnt/store".to_string(),
            "fuse".to_string(),
            1_000_000_000_000_000,
            400_000_000_000_000,
            at,
        )],
        processes: ProcessesMetrics { process_count: 1, process_info: vec![], timestamp: at },
        hostname: "h".to_string(),
    };
    let mut d = BaselineDetector::standard();
    for _ in 0..4 {
        assert!(d.detect(&snapshot_metrics(&s)).is_empty());
    }
    // from the sixth snapshot on, an unchanged disk stays quiet too
    d.detect(&snapshot_metrics(&s));
    assert!(d.detect(&snapshot_metrics(&s)).is_empty());
}

#[test]
fn window_evicts_oldest() {
    let mut d = BaselineDetector::new(3, 3).unwrap();
    d.detect_at(&series("w", &[0, 0, 0, 100, 100, 100]), NOW);
    // the window now holds 100, 100, 100
    assert!(d.detect_at(&[metric("w", 100)], NOW).is_empty());
    let found = d.detect_at(&[metric("w", 0)], NOW);
    assert_eq!(found[0].reason, "w: value 0.00 against baseline mean 1.00 of 3 samples, |z| >= 3");
}

#[test]
fn anomalies_are_copies() {
    let mut d = BaselineDetector::new(2, 1).unwrap();
    let batch = series("c", &[1, 1, 50]);
    let found = d.detect_at(&batch, NOW);
    assert_eq!(found.len(), 1);
    assert_eq!(found[0].metric.name, batch[2].name);
    assert_eq!(found[0].metric.value, batch[2].value);
    assert_eq!(found[0].metric.unit, batch[2].unit);
    assert!(found[0].metric.source == batch[2].source);
    assert_eq!(batch.len(), 3);
}

#[test]
fn tunables_are_checked() {
    assert!(BaselineDetector::new(0, 1).is_none());
    assert!(BaselineDetector::new(MAX_WINDOW + 1, 1).is_none());
    assert!(BaselineDetector::new(4, 0).is_none());
    let d = BaselineDetector::new(MAX_WINDOW, 7).unwrap();
    assert_eq!(d.window_size(), MAX_WINDOW);
    assert_eq!(d.min_samples(), 7);
    let s = BaselineDetector::standard();
    assert_eq!(s.window_size(), 20);
    assert_eq!(s.min_samples(), 5);
}

#[test]
fn detect_stamps_the_current_time() {
    let mut d = BaselineDetector::new(2, 1).unwrap();
    let found = d.detect(&series("c", &[1, 1, 50]));
    assert_eq!(found.len(), 1);
    // any clock of this century lies past 2001-09-09
    assert!(found[0].detected_at.seconds > 1_000_000_000);
    assert!(found[0].detected_at.nanos < 2_000_000_000);
}

#[test]
fn warning_ranks_below_critical() {
    assert!(Severity::Warning < Severity::Critical);
}

#[test]
fn windows_wider_than_a_few_dozen_values() {
    let mut d = BaselineDetector::new(500, 5).unwrap();
    let values: Vec<i64> = (0..500).map(|i| if i % 2 == 0 { 1000 } else { 1200 }).collect();
    assert!(d.detect_at(&series("wide", &values), NOW).is_empty());
    // mean 11.00, sigma 1.00: 13.00 is a warning (|z| = 2 exactly); after it
    // enters the window, 15.00 is critical
    let w = d.detect_at(&[metric("wide", 1300)], NOW);
    assert_eq!(w.len(), 1);
    assert_eq!(w[0].severity, Severity::Warning);
    let c = d.detect_at(&[metric("wide", 1500)], NOW);
    assert_eq!(c.len(), 1);
    assert_eq!(c[0].severity, Severity::Critical);
}
