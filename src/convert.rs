use vstd::prelude::*;

use crate::cloud::MetricDataPoint;
use crate::model::{
    duplicate_text_option, text_option_view, Metric, MetricSource, MetricView, Reading,
    SourceView, Timestamp,
};
use crate::system::{DiskMetrics, ProcessMetric, SystemSnapshot};
use crate::text::{append_decimal, decimal, sanitize, sanitized};

verus! {

/// The provider recorded on every cloud metric.
pub open spec fn cloud_provider() -> Seq<char> {
    "aws"@
}

/// The instance id recorded on a cloud metric whose reading names no resource.
pub open spec fn unknown_instance() -> Seq<char> {
    "unknown"@
}

/// The views of a sequence of metrics.
pub open spec fn metric_views(ms: Seq<Metric>) -> Seq<MetricView> {
    ms.map_values(|m: Metric| m@)
}

/// A count (of bytes, of processes) as a fixed-point value, capped at `i64::MAX`.
pub open spec fn count_value(n: int) -> int {
    if n * 100 > i64::MAX {
        i64::MAX as int
    } else {
        n * 100
    }
}

pub open spec fn reading(
    name: Seq<char>,
    value: int,
    source: SourceView,
    unit: Option<Seq<char>>,
    timestamp: Timestamp,
) -> MetricView {
    MetricView { name, value: Some(value), source, unit, timestamp }
}

pub open spec fn bytes_unit() -> Option<Seq<char>> {
    Some("bytes"@)
}

pub open spec fn percent_unit() -> Option<Seq<char>> {
    Some("%"@)
}

/// The six memory metrics of a snapshot.
pub open spec fn memory_readings(s: SystemSnapshot, source: SourceView) -> Seq<MetricView> {
    let m = s.memory;
    let t = m.timestamp;
    seq![
        reading("memory.total_bytes"@, count_value(m.total_bytes as int), source, bytes_unit(), t),
        reading("memory.used_bytes"@, count_value(m.used_bytes as int), source, bytes_unit(), t),
        reading("memory.available_bytes"@, count_value(m.available_bytes as int), source, bytes_unit(), t),
        reading("memory.usage_percent"@, m.usage_percent as int, source, percent_unit(), t),
        reading("memory.swap_total_bytes"@, count_value(m.swap_total_bytes as int), source, bytes_unit(), t),
        reading("memory.swap_used_bytes"@, count_value(m.swap_used_bytes as int), source, bytes_unit(), t),
    ]
}

/// The name prefix of one mount's metrics: `disk.<sanitized mount>`.
pub open spec fn disk_prefix(mount_point: Seq<char>) -> Seq<char> {
    "disk."@ + sanitized(mount_point)
}

/// The four metrics of one mount.
pub open spec fn disk_readings(d: DiskMetrics, source: SourceView) -> Seq<MetricView> {
    let p = disk_prefix(d.mount_point@);
    let t = d.timestamp;
    seq![
        reading(p + ".total_bytes"@, count_value(d.total_bytes as int), source, bytes_unit(), t),
        reading(p + ".used_bytes"@, count_value(d.used_bytes as int), source, bytes_unit(), t),
        reading(p + ".available_bytes"@, count_value(d.available_bytes as int), source, bytes_unit(), t),
        reading(p + ".usage_percent"@, d.usage_percent as int, source, percent_unit(), t),
    ]
}

/// The metrics of all mounts, mount after mount in input order.
pub open spec fn all_disk_readings(ds: Seq<DiskMetrics>, source: SourceView) -> Seq<MetricView>
    decreases ds.len(),
{
    if ds.len() == 0 {
        Seq::empty()
    } else {
        all_disk_readings(ds.drop_last(), source) + disk_readings(ds.last(), source)
    }
}

/// The name prefix of one process's metrics: `process.<pid>`.
pub open spec fn process_prefix(pid: u32) -> Seq<char> {
    "process."@ + decimal(pid as nat)
}

/// The two metrics of one listed process.
pub open spec fn process_readings(p: ProcessMetric, t: Timestamp, source: SourceView) -> Seq<
    MetricView,
> {
    let n = process_prefix(p.pid);
    seq![
        reading(n + ".cpu_percent"@, p.cpu_usage as int, source, percent_unit(), t),
        reading(n + ".memory_bytes"@, count_value(p.memory as int), source, bytes_unit(), t),
    ]
}

/// The metrics of all listed processes, in input order.
pub open spec fn all_process_readings(
    ps: Seq<ProcessMetric>,
    t: Timestamp,
    source: SourceView,
) -> Seq<MetricView>
    decreases ps.len(),
{
    if ps.len() == 0 {
        Seq::empty()
    } else {
        all_process_readings(ps.drop_last(), t, source) + process_readings(ps.last(), t, source)
    }
}

/// Every metric of a snapshot, in order: memory, mounts, the process count,
/// then the listed processes. All carry the snapshot's host as their source.
pub open spec fn snapshot_readings(s: SystemSnapshot) -> Seq<MetricView> {
    let source = SourceView::System { hostname: s.hostname@ };
    memory_readings(s, source) + all_disk_readings(s.disk@, source) + seq![
        reading(
            "process.count"@,
            count_value(s.processes.process_count as int),
            source,
            None,
            s.processes.timestamp,
        ),
    ] + all_process_readings(s.processes.process_info@, s.processes.timestamp, source)
}

/// The metric of one cloud reading.
pub open spec fn data_point_reading(p: MetricDataPoint) -> MetricView {
    let instance_id = match p.resource_id {
        Some(id) => id@,
        None => unknown_instance(),
    };
    MetricView {
        name: p.metric_name@,
        value: p.value@,
        source: SourceView::Cloud { provider: cloud_provider(), instance_id },
        unit: text_option_view(p.unit),
        timestamp: p.timestamp,
    }
}

/// A count as a fixed-point value (see `count_value`).
pub fn count_to_value(n: u64) -> (r: i64)
    ensures
        r == count_value(n as int),
{
    if n > (i64::MAX / 100) as u64 {
        i64::MAX
    } else {
        (n * 100) as i64
    }
}

fn push_reading(
    out: &mut Vec<Metric>,
    name: String,
    value: i64,
    source: &MetricSource,
    unit: Option<&str>,
    timestamp: Timestamp,
)
    ensures
        metric_views(final(out)@) == metric_views(old(out)@).push(
            reading(
                name@,
                value as int,
                source@,
                match unit {
                    Some(u) => Some(u@),
                    None => None,
                },
                timestamp,
            ),
        ),
{
    let unit = match unit {
        Some(u) => Some(String::from_str(u)),
        None => None,
    };
    out.push(Metric { name, value: Reading::Finite(value), source: source.duplicate(), unit, timestamp });
    assert(metric_views(out@) =~= metric_views(old(out)@).push(out@.last()@));
}

fn suffixed(prefix: &String, suffix: &str) -> (r: String)
    ensures
        r@ == prefix@ + suffix@,
{
    let mut r = prefix.clone();
    r.append(suffix);
    r
}

/// Every metric of `snapshot`, as `snapshot_readings` lists them: six for
/// memory, four per mount, one process count and two per listed process.
pub fn snapshot_metrics(snapshot: &SystemSnapshot) -> (r: Vec<Metric>)
    ensures
        metric_views(r@) == snapshot_readings(*snapshot),
{
    let source = MetricSource::System { hostname: snapshot.hostname.clone() };
    let ghost src = source@;
    let mut out: Vec<Metric> = Vec::new();
    let m = &snapshot.memory;
    let t = m.timestamp;
    push_reading(&mut out, String::from_str("memory.total_bytes"), count_to_value(m.total_bytes), &source, Some("bytes"), t);
    push_reading(&mut out, String::from_str("memory.used_bytes"), count_to_value(m.used_bytes), &source, Some("bytes"), t);
    push_reading(&mut out, String::from_str("memory.available_bytes"), count_to_value(m.available_bytes), &source, Some("bytes"), t);
    push_reading(&mut out, String::from_str("memory.usage_percent"), m.usage_percent, &source, Some("%"), t);
    push_reading(&mut out, String::from_str("memory.swap_total_bytes"), count_to_value(m.swap_total_bytes), &source, Some("bytes"), t);
    push_reading(&mut out, String::from_str("memory.swap_used_bytes"), count_to_value(m.swap_used_bytes), &source, Some("bytes"), t);
    assert(metric_views(out@) =~= memory_readings(*snapshot, src));

    let disks = &snapshot.disk;
    let mut i: usize = 0;
    while i < disks.len()
        invariant
            i <= disks@.len(),
            source@ == src,
            src == (SourceView::System { hostname: snapshot.hostname@ }),
            metric_views(out@) == memory_readings(*snapshot, src) + all_disk_readings(
                disks@.subrange(0, i as int),
                src,
            ),
        decreases disks@.len() - i,
    {
        let d = &disks[i];
        let mut prefix = String::from_str("disk.");
        let mount = sanitize(d.mount_point.as_str());
        prefix.append(mount.as_str());
        let dt = d.timestamp;
        push_reading(&mut out, suffixed(&prefix, ".total_bytes"), count_to_value(d.total_bytes), &source, Some("bytes"), dt);
        push_reading(&mut out, suffixed(&prefix, ".used_bytes"), count_to_value(d.used_bytes), &source, Some("bytes"), dt);
        push_reading(&mut out, suffixed(&prefix, ".available_bytes"), count_to_value(d.available_bytes), &source, Some("bytes"), dt);
        push_reading(&mut out, suffixed(&prefix, ".usage_percent"), d.usage_percent, &source, Some("%"), dt);
        proof {
            let next = disks@.subrange(0, i + 1);
            assert(next.drop_last() =~= disks@.subrange(0, i as int));
            assert(metric_views(out@) =~= memory_readings(*snapshot, src) + all_disk_readings(next, src));
        }
        i = i + 1;
    }
    assert(disks@.subrange(0, disks@.len() as int) =~= disks@);

    let p = &snapshot.processes;
    let pt = p.timestamp;
    push_reading(&mut out, String::from_str("process.count"), count_to_value(p.process_count as u64), &source, None, pt);
    let ghost head = metric_views(out@);

    let procs = &p.process_info;
    let mut j: usize = 0;
    while j < procs.len()
        invariant
            j <= procs@.len(),
            source@ == src,
            metric_views(out@) == head + all_process_readings(procs@.subrange(0, j as int), pt, src),
        decreases procs@.len() - j,
    {
        let q = &procs[j];
        let mut prefix = String::from_str("process.");
        append_decimal(&mut prefix, q.pid as u64);
        push_reading(&mut out, suffixed(&prefix, ".cpu_percent"), q.cpu_usage, &source, Some("%"), pt);
        push_reading(&mut out, suffixed(&prefix, ".memory_bytes"), count_to_value(q.memory), &source, Some("bytes"), pt);
        proof {
            let next = procs@.subrange(0, j + 1);
            assert(next.drop_last() =~= procs@.subrange(0, j as int));
            assert(metric_views(out@) =~= head + all_process_readings(next, pt, src));
        }
        j = j + 1;
    }
    assert(procs@.subrange(0, procs@.len() as int) =~= procs@);
    assert(metric_views(out@) =~= snapshot_readings(*snapshot));
    out
}

/// The metric of one cloud reading: its name, value, unit and time, with a
/// cloud source whose instance is the reading's resource, or `"unknown"`.
pub fn data_point_metric(point: &MetricDataPoint) -> (r: Metric)
    ensures
        r@ == data_point_reading(*point),
{
    let instance_id = match &point.resource_id {
        Some(id) => id.clone(),
        None => String::from_str("unknown"),
    };
    let source = MetricSource::Cloud { provider: String::from_str("aws"), instance_id };
    Metric {
        name: point.metric_name.clone(),
        value: point.value,
        source,
        unit: duplicate_text_option(&point.unit),
        timestamp: point.timestamp,
    }
}

impl From<SystemSnapshot> for Vec<Metric> {
    fn from(snapshot: SystemSnapshot) -> (r: Vec<Metric>)
        ensures
            metric_views(r@) == snapshot_readings(snapshot),
    {
        snapshot_metrics(&snapshot)
    }
}

impl vstd::std_specs::convert::FromSpecImpl<SystemSnapshot> for Vec<Metric> {
    open spec fn obeys_from_spec() -> bool {
        false
    }

    open spec fn from_spec(snapshot: SystemSnapshot) -> Vec<Metric> {
        vstd::pervasive::arbitrary()
    }
}

impl From<MetricDataPoint> for Metric {
    fn from(point: MetricDataPoint) -> (r: Metric)
        ensures
            r@ == data_point_reading(point),
    {
        data_point_metric(&point)
    }
}

impl vstd::std_specs::convert::FromSpecImpl<MetricDataPoint> for Metric {
    open spec fn obeys_from_spec() -> bool {
        false
    }

    open spec fn from_spec(point: MetricDataPoint) -> Metric {
        vstd::pervasive::arbitrary()
    }
}

} // verus!
