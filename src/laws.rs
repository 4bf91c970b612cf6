use vstd::prelude::*;

use crate::cloud::MetricDataPoint;
use crate::convert::{
    all_disk_readings, all_process_readings, cloud_provider, data_point_reading, metric_views,
    snapshot_readings, unknown_instance,
};
use crate::detect::{
    after_batch, after_metric, batch_findings, folded, history, metric_finding, DetectorView,
};
use crate::model::{Metric, MetricView, Severity, SourceView, Timestamp};
use crate::stats::{classify, sum, sum_sq};
use crate::system::{DiskMetrics, ProcessMetric, SystemSnapshot};
use crate::text::{is_separator, sanitized};

verus! {

proof fn lemma_disk_shape(ds: Seq<DiskMetrics>, source: SourceView)
    ensures
        all_disk_readings(ds, source).len() == 4 * ds.len(),
        forall|i: int|
            0 <= i < all_disk_readings(ds, source).len() ==> (#[trigger] all_disk_readings(
                ds,
                source,
            )[i]).source == source,
    decreases ds.len(),
{
    if ds.len() > 0 {
        lemma_disk_shape(ds.drop_last(), source);
    }
}

proof fn lemma_process_shape(ps: Seq<ProcessMetric>, t: Timestamp, source: SourceView)
    ensures
        all_process_readings(ps, t, source).len() == 2 * ps.len(),
        forall|i: int|
            0 <= i < all_process_readings(ps, t, source).len() ==> (#[trigger] all_process_readings(
                ps,
                t,
                source,
            )[i]).source == source,
    decreases ps.len(),
{
    if ps.len() > 0 {
        lemma_process_shape(ps.drop_last(), t, source);
    }
}

/// A snapshot converts to six memory metrics, four per mount, one process
/// count and two per listed process, all with the snapshot's host as source.
pub proof fn law_snapshot_shape(s: SystemSnapshot)
    ensures
        snapshot_readings(s).len() == 7 + 4 * s.disk@.len() + 2 * s.processes.process_info@.len(),
        forall|i: int|
            0 <= i < snapshot_readings(s).len() ==> (#[trigger] snapshot_readings(s)[i]).source
                == (SourceView::System { hostname: s.hostname@ }),
{
    let source = SourceView::System { hostname: s.hostname@ };
    lemma_disk_shape(s.disk@, source);
    lemma_process_shape(s.processes.process_info@, s.processes.timestamp, source);
}

/// A sanitized mount point keeps its length and holds no `'/'`, `' '` or `'.'`,
/// so it stands as a single segment of a dotted name.
pub proof fn law_sanitized_segment(mount: Seq<char>)
    ensures
        sanitized(mount).len() == mount.len(),
        forall|i: int| 0 <= i < mount.len() ==> !is_separator(#[trigger] sanitized(mount)[i]),
{
}

/// A cloud reading without a resource id converts to a metric whose cloud
/// source carries the `"unknown"` instance id.
pub proof fn law_cloud_sentinel(p: MetricDataPoint)
    requires
        p.resource_id is None,
    ensures
        data_point_reading(p).source == (SourceView::Cloud {
            provider: cloud_provider(),
            instance_id: unknown_instance(),
        }),
{
}

/// Converting one snapshot twice gives the same metrics, field for field.
pub proof fn law_conversion_repeatable(s: SystemSnapshot, first: Seq<Metric>, second: Seq<Metric>)
    requires
        metric_views(first) == snapshot_readings(s),
        metric_views(second) == snapshot_readings(s),
    ensures
        metric_views(first) == metric_views(second),
        first.len() == second.len(),
{
    assert(metric_views(first).len() == first.len());
    assert(metric_views(second).len() == second.len());
}

/// An empty batch yields no finding and leaves the detector as it was.
pub proof fn law_empty_batch(d: DetectorView)
    ensures
        batch_findings(d, Seq::empty()) == Seq::<crate::detect::Finding>::empty(),
        after_batch(d, Seq::empty()) == d,
{
}

/// How many metrics of `batch` carry `name`.
pub open spec fn count_named(batch: Seq<MetricView>, name: Seq<char>) -> nat
    decreases batch.len(),
{
    if batch.len() == 0 {
        0
    } else {
        count_named(batch.drop_last(), name) + if batch.last().name == name {
            1nat
        } else {
            0nat
        }
    }
}

proof fn lemma_history_growth(d: DetectorView, batch: Seq<MetricView>, name: Seq<char>)
    ensures
        history(after_batch(d, batch).windows, name).len() <= history(d.windows, name).len()
            + count_named(batch, name),
        after_batch(d, batch).min_samples == d.min_samples,
        after_batch(d, batch).window_size == d.window_size,
    decreases batch.len(),
{
    if batch.len() > 0 {
        lemma_history_growth(d, batch.drop_last(), name);
    }
}

/// A name seen fewer than `min_samples` times, always with finite values, is
/// never flagged while it warms up.
pub proof fn law_cold_start(d: DetectorView, batch: Seq<MetricView>, name: Seq<char>)
    requires
        !d.windows.contains_key(name),
        count_named(batch, name) < d.min_samples,
        forall|i: int| 0 <= i < batch.len() && (#[trigger] batch[i]).name == name ==> batch[i].value is Some,
    ensures
        forall|i: int|
            0 <= i < batch_findings(d, batch).len() ==> (#[trigger] batch_findings(d, batch)[i]).metric.name
                != name,
    decreases batch.len(),
{
    if batch.len() > 0 {
        let prev = batch.drop_last();
        assert forall|i: int| 0 <= i < prev.len() && (#[trigger] prev[i]).name == name implies prev[i].value is Some by {
            assert(batch[i] == prev[i]);
        }
        law_cold_start(d, prev, name);
        lemma_history_growth(d, prev, name);
        let m = batch.last();
        if m.name == name {
            assert(batch[batch.len() - 1].value is Some);
        }
    }
}

proof fn lemma_constant_sums(hist: Seq<int>, c: int)
    requires
        forall|i: int| 0 <= i < hist.len() ==> #[trigger] hist[i] == c,
    ensures
        sum(hist) == hist.len() * c,
        sum_sq(hist) == hist.len() * (c * c),
    decreases hist.len(),
{
    if hist.len() > 0 {
        lemma_constant_sums(hist.drop_last(), c);
        assert(hist.last() == c);
        assert((hist.len() - 1) * c + c == hist.len() * c) by (nonlinear_arith);
        assert((hist.len() - 1) * (c * c) + c * c == hist.len() * (c * c)) by (nonlinear_arith);
    }
}

/// Against a window held at one value `c`, any other value has an infinite
/// z-score and is critical, and `c` itself is not flagged.
pub proof fn law_constant_window(hist: Seq<int>, c: int, v: int)
    requires
        hist.len() >= 1,
        forall|i: int| 0 <= i < hist.len() ==> #[trigger] hist[i] == c,
    ensures
        v != c ==> classify(hist, v) == Some(Severity::Critical),
        v == c ==> classify(hist, v) is None,
{
    lemma_constant_sums(hist, c);
    let n = hist.len() as int;
    assert(n * (n * (c * c)) - (n * c) * (n * c) == 0) by (nonlinear_arith);
    assert(n * v - n * c == n * (v - c)) by (nonlinear_arith);
    if v != c {
        assert(n * (v - c) != 0) by (nonlinear_arith)
            requires
                n >= 1,
                v != c,
        ;
    }
}

/// A warmed-up series held at `c` flags a finite value that differs from `c`
/// as critical.
pub proof fn law_threshold_crossing(d: DetectorView, m: MetricView, c: int)
    requires
        history(d.windows, m.name).len() >= d.min_samples,
        history(d.windows, m.name).len() >= 1,
        forall|i: int|
            0 <= i < history(d.windows, m.name).len() ==> #[trigger] history(d.windows, m.name)[i]
                == c,
        m.value is Some,
        m.value->0 != c,
    ensures
        metric_finding(d, m) matches Some(f) && f.severity == Severity::Critical,
{
    law_constant_window(history(d.windows, m.name), c, m.value->0);
}

proof fn lemma_level_fills_window(d: DetectorView, batch: Seq<MetricView>, name: Seq<char>, c: int)
    requires
        d.window_size >= 1,
        history(d.windows, name).len() <= d.window_size,
        forall|i: int| 0 <= i < batch.len() ==> (#[trigger] batch[i]).name == name && batch[i].value == Some(c),
    ensures
        history(after_batch(d, batch).windows, name).len() == if history(d.windows, name).len()
            + batch.len() > d.window_size {
            d.window_size as int
        } else {
            (history(d.windows, name).len() + batch.len()) as int
        },
        forall|i: int|
            0 <= i < history(after_batch(d, batch).windows, name).len() && i >= history(
                after_batch(d, batch).windows,
                name,
            ).len() - batch.len() ==> #[trigger] history(after_batch(d, batch).windows, name)[i] == c,
        after_batch(d, batch).window_size == d.window_size,
        after_batch(d, batch).min_samples == d.min_samples,
    decreases batch.len(),
{
    if batch.len() > 0 {
        let prev = batch.drop_last();
        assert forall|i: int| 0 <= i < prev.len() implies (#[trigger] prev[i]).name == name
            && prev[i].value == Some(c) by {
            assert(batch[i] == prev[i]);
        }
        lemma_level_fills_window(d, prev, name, c);
        let m = batch.last();
        assert(m == batch[batch.len() - 1]);
        let before = after_batch(d, prev);
        let h = history(before.windows, name);
        let after = after_metric(before, m);
        assert(history(after.windows, name) == folded(h, c, d.window_size));
    }
}

/// Once a series has held a new level `c` for at least `window_size`
/// consecutive samples, its window holds only `c`, and a further sample at
/// `c` is no longer flagged.
pub proof fn law_adaptation(d: DetectorView, batch: Seq<MetricView>, m: MetricView)
    requires
        d.window_size >= 1,
        history(d.windows, m.name).len() <= d.window_size,
        m.value is Some,
        batch.len() >= d.window_size,
        forall|i: int|
            0 <= i < batch.len() ==> (#[trigger] batch[i]).name == m.name && batch[i].value
                == m.value,
    ensures
        history(after_batch(d, batch).windows, m.name).len() == d.window_size,
        forall|i: int|
            0 <= i < d.window_size ==> #[trigger] history(after_batch(d, batch).windows, m.name)[i]
                == m.value->0,
        metric_finding(after_batch(d, batch), m) is None,
{
    lemma_level_fills_window(d, batch, m.name, m.value->0);
    let h = history(after_batch(d, batch).windows, m.name);
    law_constant_window(h, m.value->0, m.value->0);
}

} // verus!
