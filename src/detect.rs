use vstd::prelude::*;

use crate::clock;
use crate::convert::metric_views;
use crate::model::{Anomaly, AnomalyView, Metric, MetricView, Reading, Severity, Timestamp};
use crate::stats::{
    classify, classify_window, in_i64, lemma_sum_bounds, lemma_sum_first, lemma_sum_push,
    max_square, mean_of, square, sum, sum_sq, wide_add, wide_sub, window_mean, z_bound, Wide,
    MAX_WINDOW,
};
use crate::text::{append_decimal, append_fixed, decimal, fixed_text};

verus! {

/// Window size of the standard detector.
pub const DEFAULT_WINDOW: usize = 20;

/// Warm-up count of the standard detector.
pub const DEFAULT_MIN_SAMPLES: usize = 5;

/// A strategy that flags deviations in batches of metrics.
pub trait AnomalyDetector {
    /// The detector's internal consistency.
    spec fn well_formed(&self) -> bool;

    /// The anomalies found in `metrics`. Each one holds a copy of a metric of
    /// the batch, and an empty batch yields none.
    fn detect(&mut self, metrics: &[Metric]) -> (r: Vec<Anomaly>)
        requires
            old(self).well_formed(),
        ensures
            final(self).well_formed(),
            metrics@.len() == 0 ==> r@.len() == 0,
            forall|i: int|
                0 <= i < r@.len() ==> exists|j: int|
                    0 <= j < metrics@.len() && (#[trigger] r@[i]).metric@ == metrics@[j]@,
    ;
}

/// The state of a baseline detector: its tunables and, per metric name, the
/// last values folded in, oldest first.
pub struct DetectorView {
    pub window_size: nat,
    pub min_samples: nat,
    pub windows: Map<Seq<char>, Seq<int>>,
}

/// What a detector concludes about one metric, before it is stamped with a time.
pub struct Finding {
    pub metric: MetricView,
    pub reason: Seq<char>,
    pub severity: Severity,
}

/// The window kept for `name`; empty for a name never seen.
pub open spec fn history(windows: Map<Seq<char>, Seq<int>>, name: Seq<char>) -> Seq<int> {
    if windows.contains_key(name) {
        windows[name]
    } else {
        Seq::empty()
    }
}

/// `hist` with `v` appended, dropping the oldest value beyond `cap` values.
pub open spec fn folded(hist: Seq<int>, v: int, cap: nat) -> Seq<int> {
    let h = hist.push(v);
    if h.len() > cap {
        h.subrange(1, h.len() as int)
    } else {
        h
    }
}

/// The verdict on a reading: a non-finite reading is critical; a finite one
/// is judged only once its window holds `min_samples` values.
pub open spec fn verdict(min_samples: nat, hist: Seq<int>, value: Option<int>) -> Option<Severity> {
    match value {
        None => Some(Severity::Critical),
        Some(v) => if hist.len() < min_samples || hist.len() == 0 {
            None
        } else {
            classify(hist, v)
        },
    }
}

/// `<name>: value is not a finite number`
pub open spec fn non_finite_reason(name: Seq<char>) -> Seq<char> {
    name + ": value is not a finite number"@
}

/// `<name>: value <v> against baseline mean <mean> of <n> samples, |z| >= <k>`
pub open spec fn deviation_words(name: Seq<char>, v: int, mean: int, n: nat, k: nat) -> Seq<char> {
    name + ": value "@ + fixed_text(v) + " against baseline mean "@ + fixed_text(mean) + " of "@
        + decimal(n) + " samples, |z| >= "@ + decimal(k)
}

/// Why `v` was flagged against the window `hist`: the name, the value, the
/// window's mean and size, and the z-score bound that was reached.
pub open spec fn deviation_reason(name: Seq<char>, v: int, hist: Seq<int>, s: Severity) -> Seq<
    char,
> {
    deviation_words(name, v, mean_of(sum(hist), hist.len() as int), hist.len(), z_bound(s))
}

/// What the detector in state `d` concludes about `m`.
pub open spec fn metric_finding(d: DetectorView, m: MetricView) -> Option<Finding> {
    let hist = history(d.windows, m.name);
    match verdict(d.min_samples, hist, m.value) {
        Some(s) => Some(
            Finding {
                metric: m,
                reason: match m.value {
                    Some(v) => deviation_reason(m.name, v, hist, s),
                    None => non_finite_reason(m.name),
                },
                severity: s,
            },
        ),
        None => None,
    }
}

/// The state after observing `m`: a finite value is folded into its name's
/// window, anomalous or not; a non-finite one changes nothing.
pub open spec fn after_metric(d: DetectorView, m: MetricView) -> DetectorView {
    match m.value {
        Some(v) => DetectorView {
            windows: d.windows.insert(m.name, folded(history(d.windows, m.name), v, d.window_size)),
            ..d
        },
        None => d,
    }
}

/// The state after observing a batch, metric after metric.
pub open spec fn after_batch(d: DetectorView, batch: Seq<MetricView>) -> DetectorView
    decreases batch.len(),
{
    if batch.len() == 0 {
        d
    } else {
        after_metric(after_batch(d, batch.drop_last()), batch.last())
    }
}

/// The findings on a batch, in batch order; each metric is judged against the
/// windows as the metrics before it left them.
pub open spec fn batch_findings(d: DetectorView, batch: Seq<MetricView>) -> Seq<Finding>
    decreases batch.len(),
{
    if batch.len() == 0 {
        Seq::empty()
    } else {
        let prev = batch_findings(d, batch.drop_last());
        match metric_finding(after_batch(d, batch.drop_last()), batch.last()) {
            Some(f) => prev.push(f),
            None => prev,
        }
    }
}

/// A finding stamped with the instant `now` at which detection ran.
pub open spec fn stamp(f: Finding, now: Timestamp) -> AnomalyView {
    AnomalyView { metric: f.metric, reason: f.reason, severity: f.severity, detected_at: now }
}

/// Findings stamped with the instant `now` at which detection ran.
pub open spec fn stamped(fs: Seq<Finding>, now: Timestamp) -> Seq<AnomalyView> {
    fs.map_values(|f: Finding| stamp(f, now))
}

pub open spec fn anomaly_views(rs: Seq<Anomaly>) -> Seq<AnomalyView> {
    rs.map_values(|a: Anomaly| a@)
}

pub open spec fn as_ints(s: Seq<i64>) -> Seq<int> {
    s.map_values(|x: i64| x as int)
}

/// The rolling window of one metric name, with its running sums.
struct Series {
    name: String,
    values: Vec<i64>,
    total: i128,
    squares: Wide,
}

impl Series {
    spec fn well_formed(&self, cap: nat) -> bool {
        &&& self.values@.len() <= cap
        &&& self.total == sum(as_ints(self.values@))
        &&& self.squares.wf()
        &&& self.squares.value() == sum_sq(as_ints(self.values@))
    }
}

proof fn lemma_ints_in_range(s: Seq<i64>)
    ensures
        forall|i: int| 0 <= i < as_ints(s).len() ==> in_i64(#[trigger] as_ints(s)[i]),
{
}

proof fn lemma_series_bounds(s: &Series, cap: nat)
    requires
        s.well_formed(cap),
    ensures
        s.values@.len() * (i64::MIN as int) <= s.total <= s.values@.len() * (i64::MAX as int),
        0 <= s.squares.value() <= s.values@.len() * max_square(),
{
    lemma_ints_in_range(s.values@);
    lemma_sum_bounds(as_ints(s.values@));
}

fn fold_value(s: &mut Series, v: i64, cap: usize)
    requires
        old(s).well_formed(cap as nat),
        1 <= cap <= MAX_WINDOW,
    ensures
        final(s).well_formed(cap as nat),
        final(s).name == old(s).name,
        as_ints(final(s).values@) == folded(as_ints(old(s).values@), v as int, cap as nat),
{
    proof {
        lemma_series_bounds(s, cap as nat);
        let n = s.values@.len() as int;
        assert(n * max_square() <= 0x40000000 * max_square()) by (nonlinear_arith)
            requires
                0 <= n <= 0x40000000,
                max_square() > 0,
        ;
        assert(n * (i64::MAX as int) <= 0x40000000 * (i64::MAX as int)) by (nonlinear_arith)
            requires
                0 <= n <= 0x40000000,
        ;
        assert(n * (i64::MIN as int) >= 0x40000000 * (i64::MIN as int)) by (nonlinear_arith)
            requires
                0 <= n <= 0x40000000,
        ;
    }
    let ghost before = as_ints(s.values@);
    let sq = square(v);
    proof {
        assert(s.squares.value() <= 0x1000000000000000000000000000000000000000);
        assert(s.squares.hi <= 0x100000000000000000000000);
        assert((v as int) * (v as int) <= max_square()) by (nonlinear_arith)
            requires
                i64::MIN <= v <= i64::MAX,
                max_square() == 0x40000000000000000000000000000000,
        ;
        assert(sq.hi <= 0x4000000000000000);
    }
    s.values.push(v);
    s.total = s.total + v as i128;
    s.squares = wide_add(s.squares, sq);
    proof {
        lemma_sum_push(before, v as int);
        assert(as_ints(s.values@) =~= before.push(v as int));
    }
    if s.values.len() > cap {
        let ghost pushed = as_ints(s.values@);
        proof {
            lemma_sum_first(pushed);
            lemma_ints_in_range(s.values@);
            lemma_sum_bounds(pushed.subrange(1, pushed.len() as int));
        }
        let oldest = s.values.remove(0);
        let gone = square(oldest);
        s.total = s.total - oldest as i128;
        s.squares = wide_sub(s.squares, gone);
        assert(as_ints(s.values@) =~= pushed.subrange(1, pushed.len() as int));
    }
}

fn non_finite_text(name: &String) -> (r: String)
    ensures
        r@ == non_finite_reason(name@),
{
    let mut r = name.clone();
    r.append(": value is not a finite number");
    r
}

fn deviation_text(name: &String, v: i64, mean: i64, n: usize, s: Severity) -> (r: String)
    ensures
        r@ == deviation_words(name@, v as int, mean as int, n as nat, z_bound(s)),
{
    let mut r = name.clone();
    r.append(": value ");
    append_fixed(&mut r, v);
    r.append(" against baseline mean ");
    append_fixed(&mut r, mean);
    r.append(" of ");
    append_decimal(&mut r, n as u64);
    r.append(" samples, |z| >= ");
    let k: u64 = match s {
        Severity::Critical => 3,
        Severity::Warning => 2,
    };
    append_decimal(&mut r, k);
    r
}

/// Flags values that stray from a rolling per-name baseline: within each
/// metric name, a value whose z-score against the last `window_size` values
/// reaches 2 is a warning and one that reaches 3 is critical, once the window
/// holds `min_samples` values.
pub struct BaselineDetector {
    window_size: usize,
    min_samples: usize,
    series: Vec<Series>,
    windows: Ghost<Map<Seq<char>, Seq<int>>>,
}

impl View for BaselineDetector {
    type V = DetectorView;

    closed spec fn view(&self) -> DetectorView {
        DetectorView {
            window_size: self.window_size as nat,
            min_samples: self.min_samples as nat,
            windows: self.windows@,
        }
    }
}

/// Whether the tunables describe a detector: a window of 1 to `MAX_WINDOW`
/// values and a warm-up of at least one value.
pub open spec fn valid_tunables(window_size: int, min_samples: int) -> bool {
    1 <= window_size <= MAX_WINDOW && min_samples >= 1
}

impl BaselineDetector {
    pub closed spec fn inv(&self) -> bool {
        &&& valid_tunables(self.window_size as int, self.min_samples as int)
        &&& forall|i: int|
            0 <= i < self.series@.len() ==> (#[trigger] self.series@[i]).well_formed(
                self.window_size as nat,
            )
        &&& forall|i: int|
            0 <= i < self.series@.len() ==> self.windows@.contains_key(
                (#[trigger] self.series@[i]).name@,
            ) && self.windows@[self.series@[i].name@] == as_ints(self.series@[i].values@)
        &&& forall|i: int, j: int|
            0 <= i < self.series@.len() && 0 <= j < self.series@.len() && i != j
                ==> (#[trigger] self.series@[i]).name@ != (#[trigger] self.series@[j]).name@
        &&& forall|k: Seq<char>|
            #[trigger] self.windows@.contains_key(k) ==> exists|i: int|
                0 <= i < self.series@.len() && (#[trigger] self.series@[i]).name@ == k
    }

    /// A detector with no history, or `None` where the tunables are not valid.
    pub fn new(window_size: usize, min_samples: usize) -> (r: Option<BaselineDetector>)
        ensures
            r is Some <==> valid_tunables(window_size as int, min_samples as int),
            r matches Some(d) ==> d.inv() && d@ == (DetectorView {
                window_size: window_size as nat,
                min_samples: min_samples as nat,
                windows: Map::empty(),
            }),
    {
        if 1 <= window_size && window_size <= MAX_WINDOW && min_samples >= 1 {
            Some(
                BaselineDetector {
                    window_size,
                    min_samples,
                    series: Vec::new(),
                    windows: Ghost(Map::empty()),
                },
            )
        } else {
            None
        }
    }

    /// A detector with the standard tunables: a window of 20 values and a
    /// warm-up of 5.
    pub fn standard() -> (r: BaselineDetector)
        ensures
            r.inv(),
            r@ == (DetectorView {
                window_size: DEFAULT_WINDOW as nat,
                min_samples: DEFAULT_MIN_SAMPLES as nat,
                windows: Map::empty(),
            }),
    {
        BaselineDetector {
            window_size: DEFAULT_WINDOW,
            min_samples: DEFAULT_MIN_SAMPLES,
            series: Vec::new(),
            windows: Ghost(Map::empty()),
        }
    }

    pub fn window_size(&self) -> (r: usize)
        ensures
            r == self@.window_size,
    {
        self.window_size
    }

    pub fn min_samples(&self) -> (r: usize)
        ensures
            r == self@.min_samples,
    {
        self.min_samples
    }

    fn find(&self, name: &String) -> (r: Option<usize>)
        requires
            self.inv(),
        ensures
            r matches Some(i) ==> i < self.series@.len() && self.series@[i as int].name@ == name@,
            r is None ==> !self.windows@.contains_key(name@),
    {
        let mut i: usize = 0;
        while i < self.series.len()
            invariant
                self.inv(),
                i <= self.series@.len(),
                forall|j: int| 0 <= j < i ==> (#[trigger] self.series@[j]).name@ != name@,
            decreases self.series@.len() - i,
        {
            if self.series[i].name.eq(name) {
                return Some(i);
            }
            i = i + 1;
        }
        None
    }

    fn observe(&mut self, m: &Metric, now: Timestamp, out: &mut Vec<Anomaly>)
        requires
            old(self).inv(),
        ensures
            final(self).inv(),
            final(self)@ == after_metric(old(self)@, m@),
            anomaly_views(final(out)@) == match metric_finding(old(self)@, m@) {
                Some(f) => anomaly_views(old(out)@).push(stamp(f, now)),
                None => anomaly_views(old(out)@),
            },
    {
        let ghost hist = history(self.windows@, m.name@);
        let v = match m.value {
            Reading::Finite(v) => v,
            Reading::NonFinite => {
                let reason = non_finite_text(&m.name);
                out.push(
                    Anomaly {
                        metric: m.duplicate(),
                        reason,
                        severity: Severity::Critical,
                        detected_at: now,
                    },
                );
                assert(anomaly_views(out@) =~= anomaly_views(old(out)@).push(out@.last()@));
                return;
            },
        };
        let found = self.find(&m.name);
        let cap = self.window_size;
        match found {
            Some(i) => {
                let s = &self.series[i];
                let n = s.values.len();
                proof {
                    assert(hist == as_ints(s.values@));
                    lemma_series_bounds(s, cap as nat);
                }
                if n >= self.min_samples && n > 0 {
                    let verdict = classify_window(n, s.total, s.squares, v);
                    match verdict {
                        Some(sev) => {
                            let mean = window_mean(s.total, n);
                            let reason = deviation_text(&m.name, v, mean, n, sev);
                            out.push(
                                Anomaly {
                                    metric: m.duplicate(),
                                    reason,
                                    severity: sev,
                                    detected_at: now,
                                },
                            );
                            assert(anomaly_views(out@) =~= anomaly_views(old(out)@).push(
                                out@.last()@,
                            ));
                        },
                        None => {},
                    }
                }
                let mut series = self.series.remove(i);
                fold_value(&mut series, v, cap);
                self.series.insert(i, series);
                proof {
                    self.windows@ = self.windows@.insert(m.name@, folded(hist, v as int, cap as nat));
                    assert(self.series@ =~= old(self).series@.update(i as int, series));
                    assert forall|k: Seq<char>| #[trigger] self.windows@.contains_key(k) implies exists|j: int|
                        0 <= j < self.series@.len() && (#[trigger] self.series@[j]).name@ == k by {
                        if k != m.name@ {
                            assert(old(self).windows@.contains_key(k));
                            let j = choose|j: int|
                                0 <= j < old(self).series@.len() && (#[trigger] old(self).series@[j]).name@ == k;
                            assert(self.series@[j].name@ == k);
                        } else {
                            assert(self.series@[i as int].name@ == k);
                        }
                    }
                }
            },
            None => {
                let mut series = Series { name: m.name.clone(), values: Vec::new(), total: 0, squares: Wide { hi: 0, lo: 0 } };
                proof {
                    assert(as_ints(series.values@) =~= Seq::<int>::empty());
                }
                fold_value(&mut series, v, cap);
                self.series.push(series);
                proof {
                    self.windows@ = self.windows@.insert(m.name@, folded(hist, v as int, cap as nat));
                    let last = self.series@.len() - 1;
                    assert forall|j: int| 0 <= j < last implies (#[trigger] self.series@[j]).name@ != m.name@ by {
                        assert(old(self).windows@.contains_key(old(self).series@[j].name@));
                    }
                    assert forall|k: Seq<char>| #[trigger] self.windows@.contains_key(k) implies exists|j: int|
                        0 <= j < self.series@.len() && (#[trigger] self.series@[j]).name@ == k by {
                        if k != m.name@ {
                            assert(old(self).windows@.contains_key(k));
                            let j = choose|j: int|
                                0 <= j < old(self).series@.len() && (#[trigger] old(self).series@[j]).name@ == k;
                            assert(self.series@[j].name@ == k);
                        } else {
                            assert(self.series@[last].name@ == k);
                        }
                    }
                }
            },
        }
    }

    /// The anomalies in `metrics`, judged in batch order against the windows
    /// of their names, and stamped with `now`. Every finite value is
    /// folded into its window, flagged or not.
    pub fn detect_at(&mut self, metrics: &[Metric], now: Timestamp) -> (r: Vec<Anomaly>)
        requires
            old(self).inv(),
        ensures
            final(self).inv(),
            final(self)@ == after_batch(old(self)@, metric_views(metrics@)),
            anomaly_views(r@) == stamped(batch_findings(old(self)@, metric_views(metrics@)), now),
    {
        let ghost d0 = self@;
        let ghost batch = metric_views(metrics@);
        let mut out: Vec<Anomaly> = Vec::new();
        let mut i: usize = 0;
        assert(anomaly_views(out@) =~= stamped(batch_findings(d0, batch.subrange(0, 0)), now));
        while i < metrics.len()
            invariant
                self.inv(),
                i <= metrics@.len(),
                batch == metric_views(metrics@),
                self@ == after_batch(d0, batch.subrange(0, i as int)),
                anomaly_views(out@) == stamped(batch_findings(d0, batch.subrange(0, i as int)), now),
            decreases metrics@.len() - i,
        {
            self.observe(&metrics[i], now, &mut out);
            proof {
                let next = batch.subrange(0, i + 1);
                assert(next.drop_last() =~= batch.subrange(0, i as int));
                assert(next.last() == metrics@[i as int]@);
                let fs = batch_findings(d0, batch.subrange(0, i as int));
                match metric_finding(after_batch(d0, batch.subrange(0, i as int)), next.last()) {
                    Some(f) => {
                        assert(stamped(fs.push(f), now) =~= stamped(fs, now).push(stamp(f, now)));
                    },
                    None => {},
                }
            }
            i = i + 1;
        }
        assert(batch.subrange(0, metrics@.len() as int) =~= batch);
        out
    }
}

/// Every finding on a batch concerns one of the batch's metrics, and there are
/// no more findings than metrics.
pub proof fn lemma_findings_from_batch(d: DetectorView, batch: Seq<MetricView>)
    ensures
        batch_findings(d, batch).len() <= batch.len(),
        forall|i: int|
            0 <= i < batch_findings(d, batch).len() ==> exists|j: int|
                0 <= j < batch.len() && (#[trigger] batch_findings(d, batch)[i]).metric == batch[j],
    decreases batch.len(),
{
    if batch.len() > 0 {
        let prev = batch.drop_last();
        lemma_findings_from_batch(d, prev);
        let fs = batch_findings(d, batch);
        assert forall|i: int| 0 <= i < fs.len() implies exists|j: int|
            0 <= j < batch.len() && (#[trigger] fs[i]).metric == batch[j] by {
            if i < batch_findings(d, prev).len() {
                let j = choose|j: int|
                    0 <= j < prev.len() && (#[trigger] batch_findings(d, prev)[i]).metric == prev[j];
                assert(batch[j] == prev[j]);
            } else {
                assert(fs[i].metric == batch[batch.len() - 1]);
            }
        }
    }
}

/// A well-formed detector keeps at most `window_size` values per name, each
/// an `i64` value, and its tunables are valid.
pub proof fn lemma_detector_windows(d: &BaselineDetector, name: Seq<char>)
    requires
        d.inv(),
    ensures
        valid_tunables(d@.window_size as int, d@.min_samples as int),
        history(d@.windows, name).len() <= d@.window_size,
        forall|i: int|
            0 <= i < history(d@.windows, name).len() ==> in_i64(
                #[trigger] history(d@.windows, name)[i],
            ),
{
    if d.windows@.contains_key(name) {
        let j = choose|j: int| 0 <= j < d.series@.len() && (#[trigger] d.series@[j]).name@ == name;
        let s = d.series@[j];
        assert(s.well_formed(d.window_size as nat));
        assert forall|i: int| 0 <= i < history(d@.windows, name).len() implies in_i64(
            #[trigger] history(d@.windows, name)[i],
        ) by {
            assert(as_ints(s.values@)[i] == s.values@[i] as int);
        }
    }
}

impl AnomalyDetector for BaselineDetector {
    open spec fn well_formed(&self) -> bool {
        self.inv()
    }

    /// `detect_at` at the instant read from the system clock.
    fn detect(&mut self, metrics: &[Metric]) -> (r: Vec<Anomaly>)
        ensures
            final(self)@ == after_batch(old(self)@, metric_views(metrics@)),
            exists|now: Timestamp|
                anomaly_views(r@) == #[trigger] stamped(
                    batch_findings(old(self)@, metric_views(metrics@)),
                    now,
                ),
    {
        let now = clock::now();
        let r = self.detect_at(metrics, now);
        proof {
            let batch = metric_views(metrics@);
            lemma_findings_from_batch(old(self)@, batch);
            let fs = batch_findings(old(self)@, batch);
            assert(anomaly_views(r@).len() == r@.len());
            assert(stamped(fs, now).len() == fs.len());
            assert(batch.len() == metrics@.len());
            assert forall|i: int| 0 <= i < r@.len() implies exists|j: int|
                0 <= j < metrics@.len() && (#[trigger] r@[i]).metric@ == metrics@[j]@ by {
                assert(anomaly_views(r@)[i] == r@[i]@);
                assert(stamped(fs, now)[i] == stamp(fs[i], now));
                let j = choose|j: int| 0 <= j < batch.len() && (#[trigger] fs[i]).metric == batch[j];
                assert(batch[j] == metrics@[j]@);
            }
        }
        r
    }
}

} // verus!
