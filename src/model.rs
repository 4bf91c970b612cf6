use vstd::prelude::*;

verus! {

/// Fixed-point scale of every value in this crate: a stored integer `v` stands
/// for `v / VALUE_SCALE` of its unit (hundredths of a byte count, of a percent, ...).
pub const VALUE_SCALE: i64 = 100;

/// An instant in UTC: whole seconds since the Unix epoch and the nanoseconds past them.
#[derive(Clone, Copy, Debug, PartialEq, Eq, Structural)]
pub struct Timestamp {
    pub seconds: i64,
    pub nanos: u32,
}

/// Where a metric was observed.
#[derive(Clone, Debug)]
pub enum MetricSource {
    System { hostname: String },
    Cloud { provider: String, instance_id: String },
}

/// The mathematical content of a `MetricSource`.
pub enum SourceView {
    System { hostname: Seq<char> },
    Cloud { provider: Seq<char>, instance_id: Seq<char> },
}

impl View for MetricSource {
    type V = SourceView;

    open spec fn view(&self) -> SourceView {
        match self {
            MetricSource::System { hostname } => SourceView::System { hostname: hostname@ },
            MetricSource::Cloud { provider, instance_id } => SourceView::Cloud {
                provider: provider@,
                instance_id: instance_id@,
            },
        }
    }
}

impl MetricSource {
    /// A copy of this source with the same text in every field.
    pub fn duplicate(&self) -> (r: MetricSource)
        ensures
            r@ == self@,
    {
        match self {
            MetricSource::System { hostname } => MetricSource::System { hostname: hostname.clone() },
            MetricSource::Cloud { provider, instance_id } => MetricSource::Cloud {
                provider: provider.clone(),
                instance_id: instance_id.clone(),
            },
        }
    }
}

impl PartialEq for MetricSource {
    fn eq(&self, other: &MetricSource) -> (r: bool)
        ensures
            r == (self@ == other@),
    {
        match self {
            MetricSource::System { hostname: a } => match other {
                MetricSource::System { hostname: b } => a.eq(b),
                MetricSource::Cloud { .. } => false,
            },
            MetricSource::Cloud { provider: p1, instance_id: i1 } => match other {
                MetricSource::System { .. } => false,
                MetricSource::Cloud { provider: p2, instance_id: i2 } => {
                    let same_provider = p1.eq(p2);
                    let same_instance = i1.eq(i2);
                    same_provider && same_instance
                },
            },
        }
    }
}

impl vstd::std_specs::cmp::PartialEqSpecImpl for MetricSource {
    open spec fn obeys_eq_spec() -> bool {
        true
    }

    open spec fn eq_spec(&self, other: &MetricSource) -> bool {
        self@ == other@
    }
}

/// How serious a flagged deviation is; `Warning` ranks below `Critical`.
#[derive(Clone, Copy, Debug, PartialEq, Eq, Structural, PartialOrd, Ord)]
pub enum Severity {
    Warning,
    Critical,
}

/// A numeric reading: a finite fixed-point value in units of `1 / VALUE_SCALE`,
/// or the mark of a reading that was not a finite number (NaN or infinite).
#[derive(Clone, Copy, Debug, PartialEq, Eq, Structural)]
pub enum Reading {
    Finite(i64),
    NonFinite,
}

impl View for Reading {
    type V = Option<int>;

    /// `Some(v)` for a finite reading, `None` for a non-finite one.
    open spec fn view(&self) -> Option<int> {
        match self {
            Reading::Finite(v) => Some(*v as int),
            Reading::NonFinite => None,
        }
    }
}

/// A single named, timestamped, sourced observation.
#[derive(Clone, Debug)]
pub struct Metric {
    pub name: String,
    pub value: Reading,
    pub source: MetricSource,
    pub unit: Option<String>,
    pub timestamp: Timestamp,
}

/// The mathematical content of a `Metric`; `value` is `None` for a non-finite reading.
pub struct MetricView {
    pub name: Seq<char>,
    pub value: Option<int>,
    pub source: SourceView,
    pub unit: Option<Seq<char>>,
    pub timestamp: Timestamp,
}

pub open spec fn text_option_view(o: Option<String>) -> Option<Seq<char>> {
    match o {
        Some(s) => Some(s@),
        None => None,
    }
}

impl View for Metric {
    type V = MetricView;

    open spec fn view(&self) -> MetricView {
        MetricView {
            name: self.name@,
            value: self.value@,
            source: self.source@,
            unit: text_option_view(self.unit),
            timestamp: self.timestamp,
        }
    }
}

pub fn duplicate_text_option(o: &Option<String>) -> (r: Option<String>)
    ensures
        text_option_view(r) == text_option_view(*o),
{
    match o {
        Some(s) => Some(s.clone()),
        None => None,
    }
}

impl Metric {
    /// A copy of this metric, field for field.
    pub fn duplicate(&self) -> (r: Metric)
        ensures
            r@ == self@,
    {
        Metric {
            name: self.name.clone(),
            value: self.value,
            source: self.source.duplicate(),
            unit: duplicate_text_option(&self.unit),
            timestamp: self.timestamp,
        }
    }
}

/// A flagged deviation: a copy of the metric, why it was flagged, how serious
/// it is, and when the detector ran.
#[derive(Clone, Debug)]
pub struct Anomaly {
    pub metric: Metric,
    pub reason: String,
    pub severity: Severity,
    pub detected_at: Timestamp,
}

/// The mathematical content of an `Anomaly`.
pub struct AnomalyView {
    pub metric: MetricView,
    pub reason: Seq<char>,
    pub severity: Severity,
    pub detected_at: Timestamp,
}

impl View for Anomaly {
    type V = AnomalyView;

    open spec fn view(&self) -> AnomalyView {
        AnomalyView {
            metric: self.metric@,
            reason: self.reason@,
            severity: self.severity,
            detected_at: self.detected_at,
        }
    }
}

} // verus!
