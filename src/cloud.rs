use vstd::prelude::*;

use vstd::arithmetic::div_mod::lemma_fundamental_div_mod_converse;

use crate::model::{text_option_view, Reading, Timestamp};
use crate::text::{append_decimal, decimal, lemma_decimal_injective};

verus! {

/// Which of the provider's services the configured credentials may read.
#[derive(Clone, Copy, Debug, PartialEq, Eq, Structural)]
pub struct PermissionsCheck {
    pub cost_explorer_read: bool,
    pub metrics_monitor_read: bool,
    pub instance_describe: bool,
}

/// Whether the provider can be reached, in which region, and with which permissions.
#[derive(Clone, Debug)]
pub struct ConnectionStatus {
    pub connected: bool,
    pub region: String,
    pub permissions: PermissionsCheck,
}

impl ConnectionStatus {
    /// The status for `region` given the permission checks: the provider counts
    /// as connected when its monitoring or its inventory could be read.
    pub fn from_permissions(region: String, permissions: PermissionsCheck) -> (r: ConnectionStatus)
        ensures
            r.connected == (permissions.metrics_monitor_read || permissions.instance_describe),
            r.region == region,
            r.permissions == permissions,
    {
        ConnectionStatus {
            connected: permissions.metrics_monitor_read || permissions.instance_describe,
            region,
            permissions,
        }
    }
}

/// One compute instance of the provider's inventory.
#[derive(Clone, Debug)]
pub struct Instance {
    pub instance_id: String,
    pub instance_type: String,
    pub state: String,
    pub name: Option<String>,
    pub tags: Vec<(String, String)>,
}

/// One raw reading of the provider's monitoring service.
#[derive(Clone, Debug)]
pub struct MetricDataPoint {
    pub metric_name: String,
    pub resource_id: Option<String>,
    pub value: Reading,
    pub unit: Option<String>,
    pub timestamp: Timestamp,
}

/// Why an inventory entry could not be read as an `Instance`.
#[derive(Clone, Copy, Debug, PartialEq, Eq, Structural)]
pub enum InstanceError {
    MissingId,
    MissingType,
}

/// A tag as the inventory reports it: key and value may each be absent.
pub type RawTag = (Option<String>, Option<String>);

/// The value of the first tag whose key is `Name`, if that tag has a value.
pub open spec fn name_tag(tags: Seq<RawTag>) -> Option<Seq<char>>
    decreases tags.len(),
{
    if tags.len() == 0 {
        None
    } else if text_option_view(tags[0].0) == Some("Name"@) {
        text_option_view(tags[0].1)
    } else {
        name_tag(tags.subrange(1, tags.len() as int))
    }
}

/// The tags that have both a key and a value, in order.
pub open spec fn complete_tags(tags: Seq<RawTag>) -> Seq<(Seq<char>, Seq<char>)>
    decreases tags.len(),
{
    if tags.len() == 0 {
        Seq::empty()
    } else {
        let prev = complete_tags(tags.drop_last());
        match tags.last() {
            (Some(k), Some(v)) => prev.push((k@, v@)),
            _ => prev,
        }
    }
}

pub open spec fn tag_views(tags: Seq<(String, String)>) -> Seq<(Seq<char>, Seq<char>)> {
    tags.map_values(|t: (String, String)| (t.0@, t.1@))
}

/// The state recorded for an instance whose state the inventory leaves out.
pub open spec fn unknown_state() -> Seq<char> {
    "unknown"@
}

fn find_name_tag(tags: &Vec<RawTag>) -> (r: Option<String>)
    ensures
        text_option_view(r) == name_tag(tags@),
{
    let key = String::from_str("Name");
    let mut i: usize = 0;
    assert(tags@.subrange(0, tags@.len() as int) =~= tags@);
    while i < tags.len()
        invariant
            i <= tags@.len(),
            key@ == "Name"@,
            name_tag(tags@) == name_tag(tags@.subrange(i as int, tags@.len() as int)),
        decreases tags@.len() - i,
    {
        let ghost rest = tags@.subrange(i as int, tags@.len() as int);
        assert(rest[0] == tags@[i as int]);
        assert(rest.subrange(1, rest.len() as int) =~= tags@.subrange(i + 1, tags@.len() as int));
        let (k, v) = &tags[i];
        let is_name = match k {
            Some(k) => k.eq(&key),
            None => false,
        };
        if is_name {
            return match v {
                Some(v) => Some(v.clone()),
                None => None,
            };
        }
        i = i + 1;
    }
    None
}

fn collect_complete_tags(tags: &Vec<RawTag>) -> (r: Vec<(String, String)>)
    ensures
        tag_views(r@) == complete_tags(tags@),
{
    let mut out: Vec<(String, String)> = Vec::new();
    let mut i: usize = 0;
    while i < tags.len()
        invariant
            i <= tags@.len(),
            tag_views(out@) == complete_tags(tags@.subrange(0, i as int)),
        decreases tags@.len() - i,
    {
        let ghost before = out@;
        let (k, v) = &tags[i];
        match (k, v) {
            (Some(k), Some(v)) => {
                out.push((k.clone(), v.clone()));
                assert(tag_views(out@) =~= tag_views(before).push((k@, v@)));
            },
            _ => {},
        }
        assert(tags@.subrange(0, i + 1).drop_last() =~= tags@.subrange(0, i as int));
        i = i + 1;
    }
    assert(tags@.subrange(0, tags@.len() as int) =~= tags@);
    out
}

impl Instance {
    /// An inventory entry as an `Instance`: its id and type are required (the id
    /// is checked first); a missing state reads `"unknown"`; the display name is
    /// the value of the first `Name` tag; only tags with both key and value are kept.
    pub fn from_parts(
        instance_id: Option<String>,
        instance_type: Option<String>,
        state: Option<String>,
        tags: &Vec<RawTag>,
    ) -> (r: Result<Instance, InstanceError>)
        ensures
            instance_id is None ==> r == Err::<Instance, InstanceError>(InstanceError::MissingId),
            instance_id is Some && instance_type is None ==> r == Err::<Instance, InstanceError>(
                InstanceError::MissingType,
            ),
            instance_id is Some && instance_type is Some ==> (r matches Ok(i) && i.instance_id
                == instance_id->0 && i.instance_type == instance_type->0 && i.state@ == match state {
                Some(s) => s@,
                None => unknown_state(),
            } && text_option_view(i.name) == name_tag(tags@) && tag_views(i.tags@) == complete_tags(
                tags@,
            )),
    {
        let instance_id = match instance_id {
            Some(id) => id,
            None => return Err(InstanceError::MissingId),
        };
        let instance_type = match instance_type {
            Some(t) => t,
            None => return Err(InstanceError::MissingType),
        };
        let state = match state {
            Some(s) => s,
            None => String::from_str("unknown"),
        };
        Ok(
            Instance {
                instance_id,
                instance_type,
                state,
                name: find_name_tag(tags),
                tags: collect_complete_tags(tags),
            },
        )
    }
}

/// One request for a metric of one instance, under an id unique within its batch.
#[derive(Clone, Debug)]
pub struct MetricQuery {
    pub id: String,
    pub instance_id: String,
    pub metric_name: String,
}

/// The id of the `k`-th query of a batch: `m<k>`.
pub open spec fn query_id_text(k: nat) -> Seq<char> {
    "m"@ + decimal(k)
}

/// Whether `qs` asks, in instance-major order, for every metric of `names` on
/// every instance of `ids`, the `k`-th query under the id `m<k>`; no two
/// queries share an id.
pub open spec fn plans(qs: Seq<MetricQuery>, ids: Seq<String>, names: Seq<String>) -> bool {
    &&& qs.len() == ids.len() * names.len()
    &&& forall|k: int|
        0 <= k < qs.len() ==> (#[trigger] qs[k]).id@ == query_id_text(k as nat) && qs[k].instance_id@
            == ids[k / names.len() as int]@ && qs[k].metric_name@ == names[k % names.len() as int]@
    &&& forall|j: int, k: int| 0 <= j < k < qs.len() ==> (#[trigger] qs[j]).id@ != (#[trigger] qs[k]).id@
}

/// Distinct positions get distinct query ids.
pub proof fn lemma_query_ids_distinct(j: nat, k: nat)
    requires
        j != k,
    ensures
        query_id_text(j) != query_id_text(k),
{
    if query_id_text(j) == query_id_text(k) {
        reveal_strlit("m");
        let a = query_id_text(j);
        assert(a.subrange(1, a.len() as int) =~= decimal(j));
        assert(query_id_text(k).subrange(1, a.len() as int) =~= decimal(k));
        lemma_decimal_injective(j, k);
    }
}

fn query_id(k: usize) -> (r: String)
    ensures
        r@ == query_id_text(k as nat),
{
    let mut r = String::from_str("m");
    append_decimal(&mut r, k as u64);
    r
}

/// One query per instance and metric name, instance-major, with ids `m0`, `m1`, ...
pub fn metric_queries(instance_ids: &Vec<String>, metric_names: &Vec<String>) -> (r: Vec<
    MetricQuery,
>)
    requires
        instance_ids@.len() * metric_names@.len() <= usize::MAX,
    ensures
        plans(r@, instance_ids@, metric_names@),
{
    let mut out: Vec<MetricQuery> = Vec::new();
    let n = metric_names.len();
    let mut i: usize = 0;
    while i < instance_ids.len()
        invariant
            n == metric_names@.len(),
            i <= instance_ids@.len(),
            instance_ids@.len() * n <= usize::MAX,
            out@.len() == i * n,
            n > 0 ==> forall|k: int|
                0 <= k < out@.len() ==> (#[trigger] out@[k]).id@ == query_id_text(k as nat)
                    && out@[k].instance_id@ == instance_ids@[k / n as int]@ && out@[k].metric_name@
                    == metric_names@[k % n as int]@,
        decreases instance_ids@.len() - i,
    {
        let mut j: usize = 0;
        while j < n
            invariant
                n == metric_names@.len(),
                i < instance_ids@.len(),
                j <= n,
                instance_ids@.len() * n <= usize::MAX,
                out@.len() == i * n + j,
                n > 0 ==> forall|k: int|
                    0 <= k < out@.len() ==> (#[trigger] out@[k]).id@ == query_id_text(k as nat)
                        && out@[k].instance_id@ == instance_ids@[k / n as int]@
                        && out@[k].metric_name@ == metric_names@[k % n as int]@,
            decreases n - j,
        {
            proof {
                assert(i * n + j < instance_ids@.len() * n) by (nonlinear_arith)
                    requires
                        i < instance_ids@.len(),
                        j < n,
                ;
                lemma_fundamental_div_mod_converse((i * n + j) as int, n as int, i as int, j as int);
            }
            let k = out.len();
            let q = MetricQuery {
                id: query_id(k),
                instance_id: instance_ids[i].clone(),
                metric_name: metric_names[j].clone(),
            };
            out.push(q);
            j = j + 1;
        }
        proof {
            assert((i + 1) * n == i * n + n) by (nonlinear_arith);
        }
        i = i + 1;
    }
    if n == 0 {
        assert(out@.len() == 0) by (nonlinear_arith)
            requires
                out@.len() == i * n,
                n == 0,
        ;
    }
    assert forall|j: int, k: int| 0 <= j < k < out@.len() implies (#[trigger] out@[j]).id@
        != (#[trigger] out@[k]).id@ by {
        lemma_query_ids_distinct(j as nat, k as nat);
    }
    out
}

/// The first query of `qs` with id `id`.
pub open spec fn query_for(qs: Seq<MetricQuery>, id: Seq<char>) -> Option<MetricQuery>
    decreases qs.len(),
{
    if qs.len() == 0 {
        None
    } else if qs[0].id@ == id {
        Some(qs[0])
    } else {
        query_for(qs.subrange(1, qs.len() as int), id)
    }
}

fn find_query(queries: &Vec<MetricQuery>, id: &String) -> (r: Option<usize>)
    ensures
        r is None ==> query_for(queries@, id@) is None,
        r matches Some(at) ==> at < queries@.len() && query_for(queries@, id@) == Some(
            queries@[at as int],
        ),
{
    let mut qi: usize = 0;
    assert(queries@.subrange(0, queries@.len() as int) =~= queries@);
    while qi < queries.len()
        invariant
            qi <= queries@.len(),
            query_for(queries@, id@) == query_for(
                queries@.subrange(qi as int, queries@.len() as int),
                id@,
            ),
        decreases queries@.len() - qi,
    {
        let ghost rest = queries@.subrange(qi as int, queries@.len() as int);
        assert(rest[0] == queries@[qi as int]);
        assert(rest.subrange(1, rest.len() as int) =~= queries@.subrange(
            qi + 1,
            queries@.len() as int,
        ));
        if queries[qi].id.eq(id) {
            return Some(qi);
        }
        qi = qi + 1;
    }
    None
}

/// The reading that a sample answers for query `q`.
pub open spec fn answers(p: MetricDataPoint, q: MetricQuery, sample: (Timestamp, Reading)) -> bool {
    &&& p.metric_name@ == q.metric_name@
    &&& text_option_view(p.resource_id) == Some(q.instance_id@)
    &&& p.value == sample.1
    &&& p.unit is None
    &&& p.timestamp == sample.0
}

/// The readings that answer the query with id `id`, one per sample in order,
/// or none where no query of `queries` has that id.
pub fn data_points_for(queries: &Vec<MetricQuery>, id: &String, samples: &Vec<(Timestamp, Reading)>) -> (r:
    Vec<MetricDataPoint>)
    ensures
        query_for(queries@, id@) is None ==> r@.len() == 0,
        query_for(queries@, id@) matches Some(q) ==> r@.len() == samples@.len() && forall|i: int|
            0 <= i < r@.len() ==> answers(#[trigger] r@[i], q, samples@[i]),
{
    let found = find_query(queries, id);
    let mut out: Vec<MetricDataPoint> = Vec::new();
    match found {
        None => {},
        Some(at) => {
            let q = &queries[at];
            let mut i: usize = 0;
            while i < samples.len()
                invariant
                    i <= samples@.len(),
                    out@.len() == i,
                    forall|j: int| 0 <= j < i ==> answers(#[trigger] out@[j], *q, samples@[j]),
                decreases samples@.len() - i,
            {
                let (t, v) = samples[i];
                out.push(
                    MetricDataPoint {
                        metric_name: q.metric_name.clone(),
                        resource_id: Some(q.instance_id.clone()),
                        value: v,
                        unit: None,
                        timestamp: t,
                    },
                );
                i = i + 1;
            }
        },
    }
    out
}

/// The instant that an RFC 3339 date-and-time text denotes, if it is one.
pub uninterp spec fn rfc3339_instant(text: Seq<char>) -> Option<Timestamp>;

/// Relies on chrono's `DateTime::parse_from_rfc3339`, which returns the instant
/// that an RFC 3339 text denotes or an error where the text is none; the
/// instant is read back with `DateTime::timestamp` and
/// `DateTime::timestamp_subsec_nanos`. The result depends on the text alone.
#[verifier::external_body]
fn parse_instant(text: &str) -> (r: Option<Timestamp>)
    ensures
        r == rfc3339_instant(text@),
{
    match chrono::DateTime::parse_from_rfc3339(text) {
        Ok(t) => Some(Timestamp { seconds: t.timestamp(), nanos: t.timestamp_subsec_nanos() }),
        Err(_) => None,
    }
}

/// Which end of a billing period did not read as a date.
#[derive(Clone, Copy, Debug, PartialEq, Eq, Structural)]
pub enum CostPeriodError {
    InvalidStart,
    InvalidEnd,
}

/// A `YYYY-MM-DD` day as the RFC 3339 text of its first instant in UTC.
pub open spec fn day_start_text(day: Seq<char>) -> Seq<char> {
    day + "T00:00:00Z"@
}

fn day_start(day: &str) -> (r: Option<Timestamp>)
    ensures
        r == rfc3339_instant(day_start_text(day@)),
{
    let text = String::from_str(day).concat("T00:00:00Z");
    parse_instant(text.as_str())
}

/// The first instants (UTC midnight) of a billing period's start and end days;
/// the start day is read first, and the first that is no valid day is the error.
pub fn cost_period(start_day: &str, end_day: &str) -> (r: Result<(Timestamp, Timestamp), CostPeriodError>)
    ensures
        rfc3339_instant(day_start_text(start_day@)) is None ==> r == Err::<(Timestamp, Timestamp), CostPeriodError>(
            CostPeriodError::InvalidStart,
        ),
        rfc3339_instant(day_start_text(start_day@)) is Some && rfc3339_instant(
            day_start_text(end_day@),
        ) is None ==> r == Err::<(Timestamp, Timestamp), CostPeriodError>(CostPeriodError::InvalidEnd),
        rfc3339_instant(day_start_text(start_day@)) is Some && rfc3339_instant(
            day_start_text(end_day@),
        ) is Some ==> r == Ok::<(Timestamp, Timestamp), CostPeriodError>(
            (
                rfc3339_instant(day_start_text(start_day@))->0,
                rfc3339_instant(day_start_text(end_day@))->0,
            ),
        ),
{
    let start = match day_start(start_day) {
        Some(t) => t,
        None => return Err(CostPeriodError::InvalidStart),
    };
    let end = match day_start(end_day) {
        Some(t) => t,
        None => return Err(CostPeriodError::InvalidEnd),
    };
    Ok((start, end))
}

/// The `UnblendedCost` entry of a cost group: an amount (absent where the
/// provider gave none or it did not read as a number) and a unit.
#[derive(Clone, Debug)]
pub struct CostMetric {
    pub amount: Option<Reading>,
    pub unit: Option<String>,
}

/// One service's group in a billing period, with its `UnblendedCost` entry if present.
#[derive(Clone, Debug)]
pub struct CostGroup {
    pub service: Option<String>,
    pub unblended: Option<CostMetric>,
}

/// One amount of the provider's billing, for one service and period.
#[derive(Clone, Debug)]
pub struct CostDataPoint {
    pub service: Option<String>,
    pub amount: Reading,
    pub unit: String,
    pub period_start: Timestamp,
    pub period_end: Timestamp,
}

/// The cost recorded for a group: its service, its amount or zero, its unit or `"USD"`.
pub open spec fn cost_row(service: Option<String>, c: CostMetric) -> (Option<Seq<char>>, Reading, Seq<
    char,
>) {
    (
        text_option_view(service),
        match c.amount {
            Some(a) => a,
            None => Reading::Finite(0),
        },
        match c.unit {
            Some(u) => u@,
            None => "USD"@,
        },
    )
}

/// The rows of the groups that carry an `UnblendedCost` entry, in order.
pub open spec fn cost_rows(groups: Seq<CostGroup>) -> Seq<(Option<Seq<char>>, Reading, Seq<char>)>
    decreases groups.len(),
{
    if groups.len() == 0 {
        Seq::empty()
    } else {
        let prev = cost_rows(groups.drop_last());
        match groups.last().unblended {
            Some(c) => prev.push(cost_row(groups.last().service, c)),
            None => prev,
        }
    }
}

pub open spec fn cost_point_row(p: CostDataPoint) -> (Option<Seq<char>>, Reading, Seq<char>) {
    (text_option_view(p.service), p.amount, p.unit@)
}

/// The cost points of one billing period: none where the period is unknown;
/// otherwise one per group with an `UnblendedCost` entry, in order, each with
/// the group's amount (zero where absent) and unit (`"USD"` where absent).
pub fn cost_points(period: Option<(Timestamp, Timestamp)>, groups: &Vec<CostGroup>) -> (r: Vec<
    CostDataPoint,
>)
    ensures
        period is None ==> r@.len() == 0,
        period matches Some((start, end)) ==> r@.len() == cost_rows(groups@).len() && forall|i: int|
            0 <= i < r@.len() ==> cost_point_row(#[trigger] r@[i]) == cost_rows(groups@)[i]
                && r@[i].period_start == start && r@[i].period_end == end,
{
    let mut out: Vec<CostDataPoint> = Vec::new();
    let (start, end) = match period {
        Some(p) => p,
        None => return out,
    };
    let mut i: usize = 0;
    while i < groups.len()
        invariant
            i <= groups@.len(),
            out@.len() == cost_rows(groups@.subrange(0, i as int)).len(),
            forall|j: int|
                0 <= j < out@.len() ==> cost_point_row(#[trigger] out@[j]) == cost_rows(
                    groups@.subrange(0, i as int),
                )[j] && out@[j].period_start == start && out@[j].period_end == end,
        decreases groups@.len() - i,
    {
        let g = &groups[i];
        assert(groups@.subrange(0, i + 1).drop_last() =~= groups@.subrange(0, i as int));
        match &g.unblended {
            Some(c) => {
                let amount = match c.amount {
                    Some(a) => a,
                    None => Reading::Finite(0),
                };
                let unit = match &c.unit {
                    Some(u) => u.clone(),
                    None => String::from_str("USD"),
                };
                let service = match &g.service {
                    Some(x) => Some(x.clone()),
                    None => None,
                };
                out.push(
                    CostDataPoint { service, amount, unit, period_start: start, period_end: end },
                );
            },
            None => {},
        }
        i = i + 1;
    }
    assert(groups@.subrange(0, groups@.len() as int) =~= groups@);
    out
}

} // verus!
