use infrawatch::cloud::{data_points_for, metric_queries};
use infrawatch::{
    default_instance_metrics, ConnectionStatus, CostGroup, CostMetric, Instance, InstanceError,
    PermissionsCheck, Reading, Timestamp,
};
use infrawatch::cloud::{cost_period, cost_points};
use infrawatch::CostPeriodError;

fn s(x: &str) -> String {
    x.to_string()
}

#[test]
fn instance_requires_id_then_type() {
    let tags = vec![];
    let r = Instance::from_parts(None, None, None, &tags);
    assert_eq!(r.unwrap_err(), InstanceError::MissingId);
    let r = Instance::from_parts(Some(s("i-1")), None, None, &tags);
    assert_eq!(r.unwrap_err(), InstanceError::MissingType);
}

#[test]
fn instance_name_state_and_tags() {
    let tags = vec![
        (Some(s("env")), Some(s("prod"))),
        (None, Some(s("orphan"))),
        (Some(s("Name")), Some(s("web-1"))),
        (Some(s("Name")), Some(s("ignored"))),
        (Some(s("team")), None),
    ];
    let i = Instance::from_parts(Some(s("i-1")), Some(s("t3.micro")), None, &tags).unwrap();
    assert_eq!(i.instance_id, "i-1");
    assert_eq!(i.instance_type, "t3.micro");
    assert_eq!(i.state, "unknown");
    assert_eq!(i.name.as_deref(), Some("web-1"));
    assert_eq!(
        i.tags,
        vec![(s("env"), s("prod")), (s("Name"), s("web-1")), (s("Name"), s("ignored"))]
    );
}

#[test]
fn first_name_tag_without_value_gives_no_name() {
    let tags = vec![(Some(s("Name")), None), (Some(s("Name")), Some(s("later")))];
    let i =
        Instance::from_parts(Some(s("i-2")), Some(s("m5")), Some(s("running")), &tags).unwrap();
    assert_eq!(i.name, None);
    assert_eq!(i.state, "running");
}

#[test]
fn connection_needs_monitoring_or_inventory() {
    let none = PermissionsCheck {
        cost_explorer_read: true,
        metrics_monitor_read: false,
        instance_describe: false,
    };
    assert!(!ConnectionStatus::from_permissions(s("eu-west-1"), none).connected);
    let some = PermissionsCheck { instance_describe: true, ..none };
    let st = ConnectionStatus::from_permissions(s("eu-west-1"), some);
    assert!(st.connected);
    assert_eq!(st.region, "eu-west-1");
    assert_eq!(st.permissions, some);
}

#[test]
fn queries_are_instance_major_with_counted_ids() {
    let ids = vec![s("i-a"), s("i-b")];
    let names = vec![s("CPUUtilization"), s("NetworkIn"), s("NetworkOut")];
    let qs = metric_queries(&ids, &names);
    assert_eq!(qs.len(), 6);
    let got: Vec<(String, String, String)> =
        qs.iter().map(|q| (q.id.clone(), q.instance_id.clone(), q.metric_name.clone())).collect();
    assert_eq!(got[0], (s("m0"), s("i-a"), s("CPUUtilization")));
    assert_eq!(got[2], (s("m2"), s("i-a"), s("NetworkOut")));
    assert_eq!(got[3], (s("m3"), s("i-b"), s("CPUUtilization")));
    assert_eq!(got[5], (s("m5"), s("i-b"), s("NetworkOut")));
    assert!(metric_queries(&ids, &vec![]).is_empty());
    assert!(metric_queries(&vec![], &names).is_empty());
}

#[test]
fn query_ids_count_past_nine() {
    let ids: Vec<String> = (0..4).map(|i| format!("i-{i}")).collect();
    let names = vec![s("a"), s("b"), s("c")];
    let qs = metric_queries(&ids, &names);
    assert_eq!(qs[10].id, "m10");
    assert_eq!(qs[11].id, "m11");
    assert_eq!(qs[11].instance_id, "i-3");
    assert_eq!(qs[11].metric_name, "c");
}

#[test]
fn samples_answer_their_query() {
    let qs = metric_queries(&vec![s("i-a"), s("i-b")], &vec![s("CPUUtilization")]);
    let samples = vec![
        (Timestamp { seconds: 1, nanos: 0 }, Reading::Finite(250)),
        (Timestamp { seconds: 2, nanos: 0 }, Reading::NonFinite),
    ];
    let pts = data_points_for(&qs, &s("m1"), &samples);
    assert_eq!(pts.len(), 2);
    assert_eq!(pts[0].metric_name, "CPUUtilization");
    assert_eq!(pts[0].resource_id.as_deref(), Some("i-b"));
    assert_eq!(pts[0].value, Reading::Finite(250));
    assert_eq!(pts[1].value, Reading::NonFinite);
    assert_eq!(pts[1].timestamp, Timestamp { seconds: 2, nanos: 0 });
    assert_eq!(pts[1].unit, None);
    assert!(data_points_for(&qs, &s("m9"), &samples).is_empty());
}

#[test]
fn default_metric_names() {
    assert_eq!(default_instance_metrics(), vec![s("CPUUtilization"), s("NetworkIn"), s("NetworkOut")]);
}

#[test]
fn query_ids_are_distinct() {
    let ids: Vec<String> = (0..12).map(|i| format!("i-{i}")).collect();
    let names = vec![s("a"), s("b"), s("c")];
    let qs = metric_queries(&ids, &names);
    let mut seen: Vec<String> = qs.iter().map(|q| q.id.clone()).collect();
    seen.sort();
    seen.dedup();
    assert_eq!(seen.len(), 36);
}

fn group(service: Option<&str>, cost: Option<(Option<Reading>, Option<&str>)>) -> CostGroup {
    CostGroup {
        service: service.map(s),
        unblended: cost.map(|(amount, unit)| CostMetric { amount, unit: unit.map(s) }),
    }
}

#[test]
fn cost_points_fill_defaults_and_skip_groups_without_cost() {
    let start = Timestamp { seconds: 86_400, nanos: 0 };
    let end = Timestamp { seconds: 172_800, nanos: 0 };
    let groups = vec![
        group(Some("Amazon EC2"), Some((Some(Reading::Finite(1234)), Some("EUR")))),
        group(Some("Amazon S3"), None),
        group(None, Some((None, None))),
        group(Some("Tax"), Some((Some(Reading::NonFinite), Some("USD")))),
    ];
    let pts = cost_points(Some((start, end)), &groups);
    assert_eq!(pts.len(), 3);
    assert_eq!(pts[0].service.as_deref(), Some("Amazon EC2"));
    assert_eq!(pts[0].amount, Reading::Finite(1234));
    assert_eq!(pts[0].unit, "EUR");
    assert_eq!(pts[1].service, None);
    assert_eq!(pts[1].amount, Reading::Finite(0));
    assert_eq!(pts[1].unit, "USD");
    assert_eq!(pts[2].amount, Reading::NonFinite);
    assert_eq!(pts[2].period_start, start);
    assert_eq!(pts[2].period_end, end);
    assert!(cost_points(None, &groups).is_empty());
}

#[test]
fn cost_period_reads_days_as_utc_midnights() {
    let (start, end) = cost_period("2024-01-02", "2024-01-03").unwrap();
    assert_eq!(start, Timestamp { seconds: 1_704_153_600, nanos: 0 });
    assert_eq!(end, Timestamp { seconds: 1_704_240_000, nanos: 0 });
    assert_eq!(cost_period("1969-12-31", "1970-01-01").unwrap().0.seconds, -86_400);
}

#[test]
fn cost_period_names_the_bad_end() {
    assert_eq!(cost_period("2024-13-01", "not a day"), Err(CostPeriodError::InvalidStart));
    assert_eq!(cost_period("2024-02-28", "2024-02-30"), Err(CostPeriodError::InvalidEnd));
}
