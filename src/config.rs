use vstd::prelude::*;

verus! {

/// The whole configuration: cloud account, metric selection and local collection.
#[derive(Clone, Debug)]
pub struct Config {
    pub aws: AWSConfig,
    pub metrics: MetricsConfig,
    pub system: SystemConfig,
}

/// Where and as whom to reach the cloud provider.
#[derive(Clone, Debug)]
pub struct AWSConfig {
    pub region: String,
    pub profile_name: Option<String>,
}

/// Which instance metrics to request from the provider.
#[derive(Clone, Debug)]
pub struct MetricsConfig {
    pub instance_metrics: Vec<String>,
}

/// Which local readings to collect.
#[derive(Clone, Copy, Debug, PartialEq, Eq, Structural)]
pub struct SystemConfig {
    pub enabled: bool,
    pub collect_memory: bool,
    pub collect_disk: bool,
    pub collect_processes: bool,
}

/// The instance metrics requested when the configuration names none.
pub open spec fn default_metric_names() -> Seq<Seq<char>> {
    seq!["CPUUtilization"@, "NetworkIn"@, "NetworkOut"@]
}

/// `CPUUtilization`, `NetworkIn` and `NetworkOut`, in that order.
pub fn default_instance_metrics() -> (r: Vec<String>)
    ensures
        r@.map_values(|s: String| s@) == default_metric_names(),
{
    let r = vec![
        String::from_str("CPUUtilization"),
        String::from_str("NetworkIn"),
        String::from_str("NetworkOut"),
    ];
    assert(r@.map_values(|s: String| s@) =~= default_metric_names());
    r
}

} // verus!
