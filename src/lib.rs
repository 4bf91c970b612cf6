//! Normalisation of host and cloud telemetry into one metric model, and a
//! rolling-baseline anomaly detector over batches of such metrics.
//!
//! Values are fixed-point integers in hundredths of their unit (`VALUE_SCALE`),
//! or the mark of a non-finite reading, so that every conversion and every
//! statistical test is exact.
pub mod clock;
pub mod cloud;
pub mod config;
pub mod convert;
pub mod detect;
pub mod laws;
pub mod model;
pub mod stats;
pub mod system;
pub mod text;

pub use cloud::{
    ConnectionStatus, CostDataPoint, CostPeriodError, CostGroup, CostMetric, Instance, InstanceError,
    MetricDataPoint, MetricQuery, PermissionsCheck,
};
pub use config::{default_instance_metrics, AWSConfig, Config, MetricsConfig, SystemConfig};
pub use convert::{data_point_metric, snapshot_metrics};
pub use detect::{AnomalyDetector, BaselineDetector};
pub use model::{Anomaly, Metric, MetricSource, Reading, Severity, Timestamp, VALUE_SCALE};
pub use system::{TOP_PROCESSES, DiskMetrics, MemoryMetrics, ProcessMetric, ProcessesMetrics, SystemSnapshot};
