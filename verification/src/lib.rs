//! Exporter adapter for a cloud time-series monitoring backend.
//!
//! The crate translates in-process aggregated metric snapshots (counters,
//! gauges, histograms) into the backend's metric-descriptor and time-series
//! wire schema, manages the descriptor cache, and decides the bounded-retry
//! delivery policy.  All translation and decision logic is verified; network
//! transport, authentication and the async runtime live outside the library.

mod auth;
mod convert;
mod error;
mod exporter;
mod kvlist;
mod labels;
mod model;
mod retry;
mod translate;
mod wire;

pub use auth::{Authorizer, FakeAuthorizer, GcpAuthorizerError, GoogleEnvironment};
pub use error::{Error, ErrorKind};
pub use retry::{RpcCode, RegistrationStep, DeliveryStep, registration_step, delivery_step, is_retryable, retry_budget_exhausted, MAX_ATTEMPTS, RETRY_DELAY_MILLIS};
pub use exporter::{GCPMetricsExporter, GCPMetricsExporterConfig, MonitoredResourceDataConfig, DescriptorCache, DescriptorResolution, build_descriptor, classify_metric, descriptor_type_of, clone_descriptor, resolve_monitored_resource, chunk_time_series, log_warning};
pub use convert::{ToI64, timestamp_from_epoch_nanos, checked_timestamp_from_epoch_nanos};
pub use model::{Attribute, SampleValue, NumericKind, NumberDataPoint, HistogramDataPoint, MetricPayload, AggregatedMetric, ScopeMetrics, MetricsSnapshot, kv_map_normalize_k_v, kv_map_k, get_data_points_attributes_keys};
pub use labels::{normalize_label_key, sanitize_string};
pub use translate::{sum_convert_i64, sum_convert_f64, gauge_convert_i64, gauge_convert_f64, convert, build_label_map, unique_identifier_key};
pub use wire::{DoubleBits, Timestamp, MetricKind, ValueType, TimeInterval, LabelMap, Metric, MonitoredResource, Distribution, TypedValue, Point, TimeSeries, MetricDescriptor};
