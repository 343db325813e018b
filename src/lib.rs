//! Metric values and a renderer for the Prometheus text exposition format.
//!
//! Values are fixed-point numbers with nine fractional digits; histograms
//! place each observation in the first bucket whose boundary is at least the
//! value; fields are rendered by the strategy their value's shape selects.
pub mod text;
pub mod escape;
pub mod no_escaping;
pub mod labels;
pub mod number;
pub mod buckets;
pub mod histogram;
pub mod render;
pub mod dispatch;
pub mod metrics;

pub use buckets::{
    BucketOrderError, checked_exponential_buckets, checked_linear_buckets, exponential_buckets, linear_buckets,
    validate_histogram_buckets,
};
pub use dispatch::{MetricValue, RenderError, Shape, Strategy, render_field, select_strategy};
pub use escape::escape_label_value;
pub use histogram::{Histogram, HistogramData, Sample, Total};
pub use labels::{Label, LabelSet};
pub use metrics::{HistogramMetric, MetricField, MetricSet, MetricWrapper, PrometheusMetric, metric_name};
pub use number::Fixed;
pub use render::{MetricKind, MetricMetadata};
