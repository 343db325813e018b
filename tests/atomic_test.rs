use aetos::{MetricKind, MetricMetadata, MetricSet, MetricValue, PrometheusMetric};
use std::fmt;
use std::sync::atomic::{AtomicU64, Ordering};

// Wrapper type that implements Display for AtomicU64
struct AtomicMetric(AtomicU64);

impl fmt::Display for AtomicMetric {
    fn fmt(&self, f: &mut fmt::Formatter<'_>) -> fmt::Result {
        fmt::Display::fmt(&self.0.load(Ordering::Relaxed), f)
    }
}

struct CustomMetric(u64);

impl fmt::Display for CustomMetric {
    fn fmt(&self, f: &mut fmt::Formatter<'_>) -> fmt::Result {
        fmt::Display::fmt(&self.0, f)
    }
}

fn scalar_field(name: &str, help: &str, kind: MetricKind, value: String) -> MetricSet {
    let mut m = MetricSet::new();
    let meta = MetricMetadata { name: name.to_string(), help: help.to_string(), kind };
    m.register(meta, MetricValue::Scalar(value), None).unwrap();
    m
}

#[test]
fn test_atomic_u64_wrapper() {
    let requests = AtomicMetric(AtomicU64::new(42));
    let m = scalar_field("requests", "Total requests", MetricKind::Counter, requests.to_string());

    let output = m.render();

    assert!(output.contains("# HELP requests Total requests\n"));
    assert!(output.contains("# TYPE requests counter\n"));
    assert!(output.contains("requests 42\n"));
}

#[test]
fn test_custom_display_type() {
    let custom = CustomMetric(123);
    let m = scalar_field("custom", "Custom value", MetricKind::Gauge, custom.to_string());

    let output = m.render();

    assert!(output.contains("# HELP custom Custom value\n"));
    assert!(output.contains("# TYPE custom gauge\n"));
    assert!(output.contains("custom 123\n"));
}
