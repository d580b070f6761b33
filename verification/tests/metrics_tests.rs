use ai_model_service::model::{FpOp, LinearRegressionModel};
use ai_model_service::scaled::bits_to_nanos;
use ai_model_service::service::{
    handle_prediction_outcome, record_http_request, record_ml_prediction, set_active_connections,
    MetricsRegistry, UptimeSampler,
};

fn fpu(op: FpOp, a: u64, b: u64) -> u64 {
    let x = f64::from_bits(a);
    let y = f64::from_bits(b);
    let r = match op {
        FpOp::Add => x + y,
        FpOp::Sub => x - y,
        FpOp::Mul => x * y,
        FpOp::Div => x / y,
    };
    r.to_bits()
}

fn owned(labels: &[&str]) -> Vec<String> {
    let mut v = Vec::new();
    for l in labels {
        v.push((*l).to_string());
    }
    v
}

#[test]
fn test_record_http_request() {
    let mut reg = MetricsRegistry::new();
    record_http_request(&mut reg, "GET", "/health", 200, (0.001f64).to_bits());
    let labels = owned(&["GET", "/health", "200"]);
    assert_eq!(reg.http_requests_total.current_value(&labels), 1);
}

#[test]
fn test_record_ml_prediction() {
    let mut reg = MetricsRegistry::new();
    record_ml_prediction(&mut reg, "v1.0.0", (0.95f64).to_bits(), true);
    let labels = owned(&["v1.0.0", "success"]);
    assert_eq!(reg.ml_predictions_total.current_value(&labels), 1);
}

#[test]
fn test_set_active_connections() {
    let mut reg = MetricsRegistry::new();
    set_active_connections(&mut reg, (5.0f64).to_bits());
    assert_eq!(reg.active_connections_total.value_nanos, 5_000_000_000);
}

#[test]
fn test_prediction_metrics_flow() {
    // one accepted prediction: the success counter moves by exactly one
    // and the confidence histogram gains that one confidence
    let mut reg = MetricsRegistry::new();
    let model = LinearRegressionModel::new();
    let features: Vec<u64> = vec![1.0f64, 2.0, 3.0, 4.0, 5.0, 6.0, 7.0, 8.0, 9.0, 10.0]
        .into_iter()
        .map(|x| x.to_bits())
        .collect();

    let outcome = model.predict(&features, fpu);
    let confidence_bits = outcome.as_ref().unwrap().confidence_bits;
    let status = handle_prediction_outcome(&mut reg, &outcome);

    assert_eq!(status, 200);
    let counter_labels = owned(&["v1.0.0", "success"]);
    assert_eq!(reg.ml_predictions_total.current_value(&counter_labels), 1);
    let hist_labels = owned(&["v1.0.0"]);
    assert_eq!(reg.ml_prediction_confidence.current_count(&hist_labels), 1);
    assert_eq!(
        reg.ml_prediction_confidence.current_sum_nanos(&hist_labels),
        bits_to_nanos(confidence_bits)
    );
}

#[test]
fn test_failed_prediction_uses_error_label() {
    let mut reg = MetricsRegistry::new();
    let model = LinearRegressionModel::new();
    let features: Vec<u64> = vec![(1.0f64).to_bits(); 3];

    let outcome = model.predict(&features, fpu);
    let status = handle_prediction_outcome(&mut reg, &outcome);

    assert_eq!(status, 400);
    assert_eq!(reg.ml_predictions_total.current_value(&owned(&["v1.0.0", "error"])), 1);
    assert_eq!(reg.ml_predictions_total.current_value(&owned(&["v1.0.0", "success"])), 0);
    assert_eq!(reg.ml_prediction_confidence.current_count(&owned(&["v1.0.0"])), 0);
}

#[test]
fn test_counter_distinct_labels_independent() {
    let mut reg = MetricsRegistry::new();
    record_http_request(&mut reg, "GET", "/health", 200, (0.001f64).to_bits());
    record_http_request(&mut reg, "GET", "/health", 200, (0.002f64).to_bits());
    record_http_request(&mut reg, "POST", "/predict", 400, (0.003f64).to_bits());
    assert_eq!(reg.http_requests_total.current_value(&owned(&["GET", "/health", "200"])), 2);
    assert_eq!(reg.http_requests_total.current_value(&owned(&["POST", "/predict", "400"])), 1);
    assert_eq!(reg.http_requests_total.current_value(&owned(&["GET", "/metrics", "200"])), 0);
}

#[test]
fn test_duration_histogram_buckets() {
    let mut reg = MetricsRegistry::new();
    // 0.003 s lies above the 0.001 bound and at or below every bound
    // from 0.005 up
    record_http_request(&mut reg, "GET", "/health", 200, (0.003f64).to_bits());
    let labels = owned(&["GET", "/health"]);
    assert_eq!(reg.http_request_duration_seconds.current_count(&labels), 1);
    assert_eq!(reg.http_request_duration_seconds.current_bucket_count(&labels, 0), 0);
    assert_eq!(reg.http_request_duration_seconds.current_bucket_count(&labels, 1), 1);
    assert_eq!(reg.http_request_duration_seconds.current_bucket_count(&labels, 10), 1);
    assert_eq!(reg.http_request_duration_seconds.current_sum_nanos(&labels), 3_000_000);
}

#[test]
fn test_confidence_histogram_bucket_edges() {
    let mut reg = MetricsRegistry::new();
    // an observation exactly on a bound falls into that bound's bucket
    record_ml_prediction(&mut reg, "v1.0.0", (0.95f64).to_bits(), true);
    let labels = owned(&["v1.0.0"]);
    assert_eq!(reg.ml_prediction_confidence.current_bucket_count(&labels, 4), 0);  // 0.93
    assert_eq!(reg.ml_prediction_confidence.current_bucket_count(&labels, 5), 1);  // 0.95
    assert_eq!(reg.ml_prediction_confidence.current_bucket_count(&labels, 8), 1);  // 1.0
}

#[test]
fn test_uptime_sampler_monotone_wall_time() {
    let mut reg = MetricsRegistry::new();
    let mut sampler = UptimeSampler::new();
    sampler.start(&mut reg);
    assert_eq!(reg.service_uptime_seconds.value_nanos, 0);

    let started = std::time::Instant::now();
    let e1 = started.elapsed().as_secs_f64();
    sampler.tick(&mut reg, e1.to_bits());
    let first = reg.service_uptime_seconds.value_nanos;

    while started.elapsed().as_secs_f64() < 1.05 {
        // spin until at least a second of wall time has passed
    }
    let e2 = started.elapsed().as_secs_f64();
    sampler.tick(&mut reg, e2.to_bits());
    let second = reg.service_uptime_seconds.value_nanos;

    assert!(second >= first);
    assert!(second - first >= 1_000_000_000);
    assert_eq!(second, bits_to_nanos(e2.to_bits()));
    assert!((second as f64 / 1e9 - e2).abs() < 1e-6);
}

#[test]
fn test_uptime_gauge_in_export() {
    let mut reg = MetricsRegistry::new();
    let mut sampler = UptimeSampler::new();
    sampler.start(&mut reg);
    sampler.tick(&mut reg, (12.25f64).to_bits());
    let text = reg.export();
    assert!(text.contains("# TYPE service_uptime_seconds gauge\n"));
    assert!(text.contains("service_uptime_seconds 12.250000000\n"));
}

#[test]
fn test_export_contains_all_metric_names() {
    let mut reg = MetricsRegistry::new();
    record_http_request(&mut reg, "GET", "/metrics", 200, (0.001f64).to_bits());
    record_ml_prediction(&mut reg, "v1.0.0", (0.95f64).to_bits(), true);
    let text = reg.export();
    assert!(text.contains("http_requests_total"));
    assert!(text.contains("http_request_duration_seconds"));
    assert!(text.contains("ml_predictions_total"));
    assert!(text.contains("ml_prediction_confidence"));
    assert!(text.contains("active_connections_total"));
    assert!(text.contains("service_uptime_seconds"));
}

#[test]
fn test_export_exposition_shape() {
    let mut reg = MetricsRegistry::new();
    record_http_request(&mut reg, "GET", "/health", 200, (0.25f64).to_bits());
    let text = reg.export();

    assert!(text.contains("# HELP http_requests_total Total number of HTTP requests processed\n"));
    assert!(text.contains("# TYPE http_requests_total counter\n"));
    assert!(text.contains(
        "http_requests_total{method=\"GET\",endpoint=\"/health\",status=\"200\"} 1\n"
    ));
    assert!(text.contains("# TYPE http_request_duration_seconds histogram\n"));
    assert!(text.contains(
        "http_request_duration_seconds_bucket{method=\"GET\",endpoint=\"/health\",le=\"0.250000000\"} 1\n"
    ));
    assert!(text.contains(
        "http_request_duration_seconds_bucket{method=\"GET\",endpoint=\"/health\",le=\"+Inf\"} 1\n"
    ));
    assert!(text.contains(
        "http_request_duration_seconds_sum{method=\"GET\",endpoint=\"/health\"} 0.250000000\n"
    ));
    assert!(text.contains(
        "http_request_duration_seconds_count{method=\"GET\",endpoint=\"/health\"} 1\n"
    ));
    assert!(text.contains("# TYPE active_connections_total gauge\n"));
    assert!(text.contains("active_connections_total 0.000000000\n"));
    // every line is a comment or a sample with a space-separated value
    for line in text.lines() {
        assert!(line.starts_with('#') || line.contains(' '));
    }
}
