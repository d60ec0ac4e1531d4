use monitoring::metrics::{Registry, add_metrics_to_registry};
use monitoring::collector::{
    status_bucket,
    track_status_code,
    track_request_time,
    collect_once,
    incoming_requests_metric,
    connected_clients_metric,
    response_code_metric,
    response_time_metric,
};

fn collector_registry() -> Registry {
    let mut registry = Registry::new();
    add_metrics_to_registry(
        &mut registry,
        vec![
            incoming_requests_metric(),
            connected_clients_metric(),
            response_code_metric(),
            response_time_metric(),
        ],
    );
    registry
}

fn code_labels(env: &str, code: &str, bucket: &str) -> Vec<String> {
    vec![String::from(env), String::from(code), String::from(bucket)]
}

#[test]
fn every_code_in_range_falls_in_exactly_one_bucket() {
    for code in 100..=599usize {
        let bucket = status_bucket(code).expect("in-range code must classify");
        let expected = match code {
            100..=199 => "100",
            200..=299 => "200",
            300..=399 => "300",
            400..=499 => "400",
            _ => "500",
        };
        assert_eq!(bucket, expected);
    }
}

#[test]
fn out_of_range_codes_fall_in_no_bucket() {
    assert!(status_bucket(0).is_none());
    assert!(status_bucket(99).is_none());
    assert!(status_bucket(600).is_none());
    assert!(status_bucket(10_000).is_none());
}

#[test]
fn tracked_status_counts_exact_code_and_bucket() {
    let mut registry = collector_registry();
    track_status_code(&mut registry, 404, "testing");
    track_status_code(&mut registry, 404, "testing");
    track_status_code(&mut registry, 503, "testing");
    assert_eq!(registry.get_counter("response_code", &code_labels("testing", "404", "400")), 2);
    assert_eq!(registry.get_counter("response_code", &code_labels("testing", "503", "500")), 1);
    assert_eq!(registry.get_counter("response_code", &code_labels("production", "404", "400")), 0);
}

#[test]
fn out_of_range_status_is_not_counted() {
    let mut registry = collector_registry();
    let before = registry.render_text();
    track_status_code(&mut registry, 600, "testing");
    track_status_code(&mut registry, 0, "testing");
    assert_eq!(registry.render_text(), before);
}

#[test]
fn thousand_samples_per_code_give_exact_bucket_counts() {
    let mut registry = collector_registry();
    for _ in 0..1000 {
        track_status_code(&mut registry, 200, "testing");
        track_status_code(&mut registry, 404, "testing");
        track_status_code(&mut registry, 500, "testing");
    }
    assert_eq!(registry.get_counter("response_code", &code_labels("testing", "200", "200")), 1000);
    assert_eq!(registry.get_counter("response_code", &code_labels("testing", "404", "400")), 1000);
    assert_eq!(registry.get_counter("response_code", &code_labels("testing", "500", "500")), 1000);
}

#[test]
fn request_time_feeds_the_latency_histogram() {
    let mut registry = collector_registry();
    track_request_time(&mut registry, 3000, "testing");
    track_request_time(&mut registry, 40_000, "testing");
    let text = registry.render_text();
    assert!(text.contains("response_time_bucket{env=\"testing\",le=\"5000\"} 1\n"));
    assert!(text.contains("response_time_bucket{env=\"testing\",le=\"50000\"} 2\n"));
    assert!(text.contains("response_time_sum{env=\"testing\"} 43000\n"));
    assert!(text.contains("response_time_count{env=\"testing\"} 2\n"));
}

#[test]
fn collector_tick_records_one_sample() {
    let mut registry = collector_registry();
    collect_once(&mut registry);
    let text = registry.render_text();
    assert!(
        text.contains("response_time_count{env=\"testing\"} 1\n")
            || text.contains("response_time_count{env=\"production\"} 1\n")
    );
}

#[test]
fn collector_tick_counts_status_and_latency_under_one_environment() {
    let mut registry = collector_registry();
    collect_once(&mut registry);
    let text = registry.render_text();
    // The status counter and the latency observation land under the same
    // environment, and exactly one sample of each exists.
    let testing_has_latency = text.contains("response_time_count{env=\"testing\"} 1\n");
    let production_has_latency = text.contains("response_time_count{env=\"production\"} 1\n");
    let testing_has_status = text.contains("response_code{env=\"testing\",");
    let production_has_status = text.contains("response_code{env=\"production\",");
    assert!(testing_has_latency != production_has_latency);
    assert!(testing_has_status != production_has_status);
    assert_eq!(testing_has_latency, testing_has_status);
}
