use monitoring::metrics::{Registry, MetricDef, MetricKind, add_metrics_to_registry};

fn labels(values: &[&str]) -> Vec<String> {
    values.iter().map(|v| String::from(*v)).collect()
}

fn counter_def(name: &str, help: &str, label_names: &[&str]) -> MetricDef {
    MetricDef {
        name: String::from(name),
        help: String::from(help),
        label_names: labels(label_names),
        kind: MetricKind::Counter,
    }
}

#[test]
fn registering_the_same_name_twice_fails() {
    let mut registry = Registry::new();
    assert!(registry.register(counter_def("requests", "Requests", &[])).is_ok());
    assert!(registry.register(counter_def("requests", "Requests", &[])).is_err());
    assert!(registry.has_metric("requests"));
}

#[test]
fn distinct_names_with_same_label_set_register_independently() {
    let mut registry = Registry::new();
    assert!(registry.register(counter_def("a_total", "A", &["env"])).is_ok());
    assert!(registry.register(counter_def("b_total", "B", &["env"])).is_ok());
    assert!(registry.has_metric("a_total"));
    assert!(registry.has_metric("b_total"));
}

#[test]
fn counters_accumulate_per_label_combination() {
    let mut registry = Registry::new();
    registry.register(counter_def("hits", "Hits", &["env"])).unwrap();
    registry.inc_counter("hits", &labels(&["dev"]), 1);
    registry.inc_counter("hits", &labels(&["dev"]), 2);
    registry.inc_counter("hits", &labels(&["prod"]), 5);
    assert_eq!(registry.get_counter("hits", &labels(&["dev"])), 3);
    assert_eq!(registry.get_counter("hits", &labels(&["prod"])), 5);
    assert_eq!(registry.get_counter("hits", &labels(&["other"])), 0);
}

#[test]
fn gauges_move_in_both_directions() {
    let mut registry = Registry::new();
    registry
        .register(MetricDef {
            name: String::from("depth"),
            help: String::from("Depth"),
            label_names: Vec::new(),
            kind: MetricKind::Gauge,
        })
        .unwrap();
    let no_labels: Vec<String> = Vec::new();
    registry.set_gauge("depth", &no_labels, 10);
    registry.inc_gauge("depth", &no_labels, 4);
    registry.dec_gauge("depth", &no_labels, 7);
    assert_eq!(registry.get_gauge("depth", &no_labels), 7);
}

#[test]
fn gather_twice_without_mutation_renders_identically() {
    let mut registry = Registry::new();
    add_metrics_to_registry(
        &mut registry,
        vec![counter_def("requests", "Requests", &[]), counter_def("errors", "Errors", &["env"])],
    );
    registry.inc_counter("requests", &Vec::new(), 9);
    registry.inc_counter("errors", &labels(&["prod"]), 2);
    let first = registry.gather().render_text();
    let second = registry.gather().render_text();
    assert_eq!(first, second);
    assert_eq!(first, registry.render_text());
}

#[test]
fn counter_exposition_format_is_exact() {
    let mut registry = Registry::new();
    registry.register(counter_def("incoming_requests", "Incoming Requests", &[])).unwrap();
    registry.inc_counter("incoming_requests", &Vec::new(), 3);
    assert_eq!(
        registry.render_text(),
        "# HELP incoming_requests Incoming Requests\n\
         # TYPE incoming_requests counter\n\
         incoming_requests 3\n"
    );
}

#[test]
fn labeled_counter_exposition_format_is_exact() {
    let mut registry = Registry::new();
    registry.register(counter_def("response_code", "Response Codes", &["env", "statuscode", "type"])).unwrap();
    registry.inc_counter("response_code", &labels(&["testing", "404", "400"]), 2);
    assert_eq!(
        registry.render_text(),
        "# HELP response_code Response Codes\n\
         # TYPE response_code counter\n\
         response_code{env=\"testing\",statuscode=\"404\",type=\"400\"} 2\n"
    );
}

#[test]
fn gauge_exposition_renders_negative_values() {
    let mut registry = Registry::new();
    registry
        .register(MetricDef {
            name: String::from("drift"),
            help: String::from("Drift"),
            label_names: Vec::new(),
            kind: MetricKind::Gauge,
        })
        .unwrap();
    registry.set_gauge("drift", &Vec::new(), -7);
    assert_eq!(
        registry.render_text(),
        "# HELP drift Drift\n# TYPE drift gauge\ndrift -7\n"
    );
}

#[test]
fn histogram_exposition_is_cumulative() {
    let mut registry = Registry::new();
    registry
        .register(MetricDef {
            name: String::from("lat"),
            help: String::from("Latency"),
            label_names: Vec::new(),
            kind: MetricKind::Histogram(vec![10, 20]),
        })
        .unwrap();
    let no_labels: Vec<String> = Vec::new();
    registry.observe_histogram("lat", &no_labels, 5);
    registry.observe_histogram("lat", &no_labels, 15);
    registry.observe_histogram("lat", &no_labels, 99);
    assert_eq!(
        registry.render_text(),
        "# HELP lat Latency\n\
         # TYPE lat histogram\n\
         lat_bucket{le=\"10\"} 1\n\
         lat_bucket{le=\"20\"} 2\n\
         lat_bucket{le=\"+Inf\"} 3\n\
         lat_sum 119\n\
         lat_count 3\n"
    );
}

#[test]
fn histogram_bound_is_inclusive() {
    let mut registry = Registry::new();
    registry
        .register(MetricDef {
            name: String::from("lat"),
            help: String::from("Latency"),
            label_names: Vec::new(),
            kind: MetricKind::Histogram(vec![10]),
        })
        .unwrap();
    let no_labels: Vec<String> = Vec::new();
    registry.observe_histogram("lat", &no_labels, 10);
    registry.observe_histogram("lat", &no_labels, 11);
    let text = registry.render_text();
    assert!(text.contains("lat_bucket{le=\"10\"} 1\n"));
    assert!(text.contains("lat_bucket{le=\"+Inf\"} 2\n"));
}

#[test]
fn help_and_label_values_are_escaped() {
    let mut registry = Registry::new();
    registry
        .register(MetricDef {
            name: String::from("m"),
            help: String::from("a\\b\nc"),
            label_names: labels(&["k"]),
            kind: MetricKind::Counter,
        })
        .unwrap();
    registry.inc_counter("m", &labels(&["v\"w\\x\ny"]), 1);
    let text = registry.render_text();
    assert!(text.contains("# HELP m a\\\\b\\nc\n"));
    assert!(text.contains("m{k=\"v\\\"w\\\\x\\ny\"} 1\n"));
}

#[test]
fn empty_registry_renders_nothing() {
    let registry = Registry::new();
    assert_eq!(registry.render_text(), "");
}
