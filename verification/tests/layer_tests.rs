use monitoring::fields::FieldMap;
use monitoring::json::JsonValue;
use monitoring::layer::{TracingLayer, EventDocument, render_document};

fn fields_with(entries: &[(&str, JsonValue)]) -> FieldMap {
    let mut m = FieldMap::new();
    for (k, v) in entries {
        m.record(k, v.duplicate());
    }
    m
}

#[test]
fn ancestry_has_one_entry_per_nested_span() {
    let mut layer = TracingLayer::new();
    layer.on_new_span(1, "outer", "app", "INFO", FieldMap::new());
    layer.enter(1);
    layer.on_new_span(2, "middle", "app", "INFO", FieldMap::new());
    layer.enter(2);
    layer.on_new_span(3, "inner", "app", "DEBUG", FieldMap::new());
    layer.enter(3);
    let doc = layer.on_event("app", "event", "INFO", FieldMap::new(), "cs");
    assert_eq!(doc.spans.len(), 3);
    assert_eq!(doc.spans[0].name, "outer");
    assert_eq!(doc.spans[1].name, "middle");
    assert_eq!(doc.spans[2].name, "inner");
}

#[test]
fn ancestry_is_empty_outside_spans() {
    let layer = TracingLayer::new();
    let doc = layer.on_event("app", "event", "INFO", FieldMap::new(), "cs");
    assert_eq!(doc.spans.len(), 0);
}

#[test]
fn record_calls_merge_last_write_wins() {
    let mut layer = TracingLayer::new();
    let attrs = fields_with(&[("x", JsonValue::U64(1))]);
    layer.on_new_span(7, "span", "app", "INFO", attrs);
    layer.enter(7);
    let first = fields_with(&[("x", JsonValue::U64(2)), ("y", JsonValue::U64(3))]);
    layer.on_record(7, &first);
    let second = fields_with(&[("y", JsonValue::U64(4))]);
    layer.on_record(7, &second);
    let doc = layer.on_event("app", "event", "INFO", FieldMap::new(), "cs");
    assert_eq!(doc.spans.len(), 1);
    let span_fields = &doc.spans[0].fields;
    assert!(matches!(span_fields.get("x"), Some(JsonValue::U64(2))));
    assert!(matches!(span_fields.get("y"), Some(JsonValue::U64(4))));
    assert!(span_fields.get("z").is_none());
}

#[test]
fn nested_event_carries_fields_and_both_spans() {
    let mut layer = TracingLayer::new();
    let outer_attrs = fields_with(&[("level", JsonValue::U64(0))]);
    layer.on_new_span(1, "outer", "app", "INFO", outer_attrs);
    layer.enter(1);
    let inner_attrs = fields_with(&[("level", JsonValue::U64(1))]);
    layer.on_new_span(2, "inner", "app", "INFO", inner_attrs);
    layer.enter(2);
    let event_fields = fields_with(&[
        ("a_bool", JsonValue::Bool(true)),
        ("a_number", JsonValue::U64(42)),
    ]);
    let doc = layer.on_event("app", "hello", "INFO", event_fields, "cs");
    assert_eq!(doc.spans.len(), 2);
    assert_eq!(doc.spans[0].name, "outer");
    assert_eq!(doc.spans[1].name, "inner");
    assert!(matches!(doc.spans[0].fields.get("level"), Some(JsonValue::U64(0))));
    assert!(matches!(doc.spans[1].fields.get("level"), Some(JsonValue::U64(1))));
    assert!(matches!(doc.fields.get("a_bool"), Some(JsonValue::Bool(true))));
    assert!(matches!(doc.fields.get("a_number"), Some(JsonValue::U64(42))));
}

#[test]
fn closed_span_leaves_the_store() {
    let mut layer = TracingLayer::new();
    layer.on_new_span(1, "outer", "app", "INFO", FieldMap::new());
    layer.enter(1);
    layer.exit();
    layer.on_close(1);
    layer.on_new_span(1, "again", "app", "INFO", FieldMap::new());
    layer.enter(1);
    let doc = layer.on_event("app", "event", "INFO", FieldMap::new(), "cs");
    assert_eq!(doc.spans.len(), 1);
    assert_eq!(doc.spans[0].name, "again");
}

#[test]
fn rendered_document_is_exact_json() {
    let doc = EventDocument {
        target: String::from("t"),
        name: String::from("n"),
        level: String::from("INFO"),
        fields: fields_with(&[
            ("a_bool", JsonValue::Bool(true)),
            ("a_number", JsonValue::U64(42)),
        ]),
        spans: Vec::new(),
        time: String::from("T"),
        callsite: String::from("C"),
    };
    let rendered = render_document(&doc);
    assert_eq!(
        rendered,
        "{\"target\":\"t\",\"name\":\"n\",\"level\":\"INFO\",\
         \"fields\":{\"a_bool\":true,\"a_number\":42},\"spans\":[],\
         \"time\":\"T\",\"callsite\":\"C\"}"
    );
}

#[test]
fn rendered_document_escapes_strings() {
    let doc = EventDocument {
        target: String::from("t"),
        name: String::from("n"),
        level: String::from("INFO"),
        fields: fields_with(&[("k", JsonValue::Str(String::from("a\"b\\c\nd")))]),
        spans: Vec::new(),
        time: String::from("T"),
        callsite: String::from("C"),
    };
    let rendered = render_document(&doc);
    assert!(rendered.contains("\"k\":\"a\\\"b\\\\c\\nd\""));
}

#[test]
fn rendered_document_escapes_control_characters() {
    let doc = EventDocument {
        target: String::from("t"),
        name: String::from("n"),
        level: String::from("INFO"),
        fields: fields_with(&[("k", JsonValue::Str(String::from("a\u{8}b\u{1f}c\u{0}d")))]),
        spans: Vec::new(),
        time: String::from("T"),
        callsite: String::from("C"),
    };
    let rendered = render_document(&doc);
    assert!(rendered.contains("\"k\":\"a\\u0008b\\u001fc\\u0000d\""));
}

#[test]
fn rendered_document_renders_wide_integers() {
    let doc = EventDocument {
        target: String::from("t"),
        name: String::from("n"),
        level: String::from("INFO"),
        fields: fields_with(&[
            ("big", JsonValue::U128(340282366920938463463374607431768211455)),
            ("low", JsonValue::I128(i128::MIN)),
            ("neg", JsonValue::I64(-7)),
        ]),
        spans: Vec::new(),
        time: String::from("T"),
        callsite: String::from("C"),
    };
    let rendered = render_document(&doc);
    assert!(rendered.contains("\"big\":340282366920938463463374607431768211455"));
    assert!(rendered.contains("\"low\":-170141183460469231731687303715884105728"));
    assert!(rendered.contains("\"neg\":-7"));
}
