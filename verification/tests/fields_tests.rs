use monitoring::fields::FieldMap;
use monitoring::json::JsonValue;
use monitoring::text::dec_u64_string;

#[test]
fn later_writes_to_the_same_key_overwrite() {
    let mut fields = FieldMap::new();
    fields.record_u64("count", 1);
    fields.record_u64("count", 2);
    fields.record_str("count", "three");
    assert_eq!(fields.len(), 1);
    assert!(matches!(fields.get("count"), Some(JsonValue::Str(s)) if s == "three"));
}

#[test]
fn entry_order_is_the_order_of_first_writes() {
    let mut fields = FieldMap::new();
    fields.record_u64("b", 1);
    fields.record_u64("a", 2);
    fields.record_u64("b", 3);
    let mut out = String::new();
    fields.append_json(&mut out);
    assert_eq!(out, "{\"b\":3,\"a\":2}");
}

#[test]
fn merge_prefers_the_merged_in_values() {
    let mut base = FieldMap::new();
    base.record_u64("x", 1);
    base.record_u64("y", 2);
    let mut update = FieldMap::new();
    update.record_u64("y", 20);
    update.record_u64("z", 30);
    base.merge_from(&update);
    assert!(matches!(base.get("x"), Some(JsonValue::U64(1))));
    assert!(matches!(base.get("y"), Some(JsonValue::U64(20))));
    assert!(matches!(base.get("z"), Some(JsonValue::U64(30))));
}

#[test]
fn visitor_methods_store_typed_values() {
    let mut fields = FieldMap::new();
    fields.record_bool("flag", true);
    fields.record_i64("signed", -5);
    fields.record_u64("unsigned", 5);
    fields.record_i128("wide_signed", -6);
    fields.record_u128("wide_unsigned", 6);
    fields.record_str("text", "hi");
    fields.record_error("failure", "boom");
    fields.record_debug("other", "Thing { a: 1 }");
    fields.record_num_text("float", "2.5");
    let mut out = String::new();
    fields.append_json(&mut out);
    assert_eq!(
        out,
        "{\"flag\":true,\"signed\":-5,\"unsigned\":5,\"wide_signed\":-6,\
         \"wide_unsigned\":6,\"text\":\"hi\",\"failure\":\"boom\",\
         \"other\":\"Thing { a: 1 }\",\"float\":2.5}"
    );
}

#[test]
fn empty_mapping_renders_as_empty_object() {
    let fields = FieldMap::new();
    let mut out = String::new();
    fields.append_json(&mut out);
    assert_eq!(out, "{}");
    assert!(fields.get("anything").is_none());
}

#[test]
fn duplicate_preserves_entries() {
    let mut fields = FieldMap::new();
    fields.record_u64("a", 1);
    fields.record_str("b", "two");
    let copy = fields.duplicate();
    let mut original_out = String::new();
    fields.append_json(&mut original_out);
    let mut copy_out = String::new();
    copy.append_json(&mut copy_out);
    assert_eq!(original_out, copy_out);
}

#[test]
fn decimal_rendering_is_exact() {
    assert_eq!(dec_u64_string(0), "0");
    assert_eq!(dec_u64_string(7), "7");
    assert_eq!(dec_u64_string(12345), "12345");
    assert_eq!(dec_u64_string(u64::MAX), "18446744073709551615");
}
