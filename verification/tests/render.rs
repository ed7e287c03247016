use smartzone_exporter::numfmt::u64_to_string;
use smartzone_exporter::smartzone::{Filter, FilterContainer, MiniAp, Zone};

#[test]
fn decimal_rendering_exact() {
    assert_eq!(u64_to_string(0), "0");
    assert_eq!(u64_to_string(7), "7");
    assert_eq!(u64_to_string(30), "30");
    assert_eq!(u64_to_string(12345), "12345");
    assert_eq!(u64_to_string(u64::MAX), "18446744073709551615");
}

#[test]
fn empty_filter_list_omits_filters_field() {
    let fc = FilterContainer::from_filters(Vec::new());
    assert_eq!(fc.to_json(), "{\"page\":0,\"limit\":0}");
}

#[test]
fn empty_filter_list_never_serializes_an_empty_array() {
    let fc = FilterContainer::from_filters(Vec::new());
    let body = fc.to_json();
    assert!(!body.contains("filters"));
    // The rendering is well-formed JSON in the eyes of the library the
    // controller client is built on.
    let doc: serde_json::Value = serde_json::from_str(&body).expect("body should parse");
    assert!(doc.get("filters").is_none());
    assert_eq!(doc.get("page").and_then(|v| v.as_u64()), Some(0));
}

#[test]
fn zone_filter_container_renders_exactly() {
    let zone = Zone::new("z-17".to_string(), "HQ".to_string());
    let fc = zone.to_filter_container();
    assert_eq!(
        fc.to_json(),
        "{\"filters\":[{\"type\":\"ZONE\",\"value\":\"z-17\",\"operator\":\"eq\"}],\"page\":1,\"limit\":30}"
    );
}

#[test]
fn two_filters_join_with_a_comma() {
    let a = MiniAp { ap_mac: "AA:BB".to_string() };
    let b = MiniAp { ap_mac: "CC:DD".to_string() };
    let mut fc = FilterContainer::from_filters(vec![
        Filter::from_mini_ap(&a),
        Filter::from_mini_ap(&b),
    ]);
    fc.page = 1;
    fc.limit = 30;
    assert_eq!(
        fc.to_json(),
        "{\"filters\":[{\"type\":\"AP\",\"value\":\"AA:BB\",\"operator\":\"eq\"},{\"type\":\"AP\",\"value\":\"CC:DD\",\"operator\":\"eq\"}],\"page\":1,\"limit\":30}"
    );
}

#[test]
fn string_values_are_escaped() {
    let zone = Zone::new("a\"b\\c\nd\tе\u{1}f".to_string(), "HQ".to_string());
    let fc = zone.to_filter_container();
    let body = fc.to_json();
    assert!(body.contains("a\\\"b\\\\c\\nd\\t"));
    assert!(body.contains("\\u0001f"));
    // The escaped value survives a round trip through a JSON parser.
    let doc: serde_json::Value = serde_json::from_str(&body).expect("body should parse");
    let value = doc["filters"][0]["value"].as_str().expect("value should be a string");
    assert_eq!(value, "a\"b\\c\nd\tе\u{1}f");
}

#[test]
fn filter_rendering_matches_controller_schema() {
    let zone = Zone::new("z-1".to_string(), "HQ".to_string());
    let body = zone.to_filter_container().to_json();
    let doc: serde_json::Value = serde_json::from_str(&body).expect("body should parse");
    assert_eq!(doc["filters"][0]["type"].as_str(), Some("ZONE"));
    assert_eq!(doc["filters"][0]["operator"].as_str(), Some("eq"));
    assert_eq!(doc["page"].as_u64(), Some(1));
    assert_eq!(doc["limit"].as_u64(), Some(30));
}

#[test]
fn default_container_has_no_filters_and_an_unset_cursor() {
    let fc = FilterContainer::default();
    assert_eq!(fc.page, 0);
    assert_eq!(fc.limit, 0);
    assert!(fc.or.is_empty());
    assert_eq!(fc.to_json(), "{\"page\":0,\"limit\":0}");
}
