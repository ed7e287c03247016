use smartzone_exporter::ap::AP;
use smartzone_exporter::client::Client;
use smartzone_exporter::json::{parse_json, DecodeError, JsonValue};
use smartzone_exporter::smartzone::{decode_ap_page, decode_api_info, decode_client_page};

fn ap_object(latency6g: &str, alerts: u64, tx: u64, rx: u64, num_clients: u64) -> String {
    let mut s = String::new();
    s.push_str("{\"deviceName\":\"ap-1\",\"description\":\"lobby\",\"status\":\"Online\",");
    s.push_str("\"ip\":\"10.0.0.2\",\"model\":\"R650\",\"apMac\":\"AA:BB:CC:DD:EE:FF\",");
    s.push_str("\"serial\":\"12183\",\"location\":\"front\",\"zoneName\":\"HQ\",");
    s.push_str("\"lastSeen\":1733327325000,\"uptime\":12866158,");
    s.push_str(&format!("\"alerts\":{},\"numClients\":{},\"tx\":{},\"rx\":{},", alerts, num_clients, tx, rx));
    s.push_str("\"txRx\":11849347,\"airtime24G\":7,\"airtime5G\":11,\"airtime6G\":null,");
    s.push_str(&format!("\"latency24G\":302,\"latency50G\":45,\"latency6G\":{},", latency6g));
    s.push_str("\"capacity\":93,\"connectionFailure\":0,");
    s.push_str("\"noise24G\":-92,\"noise5G\":-104,\"noise6G\":null,");
    s.push_str("\"isOverallHealthStatusFlagged\":false,\"isLatency24GFlagged\":null,");
    s.push_str("\"isLatency50GFlagged\":true,\"isLatency6GFlagged\":false}");
    s
}

fn ap_page(has_more: bool, total: u64, objects: &[String]) -> String {
    format!(
        "{{\"totalCount\":{},\"hasMore\":{},\"firstIndex\":0,\"list\":[{}]}}",
        total,
        has_more,
        objects.join(",")
    )
}

fn decode_one_ap(latency6g: &str) -> AP {
    let body = ap_page(false, 1, &[ap_object(latency6g, 3, 1000, 500, 2)]);
    let page = decode_ap_page(&body).expect("page should decode");
    assert_eq!(page.list.len(), 1);
    page.list.into_iter().next().unwrap()
}

#[test]
fn present_values_decode_unchanged() {
    let ap = decode_one_ap("77");
    assert_eq!(ap.device_name, "ap-1");
    assert_eq!(ap.alerts, 3);
    assert_eq!(ap.tx, 1000);
    assert_eq!(ap.rx, 500);
    assert_eq!(ap.num_clients, 2);
    assert_eq!(ap.latency_6g, 77);
    assert_eq!(ap.latency_50g, 45);
    assert_eq!(ap.noise_24g, -92);
    assert_eq!(ap.uptime, 12866158);
    assert!(ap.is_latency_50g_flagged);
    assert!(!ap.is_latency_6g_flagged);
}

#[test]
fn null_numeric_field_decodes_to_zero() {
    let ap = decode_one_ap("null");
    assert_eq!(ap.latency_6g, 0);
    // Other fields declared null in the same record also read as zero values.
    assert_eq!(ap.airtime_6g, 0);
    assert_eq!(ap.noise_6g, 0);
    assert!(!ap.is_latency_24g_flagged);
}

#[test]
fn missing_field_fails_decode_with_field_name() {
    // Same record with "tx" removed entirely: missing is not null.
    let body = ap_page(false, 1, &[ap_object("0", 0, 0, 0, 0).replace("\"tx\":0,", "")]);
    match decode_ap_page(&body) {
        Err(DecodeError::Field { name }) => assert_eq!(name, "tx"),
        other => panic!("expected a field error, got {:?}", other.is_ok()),
    }
}

#[test]
fn wrong_typed_field_fails_decode() {
    let body = ap_page(false, 1, &[ap_object("\"fast\"", 0, 0, 0, 0)]);
    match decode_ap_page(&body) {
        Err(DecodeError::Field { name }) => assert_eq!(name, "latency6G"),
        _ => panic!("expected a field error"),
    }
}

#[test]
fn syntax_error_reports_column() {
    match decode_ap_page("{\"totalCount\": ") {
        Err(DecodeError::Syntax { column }) => assert!(column > 0),
        _ => panic!("expected a syntax error"),
    }
}

#[test]
fn non_object_page_is_refused() {
    match decode_ap_page("[1,2,3]") {
        Err(DecodeError::NotObject) => {}
        _ => panic!("expected a not-an-object error"),
    }
}

#[test]
fn parse_json_builds_a_document() {
    // A parse that handed its input back unchanged could not satisfy this:
    // the decoded page carries the parsed values, not the text.
    let page = decode_ap_page(&ap_page(true, 35, &[])).expect("page should decode");
    assert_eq!(page.total_count, 35);
    assert!(page.has_more);
    assert_eq!(page.first_index, 0);
    assert!(page.list.is_empty());
}

#[test]
fn parse_json_reads_nested_values() {
    let doc = parse_json("{\"a\":[1,true,\"x\"]}").expect("should parse");
    match doc {
        JsonValue::Obj(fields) => {
            assert_eq!(fields.len(), 1);
            assert_eq!(fields[0].0, "a");
            match &fields[0].1 {
                JsonValue::Arr(items) => {
                    assert!(matches!(items[0], JsonValue::UInt(1)));
                    assert!(matches!(items[1], JsonValue::Bool(true)));
                    assert!(matches!(&items[2], JsonValue::Str(s) if s == "x"));
                }
                _ => panic!("expected an array"),
            }
        }
        _ => panic!("expected an object"),
    }
}

#[test]
fn negative_numbers_parse_as_signed() {
    let doc = parse_json("-92").expect("should parse");
    assert!(matches!(doc, JsonValue::Int(-92)));
}

fn client_object(hostname: &str, vlan: &str, rx: u64, tx: u64) -> String {
    let mut s = String::new();
    s.push_str("{\"apMac\":\"AA:BB:CC:DD:EE:FF\",\"apName\":\"ap-1\",");
    s.push_str(&format!("\"hostname\":\"{}\",", hostname));
    s.push_str("\"clientMac\":\"11:22:33:44:55:66\",\"osType\":\"Android\",");
    s.push_str("\"osVendorType\":\"Samsung\",\"ipAddress\":\"10.0.0.9\",");
    s.push_str(&format!("\"modelName\":\"SM-1\",\"ssid\":\"corp\",\"vlan\":{},", vlan));
    s.push_str(&format!("\"sessionStartTime\":1733327000,\"rxBytes\":{},\"txBytes\":{}}}", rx, tx));
    s
}

#[test]
fn client_page_decodes() {
    let body = format!(
        "{{\"totalCount\":1,\"hasMore\":false,\"firstIndex\":0,\"list\":[{}]}}",
        client_object("phone", "17", 1135785, 10713562)
    );
    let page = decode_client_page(&body).expect("page should decode");
    let c: &Client = &page.list[0];
    assert_eq!(c.hostname, "phone");
    assert_eq!(c.vlan, 17);
    assert_eq!(c.rx_bytes, 1135785);
    assert_eq!(c.tx_bytes, 10713562);
}

#[test]
fn client_null_vlan_decodes_to_zero() {
    let body = format!(
        "{{\"totalCount\":1,\"hasMore\":false,\"firstIndex\":0,\"list\":[{}]}}",
        client_object("phone", "null", 1, 2)
    );
    let page = decode_client_page(&body).expect("page should decode");
    assert_eq!(page.list[0].vlan, 0);
}

#[test]
fn api_info_decodes_versions() {
    let vs = decode_api_info("{\"apiSupportVersions\":[\"v9_1\",\"v11_1\"]}")
        .expect("should decode");
    assert_eq!(vs, vec!["v9_1".to_string(), "v11_1".to_string()]);
}

#[test]
fn api_info_rejects_non_string_versions() {
    match decode_api_info("{\"apiSupportVersions\":[\"v9_1\",11]}") {
        Err(DecodeError::Field { name }) => assert_eq!(name, "apiSupportVersions"),
        _ => panic!("expected a field error"),
    }
}
