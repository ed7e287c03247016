use smartzone_exporter::ap::AP;
use smartzone_exporter::paging::Pagination;
use smartzone_exporter::smartzone::{decode_ap_page, Zone};

fn ap_object(name: &str) -> String {
    let mut s = String::new();
    s.push_str(&format!("{{\"deviceName\":\"{}\",", name));
    s.push_str("\"description\":\"\",\"status\":\"Online\",\"ip\":\"10.0.0.2\",");
    s.push_str("\"model\":\"R650\",\"apMac\":\"AA:BB:CC:DD:EE:FF\",\"serial\":\"1\",");
    s.push_str("\"location\":\"\",\"zoneName\":\"HQ\",\"lastSeen\":1,\"uptime\":2,");
    s.push_str("\"alerts\":0,\"numClients\":0,\"tx\":0,\"rx\":0,\"txRx\":0,");
    s.push_str("\"airtime24G\":0,\"airtime5G\":0,\"airtime6G\":0,\"latency24G\":0,");
    s.push_str("\"latency50G\":0,\"latency6G\":0,\"capacity\":0,\"connectionFailure\":0,");
    s.push_str("\"noise24G\":0,\"noise5G\":0,\"noise6G\":0,");
    s.push_str("\"isOverallHealthStatusFlagged\":false,\"isLatency24GFlagged\":false,");
    s.push_str("\"isLatency50GFlagged\":false,\"isLatency6GFlagged\":false}");
    s
}

fn page_body(has_more: bool, total: u64, names: &[String]) -> String {
    let objects: Vec<String> = names.iter().map(|n| ap_object(n)).collect();
    format!(
        "{{\"totalCount\":{},\"hasMore\":{},\"firstIndex\":0,\"list\":[{}]}}",
        total,
        has_more,
        objects.join(",")
    )
}

#[test]
fn pagination_starts_at_page_one_with_the_zone_filter() {
    let zone = Zone::new("z-1".to_string(), "HQ".to_string());
    let paging: Pagination<AP> = Pagination::start(&zone);
    assert_eq!(paging.filter.page, 1);
    assert_eq!(paging.filter.limit, 30);
    assert_eq!(paging.filter.or.len(), 1);
    assert!(paging.items.is_empty());
    assert!(!paging.done);
}

#[test]
fn two_pages_accumulate_in_page_order() {
    // hasMore=true then hasMore=false over disjoint lists of 30 and 5: the
    // accumulated list holds all 35 records, in page order.
    let first_names: Vec<String> = (0..30).map(|i| format!("ap-{}", i)).collect();
    let second_names: Vec<String> = (30..35).map(|i| format!("ap-{}", i)).collect();
    let zone = Zone::new("z-1".to_string(), "HQ".to_string());
    let mut paging: Pagination<AP> = Pagination::start(&zone);

    let page1 = decode_ap_page(&page_body(true, 35, &first_names)).expect("page should decode");
    paging.absorb(page1);
    assert!(!paging.done);
    assert_eq!(paging.filter.page, 2);
    assert_eq!(paging.items.len(), 30);

    let page2 = decode_ap_page(&page_body(false, 35, &second_names)).expect("page should decode");
    paging.absorb(page2);
    assert!(paging.done);
    assert_eq!(paging.filter.page, 3);
    assert_eq!(paging.items.len(), 35);
    for (i, ap) in paging.items.iter().enumerate() {
        assert_eq!(ap.device_name, format!("ap-{}", i));
    }
}

#[test]
fn an_immediate_last_page_ends_pagination() {
    let zone = Zone::new("z-1".to_string(), "HQ".to_string());
    let mut paging: Pagination<AP> = Pagination::start(&zone);
    let page = decode_ap_page(&page_body(false, 0, &[])).expect("page should decode");
    paging.absorb(page);
    assert!(paging.done);
    assert!(paging.items.is_empty());
}
