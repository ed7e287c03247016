use smartzone_exporter::ap::AP;
use smartzone_exporter::client::Client;
use smartzone_exporter::metrics::{project_ap, project_client, Registry};

fn labels(pairs: &[(&str, &str)]) -> Vec<(String, String)> {
    pairs.iter().map(|(k, v)| (k.to_string(), v.to_string())).collect()
}

#[test]
fn writing_a_gauge_twice_keeps_only_the_second_value() {
    let mut reg = Registry::new();
    let l = labels(&[("Zone", "HQ")]);
    reg.record("ap_tx".to_string(), l.clone(), 100);
    reg.record("ap_tx".to_string(), l.clone(), 42);
    // Last write wins: the registry reflects 42, never 142.
    assert_eq!(reg.get(&"ap_tx".to_string(), &l), Some(42));
    assert_eq!(reg.samples().len(), 1);
}

#[test]
fn distinct_label_sets_are_distinct_gauges() {
    let mut reg = Registry::new();
    let a = labels(&[("Zone", "HQ")]);
    let b = labels(&[("Zone", "Annex")]);
    reg.record("ap_tx".to_string(), a.clone(), 1);
    reg.record("ap_tx".to_string(), b.clone(), 2);
    reg.record("ap_rx".to_string(), a.clone(), 3);
    assert_eq!(reg.get(&"ap_tx".to_string(), &a), Some(1));
    assert_eq!(reg.get(&"ap_tx".to_string(), &b), Some(2));
    assert_eq!(reg.get(&"ap_rx".to_string(), &a), Some(3));
    assert_eq!(reg.get(&"ap_rx".to_string(), &b), None);
    assert_eq!(reg.samples().len(), 3);
}

fn sample_ap(latency_6g: u64) -> AP {
    AP {
        device_name: "ap-1".to_string(),
        description: "lobby".to_string(),
        status: "Online".to_string(),
        ip: "10.0.0.2".to_string(),
        model: "R650".to_string(),
        ap_mac: "AA:BB:CC:DD:EE:FF".to_string(),
        serial: "12183".to_string(),
        location: "front".to_string(),
        zone_name: "HQ".to_string(),
        last_seen: 1733327325000,
        uptime: 12866158,
        alerts: 3,
        num_clients: 2,
        tx: 1000,
        rx: 500,
        tx_rx: 1500,
        airtime_24g: 7,
        airtime_5g: 11,
        airtime_6g: 0,
        latency_24g: 302,
        latency_50g: 45,
        latency_6g,
        capacity: 93,
        connection_failures: 4,
        noise_24g: -92,
        noise_5g: -104,
        noise_6g: 0,
        is_overall_health_status_flagged: false,
        is_latency_24g_flagged: false,
        is_latency_50g_flagged: true,
        is_latency_6g_flagged: false,
    }
}

fn ap_identity_labels() -> Vec<(String, String)> {
    labels(&[
        ("DeviceName", "ap-1"),
        ("MAC", "AA:BB:CC:DD:EE:FF"),
        ("IP", "10.0.0.2"),
        ("Zone", "HQ"),
    ])
}

#[test]
fn one_access_point_scrape_yields_its_gauges() {
    // One zone "HQ", one access point with alerts=3, tx=1000, rx=500,
    // numClients=2: the scrape yields exactly those gauge values.
    let ap = sample_ap(6);
    let mut reg = Registry::new();
    reg.record_all(project_ap(&ap, "HQ"));
    let data = ap_identity_labels();
    assert_eq!(reg.get(&"ap_alerts".to_string(), &data), Some(3));
    assert_eq!(reg.get(&"ap_tx".to_string(), &data), Some(1000));
    assert_eq!(reg.get(&"ap_rx".to_string(), &data), Some(500));
    assert_eq!(reg.get(&"ap_clients".to_string(), &data), Some(2));
    assert_eq!(reg.get(&"ap_failures".to_string(), &data), Some(4));
    assert_eq!(reg.get(&"ap_latency_24g".to_string(), &data), Some(302));
    assert_eq!(reg.get(&"ap_latency_5g".to_string(), &data), Some(45));
}

#[test]
fn uptime_carries_the_verbose_labels() {
    let ap = sample_ap(6);
    let mut reg = Registry::new();
    reg.record_all(project_ap(&ap, "HQ"));
    // ap_uptime is labeled with status, last-seen and model as well.
    let verbose = labels(&[
        ("Status", "Online"),
        ("LastSeen", "1733327325000"),
        ("Model", "R650"),
        ("DeviceName", "ap-1"),
        ("MAC", "AA:BB:CC:DD:EE:FF"),
        ("IP", "10.0.0.2"),
        ("Zone", "HQ"),
    ]);
    assert_eq!(reg.get(&"ap_uptime".to_string(), &verbose), Some(12866158));
    // Under the identity labels alone there is no such gauge.
    assert_eq!(reg.get(&"ap_uptime".to_string(), &ap_identity_labels()), None);
}

#[test]
fn null_latency_records_a_zero_gauge() {
    // A record with latency6G null decodes to zero, and the gauge records
    // 0 rather than being omitted.
    let ap = sample_ap(0);
    let mut reg = Registry::new();
    reg.record_all(project_ap(&ap, "HQ"));
    assert_eq!(reg.get(&"ap_latency_6g".to_string(), &ap_identity_labels()), Some(0));
}

#[test]
fn rescrape_overwrites_rather_than_accumulates() {
    let mut reg = Registry::new();
    reg.record_all(project_ap(&sample_ap(6), "HQ"));
    let mut second = sample_ap(6);
    second.tx = 2000;
    reg.record_all(project_ap(&second, "HQ"));
    assert_eq!(reg.get(&"ap_tx".to_string(), &ap_identity_labels()), Some(2000));
}

#[test]
fn a_client_projects_its_traffic_gauges() {
    let c = Client {
        ap_mac: "AA:BB:CC:DD:EE:FF".to_string(),
        ap_name: "ap-1".to_string(),
        hostname: "phone".to_string(),
        client_mac: "11:22:33:44:55:66".to_string(),
        os_type: "Android".to_string(),
        os_vendor_type: "Samsung".to_string(),
        ip_address: "10.0.0.9".to_string(),
        model_name: "SM-1".to_string(),
        ssid: "corp".to_string(),
        vlan: 17,
        session_start_time: 1733327000,
        rx_bytes: 1135785,
        tx_bytes: 10713562,
    };
    let mut reg = Registry::new();
    reg.record_all(project_client(&c, "HQ"));
    let verbose = labels(&[
        ("OsType", "Android"),
        ("OsVendorType", "Samsung"),
        ("IP", "10.0.0.9"),
        ("Vlan", "17"),
        ("ModelName", "SM-1"),
        ("SSID", "corp"),
        ("SessionStartTime", "1733327000"),
        ("ApMac", "AA:BB:CC:DD:EE:FF"),
        ("ApName", "ap-1"),
        ("Hostname", "phone"),
        ("Mac", "11:22:33:44:55:66"),
        ("Zone", "HQ"),
    ]);
    assert_eq!(reg.get(&"client_rx".to_string(), &verbose), Some(1135785));
    assert_eq!(reg.get(&"client_tx".to_string(), &verbose), Some(10713562));
}
