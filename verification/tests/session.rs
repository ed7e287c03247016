use smartzone_exporter::smartzone::{Auth, Filter, FilterContainer, MiniAp, Query, SzError, Zone};

fn versions(list: &[&str]) -> Vec<String> {
    list.iter().map(|s| s.to_string()).collect()
}

fn fresh_auth() -> Auth {
    Auth::new(
        "operator".to_string(),
        "SECRET-REDACTED".to_string(),
        &versions(&["v9_1", "v11_1"]),
    )
    .expect("the advertised versions include the supported one")
}

#[test]
fn unsupported_api_version_is_fatal() {
    let r = Auth::new("u".to_string(), "p".to_string(), &versions(&["v9_0", "v10_0"]));
    assert!(matches!(r, Err(SzError::UnsupportedApiVersion)));
}

#[test]
fn supported_api_version_builds_a_sessionless_manager() {
    let auth = fresh_auth();
    assert!(!auth.has_session());
    assert!(auth.logout().is_none());
}

#[test]
fn login_body_carries_credentials_and_offset() {
    let auth = fresh_auth();
    assert_eq!(
        auth.login_body(),
        "{\"username\":\"operator\",\"password\":\"SECRET-REDACTED\",\"timeZoneUtcOffset\":\"-07:00\"}"
    );
}

#[test]
fn login_rejection_leaves_no_session_behind() {
    // The controller answers 401: the process must not serve scrapes, and
    // no partially-initialized session is observable to any query call.
    let mut auth = fresh_auth();
    let r = auth.login(401, Some("JSESSIONID=abc".to_string()));
    assert!(matches!(r, Err(SzError::LoginFailed { status: 401 })));
    assert!(!auth.has_session());
    assert!(auth.session_cookie().is_err());
    let zone = Zone::new("z-1".to_string(), "HQ".to_string());
    let q = auth.query(&zone.to_filter_container(), &Query::Aps);
    assert!(matches!(q, Err(SzError::NoSession)));
    let zs = auth.get_zones("{\"list\":[]}");
    assert!(matches!(zs, Err(SzError::NoSession)));
}

#[test]
fn login_without_a_cookie_fails() {
    let mut auth = fresh_auth();
    let r = auth.login(200, None);
    assert!(matches!(r, Err(SzError::MissingSessionCookie)));
    assert!(!auth.has_session());
}

#[test]
fn login_success_retains_the_session_cookie() {
    let mut auth = fresh_auth();
    auth.login(200, Some("JSESSIONID=abc".to_string())).expect("login should succeed");
    assert!(auth.has_session());
    assert_eq!(auth.logout(), Some(&"JSESSIONID=abc".to_string()));
}

#[test]
fn query_request_carries_path_cookie_and_body() {
    let mut auth = fresh_auth();
    auth.login(200, Some("JSESSIONID=abc".to_string())).expect("login should succeed");
    let zone = Zone::new("z-1".to_string(), "HQ".to_string());
    let filter = zone.to_filter_container();
    let req = auth.query(&filter, &Query::Aps).expect("a session is active");
    assert_eq!(req.path, "/wsg/api/public/v11_1/query/ap");
    assert_eq!(req.cookie, "JSESSIONID=abc");
    assert_eq!(req.body, filter.to_json());
    let req = auth.query(&filter, &Query::Clients).expect("a session is active");
    assert_eq!(req.path, "/wsg/api/public/v11_1/query/client");
}

#[test]
fn endpoints_name_the_entity_types() {
    assert_eq!(Query::Aps.endpoint(), "ap");
    assert_eq!(Query::Clients.endpoint(), "client");
}

#[test]
fn zones_decode_under_an_active_session() {
    let mut auth = fresh_auth();
    auth.login(200, Some("c=1".to_string())).expect("login should succeed");
    let zones = auth
        .get_zones("{\"list\":[{\"id\":\"z-1\",\"name\":\"HQ\"},{\"id\":\"z-2\",\"name\":\"Annex\"}]}")
        .expect("the listing should decode");
    assert_eq!(zones.len(), 2);
    assert_eq!(zones[0].name, "HQ");
    assert_eq!(zones[1].name, "Annex");
    // The zone's filter selects by the id, not the display name.
    assert_eq!(zones[0].to_filter().value, "z-1");
}

#[test]
fn zone_listing_decode_failure_is_reported() {
    let mut auth = fresh_auth();
    auth.login(200, Some("c=1".to_string())).expect("login should succeed");
    let r = auth.get_zones("{\"list\":[{\"id\":\"z-1\"}]}");
    assert!(matches!(r, Err(SzError::Decode(_))));
}

#[test]
fn mini_ap_filter_selects_by_mac() {
    let f = Filter::from_mini_ap(&MiniAp { ap_mac: "AA:BB".to_string() });
    assert_eq!(f.ttype, "AP");
    assert_eq!(f.value, "AA:BB");
    assert_eq!(f.operator, "eq");
}
