use njalla_webhook::config::Config;
use njalla_webhook::error::Error;
use njalla_webhook::njalla::DnsRecord;
use njalla_webhook::webhook::handlers::{is_supported_type, VERSION};
use njalla_webhook::webhook::{
    AdjustEndpointsResponse, Changes, Endpoint, GetRecordsQuery, HealthResponse, ProviderSpecific,
    WebhookHandler,
};
use std::collections::HashMap;

fn config(filter: Option<Vec<&str>>) -> Config {
    Config {
        njalla_api_token: "token".to_string(),
        webhook_host: "127.0.0.1".to_string(),
        webhook_port: 8888,
        domain_filter: filter.map(|zones| zones.into_iter().map(String::from).collect()),
        dry_run: false,
        cache_ttl_seconds: 60,
    }
}

fn record(name: &str, kind: &str, content: &str) -> DnsRecord {
    DnsRecord {
        id: "1".to_string(),
        name: name.to_string(),
        record_type: kind.to_string(),
        content: content.to_string(),
        ttl: None,
        priority: None,
    }
}

#[test]
fn new_endpoint_has_only_name_type_and_targets() {
    let endpoint = Endpoint::new(
        "www.example.com".to_string(),
        "A".to_string(),
        vec!["1.2.3.4".to_string(), "5.6.7.8".to_string()],
    );
    assert_eq!(
        endpoint,
        Endpoint {
            dns_name: "www.example.com".to_string(),
            targets: vec!["1.2.3.4".to_string(), "5.6.7.8".to_string()],
            record_type: "A".to_string(),
            set_identifier: None,
            record_ttl: None,
            labels: HashMap::new(),
            provider_specific: vec![],
        }
    );
}

#[test]
fn with_ttl_sets_only_the_ttl() {
    let plain = Endpoint::new("a.example.com".to_string(), "TXT".to_string(), vec!["x".to_string()]);
    let timed = plain.clone().with_ttl(300);
    assert_eq!(timed.record_ttl, Some(300));
    assert_eq!(Endpoint { record_ttl: None, ..timed }, plain);
    assert_eq!(plain.clone().with_ttl(-1).record_ttl, Some(-1));
}

#[test]
fn record_below_apex_gets_name_dot_zone() {
    let endpoint = Endpoint::from_njalla_record(&record("www", "A", "1.2.3.4"), "example.com");
    assert_eq!(endpoint.dns_name, "www.example.com");
    assert_eq!(endpoint.targets, vec!["1.2.3.4".to_string()]);
    assert_eq!(endpoint.record_type, "A");
    assert_eq!(endpoint.set_identifier, None);
    assert_eq!(endpoint.record_ttl, None);
    assert!(endpoint.labels.is_empty());
    assert!(endpoint.provider_specific.is_empty());
    let deep = Endpoint::from_njalla_record(&record("a.b", "A", "1.2.3.4"), "example.com");
    assert_eq!(deep.dns_name, "a.b.example.com");
}

#[test]
fn record_at_apex_gets_the_zone() {
    let empty = Endpoint::from_njalla_record(&record("", "A", "1.2.3.4"), "example.com");
    assert_eq!(empty.dns_name, "example.com");
    let at = Endpoint::from_njalla_record(&record("@", "A", "1.2.3.4"), "example.com");
    assert_eq!(at.dns_name, "example.com");
}

#[test]
fn record_name_that_ends_with_zone_is_kept() {
    let full = Endpoint::from_njalla_record(&record("www.example.com", "A", "1.2.3.4"), "example.com");
    assert_eq!(full.dns_name, "www.example.com");
    let odd = Endpoint::from_njalla_record(&record("notexample.com", "A", "1.2.3.4"), "example.com");
    assert_eq!(odd.dns_name, "notexample.com");
}

#[test]
fn record_ttl_and_priority_are_carried() {
    let mx = DnsRecord {
        ttl: Some(u32::MAX),
        priority: Some(10),
        ..record("", "MX", "mail.example.com")
    };
    let endpoint = Endpoint::from_njalla_record(&mx, "example.com");
    assert_eq!(endpoint.record_ttl, Some(4294967295));
    assert_eq!(
        endpoint.provider_specific,
        vec![ProviderSpecific { name: "priority".to_string(), value: "10".to_string() }]
    );
    let zero = DnsRecord { priority: Some(0), ttl: Some(0), ..record("x", "SRV", "t") };
    let endpoint = Endpoint::from_njalla_record(&zero, "example.com");
    assert_eq!(endpoint.record_ttl, Some(0));
    assert_eq!(endpoint.provider_specific[0].value, "0");
}

#[test]
fn endpoint_duplicate_is_equal() {
    let mut endpoint = Endpoint::new("a.example.com".to_string(), "A".to_string(), vec!["1.1.1.1".to_string()])
        .with_ttl(60);
    endpoint.labels.insert("owner".to_string(), "me".to_string());
    endpoint.set_identifier = Some("id".to_string());
    endpoint.provider_specific.push(ProviderSpecific { name: "priority".to_string(), value: "5".to_string() });
    assert_eq!(endpoint.duplicate(), endpoint);
}

#[test]
fn changes_are_empty_only_without_any_endpoint() {
    let endpoint = Endpoint::new("a.example.com".to_string(), "A".to_string(), vec![]);
    let empty = Changes { create: vec![], update_old: vec![], update_new: vec![], delete: vec![] };
    assert!(empty.is_empty());
    assert!(!Changes { create: vec![endpoint.clone()], ..empty.clone() }.is_empty());
    assert!(!Changes { update_old: vec![endpoint.clone()], ..empty.clone() }.is_empty());
    assert!(!Changes { update_new: vec![endpoint.clone()], ..empty.clone() }.is_empty());
    assert!(!Changes { delete: vec![endpoint], ..empty }.is_empty());
}

#[test]
fn only_six_types_are_supported() {
    for kind in ["A", "AAAA", "CNAME", "TXT", "MX", "SRV"] {
        assert!(is_supported_type(kind), "{kind}");
    }
    for kind in ["NS", "SOA", "CAA", "a", "", "AA", "PTR", "TXTX", "Dynamic"] {
        assert!(!is_supported_type(kind), "{kind}");
    }
}

#[test]
fn listing_leaves_out_unsupported_types() {
    let handler = WebhookHandler::new(config(None));
    let records = vec![
        record("www", "A", "1.2.3.4"),
        record("", "NS", "ns1.example.net"),
        record("@", "MX", "mail.example.com"),
        record("", "SOA", "x"),
        record("t", "TXT", "hello"),
        record("c", "CAA", "0 issue x"),
    ];
    let response = handler.records_response(&records, "example.com");
    let shown: Vec<(&str, &str)> = response
        .endpoints
        .iter()
        .map(|e| (e.dns_name.as_str(), e.record_type.as_str()))
        .collect();
    assert_eq!(
        shown,
        vec![("www.example.com", "A"), ("example.com", "MX"), ("t.example.com", "TXT")]
    );
    assert!(handler.records_response(&vec![], "example.com").endpoints.is_empty());
}

#[test]
fn listing_needs_a_zone() {
    let handler = WebhookHandler::new(config(None));
    assert_eq!(
        handler.get_records(&GetRecordsQuery { zone_name: None }),
        Err(Error::InvalidRequest("zone parameter is required".to_string()))
    );
    assert_eq!(
        handler.get_records(&GetRecordsQuery { zone_name: Some("example.com".to_string()) }),
        Ok("example.com".to_string())
    );
}

#[test]
fn listing_needs_an_allowed_zone() {
    let handler = WebhookHandler::new(config(Some(vec!["example.com"])));
    assert_eq!(
        handler.get_records(&GetRecordsQuery { zone_name: Some("example.org".to_string()) }),
        Err(Error::DomainNotAllowed("example.org".to_string()))
    );
    assert_eq!(
        handler.get_records(&GetRecordsQuery { zone_name: Some("example.com".to_string()) }),
        Ok("example.com".to_string())
    );
}

#[test]
fn health_and_readiness_name_the_version() {
    let handler = WebhookHandler::new(config(None));
    assert_eq!(
        handler.health(),
        HealthResponse { status: "healthy".to_string(), version: VERSION.to_string() }
    );
    assert_eq!(
        handler.ready(),
        HealthResponse { status: "ready".to_string(), version: VERSION.to_string() }
    );
}

#[test]
fn adjusting_endpoints_changes_nothing() {
    let handler = WebhookHandler::new(config(None));
    let endpoints = vec![
        Endpoint::new("a.example.com".to_string(), "A".to_string(), vec!["1.1.1.1".to_string()]),
        Endpoint::new("b.example.com".to_string(), "NS".to_string(), vec![]).with_ttl(5),
    ];
    assert_eq!(
        handler.adjust_endpoints(endpoints.clone()),
        AdjustEndpointsResponse { endpoints }
    );
}
