use njalla_webhook::config::Config;
use njalla_webhook::error::Error;
use njalla_webhook::njalla::{AddRecordRequest, DnsRecord, RemoveRecordRequest};
use njalla_webhook::webhook::plan::{
    allowed_zone, create_requests, find_matches, matches_endpoint, priority, removal_requests, ttl,
};
use njalla_webhook::webhook::{Endpoint, ProviderSpecific};

fn config(filter: Option<Vec<&str>>) -> Config {
    Config {
        njalla_api_token: "token".to_string(),
        webhook_host: "127.0.0.1".to_string(),
        webhook_port: 8888,
        domain_filter: filter.map(|zones| zones.into_iter().map(String::from).collect()),
        dry_run: false,
        cache_ttl_seconds: 60,
    }
}

fn endpoint(name: &str, kind: &str, targets: &[&str]) -> Endpoint {
    Endpoint::new(
        name.to_string(),
        kind.to_string(),
        targets.iter().map(|t| t.to_string()).collect(),
    )
}

fn record(id: &str, name: &str, kind: &str, content: &str) -> DnsRecord {
    DnsRecord {
        id: id.to_string(),
        name: name.to_string(),
        record_type: kind.to_string(),
        content: content.to_string(),
        ttl: Some(300),
        priority: None,
    }
}

fn attribute(name: &str, value: &str) -> ProviderSpecific {
    ProviderSpecific { name: name.to_string(), value: value.to_string() }
}

#[test]
fn record_matches_by_name_type_and_value() {
    let wanted = endpoint("www.example.com", "A", &["1.1.1.1", "2.2.2.2"]);
    assert!(matches_endpoint(&record("1", "www", "A", "1.1.1.1"), &wanted, "www"));
    assert!(matches_endpoint(&record("1", "www", "A", "2.2.2.2"), &wanted, "www"));
    assert!(!matches_endpoint(&record("1", "www", "A", "3.3.3.3"), &wanted, "www"));
    assert!(!matches_endpoint(&record("1", "www", "AAAA", "1.1.1.1"), &wanted, "www"));
    assert!(!matches_endpoint(&record("1", "ftp", "A", "1.1.1.1"), &wanted, "www"));
    assert!(!matches_endpoint(&record("1", "WWW", "A", "1.1.1.1"), &wanted, "www"));
}

#[test]
fn both_spellings_of_the_apex_match_the_empty_name() {
    let wanted = endpoint("example.com", "A", &["1.1.1.1"]);
    assert!(matches_endpoint(&record("1", "", "A", "1.1.1.1"), &wanted, ""));
    assert!(matches_endpoint(&record("1", "@", "A", "1.1.1.1"), &wanted, ""));
    assert!(!matches_endpoint(&record("1", "@", "A", "1.1.1.1"), &wanted, "@"));
    assert!(!matches_endpoint(&record("1", "www", "A", "1.1.1.1"), &wanted, ""));
}

#[test]
fn all_matches_are_found_in_order() {
    let wanted = endpoint("www.example.com", "A", &["1.1.1.1", "2.2.2.2"]);
    let live = vec![
        record("10", "www", "A", "2.2.2.2"),
        record("11", "www", "TXT", "1.1.1.1"),
        record("12", "", "A", "1.1.1.1"),
        record("13", "www", "A", "1.1.1.1"),
        record("14", "www", "A", "9.9.9.9"),
    ];
    assert_eq!(
        find_matches(&live, &wanted, "www"),
        vec![record("10", "www", "A", "2.2.2.2"), record("13", "www", "A", "1.1.1.1")]
    );
    assert!(find_matches(&live, &wanted, "ftp").is_empty());
    assert!(find_matches(&vec![], &wanted, "www").is_empty());
}

#[test]
fn removal_names_zone_and_record_id() {
    let wanted = endpoint("www.example.com", "A", &["1.1.1.1", "2.2.2.2"]);
    let live = vec![
        record("10", "www", "A", "2.2.2.2"),
        record("12", "", "A", "1.1.1.1"),
        record("13", "www", "A", "1.1.1.1"),
    ];
    assert_eq!(
        removal_requests(&wanted, "example.com", &live),
        vec![
            RemoveRecordRequest { domain: "example.com".to_string(), id: "10".to_string() },
            RemoveRecordRequest { domain: "example.com".to_string(), id: "13".to_string() },
        ]
    );
}

#[test]
fn removal_of_what_is_not_there_asks_for_nothing() {
    let wanted = endpoint("gone.example.com", "A", &["1.1.1.1"]);
    let live = vec![record("10", "www", "A", "1.1.1.1")];
    assert!(removal_requests(&wanted, "example.com", &live).is_empty());
    assert!(removal_requests(&wanted, "example.com", &vec![]).is_empty());
}

#[test]
fn creation_asks_for_one_record_per_target() {
    let wanted = endpoint("www.example.com", "A", &["1.1.1.1", "2.2.2.2"]).with_ttl(120);
    let request = |content: &str| AddRecordRequest {
        domain: "example.com".to_string(),
        name: "www".to_string(),
        record_type: "A".to_string(),
        content: content.to_string(),
        ttl: 120,
        priority: None,
    };
    assert_eq!(
        create_requests(&wanted, "example.com"),
        vec![request("1.1.1.1"), request("2.2.2.2")]
    );
    assert!(create_requests(&endpoint("www.example.com", "A", &[]), "example.com").is_empty());
}

#[test]
fn creation_at_apex_has_the_empty_name() {
    let wanted = endpoint("example.com", "TXT", &["v=spf1 -all"]);
    let requests = create_requests(&wanted, "example.com");
    assert_eq!(requests.len(), 1);
    assert_eq!(requests[0].name, "");
    assert_eq!(requests[0].ttl, 3600);
}

#[test]
fn ttl_defaults_to_an_hour() {
    assert_eq!(ttl(&endpoint("a.example.com", "A", &[])), 3600);
    assert_eq!(ttl(&endpoint("a.example.com", "A", &[]).with_ttl(0)), 0);
    assert_eq!(ttl(&endpoint("a.example.com", "A", &[]).with_ttl(86400)), 86400);
}

#[test]
fn ttl_outside_32_bits_is_reduced() {
    assert_eq!(ttl(&endpoint("a.example.com", "A", &[]).with_ttl(-1)), u32::MAX);
    assert_eq!(ttl(&endpoint("a.example.com", "A", &[]).with_ttl(1 << 32)), 0);
    assert_eq!(ttl(&endpoint("a.example.com", "A", &[]).with_ttl((1 << 32) + 5)), 5);
    assert_eq!(ttl(&endpoint("a.example.com", "A", &[]).with_ttl(i64::MIN)), 0);
}

#[test]
fn priority_is_read_from_the_first_attribute_of_that_name() {
    let mut wanted = endpoint("example.com", "MX", &["mail.example.com"]);
    assert_eq!(priority(&wanted), None);
    wanted.provider_specific = vec![attribute("weight", "3"), attribute("priority", "10")];
    assert_eq!(priority(&wanted), Some(10));
    wanted.provider_specific = vec![attribute("priority", "ten"), attribute("priority", "10")];
    assert_eq!(priority(&wanted), None);
    wanted.provider_specific = vec![attribute("priority", "20"), attribute("priority", "10")];
    assert_eq!(priority(&wanted), Some(20));
    wanted.provider_specific = vec![attribute("priority", "-1")];
    assert_eq!(priority(&wanted), None);
    wanted.provider_specific = vec![attribute("priority", "4294967296")];
    assert_eq!(priority(&wanted), None);
    wanted.provider_specific = vec![attribute("Priority", "1")];
    assert_eq!(priority(&wanted), None);
    wanted.provider_specific = vec![attribute("priority", "7")];
    assert_eq!(create_requests(&wanted, "example.com")[0].priority, Some(7));
}

#[test]
fn shown_record_is_created_as_it_was() {
    let live = DnsRecord {
        id: "5".to_string(),
        name: "mail".to_string(),
        record_type: "MX".to_string(),
        content: "mx.example.net".to_string(),
        ttl: Some(900),
        priority: Some(10),
    };
    let shown = Endpoint::from_njalla_record(&live, "example.com");
    assert_eq!(
        create_requests(&shown, "example.com"),
        vec![AddRecordRequest {
            domain: "example.com".to_string(),
            name: "mail".to_string(),
            record_type: "MX".to_string(),
            content: "mx.example.net".to_string(),
            ttl: 900,
            priority: Some(10),
        }]
    );
    assert_eq!(find_matches(&vec![live.clone()], &shown, "mail"), vec![live]);
}

#[test]
fn zone_must_be_found_and_allowed() {
    let open = config(None);
    assert_eq!(
        allowed_zone(&open, &endpoint("www.example.com", "A", &[])),
        Ok("example.com".to_string())
    );
    assert_eq!(
        allowed_zone(&open, &endpoint("localhost", "A", &[])),
        Err(Error::InvalidRequest("Cannot extract zone from localhost".to_string()))
    );
    let listed = config(Some(vec!["example.com"]));
    assert_eq!(
        allowed_zone(&listed, &endpoint("www.example.com", "A", &[])),
        Ok("example.com".to_string())
    );
    assert_eq!(
        allowed_zone(&listed, &endpoint("www.example.org", "A", &[])),
        Err(Error::DomainNotAllowed("example.org".to_string()))
    );
    assert_eq!(
        allowed_zone(&listed, &endpoint("www.notexample.com", "A", &[])),
        Ok("notexample.com".to_string())
    );
}
