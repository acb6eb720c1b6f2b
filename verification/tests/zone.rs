use njalla_webhook::config::Config;
use njalla_webhook::error::Error;
use njalla_webhook::webhook::zone::{name_lies_in, relative_name_in, resolve_zone};
use njalla_webhook::webhook::WebhookHandler;

fn config(filter: Option<Vec<&str>>) -> Config {
    Config {
        njalla_api_token: "token".to_string(),
        webhook_host: "127.0.0.1".to_string(),
        webhook_port: 8888,
        domain_filter: filter.map(|zones| zones.into_iter().map(String::from).collect()),
        dry_run: false,
        cache_ttl_seconds: 60,
    }
}

#[test]
fn zone_without_allow_list_is_last_two_labels() {
    assert_eq!(resolve_zone("a.b.example.com", &None), Ok("example.com".to_string()));
    assert_eq!(resolve_zone("sub.example.com", &None), Ok("example.com".to_string()));
    assert_eq!(resolve_zone("example.com", &None), Ok("example.com".to_string()));
}

#[test]
fn zone_of_name_with_one_label_is_refused() {
    assert_eq!(
        resolve_zone("localhost", &None),
        Err(Error::InvalidRequest("Cannot extract zone from localhost".to_string()))
    );
    assert_eq!(
        resolve_zone("", &None),
        Err(Error::InvalidRequest("Cannot extract zone from ".to_string()))
    );
}

#[test]
fn zone_of_odd_names_follows_the_dots() {
    assert_eq!(resolve_zone("a.", &None), Ok("a.".to_string()));
    assert_eq!(resolve_zone("..", &None), Ok(".".to_string()));
    assert_eq!(resolve_zone("www.bücher.example", &None), Ok("bücher.example".to_string()));
}

#[test]
fn listed_zone_wins_over_last_two_labels() {
    let zones = Some(vec!["dev.example.com".to_string(), "example.com".to_string()]);
    assert_eq!(resolve_zone("api.dev.example.com", &zones), Ok("dev.example.com".to_string()));
    assert_eq!(resolve_zone("dev.example.com", &zones), Ok("dev.example.com".to_string()));
    assert_eq!(resolve_zone("www.example.com", &zones), Ok("example.com".to_string()));
}

#[test]
fn first_listed_zone_wins_even_if_less_specific() {
    let zones = Some(vec!["example.com".to_string(), "dev.example.com".to_string()]);
    assert_eq!(resolve_zone("api.dev.example.com", &zones), Ok("example.com".to_string()));
}

#[test]
fn unlisted_name_falls_back_to_last_two_labels() {
    let zones = Some(vec!["example.com".to_string()]);
    assert_eq!(resolve_zone("www.other.org", &zones), Ok("other.org".to_string()));
    assert_eq!(resolve_zone("notexample.com", &zones), Ok("notexample.com".to_string()));
    assert_eq!(
        resolve_zone("nodots", &zones),
        Err(Error::InvalidRequest("Cannot extract zone from nodots".to_string()))
    );
}

#[test]
fn name_lies_in_zone_on_label_boundary_only() {
    assert!(name_lies_in("example.com", "example.com"));
    assert!(name_lies_in("a.example.com", "example.com"));
    assert!(!name_lies_in("notexample.com", "example.com"));
    assert!(!name_lies_in("example.com", "a.example.com"));
}

#[test]
fn relative_name_strips_the_zone() {
    assert_eq!(relative_name_in("example.com", "example.com"), "");
    assert_eq!(relative_name_in("www.example.com", "example.com"), "www");
    assert_eq!(relative_name_in("a.b.example.com", "example.com"), "a.b");
    assert_eq!(relative_name_in("www.other.org", "example.com"), "www.other.org");
    assert_eq!(relative_name_in("notexample.com", "example.com"), "notexample.com");
    assert_eq!(relative_name_in("bücher.example.com", "example.com"), "bücher");
}

#[test]
fn handler_resolves_with_its_allow_list() {
    let handler = WebhookHandler::new(config(Some(vec!["example.com"])));
    assert_eq!(handler.extract_zone("a.b.example.com"), Ok("example.com".to_string()));
    assert_eq!(handler.extract_record_name("a.b.example.com", "example.com"), "a.b");
    let open = WebhookHandler::new(config(None));
    assert_eq!(open.extract_zone("a.b.example.com"), Ok("example.com".to_string()));
}

#[test]
fn allow_list_is_a_plain_suffix_test() {
    let open = config(None);
    assert!(open.is_domain_allowed("anything.at.all"));
    let listed = config(Some(vec!["example.com", "example.org"]));
    assert!(listed.is_domain_allowed("example.com"));
    assert!(listed.is_domain_allowed("www.example.org"));
    assert!(listed.is_domain_allowed("notexample.com"));
    assert!(!listed.is_domain_allowed("example.net"));
    let none = config(Some(vec![]));
    assert!(!none.is_domain_allowed("example.com"));
}
