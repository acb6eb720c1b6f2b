use njalla_webhook::config::Config;
use njalla_webhook::error::Error;
use njalla_webhook::njalla::{AddRecordRequest, DnsRecord, RemoveRecordRequest};
use njalla_webhook::webhook::batch::{conclude, describe_failure, summary, Action, ChangeKind};
use njalla_webhook::webhook::reconciler::operations;
use njalla_webhook::webhook::{
    ApplyChangesRequest, ApplyChangesResponse, Changes, Endpoint, ProviderCall, ProviderReply,
    Reconciler, Step, WebhookHandler,
};

fn config(filter: Option<Vec<&str>>, dry_run: bool) -> Config {
    Config {
        njalla_api_token: "token".to_string(),
        webhook_host: "127.0.0.1".to_string(),
        webhook_port: 8888,
        domain_filter: filter.map(|zones| zones.into_iter().map(String::from).collect()),
        dry_run,
        cache_ttl_seconds: 60,
    }
}

fn endpoint(name: &str, kind: &str, targets: &[&str]) -> Endpoint {
    Endpoint::new(
        name.to_string(),
        kind.to_string(),
        targets.iter().map(|t| t.to_string()).collect(),
    )
}

fn record(id: &str, name: &str, kind: &str, content: &str) -> DnsRecord {
    DnsRecord {
        id: id.to_string(),
        name: name.to_string(),
        record_type: kind.to_string(),
        content: content.to_string(),
        ttl: Some(300),
        priority: None,
    }
}

fn nothing() -> Changes {
    Changes { create: vec![], update_old: vec![], update_new: vec![], delete: vec![] }
}

fn list(zone: &str) -> ProviderCall {
    ProviderCall::ListRecords { zone: zone.to_string() }
}

fn add(zone: &str, name: &str, kind: &str, content: &str) -> ProviderCall {
    ProviderCall::AddRecord(AddRecordRequest {
        domain: zone.to_string(),
        name: name.to_string(),
        record_type: kind.to_string(),
        content: content.to_string(),
        ttl: 3600,
        priority: None,
    })
}

fn remove(zone: &str, id: &str) -> ProviderCall {
    ProviderCall::RemoveRecord(RemoveRecordRequest { domain: zone.to_string(), id: id.to_string() })
}

fn message(text: &str) -> Result<ApplyChangesResponse, Error> {
    Ok(ApplyChangesResponse { message: text.to_string() })
}

fn down() -> ProviderReply {
    ProviderReply::Failed(Error::NjallaApi("down".to_string()))
}

/// A provider that holds `live` in every zone and does what it is asked.
fn obliging(live: Vec<DnsRecord>) -> impl FnMut(&ProviderCall) -> ProviderReply {
    move |call| match call {
        ProviderCall::ListRecords { .. } => ProviderReply::Records(live.clone()),
        _ => ProviderReply::Done,
    }
}

fn drive(
    config: Config,
    changes: Changes,
    mut provider: impl FnMut(&ProviderCall) -> ProviderReply,
) -> (Vec<ProviderCall>, Result<ApplyChangesResponse, Error>) {
    let (mut machine, mut step) = Reconciler::new(config, changes);
    let mut calls = Vec::new();
    loop {
        match step {
            Step::Call(call) => {
                assert!(machine.is_waiting());
                let reply = provider(&call);
                calls.push(call);
                step = machine.resume(reply);
            }
            Step::Finished(answer) => {
                assert!(!machine.is_waiting());
                return (calls, answer);
            }
        }
    }
}

#[test]
fn empty_batch_is_answered_without_a_call() {
    let (machine, step) = Reconciler::new(config(None, false), nothing());
    assert!(!machine.is_waiting());
    assert_eq!(step, Step::Finished(message("No changes to apply")));
    let (calls, answer) = drive(config(Some(vec![]), true), nothing(), |_| down());
    assert!(calls.is_empty());
    assert_eq!(answer, message("No changes to apply"));
}

#[test]
fn handler_begins_a_batch_under_its_settings() {
    let handler = WebhookHandler::new(config(Some(vec!["example.com"]), false));
    let request = ApplyChangesRequest {
        changes: Changes { create: vec![endpoint("a.example.org", "A", &["1.1.1.1"])], ..nothing() },
    };
    let (machine, step) = handler.apply_changes(request);
    assert!(!machine.is_waiting());
    assert_eq!(
        step,
        Step::Finished(Err(Error::Internal(
            "All operations failed: [\"Create a.example.org: Domain not allowed: example.org\"]"
                .to_string()
        )))
    );
    let (machine, step) = handler.apply_changes(ApplyChangesRequest { changes: nothing() });
    assert!(!machine.is_waiting());
    assert_eq!(step, Step::Finished(message("No changes to apply")));
}

#[test]
fn creation_adds_each_target_in_order() {
    let changes = Changes {
        create: vec![
            endpoint("www.example.com", "A", &["1.1.1.1", "2.2.2.2"]),
            endpoint("example.com", "TXT", &["hello"]),
        ],
        ..nothing()
    };
    let (calls, answer) = drive(config(None, false), changes, obliging(vec![]));
    assert_eq!(
        calls,
        vec![
            add("example.com", "www", "A", "1.1.1.1"),
            add("example.com", "www", "A", "2.2.2.2"),
            add("example.com", "", "TXT", "hello"),
        ]
    );
    assert_eq!(answer, message("Successfully applied 2 changes"));
}

#[test]
fn one_of_two_creations_fails() {
    let changes = Changes {
        create: vec![
            endpoint("www.example.com", "A", &["1.1.1.1"]),
            endpoint("www.example.org", "A", &["2.2.2.2"]),
        ],
        ..nothing()
    };
    let (calls, answer) =
        drive(config(Some(vec!["example.com"]), false), changes, obliging(vec![]));
    assert_eq!(calls, vec![add("example.com", "www", "A", "1.1.1.1")]);
    assert_eq!(
        answer,
        message(
            "Applied 1 changes with 1 errors: [\"Create www.example.org: Domain not allowed: example.org\"]"
        )
    );
}

#[test]
fn all_creations_fail() {
    let changes = Changes {
        create: vec![
            endpoint("www.example.org", "A", &["1.1.1.1"]),
            endpoint("localhost", "A", &["2.2.2.2"]),
        ],
        ..nothing()
    };
    let (calls, answer) =
        drive(config(Some(vec!["example.com"]), false), changes, obliging(vec![]));
    assert!(calls.is_empty());
    assert_eq!(
        answer,
        Err(Error::Internal(
            "All operations failed: [\"Create www.example.org: Domain not allowed: example.org\", \"Create localhost: Invalid request: Cannot extract zone from localhost\"]"
                .to_string()
        ))
    );
}

#[test]
fn creation_stops_at_the_first_failed_write() {
    let changes = Changes {
        create: vec![
            endpoint("www.example.com", "A", &["1.1.1.1", "2.2.2.2", "3.3.3.3"]),
            endpoint("ftp.example.com", "A", &["4.4.4.4"]),
        ],
        ..nothing()
    };
    let mut count = 0;
    let (calls, answer) = drive(config(None, false), changes, |_| {
        count += 1;
        if count == 2 {
            down()
        } else {
            ProviderReply::Done
        }
    });
    assert_eq!(
        calls,
        vec![
            add("example.com", "www", "A", "1.1.1.1"),
            add("example.com", "www", "A", "2.2.2.2"),
            add("example.com", "ftp", "A", "4.4.4.4"),
        ]
    );
    assert_eq!(
        answer,
        message(
            "Applied 1 changes with 1 errors: [\"Create www.example.com: Njalla API error: down\"]"
        )
    );
}

#[test]
fn creation_without_targets_makes_no_call_and_counts() {
    let changes = Changes { create: vec![endpoint("www.example.com", "A", &[])], ..nothing() };
    let (calls, answer) = drive(config(None, false), changes, |_| down());
    assert!(calls.is_empty());
    assert_eq!(answer, message("Successfully applied 1 changes"));
}

#[test]
fn deletion_removes_every_match() {
    let live = vec![
        record("1", "www", "A", "1.1.1.1"),
        record("2", "www", "A", "9.9.9.9"),
        record("3", "www", "A", "2.2.2.2"),
        record("4", "@", "A", "1.1.1.1"),
    ];
    let changes = Changes {
        delete: vec![endpoint("www.example.com", "A", &["1.1.1.1", "2.2.2.2"])],
        ..nothing()
    };
    let (calls, answer) = drive(config(None, false), changes, obliging(live));
    assert_eq!(calls, vec![list("example.com"), remove("example.com", "1"), remove("example.com", "3")]);
    assert_eq!(answer, message("Successfully applied 1 changes"));
}

#[test]
fn deletion_of_what_is_not_there_is_no_failure() {
    let live = vec![record("1", "www", "A", "1.1.1.1")];
    let changes = Changes {
        delete: vec![endpoint("gone.example.com", "A", &["1.1.1.1"])],
        ..nothing()
    };
    let (calls, answer) = drive(config(None, false), changes.clone(), obliging(live));
    assert_eq!(calls, vec![list("example.com")]);
    assert_eq!(answer, message("Successfully applied 1 changes"));
    let (calls, answer) = drive(config(None, false), changes, |_| ProviderReply::Done);
    assert_eq!(calls, vec![list("example.com")]);
    assert_eq!(answer, message("Successfully applied 1 changes"));
}

#[test]
fn deletion_fails_where_the_listing_fails() {
    let changes = Changes {
        delete: vec![endpoint("www.example.com", "A", &["1.1.1.1"])],
        ..nothing()
    };
    let (calls, answer) = drive(config(None, false), changes, |_| {
        ProviderReply::Failed(Error::Network("timed out".to_string()))
    });
    assert_eq!(calls, vec![list("example.com")]);
    assert_eq!(
        answer,
        Err(Error::Internal(
            "All operations failed: [\"Delete www.example.com: Network error: timed out\"]"
                .to_string()
        ))
    );
}

#[test]
fn deletion_stops_at_the_first_failed_removal() {
    let live = vec![
        record("1", "www", "A", "1.1.1.1"),
        record("2", "www", "A", "2.2.2.2"),
        record("3", "www", "A", "3.3.3.3"),
    ];
    let changes = Changes {
        delete: vec![endpoint("www.example.com", "A", &["1.1.1.1", "2.2.2.2", "3.3.3.3"])],
        ..nothing()
    };
    let (calls, answer) = drive(config(None, false), changes, |call| match call {
        ProviderCall::ListRecords { .. } => ProviderReply::Records(live.clone()),
        ProviderCall::RemoveRecord(request) if request.id == "2" => down(),
        _ => ProviderReply::Done,
    });
    assert_eq!(calls, vec![list("example.com"), remove("example.com", "1"), remove("example.com", "2")]);
    assert_eq!(
        answer,
        Err(Error::Internal(
            "All operations failed: [\"Delete www.example.com: Njalla API error: down\"]"
                .to_string()
        ))
    );
}

#[test]
fn deletions_come_before_updates_before_creations() {
    let live = vec![record("1", "old", "A", "1.1.1.1"), record("2", "del", "A", "2.2.2.2")];
    let changes = Changes {
        create: vec![endpoint("new.example.com", "A", &["3.3.3.3"])],
        update_old: vec![endpoint("old.example.com", "A", &["1.1.1.1"])],
        update_new: vec![endpoint("old.example.com", "A", &["4.4.4.4"])],
        delete: vec![endpoint("del.example.com", "A", &["2.2.2.2"])],
    };
    let (calls, answer) = drive(config(None, false), changes, obliging(live));
    assert_eq!(
        calls,
        vec![
            list("example.com"),
            remove("example.com", "2"),
            list("example.com"),
            remove("example.com", "1"),
            add("example.com", "old", "A", "4.4.4.4"),
            add("example.com", "new", "A", "3.3.3.3"),
        ]
    );
    assert_eq!(answer, message("Successfully applied 3 changes"));
}

#[test]
fn update_makes_the_calls_of_deletion_then_creation() {
    let live = vec![record("1", "www", "A", "1.1.1.1"), record("2", "www", "A", "2.2.2.2")];
    let old = endpoint("www.example.com", "A", &["1.1.1.1", "2.2.2.2"]);
    let new = endpoint("www.example.com", "A", &["5.5.5.5", "6.6.6.6"]);
    let update = Changes { update_old: vec![old.clone()], update_new: vec![new.clone()], ..nothing() };
    let (updated, answer) = drive(config(None, false), update, obliging(live.clone()));
    assert_eq!(answer, message("Successfully applied 1 changes"));
    let (mut separate, _) =
        drive(config(None, false), Changes { delete: vec![old], ..nothing() }, obliging(live.clone()));
    let (created, _) =
        drive(config(None, false), Changes { create: vec![new], ..nothing() }, obliging(live));
    separate.extend(created);
    assert_eq!(updated, separate);
    assert_eq!(updated.len(), 5);
}

#[test]
fn update_creates_even_where_its_deletion_failed() {
    let old = endpoint("www.example.com", "A", &["1.1.1.1"]);
    let new = endpoint("www.example.com", "A", &["5.5.5.5"]);
    let update = Changes { update_old: vec![old], update_new: vec![new], ..nothing() };
    let (calls, answer) = drive(config(None, false), update, |call| match call {
        ProviderCall::ListRecords { .. } => down(),
        _ => ProviderReply::Done,
    });
    assert_eq!(calls, vec![list("example.com"), add("example.com", "www", "A", "5.5.5.5")]);
    assert_eq!(
        answer,
        Err(Error::Internal(
            "All operations failed: [\"Update www.example.com: Njalla API error: down\"]"
                .to_string()
        ))
    );
}

#[test]
fn update_reports_each_half_that_failed() {
    let old = endpoint("old.example.org", "A", &["1.1.1.1"]);
    let new = endpoint("new.example.org", "A", &["5.5.5.5"]);
    let changes = Changes {
        create: vec![endpoint("www.example.com", "A", &["7.7.7.7"])],
        update_old: vec![old],
        update_new: vec![new],
        ..nothing()
    };
    let (calls, answer) =
        drive(config(Some(vec!["example.com"]), false), changes, obliging(vec![]));
    assert_eq!(calls, vec![add("example.com", "www", "A", "7.7.7.7")]);
    assert_eq!(
        answer,
        message(
            "Applied 1 changes with 2 errors: [\"Update old.example.org: Domain not allowed: example.org\", \"Update new.example.org: Domain not allowed: example.org\"]"
        )
    );
}

#[test]
fn updates_pair_by_position_and_the_unpaired_are_left() {
    let live = vec![record("1", "a", "A", "1.1.1.1"), record("2", "b", "A", "2.2.2.2")];
    let changes = Changes {
        update_old: vec![
            endpoint("a.example.com", "A", &["1.1.1.1"]),
            endpoint("b.example.com", "A", &["2.2.2.2"]),
        ],
        update_new: vec![endpoint("a.example.com", "A", &["3.3.3.3"])],
        ..nothing()
    };
    let (calls, answer) = drive(config(None, false), changes, obliging(live));
    assert_eq!(
        calls,
        vec![list("example.com"), remove("example.com", "1"), add("example.com", "a", "A", "3.3.3.3")]
    );
    assert_eq!(answer, message("Successfully applied 1 changes"));
    let unpaired = Changes { update_old: vec![endpoint("a.example.com", "A", &["1.1.1.1"])], ..nothing() };
    let (calls, answer) = drive(config(None, false), unpaired, |_| down());
    assert!(calls.is_empty());
    assert_eq!(answer, message("Successfully applied 0 changes"));
}

#[test]
fn dry_run_only_lists_and_counts_as_if_applied() {
    let live = vec![record("1", "old", "A", "1.1.1.1"), record("2", "del", "A", "2.2.2.2")];
    let changes = Changes {
        create: vec![
            endpoint("new.example.com", "A", &["3.3.3.3"]),
            endpoint("new.example.org", "A", &["3.3.3.3"]),
        ],
        update_old: vec![endpoint("old.example.com", "A", &["1.1.1.1"])],
        update_new: vec![endpoint("old.example.com", "A", &["4.4.4.4"])],
        delete: vec![endpoint("del.example.com", "A", &["2.2.2.2"])],
    };
    let allowed = Some(vec!["example.com"]);
    let (dry, dry_answer) =
        drive(config(allowed.clone(), true), changes.clone(), obliging(live.clone()));
    assert_eq!(dry, vec![list("example.com"), list("example.com")]);
    let (real, real_answer) = drive(config(allowed, false), changes, obliging(live));
    assert_eq!(real.len(), 6);
    assert_eq!(dry_answer, real_answer);
    assert_eq!(
        dry_answer,
        message(
            "Applied 3 changes with 1 errors: [\"Create new.example.org: Domain not allowed: example.org\"]"
        )
    );
}

#[test]
fn dry_run_holds_back_the_writes_of_the_real_run() {
    let live = vec![record("1", "old", "A", "1.1.1.1"), record("2", "del", "A", "2.2.2.2")];
    let changes = Changes {
        create: vec![endpoint("new.example.com", "A", &["3.3.3.3", "3.3.3.4"])],
        update_old: vec![endpoint("old.example.com", "A", &["1.1.1.1"])],
        update_new: vec![endpoint("old.example.com", "A", &["4.4.4.4"])],
        delete: vec![endpoint("del.example.com", "A", &["2.2.2.2"])],
    };
    let (mut machine, mut step) = Reconciler::new(config(None, true), changes.clone());
    assert!(machine.withheld().is_empty());
    let mut provider = obliging(live.clone());
    let mut lists = 0;
    while let Step::Call(call) = step {
        assert_eq!(call, list("example.com"));
        lists += 1;
        step = machine.resume(provider(&call));
    }
    assert_eq!(lists, 2);
    assert_eq!(step, Step::Finished(message("Successfully applied 3 changes")));
    let (real, _) = drive(config(None, false), changes, obliging(live));
    let writes: Vec<ProviderCall> =
        real.into_iter().filter(|call| !matches!(call, ProviderCall::ListRecords { .. })).collect();
    assert_eq!(machine.withheld(), &writes);
    assert_eq!(
        writes,
        vec![
            remove("example.com", "2"),
            remove("example.com", "1"),
            add("example.com", "old", "A", "4.4.4.4"),
            add("example.com", "new", "A", "3.3.3.3"),
            add("example.com", "new", "A", "3.3.3.4"),
        ]
    );
}

#[test]
fn real_run_holds_nothing_back() {
    let changes = Changes {
        create: vec![endpoint("new.example.com", "A", &["3.3.3.3"])],
        delete: vec![endpoint("del.example.com", "A", &["2.2.2.2"])],
        ..nothing()
    };
    let (mut machine, mut step) = Reconciler::new(config(None, false), changes);
    let mut provider = obliging(vec![record("2", "del", "A", "2.2.2.2")]);
    while let Step::Call(call) = step {
        assert!(machine.withheld().is_empty());
        step = machine.resume(provider(&call));
    }
    assert!(machine.withheld().is_empty());
    assert_eq!(step, Step::Finished(message("Successfully applied 2 changes")));
}

#[test]
fn dry_run_still_fails_where_the_listing_fails() {
    let changes = Changes {
        delete: vec![endpoint("www.example.com", "A", &["1.1.1.1"])],
        ..nothing()
    };
    let (calls, answer) = drive(config(None, true), changes, |_| down());
    assert_eq!(calls, vec![list("example.com")]);
    assert_eq!(
        answer,
        Err(Error::Internal(
            "All operations failed: [\"Delete www.example.com: Njalla API error: down\"]"
                .to_string()
        ))
    );
}

#[test]
fn operations_follow_the_lists_of_the_batch() {
    let changes = Changes {
        create: vec![endpoint("c.example.com", "A", &["3.3.3.3"])],
        update_old: vec![endpoint("o.example.com", "A", &["1.1.1.1"]), endpoint("x.example.com", "A", &[])],
        update_new: vec![endpoint("n.example.com", "A", &["4.4.4.4"])],
        delete: vec![endpoint("d.example.com", "A", &["2.2.2.2"])],
    };
    let list = operations(&changes);
    let shape: Vec<(Action, ChangeKind, &str, bool)> = list
        .iter()
        .map(|op| (op.action, op.kind, op.endpoint.dns_name.as_str(), op.closes))
        .collect();
    assert_eq!(
        shape,
        vec![
            (Action::Delete, ChangeKind::Delete, "d.example.com", true),
            (Action::Delete, ChangeKind::Update, "o.example.com", false),
            (Action::Create, ChangeKind::Update, "n.example.com", true),
            (Action::Create, ChangeKind::Create, "c.example.com", true),
        ]
    );
}

#[test]
fn answer_counts_changes_and_lists_failures() {
    assert_eq!(summary(0, 0, "[]"), message("Successfully applied 0 changes"));
    assert_eq!(summary(12, 0, "ignored"), message("Successfully applied 12 changes"));
    assert_eq!(
        summary(0, 2, "[\"a\", \"b\"]"),
        Err(Error::Internal("All operations failed: [\"a\", \"b\"]".to_string()))
    );
    assert_eq!(
        summary(3, 1, "[\"a\"]"),
        message("Applied 3 changes with 1 errors: [\"a\"]")
    );
}

#[test]
fn failures_are_listed_as_debug_writes_them() {
    let errors = vec!["plain".to_string(), "quote \" and \\ and \n".to_string()];
    assert_eq!(
        conclude(1, &errors),
        message("Applied 1 changes with 2 errors: [\"plain\", \"quote \\\" and \\\\ and \\n\"]")
    );
    assert_eq!(
        conclude(0, &errors),
        Err(Error::Internal(format!("All operations failed: {:?}", errors)))
    );
    assert_eq!(conclude(4, &vec![]), message("Successfully applied 4 changes"));
}

#[test]
fn failure_is_described_by_kind_name_and_cause() {
    let cause = Error::DomainNotAllowed("example.org".to_string());
    assert_eq!(
        describe_failure(ChangeKind::Delete, "a.example.org", &cause),
        "Delete a.example.org: Domain not allowed: example.org"
    );
    assert_eq!(
        describe_failure(ChangeKind::Update, "a.example.org", &cause),
        "Update a.example.org: Domain not allowed: example.org"
    );
    assert_eq!(
        describe_failure(ChangeKind::Create, "", &Error::Other("x".to_string())),
        "Create : x"
    );
}
