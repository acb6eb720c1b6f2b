//! What the provider is asked to do for one endpoint.

use crate::config::{domain_allowed, Config, ConfigView};
use crate::error::{text_result, Error, ErrorView};
use crate::njalla::types::{
    AddRecordRequest, AddRecordRequestView, DnsRecord, DnsRecordView, RemoveRecordRequest,
    RemoveRecordRequestView,
};
use crate::text::{lemma_decimal_is_read_back, parse_u32, parse_unsigned, text_eq};
use crate::webhook::types::{
    endpoint_of, full_name, is_apex, Endpoint, EndpointView, ProviderSpecificView,
};
use crate::webhook::zone::{relative_name, relative_name_in, resolve_zone, zone_of};
use vstd::prelude::*;

verus! {

/// The time to live that a new record gets where its endpoint names none.
pub const DEFAULT_TTL: u32 = 3600;

/// A provider's record name with both spellings of the apex made empty.
pub open spec fn normalized_name(name: Seq<char>) -> Seq<char> {
    if is_apex(name) {
        Seq::empty()
    } else {
        name
    }
}

/// Whether the live `record` is one of those that `endpoint` stands for
/// under the relative name `name`: same name, same type, and a value that
/// the endpoint lists.
pub open spec fn record_matches(
    record: DnsRecordView,
    endpoint: EndpointView,
    name: Seq<char>,
) -> bool {
    &&& normalized_name(record.name) == name
    &&& record.record_type == endpoint.record_type
    &&& endpoint.targets.contains(record.content)
}

/// [`record_matches`] as a test on records.
pub open spec fn matching(endpoint: EndpointView, name: Seq<char>) -> spec_fn(
    DnsRecordView,
) -> bool {
    |record: DnsRecordView| record_matches(record, endpoint, name)
}

/// The live records that `endpoint` stands for, in the order of `live`.
pub open spec fn matching_records(
    live: Seq<DnsRecordView>,
    endpoint: EndpointView,
    name: Seq<char>,
) -> Seq<DnsRecordView> {
    live.filter(matching(endpoint, name))
}

/// The time to live of the records made for `endpoint`: the default where
/// it names none, else its own, reduced to 32 bits.
pub open spec fn ttl_of(endpoint: EndpointView) -> u32 {
    match endpoint.record_ttl {
        Some(ttl) => (ttl as int % 0x1_0000_0000) as u32,
        None => DEFAULT_TTL,
    }
}

/// The value of the first of `attributes`, from position `start` on, that
/// is called `name`.
pub open spec fn first_named(
    attributes: Seq<ProviderSpecificView>,
    name: Seq<char>,
    start: int,
) -> Option<Seq<char>>
    decreases attributes.len() - start,
{
    if start < 0 || start >= attributes.len() {
        None
    } else if attributes[start].name == name {
        Some(attributes[start].value)
    } else {
        first_named(attributes, name, start + 1)
    }
}

/// The priority that `endpoint` asks for: the number that its first
/// attribute called `priority` writes, if that is a number of 32 bits.
pub open spec fn priority_of(endpoint: EndpointView) -> Option<u32> {
    match first_named(endpoint.provider_specific, "priority"@, 0) {
        Some(value) => match parse_unsigned(value, u32::MAX as nat) {
            Some(n) => Some(n as u32),
            None => None,
        },
        None => None,
    }
}

/// The request that adds the value `target` of `endpoint` to `zone`.
pub open spec fn add_request(
    endpoint: EndpointView,
    zone: Seq<char>,
    target: Seq<char>,
) -> AddRecordRequestView {
    AddRecordRequestView {
        domain: zone,
        name: relative_name(endpoint.dns_name, zone),
        record_type: endpoint.record_type,
        content: target,
        ttl: ttl_of(endpoint),
        priority: priority_of(endpoint),
    }
}

/// The requests that create `endpoint` in `zone`: one for each of its
/// values, in their order.
pub open spec fn add_requests(endpoint: EndpointView, zone: Seq<char>) -> Seq<
    AddRecordRequestView,
> {
    Seq::new(endpoint.targets.len(), |i: int| add_request(endpoint, zone, endpoint.targets[i]))
}

/// The request that removes `record` from `zone`.
pub open spec fn remove_request(zone: Seq<char>, record: DnsRecordView) -> RemoveRecordRequestView {
    RemoveRecordRequestView { domain: zone, id: record.id }
}

/// The requests that delete `endpoint` from `zone`, whose records are
/// `live`: one for each record that the endpoint stands for, in the order
/// of `live`.
pub open spec fn remove_requests(
    endpoint: EndpointView,
    zone: Seq<char>,
    live: Seq<DnsRecordView>,
) -> Seq<RemoveRecordRequestView> {
    let found = matching_records(live, endpoint, relative_name(endpoint.dns_name, zone));
    Seq::new(found.len(), |i: int| remove_request(zone, found[i]))
}

/// The zone in which `endpoint` may be changed: the zone that owns its
/// name, if the allow-list lets that zone through.
pub open spec fn allowed_zone_of(config: ConfigView, endpoint: EndpointView) -> Result<
    Seq<char>,
    ErrorView,
> {
    match zone_of(endpoint.dns_name, config.domain_filter) {
        Ok(zone) => if domain_allowed(config.domain_filter, zone) {
            Ok(zone)
        } else {
            Err(ErrorView::DomainNotAllowed(zone))
        },
        Err(e) => Err(e),
    }
}

/// The zone in which `endpoint` may be changed.
pub fn allowed_zone(config: &Config, endpoint: &Endpoint) -> (zone: Result<String, Error>)
    ensures
        text_result(zone) == allowed_zone_of(config@, endpoint@),
{
    match resolve_zone(endpoint.dns_name.as_str(), &config.domain_filter) {
        Ok(zone) => if config.is_domain_allowed(zone.as_str()) {
            Ok(zone)
        } else {
            Err(Error::DomainNotAllowed(zone))
        },
        Err(e) => Err(e),
    }
}

/// Whether `list` holds the text `wanted`.
fn holds_text(list: &Vec<String>, wanted: &str) -> (found: bool)
    ensures
        found == list.deep_view().contains(wanted@),
{
    let ghost texts = list.deep_view();
    let mut i: usize = 0;
    while i < list.len()
        invariant
            i <= list.len(),
            texts == list.deep_view(),
            forall|j: int| 0 <= j < i ==> texts[j] != wanted@,
        decreases list.len() - i,
    {
        assert(texts[i as int] == list[i as int]@);
        if text_eq(list[i].as_str(), wanted) {
            return true;
        }
        i += 1;
    }
    false
}

/// Whether the live `record` is one of those that `endpoint` stands for
/// under the relative name `name`.
pub fn matches_endpoint(record: &DnsRecord, endpoint: &Endpoint, name: &str) -> (matches: bool)
    ensures
        matches == record_matches(record@, endpoint@, name@),
{
    proof {
        reveal_strlit("@");
        assert("@"@ =~= seq!['@']);
    }
    let apex = record.name.as_str().is_empty() || text_eq(record.name.as_str(), "@");
    let same_name = if apex {
        name.is_empty()
    } else {
        text_eq(record.name.as_str(), name)
    };
    proof {
        if apex {
            assert(name@.len() == 0 <==> name@ =~= Seq::<char>::empty());
        }
    }
    same_name && text_eq(record.record_type.as_str(), endpoint.record_type.as_str())
        && holds_text(&endpoint.targets, record.content.as_str())
}

/// The live records that `endpoint` stands for under the relative name
/// `name`, in the order of `live`.  There may be none, one, or one for
/// each of the endpoint's values.
pub fn find_matches(live: &Vec<DnsRecord>, endpoint: &Endpoint, name: &str) -> (found: Vec<
    DnsRecord,
>)
    ensures
        found.deep_view() == matching_records(live.deep_view(), endpoint@, name@),
{
    let ghost all = live.deep_view();
    let ghost test = matching(endpoint@, name@);
    let mut found: Vec<DnsRecord> = Vec::new();
    let mut i: usize = 0;
    proof {
        assert(all.take(0) =~= Seq::<DnsRecordView>::empty());
        reveal(Seq::filter);
        assert(found.deep_view() =~= all.take(0).filter(test));
    }
    while i < live.len()
        invariant
            i <= live.len(),
            all == live.deep_view(),
            test == matching(endpoint@, name@),
            found.deep_view() == all.take(i as int).filter(test),
        decreases live.len() - i,
    {
        let ghost before = found.deep_view();
        proof {
            assert(all[i as int] == live[i as int]@);
            assert(all.take(i + 1) =~= all.take(i as int).push(all[i as int]));
            all.take(i as int).lemma_filter_push(all[i as int], test);
        }
        if matches_endpoint(&live[i], endpoint, name) {
            found.push(live[i].duplicate());
            assert(found.deep_view() =~= before.push(all[i as int]));
        }
        i += 1;
    }
    assert(all.take(i as int) =~= all);
    found
}

/// The priority that `endpoint` asks for.
pub fn priority(endpoint: &Endpoint) -> (p: Option<u32>)
    ensures
        p == priority_of(endpoint@),
{
    let ghost attributes = endpoint@.provider_specific;
    let mut i: usize = 0;
    while i < endpoint.provider_specific.len()
        invariant
            i <= endpoint.provider_specific.len(),
            attributes == endpoint.provider_specific.deep_view(),
            attributes == endpoint@.provider_specific,
            first_named(attributes, "priority"@, 0) == first_named(
                attributes,
                "priority"@,
                i as int,
            ),
        decreases endpoint.provider_specific.len() - i,
    {
        assert(attributes[i as int] == endpoint.provider_specific[i as int]@);
        if text_eq(endpoint.provider_specific[i].name.as_str(), "priority") {
            return parse_u32(endpoint.provider_specific[i].value.as_str());
        }
        i += 1;
    }
    None
}

/// The time to live of the records made for `endpoint`.
pub fn ttl(endpoint: &Endpoint) -> (seconds: u32)
    ensures
        seconds == ttl_of(endpoint@),
{
    match endpoint.record_ttl {
        Some(ttl) => {
            let low: u32 = #[verifier::truncate]
            (ttl as u32);
            assert((ttl as u32) as int == (ttl as int) % 0x1_0000_0000) by (bit_vector);
            low
        },
        None => DEFAULT_TTL,
    }
}

/// The requests that create `endpoint` in `zone`.
pub fn create_requests(endpoint: &Endpoint, zone: &str) -> (requests: Vec<AddRecordRequest>)
    ensures
        requests.deep_view() == add_requests(endpoint@, zone@),
{
    let name = relative_name_in(endpoint.dns_name.as_str(), zone);
    let seconds = ttl(endpoint);
    let wanted = priority(endpoint);
    let ghost targets = endpoint@.targets;
    let mut requests: Vec<AddRecordRequest> = Vec::new();
    let mut i: usize = 0;
    while i < endpoint.targets.len()
        invariant
            i <= endpoint.targets.len(),
            targets == endpoint.targets.deep_view(),
            targets == endpoint@.targets,
            name@ == relative_name(endpoint@.dns_name, zone@),
            seconds == ttl_of(endpoint@),
            wanted == priority_of(endpoint@),
            requests.len() == i,
            forall|j: int|
                0 <= j < i ==> (#[trigger] requests[j])@ == add_request(
                    endpoint@,
                    zone@,
                    targets[j],
                ),
        decreases endpoint.targets.len() - i,
    {
        assert(targets[i as int] == endpoint.targets[i as int]@);
        requests.push(
            AddRecordRequest {
                domain: zone.to_owned(),
                name: name.clone(),
                record_type: endpoint.record_type.clone(),
                content: endpoint.targets[i].clone(),
                ttl: seconds,
                priority: wanted,
            },
        );
        i += 1;
    }
    assert(requests.deep_view() =~= add_requests(endpoint@, zone@));
    requests
}

/// The requests that delete `endpoint` from `zone`, whose records are
/// `live`.  Where no live record matches there is nothing to remove, and
/// that is no failure.
pub fn removal_requests(endpoint: &Endpoint, zone: &str, live: &Vec<DnsRecord>) -> (requests: Vec<
    RemoveRecordRequest,
>)
    ensures
        requests.deep_view() == remove_requests(endpoint@, zone@, live.deep_view()),
{
    let name = relative_name_in(endpoint.dns_name.as_str(), zone);
    let found = find_matches(live, endpoint, name.as_str());
    let ghost records = found.deep_view();
    let mut requests: Vec<RemoveRecordRequest> = Vec::new();
    let mut i: usize = 0;
    while i < found.len()
        invariant
            i <= found.len(),
            records == found.deep_view(),
            requests.len() == i,
            forall|j: int|
                0 <= j < i ==> (#[trigger] requests[j])@ == remove_request(zone@, records[j]),
        decreases found.len() - i,
    {
        assert(records[i as int] == found[i as int]@);
        requests.push(RemoveRecordRequest { domain: zone.to_owned(), id: found[i].id.clone() });
        i += 1;
    }
    assert(requests.deep_view() =~= remove_requests(endpoint@, zone@, live.deep_view()));
    requests
}

/// A name that was made of a record's name and its zone is called by the
/// record's name again inside that zone.  This holds of a record at the
/// apex and of every record whose name does not itself end with the zone.
pub proof fn lemma_relative_name_comes_back(name: Seq<char>, zone: Seq<char>)
    requires
        is_apex(name) || !zone.is_suffix_of(name),
    ensures
        relative_name(full_name(name, zone), zone) == normalized_name(name),
{
    if !is_apex(name) {
        let full = name + (seq!['.'] + zone);
        assert(full.len() == name.len() + 1 + zone.len());
        assert(full.subrange(full.len() - (seq!['.'] + zone).len(), full.len() as int) =~= seq!['.']
            + zone);
        assert(full.take(full.len() - zone.len() - 1) =~= name);
    }
}

/// A record that is shown to the controller is one of the records that
/// the endpoint which shows it stands for.  This holds of a record at the
/// apex and of every record whose name does not itself end with the zone.
pub proof fn lemma_shown_record_matches(record: DnsRecordView, zone: Seq<char>)
    requires
        is_apex(record.name) || !zone.is_suffix_of(record.name),
    ensures
        record_matches(
            record,
            endpoint_of(record, zone),
            relative_name(endpoint_of(record, zone).dns_name, zone),
        ),
{
    lemma_relative_name_comes_back(record.name, zone);
    assert(seq![record.content][0] == record.content);
}

/// The request that adds a record like `record` to `zone`: with its name,
/// type, value and priority, and with its time to live or the default.
pub open spec fn request_like(record: DnsRecordView, zone: Seq<char>) -> AddRecordRequestView {
    AddRecordRequestView {
        domain: zone,
        name: normalized_name(record.name),
        record_type: record.record_type,
        content: record.content,
        ttl: match record.ttl {
            Some(ttl) => ttl,
            None => DEFAULT_TTL,
        },
        priority: record.priority,
    }
}

/// A record that is shown to the controller and created again from what
/// was shown is asked for as it was.  This holds of a record at the apex
/// and of every record whose name does not itself end with the zone.
pub proof fn lemma_record_comes_back(record: DnsRecordView, zone: Seq<char>)
    requires
        is_apex(record.name) || !zone.is_suffix_of(record.name),
    ensures
        add_requests(endpoint_of(record, zone), zone) == seq![request_like(record, zone)],
{
    let endpoint = endpoint_of(record, zone);
    lemma_relative_name_comes_back(record.name, zone);
    match record.priority {
        Some(p) => {
            lemma_decimal_is_read_back(p as nat, u32::MAX as nat);
        },
        None => {},
    }
    assert(priority_of(endpoint) == record.priority);
    assert(ttl_of(endpoint) == match record.ttl {
        Some(ttl) => ttl,
        None => DEFAULT_TTL,
    });
    assert(add_requests(endpoint, zone) =~= seq![add_request(endpoint, zone, record.content)]);
}

/// Where no live record matches an endpoint, nothing is asked to be
/// removed for it.
pub proof fn lemma_no_match_no_removal(
    live: Seq<DnsRecordView>,
    endpoint: EndpointView,
    zone: Seq<char>,
)
    requires
        forall|i: int|
            0 <= i < live.len() ==> !record_matches(
                #[trigger] live[i],
                endpoint,
                relative_name(endpoint.dns_name, zone),
            ),
    ensures
        matching_records(live, endpoint, relative_name(endpoint.dns_name, zone)).len() == 0,
        remove_requests(endpoint, zone, live).len() == 0,
    decreases live.len(),
{
    reveal(Seq::filter);
    let name = relative_name(endpoint.dns_name, zone);
    if live.len() > 0 {
        lemma_no_match_no_removal(live.drop_last(), endpoint, zone);
        assert(!matching(endpoint, name)(live.last()));
    }
}

} // verus!
