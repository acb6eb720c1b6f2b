//! The controller's data: endpoints, batches of changes, and the bodies of
//! the webhook's requests and answers.

use crate::config::copy_strings;
use crate::njalla::types::{DnsRecord, DnsRecordView};
use crate::text::{join, decimal, ends_with, format_u64, text_eq};
use std::collections::HashMap;
use vstd::prelude::*;

verus! {

/// The zones that a controller is willing to manage.
#[derive(Debug, Clone, PartialEq, Eq)]
pub struct DomainFilter {
    pub included: Option<Vec<String>>,
    pub exclude: Option<Vec<String>>,
    pub regex: Option<Vec<String>>,
}

/// A [`DomainFilter`] as plain values.
pub struct DomainFilterView {
    pub included: Option<Seq<Seq<char>>>,
    pub exclude: Option<Seq<Seq<char>>>,
    pub regex: Option<Seq<Seq<char>>>,
}

impl View for DomainFilter {
    type V = DomainFilterView;

    open spec fn view(&self) -> DomainFilterView {
        DomainFilterView {
            included: self.included.deep_view(),
            exclude: self.exclude.deep_view(),
            regex: self.regex.deep_view(),
        }
    }
}

impl DeepView for DomainFilter {
    type V = DomainFilterView;

    open spec fn deep_view(&self) -> DomainFilterView {
        self@
    }
}

/// A named value that only one provider understands.
#[derive(Debug, Clone, PartialEq, Eq)]
pub struct ProviderSpecific {
    pub name: String,
    pub value: String,
}

/// A [`ProviderSpecific`] as plain values.
pub struct ProviderSpecificView {
    pub name: Seq<char>,
    pub value: Seq<char>,
}

impl View for ProviderSpecific {
    type V = ProviderSpecificView;

    open spec fn view(&self) -> ProviderSpecificView {
        ProviderSpecificView { name: self.name@, value: self.value@ }
    }
}

impl DeepView for ProviderSpecific {
    type V = ProviderSpecificView;

    open spec fn deep_view(&self) -> ProviderSpecificView {
        self@
    }
}

/// The controller's unit of DNS state: one name of one type with all its
/// values.
#[derive(Debug, Clone, PartialEq, Eq)]
pub struct Endpoint {
    pub dns_name: String,
    pub targets: Vec<String>,
    pub record_type: String,
    pub set_identifier: Option<String>,
    pub record_ttl: Option<i64>,
    pub labels: HashMap<String, String>,
    pub provider_specific: Vec<ProviderSpecific>,
}

/// An [`Endpoint`] as plain values.
pub struct EndpointView {
    pub dns_name: Seq<char>,
    pub targets: Seq<Seq<char>>,
    pub record_type: Seq<char>,
    pub set_identifier: Option<Seq<char>>,
    pub record_ttl: Option<i64>,
    pub labels: Map<Seq<char>, Seq<char>>,
    pub provider_specific: Seq<ProviderSpecificView>,
}

impl View for Endpoint {
    type V = EndpointView;

    open spec fn view(&self) -> EndpointView {
        EndpointView {
            dns_name: self.dns_name@,
            targets: self.targets.deep_view(),
            record_type: self.record_type@,
            set_identifier: self.set_identifier.deep_view(),
            record_ttl: self.record_ttl,
            labels: self.labels.deep_view(),
            provider_specific: self.provider_specific.deep_view(),
        }
    }
}

impl DeepView for Endpoint {
    type V = EndpointView;

    open spec fn deep_view(&self) -> EndpointView {
        self@
    }
}

/// Whether a provider's record name stands for the apex of its zone.
pub open spec fn is_apex(name: Seq<char>) -> bool {
    name.len() == 0 || name == seq!['@']
}

/// The fully-qualified name of a record called `name` in `zone`: the zone
/// itself at the apex, `name` as it is where it already ends with the
/// zone, and otherwise `name`, a dot and the zone.
pub open spec fn full_name(name: Seq<char>, zone: Seq<char>) -> Seq<char> {
    if is_apex(name) {
        zone
    } else if zone.is_suffix_of(name) {
        name
    } else {
        name + (seq!['.'] + zone)
    }
}

/// The attributes that carry a record's priority to the controller: one
/// named `priority` with the number in decimal, or none.
pub open spec fn priority_attributes(priority: Option<u32>) -> Seq<ProviderSpecificView> {
    match priority {
        Some(p) => seq![
            ProviderSpecificView { name: "priority"@, value: decimal(p as nat) },
        ],
        None => Seq::empty(),
    }
}

/// The endpoint that shows the provider's `record` of `zone` to the
/// controller.
pub open spec fn endpoint_of(record: DnsRecordView, zone: Seq<char>) -> EndpointView {
    EndpointView {
        dns_name: full_name(record.name, zone),
        targets: seq![record.content],
        record_type: record.record_type,
        set_identifier: None,
        record_ttl: match record.ttl {
            Some(ttl) => Some(ttl as i64),
            None => None,
        },
        labels: Map::empty(),
        provider_specific: priority_attributes(record.priority),
    }
}

/// The name under which a record is shown: the zone itself for a record
/// at the apex, and the record's name, a dot and the zone for any other
/// record whose name does not already end with the zone.
pub proof fn lemma_name_of_record(name: Seq<char>, zone: Seq<char>)
    ensures
        is_apex(name) ==> full_name(name, zone) == zone,
        !is_apex(name) && !zone.is_suffix_of(name) ==> full_name(name, zone) == name + seq!['.']
            + zone,
{
    assert(name + (seq!['.'] + zone) =~= name + seq!['.'] + zone);
}

impl Endpoint {
    /// An endpoint of the given name, type and values, and nothing more.
    pub fn new(dns_name: String, record_type: String, targets: Vec<String>) -> (endpoint: Self)
        ensures
            endpoint@ == (EndpointView {
                dns_name: dns_name@,
                targets: targets.deep_view(),
                record_type: record_type@,
                set_identifier: None,
                record_ttl: None,
                labels: Map::empty(),
                provider_specific: Seq::empty(),
            }),
    {
        let endpoint = Self {
            dns_name,
            targets,
            record_type,
            set_identifier: None,
            record_ttl: None,
            labels: HashMap::new(),
            provider_specific: Vec::new(),
        };
        proof {
            lemma_no_labels(endpoint.labels);
            assert(endpoint.provider_specific.deep_view() =~= Seq::empty());
        }
        endpoint
    }

    /// The same endpoint with its time to live set to `ttl`.
    pub fn with_ttl(self, ttl: i64) -> (endpoint: Self)
        ensures
            endpoint@ == (EndpointView { record_ttl: Some(ttl), ..self@ }),
    {
        let mut endpoint = self;
        endpoint.record_ttl = Some(ttl);
        endpoint
    }

    /// The endpoint that shows the provider's `record` of `zone` to the
    /// controller.
    pub fn from_njalla_record(record: &DnsRecord, zone: &str) -> (endpoint: Self)
        ensures
            endpoint@ == endpoint_of(record@, zone@),
    {
        proof {
            reveal_strlit("@");
            reveal_strlit(".");
        }
        let dns_name = if record.name.as_str().is_empty() || text_eq(record.name.as_str(), "@") {
            zone.to_owned()
        } else if ends_with(record.name.as_str(), zone) {
            record.name.clone()
        } else {
            let tail = join(".", zone);
            join(record.name.as_str(), tail.as_str())
        };
        let mut targets: Vec<String> = Vec::new();
        targets.push(record.content.clone());
        let mut provider_specific: Vec<ProviderSpecific> = Vec::new();
        if let Some(priority) = record.priority {
            provider_specific.push(
                ProviderSpecific {
                    name: "priority".to_owned(),
                    value: format_u64(priority as u64),
                },
            );
        }
        let endpoint = Self {
            dns_name,
            targets,
            record_type: record.record_type.clone(),
            set_identifier: None,
            record_ttl: match record.ttl {
                Some(ttl) => Some(ttl as i64),
                None => None,
            },
            labels: HashMap::new(),
            provider_specific,
        };
        proof {
            lemma_no_labels(endpoint.labels);
            assert(endpoint.targets.deep_view() =~= seq![record.content@]);
            assert(endpoint.provider_specific.deep_view() =~= priority_attributes(
                record.priority,
            ));
            assert("@"@ =~= seq!['@']);
            assert("."@ =~= seq!['.']);
        }
        endpoint
    }
}

/// A copy of a list of attributes.
fn copy_attributes(list: &Vec<ProviderSpecific>) -> (copy: Vec<ProviderSpecific>)
    ensures
        copy.deep_view() == list.deep_view(),
{
    let mut copy: Vec<ProviderSpecific> = Vec::new();
    let mut i: usize = 0;
    while i < list.len()
        invariant
            i <= list.len(),
            copy.len() == i,
            forall|j: int| 0 <= j < i ==> copy[j]@ == list[j]@,
        decreases list.len() - i,
    {
        copy.push(ProviderSpecific { name: list[i].name.clone(), value: list[i].value.clone() });
        i += 1;
    }
    assert(copy.deep_view() =~= list.deep_view());
    copy
}

impl Endpoint {
    /// An endpoint with the same contents.
    pub fn duplicate(&self) -> (copy: Endpoint)
        ensures
            copy@ == self@,
    {
        let labels = self.labels.clone();
        proof {
            reveal(vstd::std_specs::hash::hash_map_deep_view_impl);
            assert(labels.deep_view() =~= self.labels.deep_view());
        }
        Endpoint {
            dns_name: self.dns_name.clone(),
            targets: copy_strings(&self.targets),
            record_type: self.record_type.clone(),
            set_identifier: match &self.set_identifier {
                Some(id) => Some(id.clone()),
                None => None,
            },
            record_ttl: self.record_ttl,
            labels,
            provider_specific: copy_attributes(&self.provider_specific),
        }
    }
}

/// A map without entries shows no labels.
proof fn lemma_no_labels(labels: HashMap<String, String>)
    requires
        labels@ == Map::<String, String>::empty(),
    ensures
        labels.deep_view() == Map::<Seq<char>, Seq<char>>::empty(),
{
    broadcast use vstd::std_specs::hash::lemma_hashmap_deepview_dom;

    assert(labels.deep_view() =~= Map::<Seq<char>, Seq<char>>::empty());
}

/// One batch of changes.  `update_old` and `update_new` pair by position:
/// the new state at a position replaces the old state at the same one.
#[derive(Debug, Clone, PartialEq, Eq)]
pub struct Changes {
    pub create: Vec<Endpoint>,
    pub update_old: Vec<Endpoint>,
    pub update_new: Vec<Endpoint>,
    pub delete: Vec<Endpoint>,
}

/// A batch of [`Changes`] as plain values.
pub struct ChangesView {
    pub create: Seq<EndpointView>,
    pub update_old: Seq<EndpointView>,
    pub update_new: Seq<EndpointView>,
    pub delete: Seq<EndpointView>,
}

impl ChangesView {
    /// Whether the batch asks for nothing at all.
    pub open spec fn is_empty(self) -> bool {
        self.create.len() == 0 && self.update_old.len() == 0 && self.update_new.len() == 0
            && self.delete.len() == 0
    }
}

impl View for Changes {
    type V = ChangesView;

    open spec fn view(&self) -> ChangesView {
        ChangesView {
            create: self.create.deep_view(),
            update_old: self.update_old.deep_view(),
            update_new: self.update_new.deep_view(),
            delete: self.delete.deep_view(),
        }
    }
}

impl DeepView for Changes {
    type V = ChangesView;

    open spec fn deep_view(&self) -> ChangesView {
        self@
    }
}

impl Changes {
    /// Whether the batch asks for nothing at all.
    pub fn is_empty(&self) -> (empty: bool)
        ensures
            empty == self@.is_empty(),
    {
        self.create.is_empty() && self.update_old.is_empty() && self.update_new.is_empty()
            && self.delete.is_empty()
    }
}

/// The query of a request for the records of a zone.
#[derive(Debug, Clone, PartialEq, Eq)]
pub struct GetRecordsQuery {
    pub zone_name: Option<String>,
}

/// The answer to a request for the records of a zone.
#[derive(Debug, Clone, PartialEq, Eq)]
pub struct GetRecordsResponse {
    pub endpoints: Vec<Endpoint>,
}

/// The body of a request to apply changes.
#[derive(Debug, Clone, PartialEq, Eq)]
pub struct ApplyChangesRequest {
    pub changes: Changes,
}

/// The answer to a request to apply changes.
#[derive(Debug, Clone, PartialEq, Eq)]
pub struct ApplyChangesResponse {
    pub message: String,
}

/// The answer to a request to adjust endpoints.
#[derive(Debug, Clone, PartialEq, Eq)]
pub struct AdjustEndpointsResponse {
    pub endpoints: Vec<Endpoint>,
}

/// The answer to a question about the service's health.
#[derive(Debug, Clone, PartialEq, Eq)]
pub struct HealthResponse {
    pub status: String,
    pub version: String,
}

} // verus!
