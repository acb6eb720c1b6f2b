//! The handlers that answer the controller.
//!
//! A handler decides; it never speaks to the provider.  Where an answer
//! needs the provider, the handler says what to ask for, and another of
//! its functions makes the answer of what the provider said.

use crate::config::{domain_allowed, Config, ConfigView};
use crate::error::{text_result, Error, ErrorView};
use crate::njalla::types::{DnsRecord, DnsRecordView};
use crate::text::{copy_of, text_eq};
use crate::webhook::batch::ProviderReplyView;
use crate::webhook::reconciler::{Reconciler, Step};
use crate::webhook::types::{
    endpoint_of, AdjustEndpointsResponse, ApplyChangesRequest, Endpoint, EndpointView,
    GetRecordsQuery, GetRecordsResponse, HealthResponse,
};
use crate::webhook::zone::{relative_name, relative_name_in, resolve_zone, zone_of};
use vstd::prelude::*;

verus! {

/// The version that the service reports of itself.
pub const VERSION: &'static str = "0.1.0";

/// Whether records of type `record_type` are shown to the controller.
pub open spec fn supported_type(record_type: Seq<char>) -> bool {
    ||| record_type == "A"@
    ||| record_type == "AAAA"@
    ||| record_type == "CNAME"@
    ||| record_type == "TXT"@
    ||| record_type == "MX"@
    ||| record_type == "SRV"@
}

/// [`supported_type`] as a test on records.
pub open spec fn shown() -> spec_fn(DnsRecordView) -> bool {
    |record: DnsRecordView| supported_type(record.record_type)
}

/// The endpoints that show the records `records` of `zone` to the
/// controller: one for each record of a supported type, in the order of
/// the records.
pub open spec fn endpoints_of(records: Seq<DnsRecordView>, zone: Seq<char>) -> Seq<EndpointView> {
    let kept = records.filter(shown());
    Seq::new(kept.len(), |i: int| endpoint_of(kept[i], zone))
}

/// No endpoint is shown for a record of a type that is not supported.
pub proof fn lemma_only_supported_types_shown(records: Seq<DnsRecordView>, zone: Seq<char>)
    ensures
        forall|i: int|
            0 <= i < endpoints_of(records, zone).len() ==> supported_type(
                (#[trigger] endpoints_of(records, zone)[i]).record_type,
            ),
{
    let kept = records.filter(shown());
    assert forall|i: int| 0 <= i < endpoints_of(records, zone).len() implies supported_type(
        (#[trigger] endpoints_of(records, zone)[i]).record_type,
    ) by {
        records.lemma_filter_pred(shown(), i);
        assert(shown()(kept[i]));
    }
}

/// The zone whose records a query asks for, under the allow-list
/// `filter`: a refusal where the query names no zone or names one that is
/// not allowed.
pub open spec fn queried_zone(filter: Option<Seq<Seq<char>>>, zone: Option<Seq<char>>) -> Result<
    Seq<char>,
    ErrorView,
> {
    match zone {
        None => Err(ErrorView::InvalidRequest("zone parameter is required"@)),
        Some(zone) => if domain_allowed(filter, zone) {
            Ok(zone)
        } else {
            Err(ErrorView::DomainNotAllowed(zone))
        },
    }
}

/// Whether records of type `record_type` are shown to the controller.
pub fn is_supported_type(record_type: &str) -> (supported: bool)
    ensures
        supported == supported_type(record_type@),
{
    text_eq(record_type, "A") || text_eq(record_type, "AAAA") || text_eq(record_type, "CNAME")
        || text_eq(record_type, "TXT") || text_eq(record_type, "MX") || text_eq(
        record_type,
        "SRV",
    )
}

/// The answers to the controller's requests, under one set of settings.
pub struct WebhookHandler {
    config: Config,
}

impl WebhookHandler {
    /// The settings that the handler answers under.
    pub closed spec fn config(&self) -> ConfigView {
        self.config@
    }

    /// A handler that answers under `config`.
    pub fn new(config: Config) -> (handler: Self)
        ensures
            handler.config() == config@,
    {
        Self { config }
    }

    /// The answer to a question about the service's health.
    pub fn health(&self) -> (response: HealthResponse)
        ensures
            response.status@ == "healthy"@,
            response.version@ == VERSION@,
    {
        HealthResponse { status: copy_of("healthy"), version: copy_of(VERSION) }
    }

    /// The answer to a question about the service's readiness, once the
    /// provider has listed its domains.
    pub fn ready(&self) -> (response: HealthResponse)
        ensures
            response.status@ == "ready"@,
            response.version@ == VERSION@,
    {
        HealthResponse { status: copy_of("ready"), version: copy_of(VERSION) }
    }

    /// The zone whose records are to be listed for `query`.
    pub fn get_records(&self, query: &GetRecordsQuery) -> (zone: Result<String, Error>)
        ensures
            text_result(zone) == queried_zone(
                self.config().domain_filter,
                query.zone_name.deep_view(),
            ),
    {
        match &query.zone_name {
            None => Err(Error::InvalidRequest(copy_of("zone parameter is required"))),
            Some(zone) => if self.config.is_domain_allowed(zone.as_str()) {
                Ok(zone.clone())
            } else {
                Err(Error::DomainNotAllowed(zone.clone()))
            },
        }
    }

    /// The answer to a query for the records of `zone`, which the
    /// provider has listed as `records`.  Records of other types than the
    /// supported ones are left out.
    pub fn records_response(&self, records: &Vec<DnsRecord>, zone: &str) -> (response:
        GetRecordsResponse)
        ensures
            response.endpoints.deep_view() == endpoints_of(records.deep_view(), zone@),
            forall|i: int|
                0 <= i < response.endpoints.len() ==> supported_type(
                    (#[trigger] response.endpoints[i])@.record_type,
                ),
    {
        let ghost all = records.deep_view();
        let mut endpoints: Vec<Endpoint> = Vec::new();
        let mut i: usize = 0;
        proof {
            reveal(Seq::filter);
            assert(all.take(0) =~= Seq::<DnsRecordView>::empty());
            assert(endpoints.deep_view() =~= endpoints_of(all.take(0), zone@));
        }
        while i < records.len()
            invariant
                i <= records.len(),
                all == records.deep_view(),
                endpoints.deep_view() == endpoints_of(all.take(i as int), zone@),
                forall|j: int|
                    0 <= j < endpoints.len() ==> supported_type(
                        (#[trigger] endpoints[j])@.record_type,
                    ),
            decreases records.len() - i,
        {
            let ghost before = endpoints.deep_view();
            proof {
                assert(all[i as int] == records[i as int]@);
                assert(all.take(i + 1) =~= all.take(i as int).push(all[i as int]));
                all.take(i as int).lemma_filter_push(all[i as int], shown());
            }
            if is_supported_type(records[i].record_type.as_str()) {
                endpoints.push(Endpoint::from_njalla_record(&records[i], zone));
                assert(endpoints.deep_view() =~= before.push(endpoint_of(all[i as int], zone@)));
                assert(endpoints_of(all.take(i + 1), zone@) =~= before.push(
                    endpoint_of(all[i as int], zone@),
                ));
            }
            i += 1;
        }
        assert(all.take(i as int) =~= all);
        GetRecordsResponse { endpoints }
    }

    /// Begins to apply the changes of `request`.  The machine that comes
    /// back applies them call by call; with it comes the first thing to
    /// do.
    pub fn apply_changes(&self, request: ApplyChangesRequest) -> (begun: (Reconciler, Step))
        ensures
            begun.0.wf(),
            begun.0.config() == self.config(),
            begun.0.changes() == request.changes@,
            begun.0.replies() == Seq::<ProviderReplyView>::empty(),
            begun.1@ == begun.0.run().next_step(),
    {
        Reconciler::new(self.config.duplicate(), request.changes)
    }

    /// The endpoints as they came: this provider adjusts nothing.
    pub fn adjust_endpoints(&self, endpoints: Vec<Endpoint>) -> (response: AdjustEndpointsResponse)
        ensures
            response.endpoints == endpoints,
    {
        AdjustEndpointsResponse { endpoints }
    }

    /// The zone that owns `dns_name`.
    pub fn extract_zone(&self, dns_name: &str) -> (zone: Result<String, Error>)
        ensures
            text_result(zone) == zone_of(dns_name@, self.config().domain_filter),
    {
        resolve_zone(dns_name, &self.config.domain_filter)
    }

    /// What `dns_name` is called inside `zone`.
    pub fn extract_record_name(&self, dns_name: &str, zone: &str) -> (name: String)
        ensures
            name@ == relative_name(dns_name@, zone@),
    {
        relative_name_in(dns_name, zone)
    }
}

} // verus!
