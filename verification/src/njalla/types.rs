//! The provider's data: domains, records, and the requests that change
//! records.

use vstd::prelude::*;

verus! {

/// The failure member of a JSON-RPC answer.
#[derive(Debug, Clone, PartialEq, Eq)]
pub struct JsonRpcError {
    pub code: i32,
    pub message: String,
}

/// A JSON-RPC answer: it carries a result, a failure, or neither.
#[derive(Debug, Clone, PartialEq, Eq)]
pub struct JsonRpcResponse<T> {
    pub jsonrpc: String,
    pub result: Option<T>,
    pub error: Option<JsonRpcError>,
    pub id: u32,
}

/// A domain registered with the provider.
#[derive(Debug, Clone, PartialEq, Eq)]
pub struct Domain {
    pub name: String,
    pub status: String,
    pub expiry: Option<String>,
}

/// A [`Domain`] as plain values.
pub struct DomainView {
    pub name: Seq<char>,
    pub status: Seq<char>,
    pub expiry: Option<Seq<char>>,
}

impl View for Domain {
    type V = DomainView;

    open spec fn view(&self) -> DomainView {
        DomainView { name: self.name@, status: self.status@, expiry: self.expiry.deep_view() }
    }
}

impl DeepView for Domain {
    type V = DomainView;

    open spec fn deep_view(&self) -> DomainView {
        self@
    }
}

/// A record as the provider stores it.  It holds one value; its name is
/// relative to its zone, and empty or `@` at the zone's apex.
#[derive(Debug, Clone, PartialEq, Eq)]
pub struct DnsRecord {
    pub id: String,
    pub name: String,
    pub record_type: String,
    pub content: String,
    pub ttl: Option<u32>,
    pub priority: Option<u32>,
}

/// A [`DnsRecord`] as plain values.
pub struct DnsRecordView {
    pub id: Seq<char>,
    pub name: Seq<char>,
    pub record_type: Seq<char>,
    pub content: Seq<char>,
    pub ttl: Option<u32>,
    pub priority: Option<u32>,
}

impl View for DnsRecord {
    type V = DnsRecordView;

    open spec fn view(&self) -> DnsRecordView {
        DnsRecordView {
            id: self.id@,
            name: self.name@,
            record_type: self.record_type@,
            content: self.content@,
            ttl: self.ttl,
            priority: self.priority,
        }
    }
}

impl DeepView for DnsRecord {
    type V = DnsRecordView;

    open spec fn deep_view(&self) -> DnsRecordView {
        self@
    }
}

impl DnsRecord {
    /// A record with the same contents.
    pub fn duplicate(&self) -> (copy: DnsRecord)
        ensures
            copy@ == self@,
    {
        DnsRecord {
            id: self.id.clone(),
            name: self.name.clone(),
            record_type: self.record_type.clone(),
            content: self.content.clone(),
            ttl: self.ttl,
            priority: self.priority,
        }
    }
}

/// The request that adds one record to a zone.
#[derive(Debug, Clone, PartialEq, Eq)]
pub struct AddRecordRequest {
    pub domain: String,
    pub name: String,
    pub record_type: String,
    pub content: String,
    pub ttl: u32,
    pub priority: Option<u32>,
}

/// An [`AddRecordRequest`] as plain values.
pub struct AddRecordRequestView {
    pub domain: Seq<char>,
    pub name: Seq<char>,
    pub record_type: Seq<char>,
    pub content: Seq<char>,
    pub ttl: u32,
    pub priority: Option<u32>,
}

impl View for AddRecordRequest {
    type V = AddRecordRequestView;

    open spec fn view(&self) -> AddRecordRequestView {
        AddRecordRequestView {
            domain: self.domain@,
            name: self.name@,
            record_type: self.record_type@,
            content: self.content@,
            ttl: self.ttl,
            priority: self.priority,
        }
    }
}

impl DeepView for AddRecordRequest {
    type V = AddRecordRequestView;

    open spec fn deep_view(&self) -> AddRecordRequestView {
        self@
    }
}

/// The request that changes the value of one record in place.
#[derive(Debug, Clone, PartialEq, Eq)]
pub struct UpdateRecordRequest {
    pub domain: String,
    pub id: String,
    pub content: String,
    pub ttl: Option<u32>,
}

/// An [`UpdateRecordRequest`] as plain values.
pub struct UpdateRecordRequestView {
    pub domain: Seq<char>,
    pub id: Seq<char>,
    pub content: Seq<char>,
    pub ttl: Option<u32>,
}

impl View for UpdateRecordRequest {
    type V = UpdateRecordRequestView;

    open spec fn view(&self) -> UpdateRecordRequestView {
        UpdateRecordRequestView {
            domain: self.domain@,
            id: self.id@,
            content: self.content@,
            ttl: self.ttl,
        }
    }
}

impl DeepView for UpdateRecordRequest {
    type V = UpdateRecordRequestView;

    open spec fn deep_view(&self) -> UpdateRecordRequestView {
        self@
    }
}

/// The request that removes one record, named by its identifier, from a
/// zone.
#[derive(Debug, Clone, PartialEq, Eq)]
pub struct RemoveRecordRequest {
    pub domain: String,
    pub id: String,
}

/// A [`RemoveRecordRequest`] as plain values.
pub struct RemoveRecordRequestView {
    pub domain: Seq<char>,
    pub id: Seq<char>,
}

impl View for RemoveRecordRequest {
    type V = RemoveRecordRequestView;

    open spec fn view(&self) -> RemoveRecordRequestView {
        RemoveRecordRequestView { domain: self.domain@, id: self.id@ }
    }
}

impl DeepView for RemoveRecordRequest {
    type V = RemoveRecordRequestView;

    open spec fn deep_view(&self) -> RemoveRecordRequestView {
        self@
    }
}

} // verus!
