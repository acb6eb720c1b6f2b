//! The provider's side: its records, the requests that change them, and
//! how its JSON-RPC answers are read.

pub mod client;
pub mod types;

pub use types::{
    AddRecordRequest, DnsRecord, Domain, JsonRpcError, JsonRpcResponse, RemoveRecordRequest,
    UpdateRecordRequest,
};
