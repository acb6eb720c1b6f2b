//! The controller's side: endpoints, batches of changes, and the handlers
//! that answer the controller.
//!
//! - [`types`]: the controller's data, and how a record is shown as an
//!   endpoint.
//! - [`zone`]: which zone owns a name.
//! - [`plan`]: what the provider is asked to do for one endpoint.
//! - [`batch`]: what applying a batch of changes means.
//! - [`reconciler`]: the machine that applies a batch call by call.
//! - [`progress`]: why the machine keeps to that meaning.
//! - [`laws`] and [`dry_run`]: what holds of every batch.
//! - [`handlers`]: the answers to the controller's requests.

pub mod batch;
pub mod dry_run;
pub mod handlers;
pub mod laws;
pub mod plan;
pub mod progress;
pub mod reconciler;
pub mod types;
pub mod zone;

pub use handlers::WebhookHandler;
pub use reconciler::{ProviderCall, ProviderReply, Reconciler, Step};
pub use types::{
    AdjustEndpointsResponse, ApplyChangesRequest, ApplyChangesResponse, Changes, DomainFilter,
    Endpoint, GetRecordsQuery, GetRecordsResponse, HealthResponse, ProviderSpecific,
};
