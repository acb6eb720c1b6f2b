//! The decisions of a webhook that lets a DNS controller manage the
//! records of the Njalla registrar.
//!
//! The controller speaks of endpoints: a name, a type and all its values.
//! The provider speaks of records: one value each, named inside a zone.
//! This library decides which zone owns a name, turns records into
//! endpoints and endpoints into requests, finds the live records that an
//! endpoint stands for, and carries a batch of changes through the
//! provider call by call.  It never speaks to the provider or the
//! controller itself: whoever uses it does the talking.
//!
//! - [`text`]: strings as sequences of characters.
//! - [`error`]: the failures and how they are written and reported.
//! - [`config`]: the settings, the allow-list of zones, and how settings
//!   are read from their texts.
//! - [`middleware`]: what the logging around the handlers looks at.
//! - [`njalla`]: the provider's data and how its answers are read.
//! - [`webhook`]: endpoints, zones, the meaning of a batch of changes, the
//!   machine that applies one, what holds of every batch, and the handlers
//!   that answer the controller.

pub mod config;
pub mod error;
pub mod middleware;
pub mod njalla;
pub mod text;
pub mod webhook;

pub use config::Config;
pub use error::Error;
