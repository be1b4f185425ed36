//! An unofficial Honeybadger Rust client.
//!
//! [Honeybadger](https://www.honeybadger.io/) is a service that receives,
//! stores and alerts on application errors.  This library holds the verified
//! core of a client for its exceptions API: normalizing an application error
//! into a canonical nested record, assembling and encoding the notice payload
//! that is posted to the endpoint, resolving the client configuration, and
//! classifying the endpoint's response into a typed outcome.
//!
//! Performing the HTTPS request itself, reading the process environment, the
//! clock and the host's identity are left to the embedding application, which
//! hands their results to this library as plain values.

pub mod errors;
pub mod honeybadger;
pub mod json;
pub mod notice;

pub use crate::errors::{DeliveryOutcome, TransportEvent};
pub use crate::honeybadger::{Config, ConfigBuilder, EnvData, HttpRequest};
