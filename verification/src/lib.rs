//! Usage billing: account and meter configuration, immutable period snapshots, and delivery of
//! their quantities through a replaceable billing provider.
//!
//! The stored state is modelled as `tables::Tables`; `store::BillingStore` holds the rows of one
//! transaction and carries out the operations on them. What has to be asked of other plugins on the
//! way is split into steps, each of which takes the reply to the step before.

pub mod authorize;
pub mod config;
pub mod decimal;
pub mod digest;
pub mod error;
pub mod input;
pub mod instant;
pub mod laws;
pub mod lifecycle;
pub mod model;
pub mod order;
pub mod reconcile;
pub mod requests;
pub mod rows;
pub mod schema;
pub mod snapshot;
pub mod store;
pub mod tables;
pub mod text;
pub mod tools;
