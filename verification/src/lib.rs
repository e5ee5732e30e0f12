//! A registry of personal measurement records, one per account, kept in the
//! contract storage of a NEAR host.
//!
//! [`body`] holds the record and its rolling window of weight samples,
//! [`registry`] the rules of the account registry and the operations that
//! apply them to what the host stores, [`history`] the laws that those rules
//! obey over runs of calls, and [`host`] the calls into `near_sdk` that the
//! registry is built on.

pub mod body;
pub mod history;
pub mod host;
pub mod registry;

pub use body::{Body, BodyView, CAPACITY};
pub use registry::{Contract, ContractError, StorageKeys};
