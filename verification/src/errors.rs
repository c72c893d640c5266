//! Error taxonomy of the ingestion core.
//!
//! Errors are kinds, not carriers of foreign payloads: transport and decode
//! failures from the outside world are mapped onto these variants at the
//! library boundary.

use vstd::prelude::*;

verus! {

/// The failure kinds the ingestion core distinguishes.
#[derive(Debug, PartialEq, Eq)]
pub enum AppErr {
    /// A socket or file operation failed.
    IoFailure,
    /// The durable store rejected or failed an operation.
    DatabaseFailure,
    /// A remote procedure call failed.
    RpcFailure,
    /// A payload could not be decoded.
    DecodeFailure,
    /// A required configuration value is absent.
    ConfigMissing,
    /// An operation ran out of time.
    Timeout,
    /// Any other failure, described in words.
    Custom(String),
}

impl AppErr {
    /// Wraps a description into the catch-all variant.
    pub fn custom(message: String) -> (e: AppErr)
        ensures
            e == AppErr::Custom(message),
    {
        AppErr::Custom(message)
    }
}

} // verus!
