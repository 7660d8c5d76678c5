//! The error taxonomy: configuration, run-start, and model failures.

use vstd::prelude::*;

verus! {

/// Failure of the model backend, categorised at the provider boundary.
/// The variants are distinguishable so that callers can react differently
/// to a bad credential, a dead endpoint, throttling, a garbled reply, or a
/// call that exceeded its configured time bound.
#[derive(Clone, Copy, PartialEq, Eq, Structural, Debug)]
pub enum ModelError {
    AuthFailure,
    Unreachable,
    RateLimited,
    MalformedResponse,
    Timeout,
}

/// Rejected agent or runner configuration. Raised synchronously while the
/// composition root is built, before any run starts.
#[derive(Clone, Copy, PartialEq, Eq, Structural, Debug)]
pub enum ConfigError {
    EmptyAppName,
    EmptyAgentName,
    MissingModel,
}

/// Failure to start a run. Returned before any event stream exists, so a
/// caller can always tell "could not start" from "started then failed".
#[derive(Clone, Copy, PartialEq, Eq, Structural, Debug)]
pub enum RunError {
    /// Another run holds the same session key; runs on one key are serialized.
    SessionBusy,
}

} // verus!
