//! Errors surfaced to callers of the monitor.

use vstd::prelude::*;

verus! {

/// What can go wrong at the monitor's surface. Per-frame errors inside a
/// transport loop never reach here; they are dropped at the loop.
#[derive(Clone, Copy, PartialEq, Eq, Structural, Debug)]
pub enum BuildMonitorError {
    /// The CI API was unreachable or answered non-OK; the next refresh
    /// retries.
    CrawlerUnavailable,
    /// The CI API answered with a document missing a required field.
    CrawlerMalformed,
    /// An unknown monitor handle was presented to the registry.
    HandleNotFound,
    /// A volunteer was announced while neither a client nor a server is
    /// attached.
    NotConfigured,
    /// The transport could not bind its socket at start.
    BindFailed,
    /// The transport could not join the multicast group at start.
    JoinGroupFailed,
}

/// The short name of each error kind.
pub open spec fn spec_kind_name(e: BuildMonitorError) -> Seq<char> {
    match e {
        BuildMonitorError::CrawlerUnavailable => "CrawlerUnavailable"@,
        BuildMonitorError::CrawlerMalformed => "CrawlerMalformed"@,
        BuildMonitorError::HandleNotFound => "HandleNotFound"@,
        BuildMonitorError::NotConfigured => "NotConfigured"@,
        BuildMonitorError::BindFailed => "BindFailed"@,
        BuildMonitorError::JoinGroupFailed => "JoinGroupFailed"@,
    }
}

impl BuildMonitorError {
    /// A short name for the error, for callers that log it.
    pub fn kind_name(&self) -> (r: &'static str)
        ensures
            r@ == spec_kind_name(*self),
    {
        match self {
            BuildMonitorError::CrawlerUnavailable => "CrawlerUnavailable",
            BuildMonitorError::CrawlerMalformed => "CrawlerMalformed",
            BuildMonitorError::HandleNotFound => "HandleNotFound",
            BuildMonitorError::NotConfigured => "NotConfigured",
            BuildMonitorError::BindFailed => "BindFailed",
            BuildMonitorError::JoinGroupFailed => "JoinGroupFailed",
        }
    }
}

} // verus!
