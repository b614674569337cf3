//! Synchronizes packet-filter blocklists from remote IP-reputation feeds.
//!
//! The library holds the synchronization logic: parsing network-list feeds
//! with conditional re-fetch via a last-modified watermark, and planning the
//! idempotent, atomic installation of the resulting address set into the
//! host firewall through a named, swappable set object.

use vstd::prelude::*;

pub mod firewall;
pub mod net;
pub mod provider;
pub mod settings;
pub mod text;
pub mod timestamp;

verus! {

/// The last-modified watermark of a source: absent until the first
/// successful fetch that carried a timestamp header.
pub type LastModified = Option<crate::timestamp::Timestamp>;

/// The kinds of failure the synchronization engine distinguishes.
#[derive(Clone, Copy, Debug, PartialEq, Eq, Structural)]
pub enum Error {
    /// Network or HTTP failure while fetching a feed.
    Fetch,
    /// The modification-time response header was not a valid timestamp.
    TimestampParse,
    /// A non-empty feed line was not a valid network prefix.
    PrefixParse,
    /// A packet-filter tool exited with an error or unexpected output.
    FirewallTool,
    /// Settings or state could not be read or written.
    Persistence,
}

/// After a successful fetch, the orchestrator's decision: swap the fetched
/// membership into the live set only where it is non-empty (swapping an
/// empty set in would deny all matched traffic as a side effect of "no new
/// data"), and persist the returned watermark either way.
pub fn plan_after_fetch(ips: &crate::net::NetworkSet, wm: LastModified) -> (r: (
    bool,
    LastModified,
))
    ensures
        r.0 == (ips.prefixes().len() != 0),
        r.1 == wm,
{
    (!ips.is_empty(), wm)
}

} // verus!
