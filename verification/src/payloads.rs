//! Wire-facing data shapes without algorithmic content: the tracing
//! envelope wrapped around payloads placed on the cache queue, and the
//! capability flags of a proxied application.

use vstd::prelude::*;

verus! {

/// Trace attribution carried alongside a queued payload: the emitting
/// node and, when available, its serialized span context.
pub struct Tracing {
    pub node_id: String,
    pub span: Option<String>,
}

/// Envelope for payloads sent to the cache queues: trace attribution
/// plus the data itself, passed through unchanged.
pub struct CachePayload<T> {
    pub tracing: Tracing,
    pub data: T,
}

/// Capability flags of a proxied application, each a single bit of the
/// application's flag word.
#[derive(Clone, Copy, PartialEq, Eq, Structural, Debug)]
pub enum ApplicationFlags {
    GatewayPresence,
    GatewayPresenceLimit,
    GatewayGuildMembers,
    GatewayGuildMembersLimited,
    VerificationPendingGuildLimit,
    Embedded,
}

impl ApplicationFlags {
    /// The bit this flag occupies in the application's flag word.
    pub open spec fn spec_bits(self) -> u64 {
        match self {
            ApplicationFlags::GatewayPresence => 0x1000,
            ApplicationFlags::GatewayPresenceLimit => 0x2000,
            ApplicationFlags::GatewayGuildMembers => 0x4000,
            ApplicationFlags::GatewayGuildMembersLimited => 0x8000,
            ApplicationFlags::VerificationPendingGuildLimit => 0x10000,
            ApplicationFlags::Embedded => 0x20000,
        }
    }

    /// The wire value of the flag.
    pub fn bits(self) -> (r: u64)
        ensures
            r == self.spec_bits(),
    {
        match self {
            ApplicationFlags::GatewayPresence => 0x1000,
            ApplicationFlags::GatewayPresenceLimit => 0x2000,
            ApplicationFlags::GatewayGuildMembers => 0x4000,
            ApplicationFlags::GatewayGuildMembersLimited => 0x8000,
            ApplicationFlags::VerificationPendingGuildLimit => 0x10000,
            ApplicationFlags::Embedded => 0x20000,
        }
    }
}

} // verus!
