//! Decision logic of the remote rate-limiter client.
//!
//! Each operation resolves the replica owning a bucket key through the
//! hash ring — failing when no replica is known — and builds the wire
//! payload for the RPC, trace-context metadata included; issuing the RPC
//! itself and awaiting the reply are the transport's concern.  The
//! discovery loop's decision — register every newly resolved address,
//! and nothing else — lives here too.

use vstd::prelude::*;
use crate::errors::ProxyError;
use crate::headers::{dec_str, u64_to_dec, HeaderList};
use crate::ring::{is_member, key_pos, spec_lookup, HashRing, NodeAddr, NodeV};

verus! {

/// Trace-context propagation envelope: the span and parent identifiers
/// (and whatever else the tracing runtime emits) that each outbound RPC
/// carries in its metadata, so ticket acquisition and report submission
/// are attributable to the originating request's trace.
pub type TraceMetadata = Vec<(String, String)>;

/// Wire payload of the ticket-submission RPC: the bucket key, rendered
/// in decimal as the remote cluster expects it, and the trace context.
pub struct TicketPayload {
    pub bucket: String,
    pub metadata: TraceMetadata,
}

/// Wire payload of the header-report RPC: the bucket key, a
/// millisecond-precision capture timestamp, the observed headers, and
/// the trace context.
pub struct HeadersPayload {
    pub bucket: String,
    pub precise_time: u64,
    pub headers: HeaderList,
    pub metadata: TraceMetadata,
}

/// Resolves the replica that must grant the ticket for this bucket and
/// builds the ticket payload, carrying the given trace context
/// unchanged; fails exactly when the ring is empty.
pub fn route_ticket(ring: &HashRing, bucket_key: u64, metadata: TraceMetadata) -> (r: Result<
    (NodeAddr, TicketPayload),
    ProxyError,
>)
    ensures
        match r {
            Err(e) => e == ProxyError::NoRatelimiterNodes && ring@.len() == 0,
            Ok((n, p)) => ring@.len() > 0 && spec_lookup(ring@, key_pos(bucket_key)) == Some(n@)
                && p.bucket@ == dec_str(bucket_key as int) && p.metadata == metadata,
        },
{
    match ring.get(bucket_key) {
        None => Err(ProxyError::NoRatelimiterNodes),
        Some(n) => Ok((n, TicketPayload { bucket: u64_to_dec(bucket_key), metadata })),
    }
}

/// Resolves the replica owning this bucket and builds the header-report
/// payload with its capture timestamp, headers and trace context carried
/// unchanged; fails exactly when the ring is empty.
pub fn route_report(
    ring: &HashRing,
    bucket_key: u64,
    precise_time: u64,
    headers: HeaderList,
    metadata: TraceMetadata,
) -> (r: Result<(NodeAddr, HeadersPayload), ProxyError>)
    ensures
        match r {
            Err(e) => e == ProxyError::NoRatelimiterNodes && ring@.len() == 0,
            Ok((n, p)) => ring@.len() > 0 && spec_lookup(ring@, key_pos(bucket_key)) == Some(n@)
                && p.bucket@ == dec_str(bucket_key as int) && p.precise_time == precise_time
                && p.headers == headers && p.metadata == metadata,
        },
{
    match ring.get(bucket_key) {
        None => Err(ProxyError::NoRatelimiterNodes),
        Some(n) => Ok(
            (
                n,
                HeadersPayload {
                    bucket: u64_to_dec(bucket_key),
                    precise_time,
                    headers,
                    metadata,
                },
            ),
        ),
    }
}

/// Discovery: inserts every freshly resolved replica address into the
/// ring and nothing else.  Addresses already present are left alone, no
/// member is ever removed, and every member afterwards is an old member
/// or one of the handed addresses.
pub fn register_nodes(ring: &mut HashRing, nodes: &Vec<NodeAddr>)
    requires
        old(ring).well_formed(),
    ensures
        final(ring).well_formed(),
        forall|i: int| 0 <= i < nodes@.len() ==> is_member(final(ring)@, nodes@[i]@),
        forall|n: NodeV| is_member(old(ring)@, n) ==> is_member(final(ring)@, n),
        forall|n: NodeV|
            is_member(final(ring)@, n) ==> is_member(old(ring)@, n) || exists|i: int|
                0 <= i < nodes@.len() && nodes@[i]@ == n,
{
    let n = nodes.len();
    let mut i: usize = 0;
    while i < n
        invariant
            n == nodes@.len(),
            0 <= i <= n,
            ring.well_formed(),
            forall|k: int| 0 <= k < i ==> is_member(ring@, nodes@[k]@),
            forall|nv: NodeV| is_member(old(ring)@, nv) ==> is_member(ring@, nv),
            forall|nv: NodeV|
                is_member(ring@, nv) ==> is_member(old(ring)@, nv) || exists|k: int|
                    0 <= k < i && nodes@[k]@ == nv,
        decreases n - i,
    {
        let ghost before = ring@;
        ring.add(nodes[i].clone());
        proof {
            assert forall|nv: NodeV|
                is_member(ring@, nv) implies is_member(old(ring)@, nv) || exists|k: int|
                0 <= k < i as int + 1 && nodes@[k]@ == nv by {
                if !is_member(before, nv) {
                    assert(nodes@[i as int]@ == nv);
                }
            }
        }
        i += 1;
    }
}

} // verus!
