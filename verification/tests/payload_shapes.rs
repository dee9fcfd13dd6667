use rest_proxy::payloads::{ApplicationFlags, CachePayload, Tracing};

#[test]
fn application_flags_carry_their_bits() {
    assert_eq!(ApplicationFlags::GatewayPresence.bits(), 1 << 12);
    assert_eq!(ApplicationFlags::GatewayPresenceLimit.bits(), 1 << 13);
    assert_eq!(ApplicationFlags::GatewayGuildMembers.bits(), 1 << 14);
    assert_eq!(ApplicationFlags::GatewayGuildMembersLimited.bits(), 1 << 15);
    assert_eq!(ApplicationFlags::VerificationPendingGuildLimit.bits(), 1 << 16);
    assert_eq!(ApplicationFlags::Embedded.bits(), 1 << 17);
}

#[test]
fn cache_payload_passes_data_through() {
    let payload = CachePayload {
        tracing: Tracing { node_id: "node-1".to_string(), span: None },
        data: 99u32,
    };
    assert_eq!(payload.data, 99);
    assert_eq!(payload.tracing.node_id, "node-1");
    assert!(payload.tracing.span.is_none());
}
