use rest_proxy::client::{register_nodes, route_report, route_ticket};
use rest_proxy::errors::{stacktrace, wrap_result, ProxyError};
use rest_proxy::headers::name_matches_exec;
use rest_proxy::orchestrator::{ProxyAction, ProxyMachine, ProxyPhase};
use rest_proxy::ring::{HashRing, NodeAddr};

fn node(address: &str, port: u16) -> NodeAddr {
    NodeAddr { address: address.to_string(), port }
}

#[test]
fn unsupported_method_is_rejected_before_any_activity() {
    let r = ProxyMachine::start("TRACE", "/api/v10/users/@me", None, Vec::new(), "t".to_string());
    match r {
        Err(e) => assert_eq!(e, ProxyError::UnsupportedMethod),
        Ok(_) => panic!("TRACE must be rejected"),
    }
    assert_eq!(ProxyError::UnsupportedMethod.message(), "unsupported method");
}

#[test]
fn unroutable_path_is_a_routing_error() {
    let r = ProxyMachine::start(
        "GET",
        "/api/v10/definitely-not/a-route/at-all",
        None,
        Vec::new(),
        "t".to_string(),
    );
    match r {
        Err(e) => assert_eq!(e, ProxyError::Routing),
        Ok(_) => panic!("an unclassifiable path must abort with a routing error"),
    }
    assert_eq!(ProxyError::Routing.message(), "failed to parse path");
}

#[test]
fn empty_ring_fails_ticket_and_report() {
    let ring = HashRing::new();
    match route_ticket(&ring, 7, Vec::new()) {
        Err(e) => assert_eq!(e, ProxyError::NoRatelimiterNodes),
        Ok(_) => panic!("an empty ring owes no ticket route"),
    }
    match route_report(&ring, 7, 1700000000000, Vec::new(), Vec::new()) {
        Err(e) => assert_eq!(e, ProxyError::NoRatelimiterNodes),
        Ok(_) => panic!("an empty ring owes no report route"),
    }
    assert_eq!(
        ProxyError::NoRatelimiterNodes.message(),
        "did not compute ratelimit because no ratelimiter nodes are detected"
    );
}

#[test]
fn ticket_denial_aborts_without_forwarding() {
    let (mut machine, _) = ProxyMachine::start(
        "GET",
        "/api/v10/users/@me",
        None,
        Vec::new(),
        "t".to_string(),
    )
    .unwrap();
    let action = machine.on_ticket(false, 3);
    assert!(matches!(action, ProxyAction::Abort { error: ProxyError::TicketFailed }));
    assert!(matches!(machine.phase, ProxyPhase::Failed { error: ProxyError::TicketFailed }));
    assert_eq!(ProxyError::TicketFailed.message(), "failed to retrieve ticket");
}

#[test]
fn upstream_failure_aborts() {
    let (mut machine, _) = ProxyMachine::start(
        "GET",
        "/api/v10/users/@me",
        None,
        Vec::new(),
        "t".to_string(),
    )
    .unwrap();
    machine.on_ticket(true, 1);
    let action = machine.on_upstream(None, 9);
    assert!(matches!(action, ProxyAction::Abort { error: ProxyError::UpstreamFailed }));
    assert_eq!(ProxyError::UpstreamFailed.message(), "failed to request the discord api");
}

#[test]
fn report_outcome_never_alters_the_response() {
    let run = |accepted: bool| -> (u16, Vec<(String, String)>) {
        let (mut machine, _) = ProxyMachine::start(
            "GET",
            "/api/v10/users/@me",
            None,
            Vec::new(),
            "t".to_string(),
        )
        .unwrap();
        machine.on_ticket(true, 2);
        let upstream = vec![("content-type".to_string(), "application/json".to_string())];
        machine.on_upstream(Some((200, upstream)), 5);
        machine.on_report(accepted);
        match machine.phase {
            ProxyPhase::Done { response } => (response.status, response.headers),
            _ => panic!("the machine must finish in the responded state"),
        }
    };
    let ok = run(true);
    let failed = run(false);
    assert_eq!(ok, failed);
    assert_eq!(ok.0, 200);
}

#[test]
fn end_to_end_get_users_me() {
    // One replica, a stubbed upstream returning 200.
    let mut ring = HashRing::new();
    ring.add(node("10.0.0.1", 6050));

    let inbound = vec![("Authorization".to_string(), "Bearer caller".to_string())];
    let started = ProxyMachine::start(
        "GET",
        "/api/v10/users/@me",
        None,
        inbound,
        "bot-token".to_string(),
    );
    let (mut machine, first_action) = started.expect("a known route must plan");

    // Exactly one ticket is requested, for the planned bucket.
    let bucket_key = match first_action {
        ProxyAction::AcquireTicket { bucket_key } => bucket_key,
        _ => panic!("the first action must acquire a ticket"),
    };
    let trace = vec![("span-id".to_string(), "request-span-1".to_string())];
    let (owner, ticket) =
        route_ticket(&ring, bucket_key, trace.clone()).expect("one replica owes a ticket route");
    assert_eq!(owner.address, "10.0.0.1");
    assert_eq!(ticket.bucket, bucket_key.to_string());
    assert_eq!(ticket.metadata, trace);

    // Ticket granted: the request is forwarded to the upstream origin.
    let forward = machine.on_ticket(true, 4);
    let (uri, headers) = match forward {
        ProxyAction::Forward { uri, headers } => (uri, headers),
        _ => panic!("a granted ticket must forward"),
    };
    assert_eq!(uri, "https://discord.com/api/v10/users/@me");
    assert!(headers.iter().any(|(k, v)| k == "authorization" && v == "Bot bot-token"));
    assert!(headers.iter().all(|(_, v)| v != "Bearer caller"));

    // Stubbed upstream answers 200; one header report is issued afterward.
    let upstream_headers = vec![(
        "x-ratelimit-bucket".to_string(),
        "abcd".to_string(),
    )];
    let report_action = machine.on_upstream(Some((200, upstream_headers)), 8);
    let (report_bucket, report_headers) = match report_action {
        ProxyAction::SubmitReport { bucket_key, headers } => (bucket_key, headers),
        _ => panic!("a forwarded response must be reported"),
    };
    assert_eq!(report_bucket, bucket_key);
    let (_, payload) =
        route_report(&ring, report_bucket, 1700000000000, report_headers, trace.clone())
            .expect("one replica owes a report route");
    assert_eq!(payload.precise_time, 1700000000000);
    assert_eq!(payload.metadata, trace);

    // The response carries both diagnostic headers.
    let respond = machine.on_report(true);
    assert!(matches!(respond, ProxyAction::Respond));
    let response = match machine.phase {
        ProxyPhase::Done { response } => response,
        _ => panic!("the machine must finish in the responded state"),
    };
    assert_eq!(response.status, 200);
    assert!(response
        .headers
        .iter()
        .any(|(k, v)| name_matches_exec(k, "x-ticketrequest-ms") && v == "4"));
    assert!(response
        .headers
        .iter()
        .any(|(k, v)| name_matches_exec(k, "x-upstream-ms") && v == "8"));
}

#[test]
fn discovery_registers_each_address_once() {
    let mut ring = HashRing::new();
    let resolved = vec![node("10.0.0.1", 6050), node("10.0.0.2", 6050)];
    register_nodes(&mut ring, &resolved);
    assert_eq!(ring.len(), 2);
    register_nodes(&mut ring, &resolved);
    assert_eq!(ring.len(), 2);
    let more = vec![node("10.0.0.2", 6050), node("10.0.0.3", 6050)];
    register_nodes(&mut ring, &more);
    assert_eq!(ring.len(), 3);
}

#[test]
fn bucket_keys_are_stable_per_route() {
    let plan = |path: &str| -> u64 {
        let (machine, _) = ProxyMachine::start("GET", path, None, Vec::new(), "t".to_string())
            .expect("known route");
        machine.plan.bucket_key
    };
    // Same route, repeated: same key.
    assert_eq!(plan("/api/v10/users/@me"), plan("/api/v10/users/@me"));
    // The message identifier is abstracted into the route pattern: two
    // messages of one channel share a bucket key.
    assert_eq!(
        plan("/api/v10/channels/111/messages/222"),
        plan("/api/v10/channels/111/messages/333")
    );
}

#[test]
fn query_string_is_preserved_verbatim() {
    let (machine, _) = ProxyMachine::start(
        "GET",
        "/api/v10/channels/5/messages",
        Some("limit=100&after=3"),
        Vec::new(),
        "t".to_string(),
    )
    .unwrap();
    assert_eq!(
        machine.plan.uri,
        "https://discord.com/api/v10/channels/5/messages?limit=100&after=3"
    );
}

#[test]
fn host_wrappers_render_and_pass_values() {
    assert_eq!(stacktrace(anyhow::Error::msg("boom")), "boom");
    let ok: Option<u32> = wrap_result(|| Ok(7));
    assert_eq!(ok, Some(7));
    let failed: Option<u32> = wrap_result(|| Err(anyhow::Error::msg("nope")));
    assert_eq!(failed, None);
}
