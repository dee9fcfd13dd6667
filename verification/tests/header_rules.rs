use rest_proxy::headers::{
    attach_timing_headers, name_matches_exec, rewrite_headers, u64_to_dec,
};

fn pairs(raw: &[(&str, &str)]) -> Vec<(String, String)> {
    raw.iter().map(|(k, v)| (k.to_string(), v.to_string())).collect()
}

#[test]
fn rewrite_strips_forbidden_and_sets_credential() {
    let inbound = pairs(&[
        ("Authorization", "Bearer caller-secret"),
        ("Connection", "keep-alive"),
        ("Host", "example.org"),
        ("Transfer-Encoding", "chunked"),
        ("Upgrade", "websocket"),
        ("Keep-Alive", "timeout=5"),
        ("Proxy-Connection", "keep-alive"),
        ("Content-Type", "application/json"),
        ("X-Custom", "kept"),
    ]);
    let out = rewrite_headers(&inbound, "tok-123");

    let auth: Vec<&(String, String)> = out
        .iter()
        .filter(|(k, _)| name_matches_exec(k, "authorization"))
        .collect();
    assert_eq!(auth.len(), 1);
    assert_eq!(auth[0].1, "Bot tok-123");

    let hosts: Vec<&(String, String)> = out
        .iter()
        .filter(|(k, _)| name_matches_exec(k, "host"))
        .collect();
    assert_eq!(hosts.len(), 1);
    assert_eq!(hosts[0].1, "discord.com");

    for gone in [
        "connection",
        "transfer-encoding",
        "upgrade",
        "keep-alive",
        "proxy-connection",
    ] {
        assert!(
            out.iter().all(|(k, _)| !name_matches_exec(k, gone)),
            "{gone} must be stripped"
        );
    }

    assert!(out.iter().any(|(k, v)| k == "Content-Type" && v == "application/json"));
    assert!(out.iter().any(|(k, v)| k == "X-Custom" && v == "kept"));
    assert!(out.iter().all(|(_, v)| v != "Bearer caller-secret"));
}

#[test]
fn rewrite_of_empty_headers_sets_host_and_credential() {
    let out = rewrite_headers(&Vec::new(), "t");
    assert_eq!(out.len(), 2);
    assert_eq!(out[0], ("host".to_string(), "discord.com".to_string()));
    assert_eq!(out[1], ("authorization".to_string(), "Bot t".to_string()));
}

#[test]
fn name_matching_ignores_ascii_case() {
    assert!(name_matches_exec("AUTHORIZATION", "authorization"));
    assert!(name_matches_exec("Transfer-Encoding", "transfer-encoding"));
    assert!(!name_matches_exec("authorizatio", "authorization"));
    assert!(!name_matches_exec("x-authorization", "authorization"));
}

#[test]
fn decimal_rendering_is_exact() {
    assert_eq!(u64_to_dec(0), "0");
    assert_eq!(u64_to_dec(7), "7");
    assert_eq!(u64_to_dec(10), "10");
    assert_eq!(u64_to_dec(1234), "1234");
    assert_eq!(u64_to_dec(u64::MAX), "18446744073709551615");
}

#[test]
fn timing_headers_are_appended_as_integers() {
    let mut headers = pairs(&[("content-type", "application/json")]);
    attach_timing_headers(&mut headers, 12, 345);
    assert_eq!(headers.len(), 3);
    assert_eq!(headers[1], ("x-ticketrequest-ms".to_string(), "12".to_string()));
    assert_eq!(headers[2], ("x-upstream-ms".to_string(), "345".to_string()));
    assert!(headers[1].1.chars().all(|c| c.is_ascii_digit()));
    assert!(headers[2].1.chars().all(|c| c.is_ascii_digit()));
}
