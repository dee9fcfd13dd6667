use rest_proxy::routing::{classify_method, normalize_path, Method};

#[test]
fn no_api_prefix_passes_through() {
    assert_eq!(normalize_path("/foo/bar"), ("/api", "/foo/bar"));
    assert_eq!(normalize_path(""), ("/api", ""));
    assert_eq!(normalize_path("/"), ("/api", "/"));
    assert_eq!(normalize_path("/ap"), ("/api", "/ap"));
    assert_eq!(normalize_path("/apx/v10/foo"), ("/api", "/apx/v10/foo"));
}

#[test]
fn version_segment_is_stripped() {
    assert_eq!(
        normalize_path("/api/v10/channels/1/messages"),
        ("/api/v10", "/channels/1/messages")
    );
    assert_eq!(normalize_path("/api/v6/gateway"), ("/api/v6", "/gateway"));
    assert_eq!(normalize_path("/api/v10"), ("/api/v10", ""));
}

#[test]
fn non_numeric_version_is_kept_in_remainder() {
    assert_eq!(normalize_path("/api/vX/foo"), ("/api", "/vX/foo"));
    assert_eq!(normalize_path("/api/v/foo"), ("/api", "/v/foo"));
    assert_eq!(normalize_path("/api/v10x/foo"), ("/api", "/v10x/foo"));
}

#[test]
fn any_digit_run_makes_a_version_segment() {
    assert_eq!(normalize_path("/api/v999/foo"), ("/api/v999", "/foo"));
    assert_eq!(normalize_path("/api/v007/foo"), ("/api/v007", "/foo"));
    assert_eq!(
        normalize_path("/api/v18446744073709551616/foo"),
        ("/api/v18446744073709551616", "/foo")
    );
}

#[test]
fn plain_api_prefix_is_stripped() {
    assert_eq!(normalize_path("/api/gateway"), ("/api", "/gateway"));
    assert_eq!(normalize_path("/api"), ("/api", ""));
}

#[test]
fn methods_classify() {
    assert_eq!(classify_method("DELETE"), Some(Method::Delete));
    assert_eq!(classify_method("GET"), Some(Method::Get));
    assert_eq!(classify_method("PATCH"), Some(Method::Patch));
    assert_eq!(classify_method("POST"), Some(Method::Post));
    assert_eq!(classify_method("PUT"), Some(Method::Put));
    assert_eq!(classify_method("TRACE"), None);
    assert_eq!(classify_method("get"), None);
}
