use std::sync::Arc;

use httpgate::proxy::{route_request, BackendResult, DevboxProxy, RouteDecision};
use httpgate::registry::DevboxRegistry;

#[test]
fn test_parse_host_standard_format() {
    let result = DevboxProxy::parse_host("outdoor-before-78648-8080.devbox.sealos.io");
    assert_eq!(result, Some(("outdoor-before-78648".to_string(), 8080)));
}

#[test]
fn test_parse_host_simple_id() {
    let result = DevboxProxy::parse_host("my-app-8080.devbox.sealos.io");
    assert_eq!(result, Some(("my-app".to_string(), 8080)));
}

#[test]
fn test_parse_host_single_word() {
    let result = DevboxProxy::parse_host("myapp-443.devbox.sealos.io");
    assert_eq!(result, Some(("myapp".to_string(), 443)));
}

#[test]
fn test_parse_host_with_numbers() {
    let result = DevboxProxy::parse_host("app123-test456-3000.devbox.sealos.io");
    assert_eq!(result, Some(("app123-test456".to_string(), 3000)));
}

#[test]
fn test_parse_host_multiple_hyphens() {
    let result = DevboxProxy::parse_host("my-cool-dev-box-1-8080.devbox.sealos.io");
    assert_eq!(result, Some(("my-cool-dev-box-1".to_string(), 8080)));
}

#[test]
fn test_parse_host_single_char() {
    let result = DevboxProxy::parse_host("a-8080.devbox.sealos.io");
    assert_eq!(result, Some(("a".to_string(), 8080)));
}

#[test]
fn test_parse_host_with_port_suffix() {
    let result = DevboxProxy::parse_host("outdoor-before-78648-8080.devbox.sealos.io:443");
    assert_eq!(result, Some(("outdoor-before-78648".to_string(), 8080)));
}

#[test]
fn test_parse_host_invalid_no_port() {
    assert!(DevboxProxy::parse_host("outdoor-before.devbox.sealos.io").is_none());
}

#[test]
fn test_parse_host_invalid_format() {
    assert!(DevboxProxy::parse_host("invalid.example.com").is_none());
    assert!(DevboxProxy::parse_host("").is_none());
    assert!(DevboxProxy::parse_host("-invalid-8080.devbox.io").is_none());
    assert!(DevboxProxy::parse_host("invalid--8080.devbox.io").is_none());
}

#[test]
fn test_resolve_backend_with_pod_ip() {
    let mut registry = DevboxRegistry::new();
    registry.register_devbox(
        "outdoor-before-78648".to_string(),
        "ns-admin".to_string(),
        "devbox1".to_string(),
    );
    registry.update_pod_ip("ns-admin", "devbox1", "10.107.173.213".to_string());

    let proxy = DevboxProxy::new(Arc::new(registry));

    let result = proxy.resolve_backend("outdoor-before-78648", 8080);
    assert!(matches!(
        result,
        BackendResult::Resolved(ip, 8080) if ip == "10.107.173.213"
    ));
}

#[test]
fn test_resolve_backend_no_pod_ip() {
    let mut registry = DevboxRegistry::new();
    registry.register_devbox(
        "outdoor-before-78648".to_string(),
        "ns-admin".to_string(),
        "devbox1".to_string(),
    );

    let proxy = DevboxProxy::new(Arc::new(registry));

    let result = proxy.resolve_backend("outdoor-before-78648", 8080);
    assert!(matches!(result, BackendResult::NotRunning));
}

#[test]
fn test_resolve_backend_not_found() {
    let registry = Arc::new(DevboxRegistry::new());
    let proxy = DevboxProxy::new(registry);

    let result = proxy.resolve_backend("unknown-id-123", 8080);
    assert!(matches!(result, BackendResult::NotFound));
}

#[test]
fn parse_host_round_trip_examples() {
    for (id, port) in [("a", 0u16), ("x9", 65535), ("ab-cd-1", 1), ("7", 80)] {
        let host = format!("{}-{}.anything.example", id, port);
        assert_eq!(DevboxProxy::parse_host(&host), Some((id.to_string(), port)));
        let with_suffix = format!("{}:9443", host);
        assert_eq!(DevboxProxy::parse_host(&with_suffix), Some((id.to_string(), port)));
    }
}

#[test]
fn parse_host_rejects_malformed() {
    assert!(DevboxProxy::parse_host("no-dot-8080").is_none());
    assert!(DevboxProxy::parse_host("abc-def.example.com").is_none());
    assert!(DevboxProxy::parse_host("app-.example.com").is_none());
    assert!(DevboxProxy::parse_host("-8080.example.com").is_none());
    assert!(DevboxProxy::parse_host("Upper-8080.example.com").is_none());
    assert!(DevboxProxy::parse_host("app-80a.example.com").is_none());
    assert!(DevboxProxy::parse_host("app:8080-1.example.com").is_none());
}

#[test]
fn parse_host_port_bounds() {
    assert_eq!(
        DevboxProxy::parse_host("app-65535.example.com"),
        Some(("app".to_string(), 65535))
    );
    assert!(DevboxProxy::parse_host("app-65536.example.com").is_none());
    assert!(DevboxProxy::parse_host("app-99999999999999999999.example.com").is_none());
    assert_eq!(
        DevboxProxy::parse_host("app-0080.example.com"),
        Some(("app".to_string(), 80))
    );
}

#[test]
fn parse_host_dot_only_in_suffix_domain() {
    assert_eq!(
        DevboxProxy::parse_host("box-1-22.a.b:c.d"),
        Some(("box-1".to_string(), 22))
    );
    assert_eq!(
        DevboxProxy::parse_host("box-22.dévbox.example"),
        Some(("box".to_string(), 22))
    );
}

#[test]
fn route_request_decisions() {
    let mut registry = DevboxRegistry::new();
    registry.register_devbox("ready".to_string(), "ns".to_string(), "r".to_string());
    registry.register_devbox("pending".to_string(), "ns".to_string(), "p".to_string());
    registry.update_pod_ip("ns", "r", "10.1.2.3".to_string());

    match route_request(&registry, "ready-3000.devbox.io:443") {
        RouteDecision::Forward(ctx) => {
            assert_eq!(ctx.backend_ip, "10.1.2.3");
            assert_eq!(ctx.backend_port, 3000);
        }
        other => panic!("unexpected decision {:?}", other),
    }
    let pending = route_request(&registry, "pending-3000.devbox.io");
    assert!(matches!(pending, RouteDecision::ServiceUnavailable));
    assert_eq!(pending.status_code(), Some(503));
    let unknown = route_request(&registry, "unknown-3000.devbox.io");
    assert!(matches!(unknown, RouteDecision::NotFound));
    assert_eq!(unknown.status_code(), Some(404));
    let bad = route_request(&registry, "not a host");
    assert!(matches!(bad, RouteDecision::NotFound));
    assert_eq!(bad.status_code(), Some(404));
}

#[test]
fn proxy_route_uses_shared_registry() {
    let mut registry = DevboxRegistry::new();
    registry.register_devbox("w".to_string(), "ns".to_string(), "w".to_string());
    registry.update_pod_ip("ns", "w", "10.0.0.9".to_string());
    let proxy = DevboxProxy::new(Arc::new(registry));
    let decision = proxy.route("w-8443.devbox.io");
    assert_eq!(decision.status_code(), None);
    assert!(matches!(decision, RouteDecision::Forward(ctx) if ctx.backend_ip == "10.0.0.9" && ctx.backend_port == 8443));
}
