use std::sync::Arc;

use httpgate::host::{parse_host_with_agent_port, UpstreamProtocol, DEFAULT_AGENT_PORT};
use httpgate::proxy::{
    failure_body, failure_status, route_in, BackendResult, DevboxProxy, ErrorResponse,
    FailureSource, ProxyCtx, RouteDecision, ERROR_CONTENT_TYPE,
};
use httpgate::registry::DevboxRegistry;

// HTTP protocol tests (devbox- prefix)

#[test]
fn test_parse_host_http_standard_format() {
    let result = DevboxProxy::parse_host("devbox-outdoor-before-78648-8080.devbox.sealos.io");
    assert_eq!(
        result,
        Some((
            UpstreamProtocol::Http,
            "outdoor-before-78648".to_string(),
            8080
        ))
    );
}

#[test]
fn test_parse_host_http_simple_id() {
    let result = DevboxProxy::parse_host("devbox-my-app-8080.devbox.sealos.io");
    assert_eq!(
        result,
        Some((UpstreamProtocol::Http, "my-app".to_string(), 8080))
    );
}

#[test]
fn test_parse_host_http_single_word() {
    let result = DevboxProxy::parse_host("devbox-myapp-443.devbox.sealos.io");
    assert_eq!(
        result,
        Some((UpstreamProtocol::Http, "myapp".to_string(), 443))
    );
}

#[test]
fn test_parse_host_http_with_numbers() {
    let result = DevboxProxy::parse_host("devbox-app123-test456-3000.devbox.sealos.io");
    assert_eq!(
        result,
        Some((UpstreamProtocol::Http, "app123-test456".to_string(), 3000))
    );
}

#[test]
fn test_parse_host_http_with_port_suffix() {
    let result = DevboxProxy::parse_host("devbox-outdoor-before-78648-8080.devbox.sealos.io:443");
    assert_eq!(
        result,
        Some((
            UpstreamProtocol::Http,
            "outdoor-before-78648".to_string(),
            8080
        ))
    );
}

// gRPC protocol tests (devboxgrpc- prefix)

#[test]
fn test_parse_host_grpc_standard_format() {
    let result = DevboxProxy::parse_host("devboxgrpc-outdoor-before-78648-50051.devbox.sealos.io");
    assert_eq!(
        result,
        Some((
            UpstreamProtocol::Grpc,
            "outdoor-before-78648".to_string(),
            50051
        ))
    );
}

#[test]
fn test_parse_host_grpc_simple_id() {
    let result = DevboxProxy::parse_host("devboxgrpc-my-app-50051.devbox.sealos.io");
    assert_eq!(
        result,
        Some((UpstreamProtocol::Grpc, "my-app".to_string(), 50051))
    );
}

#[test]
fn test_parse_host_grpc_with_port_suffix() {
    let result =
        DevboxProxy::parse_host("devboxgrpc-outdoor-before-78648-50051.devbox.sealos.io:443");
    assert_eq!(
        result,
        Some((
            UpstreamProtocol::Grpc,
            "outdoor-before-78648".to_string(),
            50051
        ))
    );
}

// Invalid format tests

#[test]
fn test_parse_host_invalid_no_port() {
    assert!(DevboxProxy::parse_host("devbox-outdoor-before.devbox.sealos.io").is_none());
    assert!(DevboxProxy::parse_host("devboxgrpc-outdoor-before.devbox.sealos.io").is_none());
}

#[test]
fn test_parse_host_invalid_format() {
    // No prefix
    assert!(DevboxProxy::parse_host("invalid.example.com").is_none());
    assert!(DevboxProxy::parse_host("").is_none());
    // Missing prefix
    assert!(DevboxProxy::parse_host("outdoor-before-78648-8080.devbox.sealos.io").is_none());
    // Invalid uniqueID format (starts/ends with hyphen)
    assert!(DevboxProxy::parse_host("devbox--invalid-8080.devbox.io").is_none());
    assert!(DevboxProxy::parse_host("devbox-invalid--8080.devbox.io").is_none());
    assert!(DevboxProxy::parse_host("devboxgrpc--invalid-50051.devbox.io").is_none());
}

#[test]
fn test_resolve_backend_with_pod_ip() {
    let mut registry = DevboxRegistry::new();
    registry.register_devbox(
        "outdoor-before-78648".to_string(),
        "ns-admin".to_string(),
        "devbox1".to_string(),
    );
    registry.update_pod_ip("ns-admin", "devbox1", "10.107.173.213".to_string());

    let proxy = DevboxProxy::new(Arc::new(registry));

    let result = proxy.resolve_backend("outdoor-before-78648", 8080);
    assert!(matches!(
        result,
        BackendResult::Resolved(ip, 8080) if ip == "10.107.173.213"
    ));
}

#[test]
fn test_resolve_backend_no_pod_ip() {
    let mut registry = DevboxRegistry::new();
    registry.register_devbox(
        "outdoor-before-78648".to_string(),
        "ns-admin".to_string(),
        "devbox1".to_string(),
    );
    // Pod IP not set

    let proxy = DevboxProxy::new(Arc::new(registry));

    let result = proxy.resolve_backend("outdoor-before-78648", 8080);
    assert!(matches!(result, BackendResult::NotRunning));
}

#[test]
fn test_resolve_backend_not_found() {
    let registry = DevboxRegistry::new();
    let proxy = DevboxProxy::new(Arc::new(registry));

    let result = proxy.resolve_backend("unknown-id-123", 8080);
    assert!(matches!(result, BackendResult::NotFound));
}

// Grammar edges

#[test]
fn parse_host_agent_keyword() {
    assert_eq!(
        DevboxProxy::parse_host("devbox-my-app-agent.devbox.sealos.io"),
        Some((UpstreamProtocol::Http, "my-app".to_string(), DEFAULT_AGENT_PORT))
    );
    assert_eq!(
        parse_host_with_agent_port("devboxgrpc-my-agent-agent.x", 7000),
        Some((UpstreamProtocol::Grpc, "my-agent".to_string(), 7000))
    );
    // An identifier may be the keyword itself when a number follows.
    assert_eq!(
        parse_host_with_agent_port("devbox-agent-80.x", 7000),
        Some((UpstreamProtocol::Http, "agent".to_string(), 80))
    );
}

#[test]
fn parse_host_rejects_bad_port_token() {
    assert!(DevboxProxy::parse_host("devbox-my-app-http.x").is_none());
    assert!(DevboxProxy::parse_host("devbox-my-app-80a.x").is_none());
    assert!(DevboxProxy::parse_host("devbox-my-app-Agent.x").is_none());
    assert!(DevboxProxy::parse_host("devbox-my-app-.x").is_none());
}

#[test]
fn parse_host_port_range() {
    assert_eq!(
        DevboxProxy::parse_host("devbox-a-65535.x"),
        Some((UpstreamProtocol::Http, "a".to_string(), 65535))
    );
    assert!(DevboxProxy::parse_host("devbox-a-65536.x").is_none());
    assert!(DevboxProxy::parse_host("devbox-a-99999999999999999999.x").is_none());
    assert_eq!(
        DevboxProxy::parse_host("devbox-a-0080.x"),
        Some((UpstreamProtocol::Http, "a".to_string(), 80))
    );
}

#[test]
fn parse_host_identifier_edges() {
    assert!(DevboxProxy::parse_host("devbox-My-app-80.x").is_none());
    assert!(DevboxProxy::parse_host("devbox-my_app-80.x").is_none());
    assert!(DevboxProxy::parse_host("devbox--80.x").is_none());
    assert!(DevboxProxy::parse_host("devbox-80.x").is_none());
    assert_eq!(
        DevboxProxy::parse_host("devbox-a--b-80.x"),
        Some((UpstreamProtocol::Http, "a--b".to_string(), 80))
    );
    // The identifier ends at the first dot, and a colon ends the name.
    assert!(DevboxProxy::parse_host("devbox-a.b-80.x").is_none());
    assert!(DevboxProxy::parse_host("devbox-a-80:8080.x").is_none());
    assert_eq!(
        DevboxProxy::parse_host("devbox-a-80.é:x"),
        Some((UpstreamProtocol::Http, "a".to_string(), 80))
    );
}

#[test]
fn parse_host_prefix_is_case_sensitive() {
    assert!(DevboxProxy::parse_host("Devbox-a-80.x").is_none());
    assert!(DevboxProxy::parse_host("devboxgrpc_a-80.x").is_none());
    assert!(DevboxProxy::parse_host("devbox").is_none());
}

// End to end through the request stage

fn registry_with_tenant(with_address: bool) -> DevboxRegistry {
    let mut registry = DevboxRegistry::new();
    registry.register_devbox(
        "outdoor-before-78648".to_string(),
        "ns-admin".to_string(),
        "devbox1".to_string(),
    );
    if with_address {
        registry.update_pod_ip("ns-admin", "devbox1", "10.107.173.213".to_string());
    }
    registry
}

#[test]
fn route_forwards_to_registered_backend() {
    let registry = registry_with_tenant(true);
    match route_in(&registry, "devbox-outdoor-before-78648-8080.example.com", DEFAULT_AGENT_PORT) {
        RouteDecision::Forward(ctx) => {
            assert_eq!(ctx.backend_ip, "10.107.173.213");
            assert_eq!(ctx.backend_port, 8080);
            assert_eq!(ctx.protocol, UpstreamProtocol::Http);
            let target = ctx.upstream_target();
            assert_eq!(target.ip, "10.107.173.213");
            assert_eq!(target.port, 8080);
            assert!(!target.tls);
            assert!(!target.h2c);
        }
        RouteDecision::Reject(_) => panic!("expected a backend"),
    }
}

#[test]
fn route_grpc_uses_h2c() {
    let registry = registry_with_tenant(true);
    let proxy = DevboxProxy::with_agent_port(Arc::new(registry), 9000);
    match proxy.route("devboxgrpc-outdoor-before-78648-agent.example.com:443") {
        RouteDecision::Forward(ctx) => {
            assert_eq!(ctx.backend_port, 9000);
            assert_eq!(ctx.protocol, UpstreamProtocol::Grpc);
            assert!(ctx.upstream_target().h2c);
        }
        RouteDecision::Reject(_) => panic!("expected a backend"),
    }
}

#[test]
fn route_not_running_is_503() {
    let registry = registry_with_tenant(false);
    match route_in(&registry, "devbox-outdoor-before-78648-8080.example.com", DEFAULT_AGENT_PORT) {
        RouteDecision::Reject(resp) => {
            assert_eq!(resp.status, 503);
            assert_eq!(resp.body, "devbox not running");
            assert_eq!(resp.content_length(), 18);
        }
        RouteDecision::Forward(_) => panic!("expected a rejection"),
    }
}

#[test]
fn route_unknown_tenant_is_404() {
    let registry = registry_with_tenant(true);
    match route_in(&registry, "devbox-someone-else-8080.example.com", DEFAULT_AGENT_PORT) {
        RouteDecision::Reject(resp) => {
            assert_eq!(resp.status, 404);
            assert_eq!(resp.body, "devbox not found");
            assert_eq!(resp.content_length(), 16);
        }
        RouteDecision::Forward(_) => panic!("expected a rejection"),
    }
}

#[test]
fn route_malformed_host_is_404() {
    let registry = registry_with_tenant(true);
    for host in [
        "outdoor-before-78648-8080.example.com",
        "devbox--outdoor-before-78648-8080.example.com",
        "devbox-outdoor-before-78648-.example.com",
        "",
        ":",
    ] {
        match route_in(&registry, host, DEFAULT_AGENT_PORT) {
            RouteDecision::Reject(resp) => {
                assert_eq!(resp.status, 404);
                assert_eq!(resp.body, "devbox not found");
            }
            RouteDecision::Forward(_) => panic!("expected a rejection"),
        }
    }
}

#[test]
fn error_responses_are_plain_text() {
    assert_eq!(ERROR_CONTENT_TYPE, "text/plain");
    let resp = ErrorResponse::not_found();
    assert_eq!(resp.status, 404);
    assert_eq!(resp.content_length(), resp.body.len());
}

#[test]
fn upstream_target_copies_context() {
    let ctx = ProxyCtx {
        backend_ip: "10.0.0.9".to_string(),
        backend_port: 50051,
        protocol: UpstreamProtocol::Grpc,
    };
    let target = ctx.upstream_target();
    assert_eq!(target.ip, "10.0.0.9");
    assert_eq!(target.port, 50051);
    assert!(!target.tls);
    assert!(target.h2c);
}

#[test]
fn failure_status_precedence() {
    assert_eq!(failure_status(Some(418), FailureSource::Upstream, true), Some(418));
    assert_eq!(failure_status(None, FailureSource::Upstream, false), Some(502));
    assert_eq!(failure_status(None, FailureSource::Downstream, true), None);
    assert_eq!(failure_status(None, FailureSource::Downstream, false), Some(400));
    assert_eq!(failure_status(None, FailureSource::Internal, false), Some(500));
    assert_eq!(failure_status(None, FailureSource::Unset, true), Some(500));
}

#[test]
fn failure_body_is_tagged() {
    assert_eq!(failure_body("connection refused"), "httpgate: connection refused");
    assert_eq!(failure_body(""), "httpgate: ");
}
