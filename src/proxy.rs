//! The per-request routing pipeline: parse the host value, resolve the
//! backend from the registry, and either hand a routing decision to the
//! upstream stage or answer with a terminal error response.
use std::sync::Arc;

use vstd::prelude::*;
use vstd::string::StringSliceAdditionalSpecFns;

use crate::host::{parse_host_spec, parse_host_with_agent_port, parsed_view, UpstreamProtocol, DEFAULT_AGENT_PORT};
use crate::registry::{pod_key, DevboxRegistry};

verus! {

/// Outcome of backend resolution.
pub enum BackendResult {
    /// The tenant is known and its pod has an address: address and port.
    Resolved(String, u16),
    /// The tenant identifier is unknown.
    NotFound,
    /// The tenant is known but its pod has no address.
    NotRunning,
}

/// The routing decision carried from the request stage to the upstream
/// stage of one request.
pub struct ProxyCtx {
    /// Backend pod address.
    pub backend_ip: String,
    /// Backend port.
    pub backend_port: u16,
    /// Protocol spoken to the backend.
    pub protocol: UpstreamProtocol,
}

/// A terminal plain-text response, sent without contacting any backend.
pub struct ErrorResponse {
    pub status: u16,
    pub body: &'static str,
}

/// What the request stage decides.
pub enum RouteDecision {
    /// Continue to the backend that the context names.
    Forward(ProxyCtx),
    /// Answer with this response and stop.
    Reject(ErrorResponse),
}

/// The content type of every terminal error response.
pub const ERROR_CONTENT_TYPE: &'static str = "text/plain";

/// The tag that prefixes the body of a response to a failed proxy attempt.
pub const FAILURE_TAG: &'static str = "httpgate";

/// The address that a tenant identifier resolves to: `None` when the
/// identifier is unknown, `Some(None)` when its workload has no pod address,
/// and `Some(Some(ip))` otherwise.
pub open spec fn tenant_address(registry: &DevboxRegistry, unique_id: Seq<char>) -> Option<Option<Seq<char>>> {
    if registry.devboxes().contains_key(unique_id) {
        let (namespace, devbox_name) = registry.devboxes()[unique_id];
        Some(registry.pod_ips().get(pod_key(namespace, devbox_name)))
    } else {
        None
    }
}

/// `r` is what resolving `unique_id` with `port` against `registry` gives.
pub open spec fn resolves_to(r: &BackendResult, registry: &DevboxRegistry, unique_id: Seq<char>, port: u16) -> bool {
    match tenant_address(registry, unique_id) {
        None => r is NotFound,
        Some(None) => r is NotRunning,
        Some(Some(ip)) => r is Resolved && r->Resolved_0@ == ip && r->Resolved_1 == port,
    }
}

pub open spec fn not_found_body() -> Seq<char> {
    seq!['d', 'e', 'v', 'b', 'o', 'x', ' ', 'n', 'o', 't', ' ', 'f', 'o', 'u', 'n', 'd']
}

pub open spec fn not_running_body() -> Seq<char> {
    seq!['d', 'e', 'v', 'b', 'o', 'x', ' ', 'n', 'o', 't', ' ', 'r', 'u', 'n', 'n', 'i', 'n', 'g']
}

/// `d` is the decision for the host value `host` against `registry`: an
/// unroutable host or an unknown tenant gives 404 "devbox not found", a
/// tenant with no address 503 "devbox not running", and a resolved tenant
/// the routing context with its address, the parsed port and protocol.
pub open spec fn decides(d: &RouteDecision, registry: &DevboxRegistry, host: Seq<char>, agent_port: u16) -> bool {
    match parse_host_spec(host, agent_port) {
        None => d is Reject && d->Reject_0.status == 404 && d->Reject_0.body@ == not_found_body(),
        Some((protocol, unique_id, port)) => match tenant_address(registry, unique_id) {
            None => d is Reject && d->Reject_0.status == 404 && d->Reject_0.body@ == not_found_body(),
            Some(None) => d is Reject && d->Reject_0.status == 503 && d->Reject_0.body@ == not_running_body(),
            Some(Some(ip)) => d is Forward && d->Forward_0.backend_ip@ == ip && d->Forward_0.backend_port == port
                && d->Forward_0.protocol == protocol,
        },
    }
}

impl ErrorResponse {
    /// 404 "devbox not found": the host names no known tenant.
    pub fn not_found() -> (r: Self)
        ensures
            r.status == 404,
            r.body@ == not_found_body(),
    {
        proof {
            reveal_strlit("devbox not found");
        }
        ErrorResponse { status: 404, body: "devbox not found" }
    }

    /// 503 "devbox not running": the tenant is known but has no address.
    pub fn not_running() -> (r: Self)
        ensures
            r.status == 503,
            r.body@ == not_running_body(),
    {
        proof {
            reveal_strlit("devbox not running");
        }
        ErrorResponse { status: 503, body: "devbox not running" }
    }

    /// The exact length of the body in bytes.
    pub fn content_length(&self) -> (r: usize)
        ensures
            r == self.body.spec_bytes().len() as usize,
    {
        self.body.len()
    }
}

/// Resolves a tenant identifier in two lookups: the tenant's workload, then
/// the workload's pod address.
pub fn resolve_in(registry: &DevboxRegistry, unique_id: &str, port: u16) -> (r: BackendResult)
    ensures
        resolves_to(&r, registry, unique_id@, port),
{
    let info = match registry.get_devbox(unique_id) {
        Some(info) => info,
        None => {
            return BackendResult::NotFound;
        },
    };
    match registry.get_pod_ip(info.namespace.as_str(), info.devbox_name.as_str()) {
        Some(pod_ip) => BackendResult::Resolved(pod_ip, port),
        None => BackendResult::NotRunning,
    }
}

/// The request stage: parses the host value and resolves the backend.
pub fn route_in(registry: &DevboxRegistry, host: &str, agent_port: u16) -> (d: RouteDecision)
    ensures
        decides(&d, registry, host@, agent_port),
{
    let (protocol, unique_id, port) = match parse_host_with_agent_port(host, agent_port) {
        Some(parsed) => parsed,
        None => {
            return RouteDecision::Reject(ErrorResponse::not_found());
        },
    };
    match resolve_in(registry, unique_id.as_str(), port) {
        BackendResult::Resolved(backend_ip, backend_port) => RouteDecision::Forward(
            ProxyCtx { backend_ip, backend_port, protocol },
        ),
        BackendResult::NotFound => RouteDecision::Reject(ErrorResponse::not_found()),
        BackendResult::NotRunning => RouteDecision::Reject(ErrorResponse::not_running()),
    }
}

/// The routing front end over a shared registry.
pub struct DevboxProxy {
    registry: Arc<DevboxRegistry>,
    agent_port: u16,
}

impl DevboxProxy {
    /// The registry that the proxy reads.
    pub closed spec fn registry(&self) -> DevboxRegistry {
        *self.registry
    }

    /// The port that the agent keyword stands for.
    pub closed spec fn agent_port(&self) -> u16 {
        self.agent_port
    }

    /// A proxy over `registry` with the default agent port.
    pub fn new(registry: Arc<DevboxRegistry>) -> (r: Self)
        ensures
            r.registry() == *registry,
            r.agent_port() == DEFAULT_AGENT_PORT,
    {
        DevboxProxy { registry, agent_port: DEFAULT_AGENT_PORT }
    }

    /// A proxy over `registry` with the given agent port.
    pub fn with_agent_port(registry: Arc<DevboxRegistry>, agent_port: u16) -> (r: Self)
        ensures
            r.registry() == *registry,
            r.agent_port() == agent_port,
    {
        DevboxProxy { registry, agent_port }
    }

    /// Protocol, tenant identifier and port from a host value, with the
    /// agent keyword standing for the default agent port.
    pub fn parse_host(host: &str) -> (r: Option<(UpstreamProtocol, String, u16)>)
        ensures
            parsed_view(r) == parse_host_spec(host@, DEFAULT_AGENT_PORT),
    {
        parse_host_with_agent_port(host, DEFAULT_AGENT_PORT)
    }

    /// Resolves a tenant identifier against the proxy's registry.
    pub fn resolve_backend(&self, unique_id: &str, port: u16) -> (r: BackendResult)
        ensures
            resolves_to(&r, &self.registry(), unique_id@, port),
    {
        resolve_in(&self.registry, unique_id, port)
    }

    /// The request stage against the proxy's registry.
    pub fn route(&self, host: &str) -> (d: RouteDecision)
        ensures
            decides(&d, &self.registry(), host@, self.agent_port()),
    {
        route_in(&self.registry, host, self.agent_port)
    }
}

/// Where and how the upstream stage connects for one request.
pub struct UpstreamTarget {
    /// Backend pod address.
    pub ip: String,
    /// Backend port.
    pub port: u16,
    /// Whether to speak TLS to the backend; never, backends are plaintext.
    pub tls: bool,
    /// Whether to speak HTTP/2 over cleartext (prior knowledge, no ALPN).
    pub h2c: bool,
}

impl ProxyCtx {
    /// The connection target for this routing decision: plaintext to the
    /// backend address and port, HTTP/2 over cleartext exactly for gRPC.
    pub fn upstream_target(&self) -> (r: UpstreamTarget)
        ensures
            r.ip@ == self.backend_ip@,
            r.port == self.backend_port,
            !r.tls,
            r.h2c == (self.protocol == UpstreamProtocol::Grpc),
    {
        UpstreamTarget {
            ip: self.backend_ip.clone(),
            port: self.backend_port,
            tls: false,
            h2c: self.protocol == UpstreamProtocol::Grpc,
        }
    }
}

/// The side to which a failure after upstream selection is attributed.
#[derive(Debug, Clone, Copy, PartialEq, Eq, Structural)]
pub enum FailureSource {
    Upstream,
    Downstream,
    Internal,
    Unset,
}

/// The status of the response to a failure after upstream selection, or
/// `None` when no response is attempted. An explicit status wins; otherwise
/// an upstream failure gives 502, a downstream failure on a dead connection
/// none, another downstream failure 400, and anything else 500.
pub fn failure_status(explicit_status: Option<u16>, source: FailureSource, connection_dead: bool) -> (r: Option<u16>)
    ensures
        explicit_status.is_some() ==> r == explicit_status,
        explicit_status.is_none() ==> r == match source {
            FailureSource::Upstream => Some(502u16),
            FailureSource::Downstream => if connection_dead { None } else { Some(400u16) },
            FailureSource::Internal | FailureSource::Unset => Some(500u16),
        },
{
    match explicit_status {
        Some(status) => Some(status),
        None => match source {
            FailureSource::Upstream => Some(502),
            FailureSource::Downstream => {
                if connection_dead {
                    None
                } else {
                    Some(400)
                }
            },
            FailureSource::Internal | FailureSource::Unset => Some(500),
        },
    }
}

/// The body of the response to a failure: the failure detail behind the
/// identifying tag, `"<tag>: <detail>"`.
pub fn failure_body(detail: &str) -> (r: String)
    ensures
        r@ == FAILURE_TAG@ + seq![':', ' '] + detail@,
{
    let mut body = FAILURE_TAG.to_owned();
    body.append(": ");
    body.append(detail);
    proof {
        reveal_strlit(": ");
    }
    body
}

} // verus!
