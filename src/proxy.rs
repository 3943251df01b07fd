use vstd::prelude::*;
use std::sync::Arc;

use crate::host::{parse_host, parse_host_spec};
use crate::registry::{lookup_spec, DevboxRegistry, RegistryView};

verus! {

/// Outcome of resolving a workload identifier against the registry.
#[derive(Debug, Clone)]
pub enum BackendResult {
    /// The workload is registered and its instance has this address; the
    /// port is the one the request asked for.
    Resolved(String, u16),
    /// No workload is registered under the identifier.
    NotFound,
    /// The workload is registered but its instance has no address yet.
    NotRunning,
}

/// The mathematical value of a resolution outcome.
pub enum BackendView {
    Resolved(Seq<char>, u16),
    NotFound,
    NotRunning,
}

impl BackendResult {
    pub open spec fn view(&self) -> BackendView {
        match self {
            BackendResult::Resolved(ip, port) => BackendView::Resolved(ip@, *port),
            BackendResult::NotFound => BackendView::NotFound,
            BackendResult::NotRunning => BackendView::NotRunning,
        }
    }
}

/// How the identifier `id` resolves in `v` for a request to `port`.
pub open spec fn resolve_spec(v: RegistryView, id: Seq<char>, port: u16) -> BackendView {
    match lookup_spec(v, id) {
        None => BackendView::NotFound,
        Some(loc) => match loc.pod_ip {
            None => BackendView::NotRunning,
            Some(ip) => BackendView::Resolved(ip, port),
        },
    }
}

/// An unregistered identifier is not found; a registered one whose
/// placement has no address is not running; one whose placement has address
/// `a` resolves to `a` and the requested port.
pub proof fn lemma_resolve_outcomes(v: RegistryView, id: Seq<char>, port: u16)
    ensures
        !v.devboxes.contains_key(id) ==> resolve_spec(v, id, port) == BackendView::NotFound,
        v.devboxes.contains_key(id) && !v.pods.contains_key(v.devboxes[id]) ==> resolve_spec(v, id, port)
            == BackendView::NotRunning,
        v.devboxes.contains_key(id) && v.pods.contains_key(v.devboxes[id]) ==> resolve_spec(v, id, port)
            == BackendView::Resolved(v.pods[v.devboxes[id]], port),
{
}

/// Where a routed request goes: the instance address and target port.
#[derive(Debug, Clone)]
pub struct ProxyCtx {
    pub backend_ip: String,
    pub backend_port: u16,
}

/// What to do with one request.
#[derive(Debug, Clone)]
pub enum RouteDecision {
    /// Forward, in plaintext, to this upstream.
    Forward(ProxyCtx),
    /// Answer 404: the host does not parse, or names no known workload.
    NotFound,
    /// Answer 503: the workload is known but has no reachable address yet.
    ServiceUnavailable,
}

/// The mathematical value of a routing decision.
pub enum RouteView {
    Forward(Seq<char>, u16),
    NotFound,
    ServiceUnavailable,
}

impl RouteDecision {
    pub open spec fn view(&self) -> RouteView {
        match self {
            RouteDecision::Forward(ctx) => RouteView::Forward(ctx.backend_ip@, ctx.backend_port),
            RouteDecision::NotFound => RouteView::NotFound,
            RouteDecision::ServiceUnavailable => RouteView::ServiceUnavailable,
        }
    }

    /// The HTTP status that ends the request here, or `None` when the request
    /// is forwarded.
    pub fn status_code(&self) -> (r: Option<u16>)
        ensures
            r == match self@ {
                RouteView::Forward(_, _) => None::<u16>,
                RouteView::NotFound => Some(404u16),
                RouteView::ServiceUnavailable => Some(503u16),
            },
    {
        match self {
            RouteDecision::Forward(_) => None,
            RouteDecision::NotFound => Some(404),
            RouteDecision::ServiceUnavailable => Some(503),
        }
    }
}

/// The decision for a request whose Host header is `host`, given `v`.
pub open spec fn route_spec(v: RegistryView, host: Seq<char>) -> RouteView {
    match parse_host_spec(host) {
        None => RouteView::NotFound,
        Some((id, port)) => match resolve_spec(v, id, port as u16) {
            BackendView::Resolved(ip, p) => RouteView::Forward(ip, p),
            BackendView::NotFound => RouteView::NotFound,
            BackendView::NotRunning => RouteView::ServiceUnavailable,
        },
    }
}

/// Resolves `unique_id` with one registry lookup; never waits or retries.
pub fn resolve(registry: &DevboxRegistry, unique_id: &str, port: u16) -> (r: BackendResult)
    ensures
        r@ == resolve_spec(registry@, unique_id@, port),
{
    match registry.lookup(unique_id) {
        None => BackendResult::NotFound,
        Some(rec) => match rec.pod_ip {
            None => BackendResult::NotRunning,
            Some(ip) => BackendResult::Resolved(ip, port),
        },
    }
}

/// Decides what to do with a request from its Host header alone.
pub fn route_request(registry: &DevboxRegistry, host: &str) -> (r: RouteDecision)
    ensures
        r@ == route_spec(registry@, host@),
{
    match parse_host(host) {
        None => RouteDecision::NotFound,
        Some((unique_id, port)) => match resolve(registry, unique_id.as_str(), port) {
            BackendResult::Resolved(backend_ip, backend_port) => RouteDecision::Forward(
                ProxyCtx { backend_ip, backend_port },
            ),
            BackendResult::NotFound => RouteDecision::NotFound,
            BackendResult::NotRunning => RouteDecision::ServiceUnavailable,
        },
    }
}

/// Routes requests by Host header `<id>-<port>.<domain>` to `<address>:<port>`
/// of the workload's instance, over a shared registry.
pub struct DevboxProxy {
    registry: Arc<DevboxRegistry>,
}

impl DevboxProxy {
    pub closed spec fn registry_view(&self) -> RegistryView {
        (*self.registry)@
    }

    pub fn new(registry: Arc<DevboxRegistry>) -> (r: Self)
        ensures
            r.registry_view() == (*registry)@,
    {
        DevboxProxy { registry }
    }

    /// Reads the workload identifier and target port from a Host header.
    pub fn parse_host(host: &str) -> (r: Option<(String, u16)>)
        ensures
            match r {
                Some((id, port)) => parse_host_spec(host@) == Some((id@, port as nat)),
                None => parse_host_spec(host@) is None,
            },
    {
        parse_host(host)
    }

    /// Resolves `unique_id` against the registry for a request to `port`.
    pub fn resolve_backend(&self, unique_id: &str, port: u16) -> (r: BackendResult)
        ensures
            r@ == resolve_spec(self.registry_view(), unique_id@, port),
    {
        resolve(&*self.registry, unique_id, port)
    }

    /// Decides what to do with a request from its Host header.
    pub fn route(&self, host: &str) -> (r: RouteDecision)
        ensures
            r@ == route_spec(self.registry_view(), host@),
    {
        route_request(&*self.registry, host)
    }
}

} // verus!
