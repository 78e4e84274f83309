//! The routes and the small endpoints.
use crate::config::ProxyMode;
use crate::json::Json;
use crate::json::JsonView;
use crate::server::error;
use vstd::prelude::*;

verus! {

/// The content type of the metrics: the version is the one that scrapers
/// expect.
pub const METRICS_CONTENT_TYPE: &'static str = "text/plain; version=0.0.4";

/// The status where there is no such route.
pub const NOT_FOUND: u16 = 404;

/// The body of the health endpoint.
pub open spec fn health_body() -> JsonView {
    JsonView::Object(map!["status"@ => JsonView::Text("ok"@)])
}

/// The body of the health endpoint.
pub fn health() -> (r: Json)
    ensures
        r@ == health_body(),
{
    let r = Json::object().with("status", Json::text("ok"));
    proof {
        assert(r@ =~~= health_body());
    }
    r
}

/// The response where there is no such route.
pub fn not_found() -> (r: (u16, Json))
    ensures
        r.0 == NOT_FOUND,
        r.1@ == error::error_body("not found"@),
{
    (NOT_FOUND, error::make_error_body("not found"))
}

/// What serves a route.
#[derive(Debug, Clone, Copy, PartialEq, Eq, Structural)]
pub enum Endpoint {
    ChatCompletions,
    Responses,
    UpdateCredentials,
    CredentialsStatus,
    /// The router passes the request on.
    Proxy,
    Models,
    Health,
    Metrics,
}

/// A request method.
#[derive(Debug, Clone, Copy, PartialEq, Eq, Structural)]
pub enum Method {
    Get,
    Post,
}

/// A route.
#[derive(Debug, Clone, Copy)]
pub struct Route {
    pub method: Method,
    pub path: &'static str,
    pub endpoint: Endpoint,
    /// Whether it takes the admin key.
    pub gated: bool,
}

/// A route in mathematical form.
pub struct RouteView {
    pub method: Method,
    pub path: Seq<char>,
    pub endpoint: Endpoint,
    pub gated: bool,
}

impl Route {
    /// The route in mathematical form.
    pub open spec fn view(&self) -> RouteView {
        RouteView {
            method: self.method,
            path: self.path@,
            endpoint: self.endpoint,
            gated: self.gated,
        }
    }
}

/// A route of this method, path and endpoint.
pub open spec fn route(method: Method, path: Seq<char>, endpoint: Endpoint, gated: bool)
    -> RouteView {
    RouteView { method, path, endpoint, gated }
}

/// The routes that are open to everyone, in both modes.
pub open spec fn open_routes() -> Seq<RouteView> {
    seq![
        route(Method::Get, "/v1/models"@, Endpoint::Models, false),
        route(Method::Get, "/health"@, Endpoint::Health, false),
        route(Method::Get, "/metrics"@, Endpoint::Metrics, false),
    ]
}

/// The routes that take the admin key. The router has no credentials, so it
/// has no routes for them.
pub open spec fn gated_routes(mode: ProxyMode) -> Seq<RouteView> {
    match mode {
        ProxyMode::Backend => seq![
            route(Method::Post, "/v1/chat/completions"@, Endpoint::ChatCompletions, true),
            route(Method::Post, "/v1/responses"@, Endpoint::Responses, true),
            route(Method::Post, "/admin/credentials"@, Endpoint::UpdateCredentials, true),
            route(Method::Get, "/admin/credentials/status"@, Endpoint::CredentialsStatus, true),
        ],
        ProxyMode::Router => seq![
            route(Method::Post, "/v1/chat/completions"@, Endpoint::Proxy, true),
            route(Method::Post, "/v1/responses"@, Endpoint::Proxy, true),
        ],
    }
}

/// Routes in mathematical form.
pub open spec fn route_views(v: Seq<Route>) -> Seq<RouteView> {
    v.map_values(|r: Route| r@)
}

/// A route.
fn make_route(method: Method, path: &'static str, endpoint: Endpoint, gated: bool) -> (r: Route)
    ensures
        r@ == route(method, path@, endpoint, gated),
{
    Route { method, path, endpoint, gated }
}

/// The routes of the server.
pub fn routes(mode: ProxyMode) -> (r: Vec<Route>)
    ensures
        route_views(r@) == gated_routes(mode) + open_routes(),
{
    let mut out: Vec<Route> = Vec::new();
    match mode {
        ProxyMode::Backend => {
            out.push(
                make_route(Method::Post, "/v1/chat/completions", Endpoint::ChatCompletions, true),
            );
            out.push(make_route(Method::Post, "/v1/responses", Endpoint::Responses, true));
            out.push(
                make_route(Method::Post, "/admin/credentials", Endpoint::UpdateCredentials, true),
            );
            out.push(
                make_route(
                    Method::Get,
                    "/admin/credentials/status",
                    Endpoint::CredentialsStatus,
                    true,
                ),
            );
        },
        ProxyMode::Router => {
            out.push(make_route(Method::Post, "/v1/chat/completions", Endpoint::Proxy, true));
            out.push(make_route(Method::Post, "/v1/responses", Endpoint::Proxy, true));
        },
    }
    out.push(make_route(Method::Get, "/v1/models", Endpoint::Models, false));
    out.push(make_route(Method::Get, "/health", Endpoint::Health, false));
    out.push(make_route(Method::Get, "/metrics", Endpoint::Metrics, false));
    proof {
        assert(route_views(out@) =~= gated_routes(mode) + open_routes());
    }
    out
}

/// Whatever takes a request to the backend, or shows or changes credentials,
/// takes the admin key.
pub proof fn law_only_harmless_routes_are_open(mode: ProxyMode, i: int)
    requires
        0 <= i < (gated_routes(mode) + open_routes()).len(),
    ensures
        ({
            let r = (gated_routes(mode) + open_routes())[i];
            !r.gated <==> r.endpoint is Models || r.endpoint is Health || r.endpoint is Metrics
        }),
{
}

} // verus!
