//! The state that all handlers share, the admission of connections, and the
//! dispatch of a request to the handler of its route.

use vstd::prelude::*;
use crate::http::address::IpAddress;
use crate::http::headers::{first_index, HeaderType};
use crate::http::request::{request_bytes, Request, RequestView};
use crate::http::response::{response_bytes, with_generated, Response, ResponseView};
use crate::server::cache::{Cache, CacheView};
use crate::server::config::{BlacklistConfig, BlacklistMode, Config, HostConfig, RouteConfig};
use crate::server::route::{chosen_route, route_request};
use crate::server::config::RouteType;
use crate::server::plugins::{chain_request, chain_response, Plugin, PluginManager};
use crate::text::{ascii_lower, str_eq, to_ascii_lowercase};

verus! {

/// The state of the application: the configuration, which is only read, and
/// the response cache.
#[derive(Debug)]
pub struct AppState {
    /// The configuration.
    pub config: Config,
    /// The response cache.
    pub cache: Cache,
}

impl AppState {
    /// Whether the state is in order: the cache is, and its bound is the one
    /// that the configuration gives.
    pub open spec fn wf(&self) -> bool {
        self.cache.wf() && self.cache@.limit == self.config.cache.size_limit
    }
}

/// What the conversion yields is stated by the contract of `from` itself: the
/// cache keeps its fields to itself, so no expression here could name it.
impl vstd::std_specs::convert::FromSpecImpl<Config> for AppState {
    open spec fn obeys_from_spec() -> bool {
        false
    }

    open spec fn from_spec(config: Config) -> Self {
        arbitrary()
    }
}

impl From<Config> for AppState {
    /// The state at startup: the given configuration and an empty cache with
    /// the configured bound.
    fn from(config: Config) -> (r: AppState)
        ensures
            r.wf(),
            r.config == config,
            r.cache@ == (CacheView {
                limit: config.cache.size_limit as nat,
                entries: Seq::empty(),
            }),
    {
        let cache = Cache::new(config.cache.size_limit);
        AppState { config, cache }
    }
}

/// Whether a connection is admitted: the peer's address is known, and it is
/// not on the blacklist while the blacklist blocks.
pub open spec fn admitted(peer: Option<IpAddress>, blacklist: BlacklistConfig) -> bool {
    match peer {
        Some(ip) => !(blacklist.mode == BlacklistMode::Block && blacklist.lists(ip)),
        None => false,
    }
}

/// Decides whether a freshly accepted connection is served. `peer` is the
/// address of the peer, or `None` where the stream cannot tell it. A
/// connection that is not admitted is closed before anything is read.
pub fn verify_connection(peer: Option<IpAddress>, state: &AppState) -> (r: bool)
    ensures
        r == admitted(peer, state.config.blacklist),
{
    match peer {
        Some(ip) => {
            if state.config.blacklist.mode == BlacklistMode::Block
                && state.config.blacklist.contains(ip) {
                false
            } else {
                true
            }
        },
        None => false,
    }
}

/// A route of a host as the router holds it: the pattern, and the numbers
/// under which the configuration has the route.
#[derive(Debug)]
pub struct RouteEntry {
    pub matches: String,
    pub host: usize,
    pub route: usize,
}

/// A pattern whose WebSocket connections are passed on to a target.
#[derive(Debug)]
pub struct WebsocketRoute {
    pub matches: String,
    pub target: String,
}

/// The routes of one host.
#[derive(Debug)]
pub struct SubApp {
    pub routes: Vec<RouteEntry>,
    pub websocket_routes: Vec<WebsocketRoute>,
}

/// The patterns and targets of the routes that pass WebSocket connections
/// on, in the order of the routes.
pub open spec fn websocket_targets(routes: Seq<RouteConfig>) -> Seq<(Seq<char>, Seq<char>)>
    decreases routes.len(),
{
    if routes.len() == 0 {
        Seq::empty()
    } else {
        match routes.last().websocket_proxy {
            Some(target) => websocket_targets(routes.drop_last()).push(
                (routes.last().matches@, target@),
            ),
            None => websocket_targets(routes.drop_last()),
        }
    }
}

/// The views of a sequence of WebSocket routes.
pub open spec fn websocket_views(s: Seq<WebsocketRoute>) -> Seq<(Seq<char>, Seq<char>)> {
    Seq::new(s.len(), |i: int| (s[i].matches@, s[i].target@))
}

/// The routes of a host for the router: one entry for every configured route,
/// in order, under the number of the host, and one WebSocket route for every
/// route that names a WebSocket target.
pub fn init_app_routes(host: &HostConfig, host_index: usize) -> (r: SubApp)
    ensures
        r.routes@.len() == host.routes@.len(),
        forall|i: int|
            0 <= i < r.routes@.len() ==> (#[trigger] r.routes@[i]).matches@
                == host.routes@[i].matches@ && r.routes@[i].host == host_index
                && r.routes@[i].route == i,
        websocket_views(r.websocket_routes@) == websocket_targets(host.routes@),
{
    let mut routes: Vec<RouteEntry> = Vec::new();
    let mut websocket_routes: Vec<WebsocketRoute> = Vec::new();
    let mut i: usize = 0;
    assert(host.routes@.take(0) =~= Seq::<RouteConfig>::empty());
    assert(websocket_views(websocket_routes@) =~= Seq::<(Seq<char>, Seq<char>)>::empty());
    while i < host.routes.len()
        invariant
            i <= host.routes@.len(),
            routes@.len() == i,
            forall|k: int|
                0 <= k < i ==> (#[trigger] routes@[k]).matches@ == host.routes@[k].matches@
                    && routes@[k].host == host_index && routes@[k].route == k,
            websocket_views(websocket_routes@) == websocket_targets(host.routes@.take(i as int)),
        decreases host.routes@.len() - i,
    {
        let route = &host.routes[i];
        let ghost before = websocket_views(websocket_routes@);
        proof {
            assert(host.routes@.take(i + 1).drop_last() =~= host.routes@.take(i as int));
            assert(host.routes@.take(i + 1).last() == *route);
        }
        routes.push(RouteEntry { matches: route.matches.clone(), host: host_index, route: i });
        match &route.websocket_proxy {
            Some(target) => {
                websocket_routes.push(
                    WebsocketRoute { matches: route.matches.clone(), target: target.clone() },
                );
                assert(websocket_views(websocket_routes@) =~= before.push(
                    (route.matches@, target@),
                ));
            },
            None => {},
        }
        i += 1;
    }
    assert(host.routes@.take(i as int) =~= host.routes@);
    SubApp { routes, websocket_routes }
}

/// The handler of a route, with what it needs from the configuration.
#[derive(Debug)]
pub enum RouteHandler {
    /// Serves the file at `path`.
    File { path: String },
    /// Serves the files below `path` under the pattern `matches`.
    Directory { path: String, matches: String },
    /// Forwards to the targets of the route with the given numbers.
    Proxy { host: usize, route: usize, matches: String },
    /// Redirects to `target`.
    Redirect { target: String },
}

/// What a route handler is in contracts.
pub enum HandlerSpec {
    File { path: Seq<char> },
    Directory { path: Seq<char>, matches: Seq<char> },
    Proxy { host: int, route: int, matches: Seq<char> },
    Redirect { target: Seq<char> },
}

impl View for RouteHandler {
    type V = HandlerSpec;

    open spec fn view(&self) -> HandlerSpec {
        match self {
            RouteHandler::File { path } => HandlerSpec::File { path: path@ },
            RouteHandler::Directory { path, matches } => HandlerSpec::Directory {
                path: path@,
                matches: matches@,
            },
            RouteHandler::Proxy { host, route, matches } => HandlerSpec::Proxy {
                host: *host as int,
                route: *route as int,
                matches: matches@,
            },
            RouteHandler::Redirect { target } => HandlerSpec::Redirect { target: target@ },
        }
    }
}

/// The handler of the route with the given numbers: by the type of the
/// route, with the path or the targets that the type needs. `None` where
/// there is no such route or the route lacks what its type needs.
pub open spec fn handler_of(config: Config, host: int, route: int) -> Option<HandlerSpec> {
    if !config.has_route(host, route) {
        None
    } else {
        let r = config.host(host).routes@[route];
        match r.route_type {
            RouteType::File => match r.path {
                Some(path) => Some(HandlerSpec::File { path: path@ }),
                None => None,
            },
            RouteType::Directory => match r.path {
                Some(path) => Some(HandlerSpec::Directory { path: path@, matches: r.matches@ }),
                None => None,
            },
            RouteType::Proxy => match r.load_balancer {
                Some(_) => Some(HandlerSpec::Proxy { host, route, matches: r.matches@ }),
                None => None,
            },
            RouteType::Redirect => match r.path {
                Some(path) => Some(HandlerSpec::Redirect { target: path@ }),
                None => None,
            },
        }
    }
}

/// Picks the handler of the route with the given numbers.
pub fn inner_request_handler(state: &AppState, host: usize, route: usize) -> (r: Option<
    RouteHandler,
>)
    ensures
        match handler_of(state.config, host as int, route as int) {
            Some(handler) => r matches Some(h) && h@ == handler,
            None => r is None,
        },
{
    if host > state.config.hosts.len() {
        return None;
    }
    let routes = if host == 0 {
        &state.config.default_host.routes
    } else {
        &state.config.hosts[host - 1].routes
    };
    if route >= routes.len() {
        return None;
    }
    let r = &routes[route];
    match r.route_type {
        RouteType::File => match &r.path {
            Some(path) => Some(RouteHandler::File { path: path.clone() }),
            None => None,
        },
        RouteType::Directory => match &r.path {
            Some(path) => Some(
                RouteHandler::Directory { path: path.clone(), matches: r.matches.clone() },
            ),
            None => None,
        },
        RouteType::Proxy => match &r.load_balancer {
            Some(_) => Some(RouteHandler::Proxy { host, route, matches: r.matches.clone() }),
            None => None,
        },
        RouteType::Redirect => match &r.path {
            Some(path) => Some(RouteHandler::Redirect { target: path.clone() }),
            None => None,
        },
    }
}

/// What is to be done with a request after the plugins have seen it.
#[derive(Debug)]
pub enum Handling {
    /// A plugin answered; no handler runs.
    Answered(Response),
    /// No plugin answered; the handler of the route runs.
    Dispatch(RouteHandler),
    /// No plugin answered, and the route has no handler.
    Failed,
}

/// Takes a request through the request hooks of the plugins, in load order,
/// and, where none of them answers, picks the handler of its route. Every
/// hook is given the application state and the route of the request. Where
/// there is no route with the given numbers, no hook runs and the request
/// fails.
pub fn request_handler<P: Plugin>(
    request: &mut Request,
    state: &AppState,
    plugins: &mut PluginManager<P>,
    host: usize,
    route: usize,
) -> (r: Handling)
    ensures
        !state.config.has_route(host as int, route as int) ==> r is Failed && final(plugins)@
            == old(plugins)@ && final(request)@ == old(request)@,
        state.config.has_route(host as int, route as int) ==> ({
            let chain = chain_request(
                old(plugins)@,
                old(request)@,
                *state,
                state.config.host(host as int).routes@[route as int],
            );
            &&& final(plugins)@ == chain.0
            &&& final(request)@ == chain.1
            &&& match chain.2 {
                Some(answer) => r matches Handling::Answered(response) && response@ == answer,
                None => match handler_of(state.config, host as int, route as int) {
                    Some(handler) => r matches Handling::Dispatch(h) && h@ == handler,
                    None => r is Failed,
                },
            }
        }),
{
    if !state.config.contains_route(host, route) {
        return Handling::Failed;
    }
    let route_config = state.config.get_route(host, route);
    match plugins.on_request(request, state, route_config) {
        Some(response) => Handling::Answered(response),
        None => match inner_request_handler(state, host, route) {
            Some(handler) => Handling::Dispatch(handler),
            None => Handling::Failed,
        },
    }
}

/// Takes a response through the response hooks of the plugins, each once and
/// in load order and each with the application state, completes its headers,
/// and writes it out.
pub fn write_response<P: Plugin>(
    response: Response,
    plugins: &mut PluginManager<P>,
    state: &AppState,
    date: &str,
) -> (r: Vec<u8>)
    ensures
        final(plugins)@ == chain_response(old(plugins)@, response@, *state).0,
        r@ == response_bytes(
            ResponseView {
                headers: with_generated(
                    chain_response(old(plugins)@, response@, *state).1.headers,
                    date@,
                    chain_response(old(plugins)@, response@, *state).1.body.len(),
                ),
                ..chain_response(old(plugins)@, response@, *state).1
            },
        ),
{
    let mut response = response;
    plugins.on_response(&mut response, state);
    response.with_generated_headers(date).to_bytes()
}

/// Whether a request asks for an upgrade to WebSocket: its first `Upgrade`
/// header says `websocket`, in any case of the letters.
pub open spec fn asks_for_websocket(request: RequestView) -> bool {
    first_index(request.headers, HeaderType::Upgrade@) < request.headers.len() && ascii_lower(
        request.headers[first_index(request.headers, HeaderType::Upgrade@)].value,
    ) == "websocket"@
}

/// What a WebSocket connection is opened with.
#[derive(Debug)]
pub struct WebsocketPlan {
    /// The target to connect to.
    pub target: String,
    /// The bytes to send to the target first: the request as the client made
    /// it, so that the target sees the client's handshake.
    pub greeting: Vec<u8>,
}

/// Decides whether a request on a route with a WebSocket target is passed on
/// to that target, and with what.
pub fn websocket_handler(request: &Request, target: &str) -> (r: Option<WebsocketPlan>)
    ensures
        asks_for_websocket(request@) ==> (r matches Some(plan) && plan.target@ == target@
            && plan.greeting@ == request_bytes(request@)),
        !asks_for_websocket(request@) ==> r is None,
{
    match request.headers.get(HeaderType::Upgrade) {
        Some(value) => {
            let lower = to_ascii_lowercase(value);
            if str_eq(lower.as_str(), "websocket") {
                Some(WebsocketPlan { target: target.to_string(), greeting: request.to_bytes() })
            } else {
                None
            }
        },
        None => None,
    }
}

/// What is done with a request that has been read.
#[derive(Debug)]
pub enum RequestPlan {
    /// No route takes the request: it is answered with 404.
    NotFound,
    /// The request is passed on as a WebSocket.
    Tunnel(WebsocketPlan),
    /// The request goes to the plugins and to the handler of the route with
    /// these numbers.
    Handle { host: usize, route: usize },
}

/// The target to which the WebSocket connections of a request's route are
/// passed: the target of the route that takes the request, and the default
/// target where no route takes it.
pub open spec fn websocket_target(config: Config, request: RequestView) -> Option<Seq<char>> {
    match chosen_route(config, request).route {
        Some(route) => match config.host(
            chosen_route(config, request).host as int,
        ).routes@[route as int].websocket_proxy {
            Some(target) => Some(target@),
            None => None,
        },
        None => match config.default_websocket_proxy {
            Some(target) => Some(target@),
            None => None,
        },
    }
}

/// Decides what is done with a request. A request that asks for a WebSocket
/// is passed on where its route, or else the configuration, names a target
/// for WebSockets. Any other request goes to the route that takes it, and
/// is answered with 404 where none does.
pub fn plan_request(state: &AppState, request: &Request) -> (r: RequestPlan)
    ensures
        match websocket_target(state.config, request@) {
            Some(target) if asks_for_websocket(request@) => r matches RequestPlan::Tunnel(plan)
                && plan.target@ == target && plan.greeting@ == request_bytes(request@),
            _ => match chosen_route(state.config, request@).route {
                Some(route) => r matches RequestPlan::Handle { host: h, route: n } && h
                    == chosen_route(state.config, request@).host && n == route,
                None => r is NotFound,
            },
        },
{
    let choice = route_request(&state.config, request);
    let tunnel = match choice.route {
        Some(route) => match &state.config.get_route(choice.host, route).websocket_proxy {
            Some(target) => websocket_handler(request, target.as_str()),
            None => None,
        },
        None => match &state.config.default_websocket_proxy {
            Some(target) => websocket_handler(request, target.as_str()),
            None => None,
        },
    };
    match tunnel {
        Some(plan) => RequestPlan::Tunnel(plan),
        None => match choice.route {
            Some(route) => RequestPlan::Handle { host: choice.host, route },
            None => RequestPlan::NotFound,
        },
    }
}

} // verus!
