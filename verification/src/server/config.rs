//! The server's configuration. It is made once at startup and only read
//! afterwards.

use vstd::prelude::*;
use crate::http::address::IpAddress;

verus! {

/// What a route does with a request.
#[derive(Debug, Clone, Copy, PartialEq, Eq, Structural)]
pub enum RouteType {
    /// Serves one file.
    File,
    /// Serves the files below a directory.
    Directory,
    /// Forwards the request to one of several targets.
    Proxy,
    /// Redirects the client to another location.
    Redirect,
}

/// How a proxy route picks the target of a request.
#[derive(Debug, Clone, Copy, PartialEq, Eq, Structural)]
pub enum LoadBalancerMode {
    /// One target after the other, in turn.
    RoundRobin,
    /// A target drawn at random.
    Random,
}

/// The targets of a proxy route and how one of them is picked.
#[derive(Debug)]
pub struct LoadBalancerConfig {
    pub targets: Vec<String>,
    pub mode: LoadBalancerMode,
}

/// A rule that says which requests a route takes and what it does with them.
#[derive(Debug)]
pub struct RouteConfig {
    /// What the route does.
    pub route_type: RouteType,
    /// The pattern that the path of a request must match.
    pub matches: String,
    /// The file or directory to serve, or the location to redirect to.
    pub path: Option<String>,
    /// The targets of a proxy route.
    pub load_balancer: Option<LoadBalancerConfig>,
    /// The target to which WebSocket connections on this route are passed.
    pub websocket_proxy: Option<String>,
}

/// A virtual host: a pattern for the `Host` header and the routes of the host.
#[derive(Debug)]
pub struct HostConfig {
    pub matches: String,
    pub routes: Vec<RouteConfig>,
}

/// How much the server logs.
#[derive(Debug, Clone, Copy, PartialEq, Eq, Structural)]
pub enum LogLevel {
    Error,
    Warn,
    Info,
    Debug,
}

/// Where and how much the server logs.
#[derive(Debug)]
pub struct LoggingConfig {
    pub level: LogLevel,
    pub console: bool,
    pub file: Option<String>,
}

/// The bound of the response cache.
#[derive(Debug, Clone, Copy, PartialEq, Eq, Structural)]
pub struct CacheConfig {
    /// The number of bytes that the cached bodies may take up together; with
    /// 0 nothing is cached.
    pub size_limit: usize,
}

/// What being on the blacklist means for a peer.
#[derive(Debug, Clone, Copy, PartialEq, Eq, Structural)]
pub enum BlacklistMode {
    /// Connections of listed peers are accepted; their requests are answered
    /// with 403.
    Allow,
    /// Connections of listed peers are closed before anything is read.
    Block,
}

/// The addresses that the server turns away.
#[derive(Debug)]
pub struct BlacklistConfig {
    pub list: Vec<IpAddress>,
    pub mode: BlacklistMode,
}

/// The certificate and key for TLS.
#[derive(Debug)]
pub struct TlsConfig {
    pub cert_file: String,
    pub key_file: String,
    /// Whether plain HTTP requests are redirected to HTTPS.
    pub force: bool,
}

/// A plugin to load at startup.
#[derive(Debug)]
pub struct PluginConfig {
    pub name: String,
    pub library: String,
    pub config: Vec<(String, String)>,
}

/// The whole configuration.
#[derive(Debug)]
pub struct Config {
    /// The address to bind to.
    pub address: String,
    /// The port to bind to.
    pub port: u16,
    /// The number of workers.
    pub threads: usize,
    /// The number of seconds after which a stalled connection is closed.
    pub connection_timeout: Option<u64>,
    /// The target of WebSocket connections that no route claims.
    pub default_websocket_proxy: Option<String>,
    /// TLS, if it is in use.
    pub tls_config: Option<TlsConfig>,
    /// The virtual hosts, tried in order.
    pub hosts: Vec<HostConfig>,
    /// The host that serves a request which no other host matches.
    pub default_host: HostConfig,
    /// The plugins, in load order.
    pub plugins: Vec<PluginConfig>,
    pub logging: LoggingConfig,
    pub cache: CacheConfig,
    pub blacklist: BlacklistConfig,
}

impl RouteConfig {
    /// Whether this is the default route: the directory `.` served under `/*`.
    pub open spec fn is_default(self) -> bool {
        &&& self.route_type == RouteType::Directory
        &&& self.matches@ == "/*"@
        &&& self.path matches Some(p) && p@ == "."@
        &&& self.load_balancer is None
        &&& self.websocket_proxy is None
    }
}

impl Default for RouteConfig {
    fn default() -> (r: Self)
        ensures
            r.is_default(),
    {
        RouteConfig {
            route_type: RouteType::Directory,
            matches: "/*".to_string(),
            path: Some(".".to_string()),
            load_balancer: None,
            websocket_proxy: None,
        }
    }
}

impl HostConfig {
    /// Whether this is the default host: any `Host` header, and the default
    /// route alone.
    pub open spec fn is_default(self) -> bool {
        &&& self.matches@ == "*"@
        &&& self.routes@.len() == 1
        &&& self.routes@[0].is_default()
    }
}

impl Default for HostConfig {
    fn default() -> (r: Self)
        ensures
            r.is_default(),
    {
        let mut routes: Vec<RouteConfig> = Vec::new();
        routes.push(RouteConfig::default());
        HostConfig { matches: "*".to_string(), routes }
    }
}

impl Default for LoggingConfig {
    fn default() -> (r: Self)
        ensures
            r.level == LogLevel::Info,
            r.console,
            r.file is None,
    {
        LoggingConfig { level: LogLevel::Info, console: true, file: None }
    }
}

impl Default for CacheConfig {
    fn default() -> (r: Self)
        ensures
            r.size_limit == 0,
    {
        CacheConfig { size_limit: 0 }
    }
}

impl Default for BlacklistConfig {
    fn default() -> (r: Self)
        ensures
            r.list@.len() == 0,
            r.mode == BlacklistMode::Block,
    {
        BlacklistConfig { list: Vec::new(), mode: BlacklistMode::Block }
    }
}

impl Default for Config {
    fn default() -> (r: Self)
        ensures
            r.address@ == "0.0.0.0"@,
            r.port == 80,
            r.threads == 32,
            r.connection_timeout is None,
            r.default_websocket_proxy is None,
            r.tls_config is None,
            r.hosts@.len() == 1,
            r.hosts@[0].is_default(),
            r.default_host.is_default(),
            r.plugins@.len() == 0,
            r.logging.level == LogLevel::Info && r.logging.console && r.logging.file is None,
            r.cache.size_limit == 0,
            r.blacklist.list@.len() == 0 && r.blacklist.mode == BlacklistMode::Block,
    {
        let mut hosts: Vec<HostConfig> = Vec::new();
        hosts.push(HostConfig::default());
        Config {
            address: "0.0.0.0".to_string(),
            port: 80,
            threads: 32,
            connection_timeout: None,
            default_websocket_proxy: None,
            tls_config: None,
            hosts,
            default_host: HostConfig::default(),
            plugins: Vec::new(),
            logging: LoggingConfig::default(),
            cache: CacheConfig::default(),
            blacklist: BlacklistConfig::default(),
        }
    }
}

impl BlacklistConfig {
    /// Whether the address is on the list.
    pub open spec fn lists(self, ip: IpAddress) -> bool {
        self.list@.contains(ip)
    }

    /// Whether the address is on the list.
    pub fn contains(&self, ip: IpAddress) -> (r: bool)
        ensures
            r == self.lists(ip),
    {
        let mut i: usize = 0;
        while i < self.list.len()
            invariant
                i <= self.list@.len(),
                forall|j: int| 0 <= j < i ==> self.list@[j] != ip,
            decreases self.list@.len() - i,
        {
            if self.list[i] == ip {
                return true;
            }
            i += 1;
        }
        false
    }
}

impl Config {
    /// The host with the given number: 0 is the default host, and `n + 1` is
    /// the host at position `n` of `hosts`.
    pub open spec fn host(self, host: int) -> HostConfig {
        if host == 0 {
            self.default_host
        } else {
            self.hosts@[host - 1]
        }
    }

    /// Whether there is a route with the given number under the host with
    /// the given number.
    pub open spec fn has_route(self, host: int, route: int) -> bool {
        0 <= host <= self.hosts@.len() && 0 <= route < self.host(host).routes@.len()
    }

    /// Whether there is a route with the given number under the host with
    /// the given number.
    pub fn contains_route(&self, host: usize, route: usize) -> (r: bool)
        ensures
            r == self.has_route(host as int, route as int),
    {
        if host > self.hosts.len() {
            false
        } else if host == 0 {
            route < self.default_host.routes.len()
        } else {
            route < self.hosts[host - 1].routes.len()
        }
    }

    /// The route with the given number under the host with the given number.
    pub fn get_route(&self, host: usize, route: usize) -> (r: &RouteConfig)
        requires
            self.has_route(host as int, route as int),
        ensures
            *r == self.host(host as int).routes@[route as int],
    {
        if host == 0 {
            &self.default_host.routes[route]
        } else {
            &self.hosts[host - 1].routes[route]
        }
    }
}

} // verus!
