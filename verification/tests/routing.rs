use humphrey::http::address::{Address, IpAddress};
use humphrey::http::parse::Parsed;
use humphrey::http::request::Request;
use humphrey::server::config::{
    BlacklistConfig, BlacklistMode, CacheConfig, Config, HostConfig, LoadBalancerConfig,
    LoadBalancerMode, LogLevel, LoggingConfig, RouteConfig, RouteType,
};
use humphrey::server::route::{matches_pattern, resolve, route_request, RouteChoice};
use humphrey::server::server::{
    init_app_routes, inner_request_handler, plan_request, verify_connection, websocket_handler,
    AppState, RequestPlan, RouteHandler,
};

fn request(bytes: &[u8]) -> Request {
    match Request::parse(bytes, Address::new(IpAddress::V4(1), 1)) {
        Parsed::Complete { value, .. } => value,
        _ => panic!("the request is complete"),
    }
}

fn route(route_type: RouteType, matches: &str, path: Option<&str>) -> RouteConfig {
    RouteConfig {
        route_type,
        matches: matches.to_string(),
        path: path.map(|p| p.to_string()),
        load_balancer: None,
        websocket_proxy: None,
    }
}

fn config() -> Config {
    let mut config = Config::default();
    config.default_host = HostConfig {
        matches: "*".to_string(),
        routes: vec![route(RouteType::File, "/only", Some("only.txt"))],
    };
    config.hosts = vec![
        HostConfig {
            matches: "a.example".to_string(),
            routes: vec![
                route(RouteType::Redirect, "/old", Some("/new")),
                route(RouteType::Directory, "/static/*", Some("/srv")),
                RouteConfig {
                    route_type: RouteType::Proxy,
                    matches: "/api/*".to_string(),
                    path: None,
                    load_balancer: Some(LoadBalancerConfig {
                        targets: vec!["10.0.0.1:80".to_string()],
                        mode: LoadBalancerMode::RoundRobin,
                    }),
                    websocket_proxy: Some("10.0.0.2:9000".to_string()),
                },
                route(RouteType::Directory, "/*", None),
            ],
        },
        HostConfig { matches: "*".to_string(), routes: vec![route(RouteType::Directory, "/*", Some("."))] },
        HostConfig { matches: "b.example".to_string(), routes: Vec::new() },
    ];
    config
}

#[test]
fn the_defaults_are_those_of_a_plain_file_server() {
    let config = Config::default();
    assert_eq!(config.address, "0.0.0.0");
    assert_eq!(config.port, 80);
    assert_eq!(config.threads, 32);
    assert!(config.default_websocket_proxy.is_none());
    assert!(config.tls_config.is_none());
    assert_eq!(config.hosts.len(), 1);
    assert_eq!(config.hosts[0].matches, "*");
    assert_eq!(config.default_host.routes.len(), 1);
    assert_eq!(config.plugins.len(), 0);
    assert_eq!(config.cache, CacheConfig { size_limit: 0 });
    assert_eq!(config.blacklist.mode, BlacklistMode::Block);
    assert!(config.blacklist.list.is_empty());
    let route = RouteConfig::default();
    assert_eq!(route.route_type, RouteType::Directory);
    assert_eq!(route.matches, "/*");
    assert_eq!(route.path, Some(".".to_string()));
    assert!(route.load_balancer.is_none());
    assert!(route.websocket_proxy.is_none());
    let logging = LoggingConfig::default();
    assert_eq!(logging.level, LogLevel::Info);
    assert!(logging.console);
    assert!(logging.file.is_none());
    let blacklist = BlacklistConfig::default();
    assert!(blacklist.list.is_empty());
    assert_eq!(blacklist.mode, BlacklistMode::Block);
}

#[test]
fn a_literal_pattern_accepts_the_equal_path_only() {
    assert!(matches_pattern("/literal", "/literal"));
    assert!(!matches_pattern("/literal", "/literal/"));
    assert!(!matches_pattern("/literal", "/litera"));
    assert!(!matches_pattern("/literal", "/literal/x"));
    assert!(!matches_pattern("/", "/x"));
    assert!(matches_pattern("/", "/"));
}

#[test]
fn a_wildcard_pattern_accepts_the_prefix_and_what_lies_below_it() {
    assert!(matches_pattern("/prefix/*", "/prefix"));
    assert!(matches_pattern("/prefix/*", "/prefix/"));
    assert!(matches_pattern("/prefix/*", "/prefix/a/b"));
    assert!(!matches_pattern("/prefix/*", "/prefixed"));
    assert!(!matches_pattern("/prefix/*", "/pre"));
    assert!(!matches_pattern("/prefix/*", "/other/prefix/"));
    assert!(matches_pattern("/*", "/"));
    assert!(matches_pattern("/*", "/anything/at/all"));
    assert!(matches_pattern("/*", ""));
}

#[test]
fn the_first_host_and_the_first_route_that_match_are_chosen() {
    let config = config();
    let choice = route_request(&config, &request(b"GET /static/x.css HTTP/1.1\r\nHost: a.example\r\n\r\n"));
    assert_eq!(choice, RouteChoice { host: 1, route: Some(1) });
    let choice = route_request(&config, &request(b"GET /old HTTP/1.1\r\nHost: a.example\r\n\r\n"));
    assert_eq!(choice, RouteChoice { host: 1, route: Some(0) });
    let choice = route_request(&config, &request(b"GET /elsewhere HTTP/1.1\r\nHost: a.example\r\n\r\n"));
    assert_eq!(choice, RouteChoice { host: 1, route: Some(3) });
    let choice = route_request(&config, &request(b"GET /x HTTP/1.1\r\nHost: b.example\r\n\r\n"));
    assert_eq!(choice, RouteChoice { host: 2, route: Some(0) });
}

#[test]
fn without_a_host_header_the_default_host_serves() {
    let config = config();
    let choice = route_request(&config, &request(b"GET /only HTTP/1.1\r\n\r\n"));
    assert_eq!(choice, RouteChoice { host: 0, route: Some(0) });
    let choice = route_request(&config, &request(b"GET /missing HTTP/1.1\r\n\r\n"));
    assert_eq!(choice, RouteChoice { host: 0, route: None });
    let mut config = config;
    config.hosts.truncate(1);
    let choice = route_request(&config, &request(b"GET /only HTTP/1.1\r\nHost: c.example\r\n\r\n"));
    assert_eq!(choice, RouteChoice { host: 0, route: Some(0) });
}

#[test]
fn a_path_below_the_root_resolves_to_its_segments() {
    assert_eq!(resolve("/*", "/"), Some(Vec::<String>::new()));
    assert_eq!(resolve("/*", "/a/b.txt"), Some(vec!["a".to_string(), "b.txt".to_string()]));
    assert_eq!(resolve("/*", "/a//./b/"), Some(vec!["a".to_string(), "b".to_string()]));
    assert_eq!(resolve("/*", "/a/../b"), Some(vec!["b".to_string()]));
    assert_eq!(resolve("/static/*", "/static/css/site.css"), Some(vec!["css".to_string(), "site.css".to_string()]));
    assert_eq!(resolve("/static/*", "/static"), Some(Vec::<String>::new()));
    assert_eq!(resolve("/*", "/..."), Some(vec!["...".to_string()]));
}

#[test]
fn a_path_that_leaves_the_root_does_not_resolve() {
    assert_eq!(resolve("/*", "/../etc/passwd"), None);
    assert_eq!(resolve("/*", "/a/../../etc/passwd"), None);
    assert_eq!(resolve("/*", "/a/b/../../../x"), None);
    assert_eq!(resolve("/static/*", "/static/../secret"), None);
    assert_eq!(resolve("/*", ".."), None);
    assert_eq!(resolve("/*", "/a\\b"), None);
    assert_eq!(resolve("/*", "/..\\x"), None);
    assert_eq!(resolve("/*", "\\"), None);
    let encoded = request(b"GET /%2e%2e/%2e%2e/etc/passwd HTTP/1.1\r\n\r\n");
    assert_eq!(encoded.uri, "/../../etc/passwd");
    assert_eq!(resolve("/*", &encoded.uri), None);
    let mixed = request(b"GET /a/%2E%2e%2fb/..%2F..%2f../x HTTP/1.1\r\n\r\n");
    assert_eq!(resolve("/*", &mixed.uri), None);
}

#[test]
fn a_blocked_peer_is_turned_away_before_anything_is_read() {
    let mut config = Config::default();
    config.blacklist.list = vec![IpAddress::V4(7), IpAddress::V6(9)];
    let state = AppState::from(config);
    assert!(!verify_connection(Some(IpAddress::V4(7)), &state));
    assert!(!verify_connection(Some(IpAddress::V6(9)), &state));
    assert!(verify_connection(Some(IpAddress::V4(8)), &state));
    assert!(verify_connection(Some(IpAddress::V6(7)), &state));
    assert!(!verify_connection(None, &state));
    let mut config = Config::default();
    config.blacklist.list = vec![IpAddress::V4(7)];
    config.blacklist.mode = BlacklistMode::Allow;
    let state = AppState::from(config);
    assert!(verify_connection(Some(IpAddress::V4(7)), &state));
    assert!(!verify_connection(None, &state));
}

#[test]
fn the_routes_of_a_host_are_set_up_in_order() {
    let config = config();
    let app = init_app_routes(&config.hosts[0], 1);
    assert_eq!(app.routes.len(), 4);
    assert_eq!(app.routes[2].matches, "/api/*");
    assert_eq!(app.routes[2].host, 1);
    assert_eq!(app.routes[2].route, 2);
    assert_eq!(app.websocket_routes.len(), 1);
    assert_eq!(app.websocket_routes[0].matches, "/api/*");
    assert_eq!(app.websocket_routes[0].target, "10.0.0.2:9000");
    let app = init_app_routes(&config.default_host, 0);
    assert_eq!(app.routes.len(), 1);
    assert_eq!(app.routes[0].route, 0);
    assert!(app.websocket_routes.is_empty());
}

#[test]
fn a_route_gets_the_handler_of_its_type() {
    let state = AppState::from(config());
    match inner_request_handler(&state, 0, 0) {
        Some(RouteHandler::File { path }) => assert_eq!(path, "only.txt"),
        other => panic!("{:?}", other),
    }
    match inner_request_handler(&state, 1, 0) {
        Some(RouteHandler::Redirect { target }) => assert_eq!(target, "/new"),
        other => panic!("{:?}", other),
    }
    match inner_request_handler(&state, 1, 1) {
        Some(RouteHandler::Directory { path, matches }) => {
            assert_eq!(path, "/srv");
            assert_eq!(matches, "/static/*");
        }
        other => panic!("{:?}", other),
    }
    match inner_request_handler(&state, 1, 2) {
        Some(RouteHandler::Proxy { host, route, matches }) => {
            assert_eq!((host, route), (1, 2));
            assert_eq!(matches, "/api/*");
        }
        other => panic!("{:?}", other),
    }
    assert!(inner_request_handler(&state, 1, 3).is_none());
    assert!(inner_request_handler(&state, 1, 4).is_none());
    assert!(inner_request_handler(&state, 3, 0).is_none());
    assert!(inner_request_handler(&state, 4, 0).is_none());
}

#[test]
fn a_websocket_upgrade_is_passed_on_with_the_request_as_greeting() {
    let upgrade = request(b"GET /chat HTTP/1.1\r\nHost: x\r\nUpgrade: WebSocket\r\nConnection: Upgrade\r\n\r\n");
    let plan = websocket_handler(&upgrade, "10.0.0.2:9000").unwrap();
    assert_eq!(plan.target, "10.0.0.2:9000");
    assert_eq!(plan.greeting, upgrade.to_bytes());
    let plain = request(b"GET /chat HTTP/1.1\r\nHost: x\r\n\r\n");
    assert!(websocket_handler(&plain, "10.0.0.2:9000").is_none());
    let other = request(b"GET /chat HTTP/1.1\r\nUpgrade: h2c\r\n\r\n");
    assert!(websocket_handler(&other, "10.0.0.2:9000").is_none());
}

#[test]
fn a_request_is_planned_by_its_route_and_its_upgrade() {
    let state = AppState::from(config());
    let mut with_default = config();
    let upgrade = request(b"GET /api/socket HTTP/1.1\r\nHost: a.example\r\nUpgrade: websocket\r\n\r\n");
    match plan_request(&state, &upgrade) {
        RequestPlan::Tunnel(plan) => {
            assert_eq!(plan.target, "10.0.0.2:9000");
            assert_eq!(plan.greeting, upgrade.to_bytes());
        }
        other => panic!("{:?}", other),
    }
    let plain = request(b"GET /api/socket HTTP/1.1\r\nHost: a.example\r\n\r\n");
    assert!(matches!(plan_request(&state, &plain), RequestPlan::Handle { host: 1, route: 2 }));
    let elsewhere = request(b"GET /static/x HTTP/1.1\r\nHost: a.example\r\nUpgrade: websocket\r\n\r\n");
    assert!(matches!(plan_request(&state, &elsewhere), RequestPlan::Handle { host: 1, route: 1 }));
    let lost = request(b"GET /nowhere HTTP/1.1\r\nUpgrade: websocket\r\n\r\n");
    assert!(matches!(plan_request(&state, &lost), RequestPlan::NotFound));
    with_default.default_websocket_proxy = Some("10.0.0.9:9000".to_string());
    let state = AppState::from(with_default);
    match plan_request(&state, &lost) {
        RequestPlan::Tunnel(plan) => assert_eq!(plan.target, "10.0.0.9:9000"),
        other => panic!("{:?}", other),
    }
    assert!(matches!(plan_request(&state, &elsewhere), RequestPlan::Handle { host: 1, route: 1 }));
    let missing = request(b"GET /nowhere HTTP/1.1\r\n\r\n");
    assert!(matches!(plan_request(&state, &missing), RequestPlan::NotFound));
}
