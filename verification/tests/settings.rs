use humphrey::http::address::{Address, IpAddress};
use humphrey::http::headers::{Header, HeaderType, Headers};
use humphrey::http::parse::Parsed;
use humphrey::http::request::Request;
use humphrey::http::status::StatusCode;
use humphrey::server::config::{BlacklistMode, Config, LoadBalancerMode, LogLevel, RouteType};
use humphrey::server::settings::{
    parse_settings, read_flag, read_level, read_mode, read_number, read_route, read_words,
};
use humphrey::server::static_files::https_redirect;
use std::cmp::Ordering;

#[test]
fn settings_are_read_line_by_line() {
    let text = "# the server\r\naddress = 127.0.0.1\n\n  port=8080  \nroute = file /a = b\n\t\nempty =\n";
    let settings = parse_settings(text).unwrap();
    let pairs: Vec<(&str, &str)> = settings.iter().map(|(k, v)| (k.as_str(), v.as_str())).collect();
    assert_eq!(
        pairs,
        vec![("address", "127.0.0.1"), ("port", "8080"), ("route", "file /a = b"), ("empty", "")]
    );
    assert_eq!(parse_settings(""), Ok(Vec::new()));
}

#[test]
fn a_line_that_is_no_setting_is_named_by_its_number() {
    assert_eq!(parse_settings("port = 1\nnonsense\nthreads = 2"), Err(1));
    assert_eq!(parse_settings("= 1"), Err(0));
    assert_eq!(parse_settings("a = 1\n# fine\n  = 2\nb"), Err(2));
}

#[test]
fn values_are_read_as_what_they_stand_for() {
    assert_eq!(read_flag("true"), Some(true));
    assert_eq!(read_flag("false"), Some(false));
    assert_eq!(read_flag("yes"), None);
    assert_eq!(read_number("65535", 65535), Some(65535));
    assert_eq!(read_number("65536", 65535), None);
    assert_eq!(read_number("", 10), None);
    assert_eq!(read_number("1e3", 10000), None);
    assert_eq!(read_level("warn"), Some(LogLevel::Warn));
    assert_eq!(read_level("debug"), Some(LogLevel::Debug));
    assert_eq!(read_level("loud"), None);
    assert_eq!(read_mode("allow"), Some(BlacklistMode::Allow));
    assert_eq!(read_mode("block"), Some(BlacklistMode::Block));
    assert_eq!(read_mode("Block"), None);
    let words: Vec<String> =
        read_words("  a  bc d ").iter().map(|w| w.iter().collect::<String>()).collect();
    assert_eq!(words, vec!["a", "bc", "d"]);
    assert!(read_words("   ").is_empty());
}

#[test]
fn routes_are_read_from_their_words() {
    let route = read_route("directory /static/*   /srv/static").unwrap();
    assert_eq!(route.route_type, RouteType::Directory);
    assert_eq!(route.matches, "/static/*");
    assert_eq!(route.path, Some("/srv/static".to_string()));
    assert!(route.load_balancer.is_none());
    let route = read_route("redirect /old https://example.org/new").unwrap();
    assert_eq!(route.route_type, RouteType::Redirect);
    assert_eq!(route.path, Some("https://example.org/new".to_string()));
    assert_eq!(read_route("file /a one.txt").unwrap().route_type, RouteType::File);
    let route = read_route("proxy /api/* random 10.0.0.1:80 10.0.0.2:80").unwrap();
    assert_eq!(route.route_type, RouteType::Proxy);
    assert_eq!(route.path, None);
    let balancer = route.load_balancer.unwrap();
    assert_eq!(balancer.mode, LoadBalancerMode::Random);
    assert_eq!(balancer.targets, vec!["10.0.0.1:80".to_string(), "10.0.0.2:80".to_string()]);
    assert_eq!(read_route("proxy /api/* round-robin a:1").unwrap().load_balancer.unwrap().mode, LoadBalancerMode::RoundRobin);
    for bad in ["", "file /a", "file /a b c", "proxy /a round-robin", "proxy /a sticky a:1", "mirror /a b", "proxy /a b"] {
        assert!(read_route(bad).is_none(), "{}", bad);
    }
}

#[test]
fn routes_go_to_the_host_that_was_added_last() {
    let mut config = Config::default();
    assert!(config.contains_route(0, 0));
    assert!(config.contains_route(1, 0));
    assert!(!config.contains_route(2, 0));
    assert!(!config.contains_route(0, 1));
    assert_eq!(config.get_route(1, 0).matches, "/*");
    config.clear_routes();
    assert!(config.hosts.is_empty());
    assert!(config.default_host.routes.is_empty());
    assert!(!config.contains_route(0, 0));
    config.add_route(read_route("file /a a.txt").unwrap());
    config.add_host("a.example");
    config.add_route(read_route("file /b b.txt").unwrap());
    config.add_route(read_route("file /c c.txt").unwrap());
    config.add_host("b.example");
    assert_eq!(config.default_host.routes.len(), 1);
    assert_eq!(config.hosts.len(), 2);
    assert_eq!(config.hosts[0].matches, "a.example");
    assert_eq!(config.hosts[0].routes.len(), 2);
    assert_eq!(config.get_route(1, 1).matches, "/c");
    assert!(config.hosts[1].routes.is_empty());
    assert_eq!(config.port, 80);
}

#[test]
fn plain_requests_are_sent_on_to_https_when_it_is_forced() {
    let request = match Request::parse(
        b"GET /a/b?c=d HTTP/1.1\r\nHost: example.org\r\n\r\n",
        Address::new(IpAddress::V4(1), 1),
    ) {
        Parsed::Complete { value, .. } => value,
        _ => panic!("the request is complete"),
    };
    let response = https_redirect(&request, "now");
    assert!(response.status_code == StatusCode::MovedPermanently);
    assert_eq!(response.headers.get("Location"), Some("https://example.org/a/b?c=d"));
    let mut bare = request.clone();
    bare.headers.remove("Host");
    bare.query = String::new();
    let response = https_redirect(&bare, "now");
    assert!(response.status_code == StatusCode::BadRequest);
    assert_eq!(response.body, b"<h1>400 Bad Request</h1>".to_vec());
    let mut plain = request.clone();
    plain.query = String::new();
    assert_eq!(https_redirect(&plain, "now").headers.get("Location"), Some("https://example.org/a/b"));
}

#[test]
fn header_names_convert_and_compare() {
    assert!(HeaderType::from("content-type") == HeaderType::ContentType);
    let name: HeaderType = "X-Other".into();
    assert_eq!(name.to_string(), "x-other");
    assert_eq!(HeaderType::Date.partial_cmp(&HeaderType::Server), Some(Ordering::Less));
    assert_eq!(HeaderType::Server.partial_cmp(&HeaderType::Date), Some(Ordering::Greater));
    assert_eq!(HeaderType::Age.partial_cmp(&HeaderType::Age), Some(Ordering::Equal));
    assert_eq!(
        HeaderType::Link.partial_cmp(&HeaderType::Custom("Link".to_string())),
        Some(Ordering::Equal)
    );
    assert!(HeaderType::Link != HeaderType::Custom("Link".to_string()));
    assert!(HeaderType::Connection < HeaderType::Date);
    assert!(HeaderType::ContentType > HeaderType::Server);
}

#[test]
fn header_lists_are_equal_when_their_headers_are() {
    let mut a = Headers::default();
    let mut b = Headers::new();
    assert!(a == b);
    a.add("Host", "x");
    assert!(a != b);
    b.push(Header::new(HeaderType::Host, "x"));
    assert!(a == b);
    a.add("Via", "1");
    b.add("Via", "2");
    assert!(a != b);
    assert!(a.clone() == a);
}
