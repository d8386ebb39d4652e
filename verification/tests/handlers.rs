use humphrey::http::address::{Address, IpAddress};
use humphrey::http::parse::Parsed;
use humphrey::http::request::Request;
use humphrey::http::response::Response;
use humphrey::http::status::StatusCode;
use humphrey::server::config::{Config, RouteConfig};
use humphrey::server::plugins::{
    load_plugins, Candidate, ExamplePlugin, LoadOutcome, Plugin, PluginManager,
};
use humphrey::server::server::{request_handler, write_response, AppState, Handling, RouteHandler};
use humphrey::server::static_files::{
    directory_handler, file_handler, forbidden, located, not_found, redirect_handler, serve_file,
    Located, Place, StaticStep,
};

const DATE: &str = "Thu, 01 Jan 1970 00:00:00 GMT";

fn request_from(bytes: &[u8], ip: IpAddress) -> Request {
    match Request::parse(bytes, Address::new(ip, 5000)) {
        Parsed::Complete { value, .. } => value,
        _ => panic!("the request is complete"),
    }
}

fn request(bytes: &[u8]) -> Request {
    request_from(bytes, IpAddress::V4(0x0a00_0001))
}

fn state(size_limit: usize) -> AppState {
    let mut config = Config::default();
    config.cache.size_limit = size_limit;
    config.blacklist.list = vec![IpAddress::V4(66)];
    AppState::from(config)
}

fn respond(step: StaticStep) -> (Response, bool) {
    match step {
        StaticStep::Respond { response, cached } => (response, cached),
        other => panic!("{:?}", other),
    }
}

#[test]
fn a_missing_file_gives_the_404_page() {
    let request = request(b"GET /missing HTTP/1.1\r\nHost: x\r\n\r\n");
    let state = state(0);
    let place = match directory_handler(&request, &state, "/srv/www", "/*", DATE) {
        StaticStep::Locate { place } => place,
        other => panic!("{:?}", other),
    };
    assert_eq!(place.root, "/srv/www");
    assert_eq!(place.segments, vec!["missing".to_string()]);
    let (response, cached) = respond(located(&request, place, Located::Missing, DATE));
    assert!(!cached);
    assert!(response.status_code == StatusCode::NotFound);
    assert_eq!(response.body, b"<h1>404 Not Found</h1>".to_vec());
    assert_eq!(response.headers.get("Content-Type"), Some("text/html"));
    assert_eq!(response.headers.get("Content-Length"), Some("22"));
    assert_eq!(response.headers.get("Connection"), Some("close"));
    assert_eq!(response.headers.get("Server"), Some("Humphrey"));
    assert_eq!(response.headers.get("Date"), Some(DATE));
    assert_eq!(response.version, "HTTP/1.1");
    assert_eq!(not_found(&request, DATE).to_bytes(), response.to_bytes());
}

#[test]
fn the_root_is_served_from_its_index_file() {
    let request = request(b"GET / HTTP/1.1\r\nHost: x\r\n\r\n");
    let mut state = state(0);
    let place = match directory_handler(&request, &state, "root", "/*", DATE) {
        StaticStep::Locate { place } => place,
        other => panic!("{:?}", other),
    };
    assert!(place.segments.is_empty());
    let found = Located::Directory { index_html: true, index_htm: true };
    let (place, mime) = match located(&request, place, found, DATE) {
        StaticStep::Read { place, mime } => (place, mime),
        other => panic!("{:?}", other),
    };
    assert_eq!(place.root, "root");
    assert_eq!(place.segments, vec!["index.html".to_string()]);
    assert_eq!(mime, Some("text/html".to_string()));
    let body = b"<!doctype html><title>B</title>".to_vec();
    let response = serve_file(&request, &mut state, body.clone(), "text/html", DATE);
    assert!(response.status_code == StatusCode::OK);
    assert_eq!(response.body, body);
    assert_eq!(response.headers.get("Content-Type"), Some("text/html"));
    assert_eq!(response.headers.get("Content-Length"), Some("31"));
}

#[test]
fn index_htm_is_the_second_choice() {
    let request = request(b"GET /docs/ HTTP/1.1\r\nHost: x\r\n\r\n");
    let place = Place { root: "root".to_string(), segments: vec!["docs".to_string()] };
    let found = Located::Directory { index_html: false, index_htm: true };
    match located(&request, place, found, DATE) {
        StaticStep::Read { place, mime } => {
            assert_eq!(place.segments, vec!["docs".to_string(), "index.htm".to_string()]);
            assert_eq!(mime, Some("text/html".to_string()));
        }
        other => panic!("{:?}", other),
    }
    let place = Place { root: "root".to_string(), segments: vec!["docs".to_string()] };
    let found = Located::Directory { index_html: false, index_htm: false };
    let (response, _) = respond(located(&request, place, found, DATE));
    assert!(response.status_code == StatusCode::NotFound);
}

#[test]
fn a_directory_without_its_slash_redirects_to_the_path_with_it() {
    let request = request(b"GET /dir HTTP/1.1\r\nHost: x\r\n\r\n");
    let place = Place { root: "root".to_string(), segments: vec!["dir".to_string()] };
    let found = Located::Directory { index_html: true, index_htm: false };
    let (response, cached) = respond(located(&request, place, found, DATE));
    assert!(!cached);
    assert!(response.status_code == StatusCode::MovedPermanently);
    assert_eq!(response.status_code.code(), 301);
    assert_eq!(response.headers.get("Location"), Some("/dir/"));
    assert_eq!(response.headers.get("Content-Length"), Some("0"));
    assert!(response.body.is_empty());
}

#[test]
fn a_regular_file_is_read_and_its_type_is_left_to_the_caller() {
    let request = request(b"GET /a/site.css HTTP/1.1\r\nHost: x\r\n\r\n");
    let place = Place { root: "root".to_string(), segments: vec!["a".to_string(), "site.css".to_string()] };
    match located(&request, place, Located::File, DATE) {
        StaticStep::Read { place, mime } => {
            assert_eq!(place.segments.len(), 2);
            assert_eq!(mime, None);
        }
        other => panic!("{:?}", other),
    }
    let state = state(0);
    match file_handler(&request, &state, "/srv/one.txt", DATE) {
        StaticStep::Read { place, mime } => {
            assert_eq!(place.root, "/srv/one.txt");
            assert!(place.segments.is_empty());
            assert_eq!(mime, None);
        }
        other => panic!("{:?}", other),
    }
}

#[test]
fn a_path_out_of_the_root_is_forbidden_whatever_its_encoding() {
    let state = state(100);
    for target in ["/../secret", "/a/../../secret", "/%2e%2e/secret", "/a/%2E%2E/%2e%2e/secret", "/..%2f..%2fsecret"] {
        let bytes = format!("GET {} HTTP/1.1\r\nHost: x\r\n\r\n", target);
        let request = request(bytes.as_bytes());
        let (response, cached) = respond(directory_handler(&request, &state, "root", "/*", DATE));
        assert!(!cached);
        assert!(response.status_code == StatusCode::Forbidden, "{}", target);
        assert_eq!(response.body, b"<h1>403 Forbidden</h1>".to_vec());
        assert_eq!(response.to_bytes(), forbidden(&request, DATE).to_bytes());
    }
}

#[test]
fn a_listed_client_gets_403_from_the_handler() {
    let mut state = state(100);
    let request = request_from(b"GET /a HTTP/1.1\r\nHost: x\r\n\r\n", IpAddress::V4(66));
    let (response, cached) = respond(directory_handler(&request, &state, "root", "/*", DATE));
    assert!(!cached);
    assert!(response.status_code == StatusCode::Forbidden);
    assert_eq!(response.headers.get("Content-Type"), Some("text/html"));
    let (response, _) = respond(file_handler(&request, &state, "one.txt", DATE));
    assert!(response.status_code == StatusCode::Forbidden);
    let unlisted = request_from(b"GET /a HTTP/1.1\r\nHost: x\r\n\r\n", IpAddress::V4(67));
    serve_file(&unlisted, &mut state, b"abc".to_vec(), "text/plain", DATE);
    let (response, _) = respond(directory_handler(&request, &state, "root", "/*", DATE));
    assert!(response.status_code == StatusCode::Forbidden);
    let forwarded = unlisted.with_origin(IpAddress::V4(66));
    let (response, _) = respond(directory_handler(&forwarded, &state, "root", "/*", DATE));
    assert!(response.status_code == StatusCode::Forbidden);
}

#[test]
fn the_second_request_is_answered_from_the_cache_with_the_same_bytes() {
    let mut state = state(64);
    let request = request(b"GET /a.txt HTTP/1.1\r\nHost: x\r\n\r\n");
    assert!(matches!(directory_handler(&request, &state, "root", "/*", DATE), StaticStep::Locate { .. }));
    let first = serve_file(&request, &mut state, b"contents".to_vec(), "text/plain", DATE);
    let (second, cached) = respond(directory_handler(&request, &state, "root", "/*", DATE));
    assert!(cached);
    assert_eq!(second.to_bytes(), first.to_bytes());
    assert_eq!(second.headers.get("Content-Type"), Some("text/plain"));
    let (third, cached) = respond(file_handler(&request, &state, "root/a.txt", DATE));
    assert!(cached);
    assert_eq!(third.to_bytes(), first.to_bytes());
}

#[test]
fn a_file_too_large_for_the_cache_is_served_and_not_cached() {
    let mut state = state(4);
    let request = request(b"GET /big HTTP/1.1\r\nHost: x\r\n\r\n");
    let response = serve_file(&request, &mut state, b"12345".to_vec(), "text/plain", DATE);
    assert!(response.status_code == StatusCode::OK);
    assert_eq!(response.body, b"12345".to_vec());
    assert!(matches!(directory_handler(&request, &state, "root", "/*", DATE), StaticStep::Locate { .. }));
    assert_eq!(state.cache.size(), 0);
}

#[test]
fn with_the_cache_off_nothing_is_answered_from_it() {
    let mut state = state(0);
    let request = request(b"GET /empty HTTP/1.1\r\nHost: x\r\n\r\n");
    let response = serve_file(&request, &mut state, Vec::new(), "text/plain", DATE);
    assert!(response.status_code == StatusCode::OK);
    assert!(response.body.is_empty());
    assert_eq!(state.cache.len(), 0);
    assert!(state.cache.get("/empty").is_none());
    assert!(matches!(directory_handler(&request, &state, "root", "/*", DATE), StaticStep::Locate { .. }));
    let other = self::request(b"GET /full HTTP/1.1\r\nHost: x\r\n\r\n");
    let response = serve_file(&other, &mut state, b"abc".to_vec(), "text/plain", DATE);
    assert_eq!(response.body, b"abc".to_vec());
    assert_eq!(state.cache.len(), 0);
}

#[test]
fn an_escape_is_forbidden_even_where_the_cache_holds_its_path() {
    let mut state = state(64);
    let escape = request(b"GET /a/../../secret HTTP/1.1\r\nHost: x\r\n\r\n");
    assert!(matches!(file_handler(&escape, &state, "one.txt", DATE), StaticStep::Read { .. }));
    serve_file(&escape, &mut state, b"one".to_vec(), "text/plain", DATE);
    let (cached, hit) = respond(file_handler(&escape, &state, "one.txt", DATE));
    assert!(hit);
    assert_eq!(cached.body, b"one".to_vec());
    let (response, hit) = respond(directory_handler(&escape, &state, "root", "/*", DATE));
    assert!(!hit);
    assert!(response.status_code == StatusCode::Forbidden);
}

#[test]
fn a_backslash_in_a_path_is_forbidden() {
    let state = state(0);
    for target in ["/..\\secret", "/a\\..\\..\\secret", "/%5c", "/a/..%5C..%5cb", "/dir\\file.txt"] {
        let bytes = format!("GET {} HTTP/1.1\r\nHost: x\r\n\r\n", target);
        let request = request(bytes.as_bytes());
        let (response, _) = respond(directory_handler(&request, &state, "root", "/*", DATE));
        assert!(response.status_code == StatusCode::Forbidden, "{}", target);
    }
}

#[test]
fn a_redirect_route_answers_302_with_its_target() {
    let request = request(b"GET /old HTTP/1.0\r\nHost: x\r\n\r\n");
    let response = redirect_handler(&request, "https://example.org/new", DATE);
    assert!(response.status_code == StatusCode::Found);
    assert_eq!(response.status_code.code(), 302);
    assert_eq!(response.headers.get("Location"), Some("https://example.org/new"));
    assert_eq!(response.version, "HTTP/1.0");
    assert!(response.body.is_empty());
}

#[test]
fn the_example_plugin_overrides_its_path_and_marks_every_response() {
    let mut plugins: PluginManager<ExamplePlugin> = PluginManager::new();
    plugins.add_plugin(ExamplePlugin);
    assert_eq!(ExamplePlugin.name(), "Example Plugin");
    let state = state(0);
    let mut request = request(b"GET /override HTTP/1.1\r\nHost: x\r\n\r\n");
    let response = match request_handler(&mut request, &state, &mut plugins, 0, 0) {
        Handling::Answered(response) => response,
        other => panic!("{:?}", other),
    };
    assert_eq!(response.body, b"Response overridden by example plugin :)".to_vec());
    let bytes = write_response(response, &mut plugins, &state, DATE);
    let written = match Response::parse(&bytes, true) {
        Parsed::Complete { value, .. } => value,
        _ => panic!("the response is complete"),
    };
    assert!(written.status_code == StatusCode::OK);
    assert_eq!(written.body, b"Response overridden by example plugin :)".to_vec());
    assert_eq!(written.headers.get("Content-Type"), Some("text/plain"));
    assert_eq!(written.headers.get("X-Example-Plugin"), Some("true"));
    assert!(String::from_utf8(bytes).unwrap().contains("\r\nX-Example-Plugin: true\r\n"));
    let mut other = self::request(b"GET /other HTTP/1.1\r\nHost: x\r\n\r\n");
    match request_handler(&mut other, &state, &mut plugins, 0, 0) {
        Handling::Dispatch(RouteHandler::Directory { path, matches }) => {
            assert_eq!(path, ".");
            assert_eq!(matches, "/*");
        }
        other => panic!("{:?}", other),
    }
    assert!(matches!(request_handler(&mut other, &state, &mut plugins, 0, 9), Handling::Failed));
    assert!(matches!(request_handler(&mut other, &state, &mut plugins, 7, 0), Handling::Failed));
}

struct Counting {
    label: &'static str,
    answers: bool,
    requests: usize,
    responses: usize,
    loads: usize,
    unloads: usize,
}

impl Plugin for Counting {
    fn name(&self) -> String {
        self.label.to_string()
    }

    fn on_load(&mut self, config: &Vec<(String, String)>, state: &AppState) -> LoadOutcome {
        self.loads += 1;
        if state.config.port == 0 {
            return LoadOutcome::Fatal("no port".to_string());
        }
        match config.first() {
            Some((key, value)) if key == "fail" => LoadOutcome::NonFatal(value.clone()),
            Some((key, value)) if key == "abort" => LoadOutcome::Fatal(value.clone()),
            _ => LoadOutcome::Ready,
        }
    }

    fn on_unload(&mut self, _state: &AppState) {
        self.unloads += 1;
    }

    fn on_request(
        &mut self,
        request: &mut Request,
        state: &AppState,
        route: &RouteConfig,
    ) -> Option<Response> {
        self.requests += 1;
        request.headers.add("X-Seen-By", self.label);
        request.headers.add("X-Route", route.matches.as_str());
        if state.config.threads == 0 {
            return None;
        }
        if self.answers {
            Some(Response::new(StatusCode::Accepted).with_bytes(self.label.as_bytes().to_vec()))
        } else {
            None
        }
    }

    fn on_response(&mut self, response: &mut Response, state: &AppState) {
        self.responses += 1;
        response.headers.add("X-Passed", self.label);
        if state.cache.limit() == 77 {
            response.headers.add("X-Cache-Limit", "77");
        }
    }
}

fn counting(label: &'static str, answers: bool) -> Counting {
    Counting { label, answers, requests: 0, responses: 0, loads: 0, unloads: 0 }
}

#[test]
fn no_request_hook_runs_behind_the_plugin_that_answers() {
    let mut plugins: PluginManager<Counting> = PluginManager::new();
    plugins.add_plugin(counting("a", false));
    plugins.add_plugin(counting("b", true));
    plugins.add_plugin(counting("c", true));
    assert_eq!(plugins.plugin_count(), 3);
    let state = state(77);
    let route = RouteConfig::default();
    let mut request = request(b"GET / HTTP/1.1\r\nHost: x\r\n\r\n");
    let answer = plugins.on_request(&mut request, &state, &route).unwrap();
    assert_eq!(answer.body, b"b".to_vec());
    assert_eq!(request.headers.get_all("X-Seen-By"), vec!["a", "b"]);
    assert_eq!(request.headers.get_all("X-Route"), vec!["/*", "/*"]);
    let mut answer = answer;
    plugins.on_response(&mut answer, &state);
    assert_eq!(answer.headers.get_all("X-Passed"), vec!["a", "b", "c"]);
    assert_eq!(answer.headers.get_all("X-Cache-Limit"), vec!["77", "77", "77"]);
    let mut second = self::request(b"GET / HTTP/1.1\r\nHost: x\r\n\r\n");
    assert!(plugins.on_request(&mut second, &state, &route).is_some());
    let mut rest: PluginManager<Counting> = PluginManager::new();
    let report = load_plugins(
        &mut rest,
        vec![Candidate { plugin: counting("only", false), config: Vec::new() }],
        &state,
    );
    assert!(report.skipped.is_empty() && report.fatal.is_none());
    assert_eq!(rest.plugin_count(), 1);
    let mut third = self::request(b"GET / HTTP/1.1\r\nHost: x\r\n\r\n");
    assert!(rest.on_request(&mut third, &state, &route).is_none());
    assert_eq!(third.headers.get_all("X-Seen-By"), vec!["only"]);
}

#[test]
fn every_response_hook_runs_once_in_load_order() {
    let mut plugins: PluginManager<Counting> = PluginManager::new();
    for label in ["first", "second", "third"] {
        plugins.add_plugin(counting(label, false));
    }
    let response = Response::new(StatusCode::OK).with_bytes(b"x".to_vec());
    let state = state(0);
    let bytes = write_response(response, &mut plugins, &state, DATE);
    let text = String::from_utf8(bytes).unwrap();
    assert_eq!(text.matches("x-passed: ").count(), 3);
    let first = text.find("x-passed: first").unwrap();
    let second = text.find("x-passed: second").unwrap();
    let third = text.find("x-passed: third").unwrap();
    assert!(first < second && second < third);
    assert!(text.starts_with("HTTP/1.1 200 OK\r\n"));
    assert!(text.ends_with("\r\n\r\nx"));
}

fn setting(key: &str, value: &str) -> Vec<(String, String)> {
    vec![(key.to_string(), value.to_string())]
}

#[test]
fn loading_stops_at_the_first_fatal_result() {
    let state = state(0);
    let route = RouteConfig::default();
    let mut plugins: PluginManager<Counting> = PluginManager::new();
    let report = load_plugins(
        &mut plugins,
        vec![
            Candidate { plugin: counting("a", false), config: Vec::new() },
            Candidate { plugin: counting("b", false), config: setting("fail", "no settings") },
            Candidate { plugin: counting("c", false), config: setting("color", "red") },
            Candidate { plugin: counting("d", false), config: setting("fail", "again") },
        ],
        &state,
    );
    assert_eq!(report.skipped, vec![(1, "no settings".to_string()), (3, "again".to_string())]);
    assert_eq!(report.fatal, None);
    assert_eq!(plugins.plugin_count(), 2);
    let report = load_plugins(
        &mut plugins,
        vec![
            Candidate { plugin: counting("e", false), config: setting("fail", "skipped") },
            Candidate { plugin: counting("f", false), config: Vec::new() },
            Candidate { plugin: counting("g", false), config: setting("abort", "broken") },
            Candidate { plugin: counting("h", false), config: Vec::new() },
            Candidate { plugin: counting("i", false), config: setting("fail", "never seen") },
        ],
        &state,
    );
    assert_eq!(report.skipped, vec![(0, "skipped".to_string())]);
    assert_eq!(report.fatal, Some((2, "broken".to_string())));
    assert_eq!(plugins.plugin_count(), 3);
    let mut request = request(b"GET / HTTP/1.1\r\nHost: x\r\n\r\n");
    assert!(plugins.on_request(&mut request, &state, &route).is_none());
    assert_eq!(request.headers.get_all("X-Seen-By"), vec!["a", "c", "f"]);
    plugins.unload(&state);
    assert_eq!(plugins.plugin_count(), 3);
    let mut unbound = Config::default();
    unbound.port = 0;
    let unbound = AppState::from(unbound);
    let report = load_plugins(
        &mut plugins,
        vec![Candidate { plugin: counting("j", false), config: Vec::new() }],
        &unbound,
    );
    assert_eq!(report.fatal, Some((0, "no port".to_string())));
    assert_eq!(plugins.plugin_count(), 3);
}

#[test]
fn the_example_plugin_is_always_ready() {
    let state = state(0);
    let mut plugins: PluginManager<ExamplePlugin> = PluginManager::new();
    let report = load_plugins(
        &mut plugins,
        vec![
            Candidate { plugin: ExamplePlugin, config: setting("fail", "ignored") },
            Candidate { plugin: ExamplePlugin, config: Vec::new() },
        ],
        &state,
    );
    assert!(report.skipped.is_empty());
    assert!(report.fatal.is_none());
    assert_eq!(plugins.plugin_count(), 2);
    plugins.unload(&state);
}
