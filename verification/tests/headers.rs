use humphrey::http::headers::{Header, HeaderCategory, HeaderType, Headers};

#[test]
fn lookup_ignores_case_of_the_name() {
    let mut headers = Headers::new();
    headers.add("content-type", "text/html");
    assert_eq!(headers.get("Content-Type"), Some("text/html"));
    assert_eq!(headers.get(HeaderType::ContentType), Some("text/html"));
    assert_eq!(headers.get(&HeaderType::ContentType), Some("text/html"));
    assert_eq!(headers.get("Host"), None);
    assert_eq!(headers.len(), 1);
}

#[test]
fn well_known_names_are_found_in_any_case() {
    assert!(HeaderType::from_name("content-length") == HeaderType::ContentLength);
    assert!(HeaderType::from_name("CONTENT-LENGTH") == HeaderType::ContentLength);
    assert!(HeaderType::from_name("ETag") == HeaderType::ETag);
    assert!(HeaderType::from_name("user-agent") == HeaderType::UserAgent);
    assert!(HeaderType::from_name("Transfer-Encoding") == HeaderType::TransferEncoding);
}

#[test]
fn unknown_names_become_custom_names_in_lower_case() {
    let name = HeaderType::from_name("X-Request-Id");
    assert!(name == HeaderType::Custom("x-request-id".to_string()));
    assert_eq!(name.to_string(), "x-request-id");
    assert!(name != HeaderType::Custom("X-Request-Id".to_string()));
}

#[test]
fn names_are_written_in_their_canonical_form() {
    assert_eq!(HeaderType::ContentLength.to_string(), "Content-Length");
    assert_eq!(HeaderType::AccessControlAllowOrigin.to_string(), "Access-Control-Allow-Origin");
    assert_eq!(HeaderType::ETag.to_string(), "ETag");
    assert_eq!(HeaderType::Custom("X-Mine".to_string()).to_string(), "X-Mine");
}

#[test]
fn every_name_has_its_group() {
    assert_eq!(HeaderType::Date.category(), HeaderCategory::General);
    assert_eq!(HeaderType::Host.category(), HeaderCategory::General);
    assert_eq!(HeaderType::Server.category(), HeaderCategory::Response);
    assert_eq!(HeaderType::Location.category(), HeaderCategory::Response);
    assert_eq!(HeaderType::ContentType.category(), HeaderCategory::Entity);
    assert_eq!(HeaderType::Accept.category(), HeaderCategory::Entity);
    assert_eq!(HeaderType::SetCookie.category(), HeaderCategory::Other);
    assert_eq!(HeaderType::Custom("x".to_string()).category(), HeaderCategory::Other);
}

#[test]
fn a_name_precedes_by_group_and_then_by_text() {
    assert!(HeaderType::Date.precedes(&HeaderType::Server));
    assert!(!HeaderType::Server.precedes(&HeaderType::Date));
    assert!(HeaderType::Connection.precedes(&HeaderType::Date));
    assert!(HeaderType::ContentLength.precedes(&HeaderType::ContentType));
    assert!(!HeaderType::Date.precedes(&HeaderType::Date));
    assert!(HeaderType::ContentType.precedes(&HeaderType::Custom("a".to_string())));
}

#[test]
fn duplicates_are_kept_and_found_in_order() {
    let mut headers = Headers::new();
    headers.add("Set-Cookie", "a=1");
    headers.add("Host", "x");
    headers.push(Header::new(HeaderType::SetCookie, "b=2"));
    assert_eq!(headers.len(), 3);
    assert_eq!(headers.get("set-cookie"), Some("a=1"));
    assert_eq!(headers.get_all("set-cookie"), vec!["a=1", "b=2"]);
    assert_eq!(headers.get_all("Via"), Vec::<&str>::new());
}

#[test]
fn remove_takes_every_header_of_the_name() {
    let mut headers = Headers::new();
    headers.add("Set-Cookie", "a=1");
    headers.add("Host", "x");
    headers.add("Set-Cookie", "b=2");
    headers.remove("SET-COOKIE");
    assert_eq!(headers.len(), 1);
    assert_eq!(headers.get("Host"), Some("x"));
    assert_eq!(headers.get("Set-Cookie"), None);
}

#[test]
fn get_mut_changes_the_first_header_of_the_name() {
    let mut headers = Headers::new();
    headers.add("Host", "x");
    headers.add("Via", "one");
    headers.add("Via", "two");
    match headers.get_mut("via") {
        Some(value) => value.push_str(", more"),
        None => panic!("the header is there"),
    }
    assert_eq!(headers.get_all("Via"), vec!["one, more", "two"]);
    assert!(headers.get_mut("Date").is_none());
    assert_eq!(headers.len(), 3);
}

#[test]
fn iter_gives_serialisation_order() {
    let mut headers = Headers::new();
    headers.add("Content-Type", "text/plain");
    headers.add("X-Custom", "1");
    headers.add("Date", "today");
    headers.add("Server", "Humphrey");
    headers.add("Connection", "close");
    headers.add("Content-Length", "2");
    let names: Vec<String> = headers.iter().iter().map(|h| h.name.to_string()).collect();
    assert_eq!(
        names,
        vec!["Connection", "Date", "Server", "Content-Length", "Content-Type", "x-custom"]
    );
    assert_eq!(headers.len(), 6);
    assert_eq!(headers.at(0).value, "text/plain");
}

#[test]
fn iter_keeps_the_order_of_headers_of_one_name() {
    let mut headers = Headers::new();
    headers.add("Via", "second hop");
    headers.add("Date", "today");
    headers.add("Via", "first hop");
    let values: Vec<String> = headers.iter().iter().map(|h| h.value.clone()).collect();
    assert_eq!(values, vec!["today", "second hop", "first hop"]);
}

#[test]
fn headers_are_equal_by_name_and_value() {
    assert!(Header::new("host", "x") == Header::new(HeaderType::Host, "x"));
    assert!(Header::new("host", "x") != Header::new(HeaderType::Host, "y"));
    assert!(Header::new("host", "x").clone() == Header::new("Host", "x"));
}
