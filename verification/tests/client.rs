use humphrey::client::{Client, ClientError, Protocol, Reading};
use humphrey::server::connection::ReadEnd;
use humphrey::http::address::{IpAddress, SocketAddress};
use humphrey::http::headers::HeaderType;
use humphrey::http::method::Method;
use humphrey::text::{
    chars_lt, find_char, format_decimal, parse_decimal, split_chars, to_ascii_lowercase,
    trim_chars,
};

fn chars_of(text: &str) -> Vec<char> {
    text.chars().collect()
}

fn string_of(chars: &Vec<char>) -> String {
    chars.iter().collect()
}

fn socket() -> SocketAddress {
    SocketAddress { ip: IpAddress::V4(0x5db8_d822), port: 80 }
}

#[test]
fn a_url_comes_apart_at_the_first_slash_and_the_first_question_mark() {
    let url = Client::parse_url("http://example.com/a/b?x=1?y=2").unwrap();
    assert_eq!(url.protocol, Protocol::Http);
    assert_eq!(url.host, "example.com");
    assert_eq!(url.authority, "example.com:80");
    assert_eq!(url.path, "/a/b");
    assert_eq!(url.query, "x=1?y=2");
    let url = Client::parse_url("https://example.com").unwrap();
    assert_eq!(url.protocol, Protocol::Https);
    assert_eq!(url.host, "example.com");
    assert_eq!(url.authority, "example.com:443");
    assert_eq!(url.path, "/");
    assert_eq!(url.query, "");
    let url = Client::parse_url("http://host?x=1").unwrap();
    assert_eq!(url.host, "host?x=1");
    assert_eq!(url.path, "/");
    assert_eq!(url.query, "");
    let url = Client::parse_url("http:///").unwrap();
    assert_eq!(url.host, "");
    assert_eq!(url.authority, ":80");
    assert_eq!(url.path, "/");
}

#[test]
fn a_url_of_another_scheme_has_no_parts() {
    assert!(Client::parse_url("ftp://example.com/").is_none());
    assert!(Client::parse_url("example.com").is_none());
    assert!(Client::parse_url("http:/example.com").is_none());
    assert!(Client::parse_url("HTTP://example.com").is_none());
    assert!(Client::parse_url("").is_none());
}

#[test]
fn requests_are_made_for_the_resolved_host() {
    let mut client = Client::new();
    let get = client.get("http://example.com/index.html?lang=en", Some(socket())).unwrap();
    assert_eq!(get.protocol, Protocol::Http);
    assert_eq!(get.address, socket());
    assert!(get.request.method == Method::Get);
    assert_eq!(get.request.uri, "/index.html");
    assert_eq!(get.request.query, "lang=en");
    assert_eq!(get.request.version, "HTTP/1.1");
    assert_eq!(get.request.headers.len(), 1);
    assert_eq!(get.request.headers.get(HeaderType::Host), Some("example.com"));
    assert_eq!(get.request.content, None);
    assert_eq!(get.request.address.origin_addr, socket().ip);
    let post = client.post("https://example.com/form", b"a=1".to_vec(), Some(socket())).unwrap();
    assert_eq!(post.protocol, Protocol::Https);
    assert!(post.request.method == Method::Post);
    assert_eq!(post.request.content, Some(b"a=1".to_vec()));
    let put = client.put("http://example.com/file", b"data".to_vec(), Some(socket())).unwrap();
    assert!(put.request.method == Method::Put);
    assert_eq!(put.request.content, Some(b"data".to_vec()));
    let delete = client.delete("http://example.com/file", Some(socket())).unwrap();
    assert!(delete.request.method == Method::Delete);
    assert_eq!(delete.request.content, None);
}

#[test]
fn no_request_is_made_without_a_url_or_an_address() {
    let mut client = Client::new();
    assert_eq!(client.get("example.com", Some(socket())).err(), Some(ClientError::InvalidUrl));
    assert_eq!(client.get("http://example.com/", None).err(), Some(ClientError::InvalidUrl));
    assert_eq!(client.post("mailto:x", Vec::new(), Some(socket())).err(), Some(ClientError::InvalidUrl));
    assert_eq!(client.put("http://example.com/", Vec::new(), None).err(), Some(ClientError::InvalidUrl));
    assert_eq!(client.delete("", None).err(), Some(ClientError::InvalidUrl));
}

#[test]
fn a_plain_request_is_sent_as_its_bytes() {
    let mut client = Client::new();
    let request = client
        .get("http://example.com/a?b=c", Some(socket()))
        .unwrap()
        .with_header(HeaderType::Accept, "*/*")
        .with_header("X-Token", "t");
    let (bytes, server) = request.send(&client).unwrap();
    assert_eq!(server, None);
    assert_eq!(
        String::from_utf8(bytes.clone()).unwrap(),
        "GET /a?b=c HTTP/1.1\r\nHost: example.com\r\nAccept: */*\r\nx-token: t\r\n\r\n"
    );
    assert_eq!(client.request(&request.request), bytes);
}

#[test]
fn a_secure_request_names_its_server_by_the_host_header() {
    let mut client = Client::new();
    let request = client.get("https://example.com/", Some(socket())).unwrap();
    let plan = client.request_tls(&request.request).unwrap();
    assert_eq!(plan.server_name, "example.com");
    assert_eq!(plan.bytes, request.request.to_bytes());
    let (bytes, server) = request.send(&client).unwrap();
    assert_eq!(server, Some("example.com".to_string()));
    assert_eq!(bytes, plan.bytes);
    let by_address = client.get("https://192.0.2.1/", Some(socket())).unwrap();
    assert_eq!(client.request_tls(&by_address.request).unwrap().server_name, "192.0.2.1");
    let bad = client.get("https://not a name/", Some(socket())).unwrap();
    assert_eq!(client.request_tls(&bad.request).err(), Some(ClientError::InvalidServerName));
    assert_eq!(bad.send(&client).err(), Some(ClientError::InvalidServerName));
    let mut bare = client.get("https://example.com/", Some(socket())).unwrap();
    bare.request.headers.remove(HeaderType::Host);
    assert_eq!(client.request_tls(&bare.request).err(), Some(ClientError::MissingHost));
}

#[test]
fn the_tls_configuration_is_made_once_from_trust_anchors() {
    let mut client = Client::new();
    assert!(client.needs_tls_config());
    assert!(client.tls_config().is_none());
    let not_a_certificate = vec![vec![0x30, 0x03, 0x02, 0x01, 0x01]];
    assert_eq!(client.configure_tls(not_a_certificate), Err(ClientError::InvalidCertificate(0)));
    assert!(client.needs_tls_config());
    assert_eq!(client.configure_tls(Vec::new()), Ok(()));
    assert!(!client.needs_tls_config());
    assert!(client.tls_config().is_some());
    assert_eq!(client.configure_tls(vec![vec![1, 2, 3]]), Ok(()));
    assert!(!client.needs_tls_config());
}

#[test]
fn text_is_searched_split_and_trimmed() {
    assert_eq!(to_ascii_lowercase("Content-LENGTH É"), "content-length É");
    assert_eq!(to_ascii_lowercase("aé😀Z"), "aé😀z");
    assert_eq!(to_ascii_lowercase(""), "");
    assert_eq!(find_char(&chars_of("a,b,c"), 0, ','), 1);
    assert_eq!(find_char(&chars_of("a,b,c"), 2, ','), 3);
    assert_eq!(find_char(&chars_of("a,b,c"), 4, ','), 5);
    let pieces: Vec<String> = split_chars(&chars_of("/a//b/"), '/').iter().map(string_of).collect();
    assert_eq!(pieces, vec!["", "a", "", "b", ""]);
    assert_eq!(split_chars(&chars_of(""), '/'), vec![Vec::<char>::new()]);
    assert_eq!(string_of(&trim_chars(&chars_of(" \t a b\t "))), "a b");
    assert_eq!(string_of(&trim_chars(&chars_of("  "))), "");
}

#[test]
fn numbers_are_read_and_written_in_decimal() {
    assert_eq!(parse_decimal(&chars_of("0")), Some(0));
    assert_eq!(parse_decimal(&chars_of("007")), Some(7));
    assert_eq!(parse_decimal(&chars_of("18446744073709551615")), Some(u64::MAX));
    assert_eq!(parse_decimal(&chars_of("18446744073709551616")), None);
    assert_eq!(parse_decimal(&chars_of("")), None);
    assert_eq!(parse_decimal(&chars_of("-1")), None);
    assert_eq!(parse_decimal(&chars_of("1 ")), None);
    assert_eq!(parse_decimal(&chars_of("١٢")), None);
    assert_eq!(string_of(&format_decimal(0)), "0");
    assert_eq!(string_of(&format_decimal(1203)), "1203");
    assert_eq!(string_of(&format_decimal(u64::MAX)), "18446744073709551615");
}

#[test]
fn text_is_ordered_by_code_point() {
    assert!(chars_lt(&chars_of("Date"), &chars_of("Server")));
    assert!(chars_lt(&chars_of("Content-Length"), &chars_of("Content-Type")));
    assert!(chars_lt(&chars_of("Via"), &chars_of("Viaduct")));
    assert!(chars_lt(&chars_of(""), &chars_of("a")));
    assert!(chars_lt(&chars_of("Z"), &chars_of("a")));
    assert!(!chars_lt(&chars_of("a"), &chars_of("a")));
    assert!(!chars_lt(&chars_of("b"), &chars_of("a")));
    assert!(!chars_lt(&chars_of("a"), &chars_of("")));
}

fn reading(bytes: &[u8], end: Option<ReadEnd>) -> Result<Option<Vec<u8>>, ClientError> {
    match Client::read_response(bytes, end) {
        Reading::Done(response) => Ok(Some(response.body)),
        Reading::More => Ok(None),
        Reading::Failed(e) => Err(e),
    }
}

#[test]
fn the_client_takes_exactly_the_declared_body() {
    let whole: &[u8] = b"HTTP/1.1 200 OK\r\nContent-Length: 5\r\n\r\nhello";
    for end in [None, Some(ReadEnd::TimedOut), Some(ReadEnd::EndOfStream)] {
        assert_eq!(reading(whole, end), Ok(Some(b"hello".to_vec())));
        assert_eq!(
            reading(b"HTTP/1.1 200 OK\r\nContent-Length: 5\r\n\r\nhello!", end),
            Ok(Some(b"hello".to_vec()))
        );
    }
}

#[test]
fn a_short_body_times_out_or_disconnects_and_is_never_taken() {
    let short: &[u8] = b"HTTP/1.1 200 OK\r\nContent-Length: 5\r\n\r\nhell";
    assert_eq!(reading(short, None), Ok(None));
    assert_eq!(reading(short, Some(ReadEnd::TimedOut)), Err(ClientError::Timeout));
    assert_eq!(reading(short, Some(ReadEnd::EndOfStream)), Err(ClientError::Disconnected));
    let head_only: &[u8] = b"HTTP/1.1 200 OK\r\nContent-Le";
    assert_eq!(reading(head_only, None), Ok(None));
    assert_eq!(reading(head_only, Some(ReadEnd::TimedOut)), Err(ClientError::Timeout));
    assert_eq!(reading(b"", Some(ReadEnd::EndOfStream)), Err(ClientError::Disconnected));
}

#[test]
fn a_body_without_a_length_runs_to_the_end_of_the_stream() {
    let bytes: &[u8] = b"HTTP/1.0 200 OK\r\n\r\nall of it";
    assert_eq!(reading(bytes, None), Ok(None));
    assert_eq!(reading(bytes, Some(ReadEnd::TimedOut)), Err(ClientError::Timeout));
    assert_eq!(reading(bytes, Some(ReadEnd::EndOfStream)), Ok(Some(b"all of it".to_vec())));
    assert_eq!(reading(b"nonsense\r\n\r\n", None), Err(ClientError::InvalidResponse));
    assert_eq!(
        reading(b"HTTP/1.1 200 OK\r\nContent-Length: x\r\n\r\n", Some(ReadEnd::TimedOut)),
        Err(ClientError::InvalidResponse)
    );
}
