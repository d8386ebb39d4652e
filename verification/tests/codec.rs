use humphrey::http::address::{Address, IpAddress};
use humphrey::http::headers::HeaderType;
use humphrey::http::method::Method;
use humphrey::http::parse::Parsed;
use humphrey::http::request::Request;
use humphrey::http::response::Response;
use humphrey::http::status::StatusCode;
use humphrey::server::connection::{incomplete_request, ErrorKind, ReadEnd};

fn peer() -> Address {
    Address::new(IpAddress::V4(0x7f00_0001), 4000)
}

fn complete(bytes: &[u8]) -> (Request, usize) {
    match Request::parse(bytes, peer()) {
        Parsed::Complete { value, consumed } => (value, consumed),
        Parsed::Incomplete => panic!("incomplete"),
        Parsed::Malformed => panic!("malformed"),
    }
}

#[test]
fn a_plain_get_is_parsed() {
    let bytes = b"GET /missing?x=1&y=2 HTTP/1.1\r\nHost: x\r\nAccept:  */* \r\n\r\n";
    let (request, consumed) = complete(bytes);
    assert!(request.method == Method::Get);
    assert_eq!(request.uri, "/missing");
    assert_eq!(request.query, "x=1&y=2");
    assert_eq!(request.version, "HTTP/1.1");
    assert_eq!(request.headers.len(), 2);
    assert_eq!(request.headers.get("host"), Some("x"));
    assert_eq!(request.headers.get(HeaderType::Accept), Some("*/*"));
    assert_eq!(request.content, None);
    assert_eq!(request.address, peer());
    assert_eq!(consumed, bytes.len());
}

#[test]
fn line_feeds_alone_end_lines_too() {
    let (request, consumed) = complete(b"GET / HTTP/1.0\nHost: x\n\nrest");
    assert_eq!(request.uri, "/");
    assert_eq!(request.version, "HTTP/1.0");
    assert_eq!(request.headers.get("Host"), Some("x"));
    assert_eq!(consumed, 24);
}

#[test]
fn an_extension_method_is_kept_as_sent() {
    let (request, _) = complete(b"PURGE /cache HTTP/1.1\r\n\r\n");
    assert!(request.method == Method::Other("PURGE".to_string()));
    assert_eq!(request.method.to_string(), "PURGE");
    assert_eq!(request.headers.len(), 0);
}

#[test]
fn the_path_is_percent_decoded_once_and_the_query_is_not() {
    let (request, _) = complete(b"GET /a%20b%2Fc%2520?q=%20 HTTP/1.1\r\n\r\n");
    assert_eq!(request.uri, "/a b/c%20");
    assert_eq!(request.query, "q=%20");
}

#[test]
fn a_body_of_the_declared_length_is_read_in_full() {
    let bytes = b"POST /form HTTP/1.1\r\nContent-Length: 5\r\n\r\nhello";
    let (request, consumed) = complete(bytes);
    assert!(request.method == Method::Post);
    assert_eq!(request.content, Some(b"hello".to_vec()));
    assert_eq!(consumed, bytes.len());
}

#[test]
fn a_body_one_byte_short_waits_and_then_times_out() {
    let bytes = b"POST /form HTTP/1.1\r\nContent-Length: 5\r\n\r\nhell";
    assert!(matches!(Request::parse(bytes, peer()), Parsed::Incomplete));
    assert_eq!(incomplete_request(ReadEnd::TimedOut), ErrorKind::Timeout);
    assert_eq!(incomplete_request(ReadEnd::EndOfStream), ErrorKind::Disconnected);
}

#[test]
fn a_byte_beyond_the_declared_length_is_not_part_of_the_request() {
    let bytes = b"POST /form HTTP/1.1\r\nContent-Length: 5\r\n\r\nhello!";
    let (request, consumed) = complete(bytes);
    assert_eq!(request.content, Some(b"hello".to_vec()));
    assert_eq!(consumed, bytes.len() - 1);
}

#[test]
fn a_declared_length_of_zero_means_no_body() {
    let (request, consumed) = complete(b"POST / HTTP/1.1\r\nContent-Length: 0\r\n\r\nxyz");
    assert_eq!(request.content, None);
    assert_eq!(consumed, 38);
}

#[test]
fn a_head_without_its_end_is_incomplete() {
    assert!(matches!(Request::parse(b"", peer()), Parsed::Incomplete));
    assert!(matches!(Request::parse(b"GET / HTTP/1.1\r\n", peer()), Parsed::Incomplete));
    assert!(matches!(Request::parse(b"GET / HTTP/1.1\r\nHost: x\r\n\r", peer()), Parsed::Incomplete));
}

#[test]
fn malformed_heads_are_told_apart_from_incomplete_ones() {
    let cases: Vec<&[u8]> = vec![
        b"GET /\r\n\r\n",
        b"GET  / HTTP/1.1\r\n\r\n",
        b"GET / HTTP/1.1 \r\n\r\n",
        b"\r\n\r\n",
        b"GET / HTTP/1.1\r\nHost x\r\n\r\n",
        b"GET / HTTP/1.1\r\n: x\r\n\r\n",
        b"GET / HTTP/1.1\r\nHost: x\r\n folded\r\n\r\n",
        b"GET / HTTP/1.1\r\nContent-Length: five\r\n\r\n",
        b"GET / HTTP/1.1\r\nContent-Length: 99999999999999999999999\r\n\r\n",
        b"GET /%zz HTTP/1.1\r\n\r\n",
        b"GET /%2 HTTP/1.1\r\n\r\n",
        b"GET /\xff HTTP/1.1\r\n\r\n",
    ];
    for case in cases {
        assert!(matches!(Request::parse(case, peer()), Parsed::Malformed), "{:?}", case);
    }
}

#[test]
fn the_origin_is_the_first_entry_of_x_forwarded_for() {
    let (request, _) =
        complete(b"GET / HTTP/1.1\r\nX-Forwarded-For:  203.0.113.7 , 10.0.0.1\r\n\r\n");
    assert_eq!(request.forwarded_for(), Some("203.0.113.7".to_string()));
    assert_eq!(request.address.origin_addr, IpAddress::V4(0xcb00_7107));
    assert_eq!(request.address.peer_addr, IpAddress::V4(0x7f00_0001));
    assert_eq!(request.address.port, 4000);
    let request = request.with_origin(IpAddress::V4(9));
    assert_eq!(request.address.origin_addr, IpAddress::V4(9));
    assert_eq!(request.address.peer_addr, IpAddress::V4(0x7f00_0001));
    let (plain, _) = complete(b"GET / HTTP/1.1\r\nHost: x\r\n\r\n");
    assert_eq!(plain.forwarded_for(), None);
    assert_eq!(plain.address, peer());
    let (v6, _) = complete(b"GET / HTTP/1.1\r\nX-Forwarded-For: 2001:db8::1\r\n\r\n");
    assert_eq!(v6.address.origin_addr, IpAddress::V6(0x2001_0db8_0000_0000_0000_0000_0000_0001));
    let (unknown, _) = complete(b"GET / HTTP/1.1\r\nX-Forwarded-For: unknown, 10.0.0.1\r\n\r\n");
    assert_eq!(unknown.address, peer());
}

#[test]
fn a_response_is_written_with_its_headers_in_order() {
    let response = Response::new(StatusCode::OK)
        .with_header(HeaderType::ContentType, "text/plain")
        .with_bytes(b"hi".to_vec())
        .with_generated_headers("Thu, 01 Jan 1970 00:00:00 GMT");
    let expected = "HTTP/1.1 200 OK\r\n\
        Connection: close\r\n\
        Date: Thu, 01 Jan 1970 00:00:00 GMT\r\n\
        Server: Humphrey\r\n\
        Content-Length: 2\r\n\
        Content-Type: text/plain\r\n\
        \r\n\
        hi";
    assert_eq!(String::from_utf8(response.to_bytes()).unwrap(), expected);
}

#[test]
fn generated_headers_do_not_replace_what_is_set() {
    let response = Response::new(StatusCode::NotFound)
        .with_header("Server", "Other")
        .with_header("connection", "keep-alive")
        .with_header("Content-Length", "0")
        .with_generated_headers("now");
    assert_eq!(response.headers.len(), 4);
    assert_eq!(response.headers.get_all("Server"), vec!["Other"]);
    assert_eq!(response.headers.get("Connection"), Some("keep-alive"));
    assert_eq!(response.headers.get("Content-Length"), Some("0"));
    assert_eq!(response.headers.get("Date"), Some("now"));
}

#[test]
fn a_written_response_reads_back_as_it_was() {
    let response = Response::new(StatusCode::Created)
        .with_header(HeaderType::ContentType, "application/octet-stream")
        .with_header("X-Trace", "abc")
        .with_bytes(vec![0, 159, 146, 150, 10, 13, 10, 13])
        .with_generated_headers("Thu, 01 Jan 1970 00:00:00 GMT");
    let bytes = response.to_bytes();
    match Response::parse(&bytes, false) {
        Parsed::Complete { value, consumed } => {
            assert_eq!(consumed, bytes.len());
            assert_eq!(value.version, "HTTP/1.1");
            assert!(value.status_code == StatusCode::Created);
            assert_eq!(value.body, response.body);
            assert_eq!(value.headers.len(), response.headers.len());
            assert_eq!(value.headers.get("content-type"), Some("application/octet-stream"));
            assert_eq!(value.headers.get("x-trace"), Some("abc"));
            assert_eq!(value.headers.get("Content-Length"), Some("8"));
            assert_eq!(value.to_bytes(), bytes);
        }
        _ => panic!("the response is complete"),
    }
}

#[test]
fn a_written_request_reads_back_and_is_written_the_same() {
    let (request, _) = complete(
        b"PUT /files/a?overwrite=1 HTTP/1.1\r\nHost: x\r\nx-b: 2\r\nContent-Length: 3\r\nAccept: */*\r\n\r\nabc",
    );
    let written = request.to_bytes();
    assert_eq!(
        String::from_utf8(written.clone()).unwrap(),
        "PUT /files/a?overwrite=1 HTTP/1.1\r\nHost: x\r\nAccept: */*\r\nContent-Length: 3\r\nx-b: 2\r\n\r\nabc"
    );
    let (again, consumed) = complete(&written);
    assert_eq!(consumed, written.len());
    assert_eq!(again.to_bytes(), written);
}

#[test]
fn a_response_without_a_length_runs_to_the_end_of_the_stream() {
    let bytes = b"HTTP/1.0 404 Not Found\r\nServer: x\r\n\r\nnot here";
    assert!(matches!(Response::parse(bytes, false), Parsed::Incomplete));
    match Response::parse(bytes, true) {
        Parsed::Complete { value, consumed } => {
            assert!(value.status_code == StatusCode::NotFound);
            assert_eq!(value.version, "HTTP/1.0");
            assert_eq!(value.body, b"not here".to_vec());
            assert_eq!(consumed, bytes.len());
        }
        _ => panic!("the response is complete"),
    }
}

#[test]
fn malformed_status_lines_are_refused() {
    assert!(matches!(Response::parse(b"HTTP/1.1\r\n\r\n", true), Parsed::Malformed));
    assert!(matches!(Response::parse(b"HTTP/1.1 two OK\r\n\r\n", true), Parsed::Malformed));
    assert!(matches!(Response::parse(b"HTTP/1.1 70000 OK\r\n\r\n", true), Parsed::Malformed));
    assert!(matches!(Response::parse(b" 200 OK\r\n\r\n", true), Parsed::Malformed));
    match Response::parse(b"HTTP/1.1 299\r\n\r\n", true) {
        Parsed::Complete { value, .. } => {
            assert!(value.status_code == StatusCode::Other(299));
            assert_eq!(value.status_code.code(), 299);
            assert_eq!(value.status_code.reason(), "");
        }
        _ => panic!("the response is complete"),
    }
}

#[test]
fn status_codes_have_their_reason_phrases() {
    assert_eq!(StatusCode::OK.code(), 200);
    assert_eq!(StatusCode::OK.reason(), "OK");
    assert_eq!(StatusCode::MovedPermanently.reason(), "Moved Permanently");
    assert_eq!(StatusCode::BadGateway.code(), 502);
    assert_eq!(StatusCode::BadGateway.reason(), "Bad Gateway");
    assert!(StatusCode::from_code(404) == StatusCode::NotFound);
    assert!(StatusCode::from_code(404) == StatusCode::Other(404));
    assert!(StatusCode::from_code(418) == StatusCode::Other(418));
}

#[test]
fn addresses_are_read_from_their_text() {
    assert_eq!(IpAddress::parse("127.0.0.1"), Some(IpAddress::V4(0x7f00_0001)));
    assert_eq!(IpAddress::parse("0.0.0.0"), Some(IpAddress::V4(0)));
    assert_eq!(IpAddress::parse("255.255.255.255"), Some(IpAddress::V4(u32::MAX)));
    assert_eq!(IpAddress::parse("::"), Some(IpAddress::V6(0)));
    assert_eq!(IpAddress::parse("::1"), Some(IpAddress::V6(1)));
    assert_eq!(IpAddress::parse("1::"), Some(IpAddress::V6(1 << 112)));
    assert_eq!(
        IpAddress::parse("2001:DB8:0:0:8:800:200C:417a"),
        Some(IpAddress::V6(0x2001_0db8_0000_0000_0008_0800_200c_417a))
    );
    assert_eq!(
        IpAddress::parse("2001:db8::8:800:200c:417a"),
        Some(IpAddress::V6(0x2001_0db8_0000_0000_0008_0800_200c_417a))
    );
    assert_eq!(IpAddress::parse("::ffff:192.0.2.128"), Some(IpAddress::V6(0xffff_c000_0280)));
    assert_eq!(
        IpAddress::parse("64:ff9b:0:0:0:0:192.0.2.33"),
        Some(IpAddress::V6(0x0064_ff9b_0000_0000_0000_0000_c000_0221))
    );
    assert_eq!(IpAddress::parse("1:2:3:4:5:6:7::"), Some(IpAddress::V6(0x0001_0002_0003_0004_0005_0006_0007_0000)));
    assert_eq!(IpAddress::parse("::2:3:4:5:6:7:8"), Some(IpAddress::V6(0x0000_0002_0003_0004_0005_0006_0007_0008)));
    for bad in [
        "", "1.2.3", "1.2.3.4.5", "256.1.1.1", "01.2.3.4", "1.2.3.-4", "1..3.4", " 1.2.3.4", "1.2.3.4 ",
        "1:2:3:4:5:6:7", "1:2:3:4:5:6:7:8:9", "1:2:3:4:5:6:7::8", "1::2::3", ":::", ":1::", "::1:",
        "12345::", "::g", "1.2.3.4::", "::1.2.3.4:5", "1:2:3:4:5:6:7:1.2.3.4", "::%eth0", "[::1]",
    ] {
        assert_eq!(IpAddress::parse(bad), None, "{:?}", bad);
    }
    for good in ["10.1.2.3", "0:0:0:0:0:0:0:1", "2001:db8:0:0:0:ff00:42:8329"] {
        assert_eq!(IpAddress::parse(good).unwrap().to_string(), good);
    }
}
