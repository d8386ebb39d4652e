use humphrey::http::address::{Address, IpAddress};
use humphrey::http::date::{http_date, DateTime};
use humphrey::http::parse::Parsed;
use humphrey::http::request::Request;
use humphrey::http::response::Response;

fn peer() -> Address {
    Address::new(IpAddress::V6(1), 4000)
}

#[test]
fn chunks_are_put_together_into_one_body() {
    let bytes = b"POST /up HTTP/1.1\r\nHost: x\r\nTransfer-Encoding: chunked\r\n\r\n4\r\nWiki\r\n5\r\npedia\r\nE\r\n in\r\n\r\nchunks.\r\n0\r\n\r\nnext";
    match Request::parse(bytes, peer()) {
        Parsed::Complete { value, consumed } => {
            assert_eq!(value.content, Some(b"Wikipedia in\r\n\r\nchunks.".to_vec()));
            assert_eq!(consumed, bytes.len() - 4);
            assert_eq!(value.headers.get("Transfer-Encoding"), None);
            assert_eq!(value.headers.get("Content-Length"), Some("23"));
            assert_eq!(value.headers.get("Host"), Some("x"));
            assert_eq!(value.headers.len(), 2);
            let written = value.to_bytes();
            match Request::parse(&written, peer()) {
                Parsed::Complete { value: again, consumed } => {
                    assert_eq!(consumed, written.len());
                    assert_eq!(again.content, value.content);
                    assert_eq!(again.to_bytes(), written);
                }
                _ => panic!("the request is complete"),
            }
        }
        _ => panic!("the request is complete"),
    }
}

#[test]
fn chunk_extensions_and_trailers_are_passed_over() {
    let bytes = b"HTTP/1.1 200 OK\r\ntransfer-encoding: Chunked\r\nContent-Length: 999\r\n\r\n5;name=value\r\nhello\n1F\n0123456789abcdef0123456789ABCDE\r\n0\r\nExpires: never\r\nX: y\r\n\r\n";
    match Response::parse(bytes, false) {
        Parsed::Complete { value, consumed } => {
            assert_eq!(value.body, b"hello0123456789abcdef0123456789ABCDE".to_vec());
            assert_eq!(consumed, bytes.len());
            assert_eq!(value.headers.len(), 1);
            assert_eq!(value.headers.get("Content-Length"), Some("36"));
            assert_eq!(value.headers.get("Expires"), None);
        }
        _ => panic!("the response is complete"),
    }
}

#[test]
fn an_empty_body_in_chunks_is_no_body() {
    let bytes = b"POST / HTTP/1.1\r\nTransfer-Encoding: chunked\r\n\r\n0\r\n\r\n";
    match Request::parse(bytes, peer()) {
        Parsed::Complete { value, consumed } => {
            assert_eq!(value.content, None);
            assert_eq!(consumed, bytes.len());
            assert_eq!(value.headers.get("Content-Length"), Some("0"));
        }
        _ => panic!("the request is complete"),
    }
}

#[test]
fn chunks_that_have_not_all_come_are_incomplete() {
    let whole: &[u8] = b"POST / HTTP/1.1\r\nTransfer-Encoding: chunked\r\n\r\n4\r\nWiki\r\n0\r\nA: b\r\n\r\n";
    for cut in 47..whole.len() {
        assert!(matches!(Request::parse(&whole[..cut], peer()), Parsed::Incomplete), "{}", cut);
    }
    assert!(matches!(Request::parse(whole, peer()), Parsed::Complete { .. }));
}

#[test]
fn what_is_not_in_chunks_is_malformed() {
    let heads = "POST / HTTP/1.1\r\nTransfer-Encoding: chunked\r\n\r\n";
    for body in ["zz\r\nab\r\n0\r\n\r\n", "\r\n0\r\n\r\n", "4\r\nWikipedia\r\n0\r\n\r\n", "4\r\nWiki\rx0\r\n\r\n", "1234567890123456\r\n", " 4\r\nWiki\r\n0\r\n\r\n", "4 \r\nWiki\r\n0\r\n\r\n", "-1\r\n"] {
        let bytes = format!("{}{}", heads, body);
        assert!(matches!(Request::parse(bytes.as_bytes(), peer()), Parsed::Malformed), "{:?}", body);
    }
}

#[test]
fn another_transfer_encoding_leaves_the_length_in_charge() {
    let bytes = b"POST / HTTP/1.1\r\nTransfer-Encoding: gzip\r\nContent-Length: 2\r\n\r\nhi";
    match Request::parse(bytes, peer()) {
        Parsed::Complete { value, .. } => {
            assert_eq!(value.content, Some(b"hi".to_vec()));
            assert_eq!(value.headers.get("Transfer-Encoding"), Some("gzip"));
        }
        _ => panic!("the request is complete"),
    }
}

#[test]
fn dates_are_written_as_http_writes_them() {
    assert_eq!(http_date(0), Some("Thu, 01 Jan 1970 00:00:00 GMT".to_string()));
    assert_eq!(http_date(86399), Some("Thu, 01 Jan 1970 23:59:59 GMT".to_string()));
    assert_eq!(http_date(86400), Some("Fri, 02 Jan 1970 00:00:00 GMT".to_string()));
    assert_eq!(http_date(951782400), Some("Tue, 29 Feb 2000 00:00:00 GMT".to_string()));
    assert_eq!(http_date(951868800), Some("Wed, 01 Mar 2000 00:00:00 GMT".to_string()));
    assert_eq!(http_date(1700000000), Some("Tue, 14 Nov 2023 22:13:20 GMT".to_string()));
    assert_eq!(http_date(4107542399), Some("Sun, 28 Feb 2100 23:59:59 GMT".to_string()));
    assert_eq!(http_date(4107542400), Some("Mon, 01 Mar 2100 00:00:00 GMT".to_string()));
    assert_eq!(http_date(784111777), Some("Sun, 06 Nov 1994 08:49:37 GMT".to_string()));
    assert_eq!(http_date(253402300799), Some("Fri, 31 Dec 9999 23:59:59 GMT".to_string()));
    assert_eq!(http_date(253402300800), None);
    assert_eq!(http_date(u64::MAX), None);
}

#[test]
fn a_timestamp_gives_its_calendar_time() {
    let t = DateTime::from_timestamp(1709210096).unwrap();
    assert_eq!(
        t,
        DateTime { year: 2024, month: 2, day: 29, weekday: 4, hour: 12, minute: 34, second: 56 }
    );
    assert_eq!(t.to_string(), "Thu, 29 Feb 2024 12:34:56 GMT");
    let t = DateTime::from_timestamp(1703980800).unwrap();
    assert_eq!((t.year, t.month, t.day, t.weekday), (2023, 12, 31, 0));
    assert!(DateTime::from_timestamp(253402300800).is_none());
}
