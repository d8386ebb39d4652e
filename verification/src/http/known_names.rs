//! The well-known header names read back from their written form.

use vstd::prelude::*;
use crate::http::headers::{custom_id, HeaderId, HeaderType};
use crate::text::{ascii_lower, free_of, is_blank};

verus! {

/// Whether a text can be written as a header name and stands for the name
/// `id` when it is read back: it is ASCII, is not empty, does not begin with
/// a blank, and holds no colon, line feed or carriage return.
pub open spec fn reads_back(text: Seq<char>, id: HeaderId) -> bool {
    &&& HeaderType::id_of_name(text) == id
    &&& text.len() > 0
    &&& !is_blank(text[0])
    &&& free_of(text, ':')
    &&& free_of(text, '\n')
    &&& free_of(text, '\r')
    &&& vstd::utf8::is_ascii_chars(text)
}

/// A custom name in lower case that is no well-known name reads back as
/// itself.
pub proof fn lemma_custom_name_reads_back(text: Seq<char>)
    requires
        ascii_lower(text) == text,
        HeaderType::known_by_name(text) is None,
        text.len() > 0,
        !is_blank(text[0]),
        free_of(text, ':'),
        free_of(text, '\n'),
        free_of(text, '\r'),
        vstd::utf8::is_ascii_chars(text),
    ensures
        reads_back(text, custom_id(text)),
{
}


/// The characters of `Accept` and of its lower-case form.
proof fn spelled_accept()
    ensures
        "Accept"@ =~= seq!['A', 'c', 'c', 'e', 'p', 't'],
        "accept"@ =~= seq!['a', 'c', 'c', 'e', 'p', 't'],
{
    reveal_strlit("Accept");
    reveal_strlit("accept");
}

/// The characters of `Accept-Charset` and of its lower-case form.
proof fn spelled_accept_charset()
    ensures
        "Accept-Charset"@ =~= seq!['A', 'c', 'c', 'e', 'p', 't', '-', 'C', 'h', 'a', 'r', 's', 'e', 't'],
        "accept-charset"@ =~= seq!['a', 'c', 'c', 'e', 'p', 't', '-', 'c', 'h', 'a', 'r', 's', 'e', 't'],
{
    reveal_strlit("Accept-Charset");
    reveal_strlit("accept-charset");
}

/// The characters of `Accept-Encoding` and of its lower-case form.
proof fn spelled_accept_encoding()
    ensures
        "Accept-Encoding"@ =~= seq!['A', 'c', 'c', 'e', 'p', 't', '-', 'E', 'n', 'c', 'o', 'd', 'i', 'n', 'g'],
        "accept-encoding"@ =~= seq!['a', 'c', 'c', 'e', 'p', 't', '-', 'e', 'n', 'c', 'o', 'd', 'i', 'n', 'g'],
{
    reveal_strlit("Accept-Encoding");
    reveal_strlit("accept-encoding");
}

/// The characters of `Accept-Language` and of its lower-case form.
proof fn spelled_accept_language()
    ensures
        "Accept-Language"@ =~= seq!['A', 'c', 'c', 'e', 'p', 't', '-', 'L', 'a', 'n', 'g', 'u', 'a', 'g', 'e'],
        "accept-language"@ =~= seq!['a', 'c', 'c', 'e', 'p', 't', '-', 'l', 'a', 'n', 'g', 'u', 'a', 'g', 'e'],
{
    reveal_strlit("Accept-Language");
    reveal_strlit("accept-language");
}

/// The characters of `Access-Control-Request-Method` and of its lower-case form.
proof fn spelled_access_control_request_method()
    ensures
        "Access-Control-Request-Method"@ =~= seq!['A', 'c', 'c', 'e', 's', 's', '-', 'C', 'o', 'n', 't', 'r', 'o', 'l', '-', 'R', 'e', 'q', 'u', 'e', 's', 't', '-', 'M', 'e', 't', 'h', 'o', 'd'],
        "access-control-request-method"@ =~= seq!['a', 'c', 'c', 'e', 's', 's', '-', 'c', 'o', 'n', 't', 'r', 'o', 'l', '-', 'r', 'e', 'q', 'u', 'e', 's', 't', '-', 'm', 'e', 't', 'h', 'o', 'd'],
{
    reveal_strlit("Access-Control-Request-Method");
    reveal_strlit("access-control-request-method");
}

/// The characters of `Authorization` and of its lower-case form.
proof fn spelled_authorization()
    ensures
        "Authorization"@ =~= seq!['A', 'u', 't', 'h', 'o', 'r', 'i', 'z', 'a', 't', 'i', 'o', 'n'],
        "authorization"@ =~= seq!['a', 'u', 't', 'h', 'o', 'r', 'i', 'z', 'a', 't', 'i', 'o', 'n'],
{
    reveal_strlit("Authorization");
    reveal_strlit("authorization");
}

/// The characters of `Cache-Control` and of its lower-case form.
proof fn spelled_cache_control()
    ensures
        "Cache-Control"@ =~= seq!['C', 'a', 'c', 'h', 'e', '-', 'C', 'o', 'n', 't', 'r', 'o', 'l'],
        "cache-control"@ =~= seq!['c', 'a', 'c', 'h', 'e', '-', 'c', 'o', 'n', 't', 'r', 'o', 'l'],
{
    reveal_strlit("Cache-Control");
    reveal_strlit("cache-control");
}

/// The characters of `Connection` and of its lower-case form.
proof fn spelled_connection()
    ensures
        "Connection"@ =~= seq!['C', 'o', 'n', 'n', 'e', 'c', 't', 'i', 'o', 'n'],
        "connection"@ =~= seq!['c', 'o', 'n', 'n', 'e', 'c', 't', 'i', 'o', 'n'],
{
    reveal_strlit("Connection");
    reveal_strlit("connection");
}

/// The characters of `Content-Encoding` and of its lower-case form.
proof fn spelled_content_encoding()
    ensures
        "Content-Encoding"@ =~= seq!['C', 'o', 'n', 't', 'e', 'n', 't', '-', 'E', 'n', 'c', 'o', 'd', 'i', 'n', 'g'],
        "content-encoding"@ =~= seq!['c', 'o', 'n', 't', 'e', 'n', 't', '-', 'e', 'n', 'c', 'o', 'd', 'i', 'n', 'g'],
{
    reveal_strlit("Content-Encoding");
    reveal_strlit("content-encoding");
}

/// The characters of `Content-Length` and of its lower-case form.
proof fn spelled_content_length()
    ensures
        "Content-Length"@ =~= seq!['C', 'o', 'n', 't', 'e', 'n', 't', '-', 'L', 'e', 'n', 'g', 't', 'h'],
        "content-length"@ =~= seq!['c', 'o', 'n', 't', 'e', 'n', 't', '-', 'l', 'e', 'n', 'g', 't', 'h'],
{
    reveal_strlit("Content-Length");
    reveal_strlit("content-length");
}

/// The characters of `Content-Type` and of its lower-case form.
proof fn spelled_content_type()
    ensures
        "Content-Type"@ =~= seq!['C', 'o', 'n', 't', 'e', 'n', 't', '-', 'T', 'y', 'p', 'e'],
        "content-type"@ =~= seq!['c', 'o', 'n', 't', 'e', 'n', 't', '-', 't', 'y', 'p', 'e'],
{
    reveal_strlit("Content-Type");
    reveal_strlit("content-type");
}

/// The characters of `Cookie` and of its lower-case form.
proof fn spelled_cookie()
    ensures
        "Cookie"@ =~= seq!['C', 'o', 'o', 'k', 'i', 'e'],
        "cookie"@ =~= seq!['c', 'o', 'o', 'k', 'i', 'e'],
{
    reveal_strlit("Cookie");
    reveal_strlit("cookie");
}

/// The characters of `Date` and of its lower-case form.
proof fn spelled_date()
    ensures
        "Date"@ =~= seq!['D', 'a', 't', 'e'],
        "date"@ =~= seq!['d', 'a', 't', 'e'],
{
    reveal_strlit("Date");
    reveal_strlit("date");
}

/// The characters of `Expect` and of its lower-case form.
proof fn spelled_expect()
    ensures
        "Expect"@ =~= seq!['E', 'x', 'p', 'e', 'c', 't'],
        "expect"@ =~= seq!['e', 'x', 'p', 'e', 'c', 't'],
{
    reveal_strlit("Expect");
    reveal_strlit("expect");
}

/// The characters of `Forwarded` and of its lower-case form.
proof fn spelled_forwarded()
    ensures
        "Forwarded"@ =~= seq!['F', 'o', 'r', 'w', 'a', 'r', 'd', 'e', 'd'],
        "forwarded"@ =~= seq!['f', 'o', 'r', 'w', 'a', 'r', 'd', 'e', 'd'],
{
    reveal_strlit("Forwarded");
    reveal_strlit("forwarded");
}

/// The characters of `From` and of its lower-case form.
proof fn spelled_from()
    ensures
        "From"@ =~= seq!['F', 'r', 'o', 'm'],
        "from"@ =~= seq!['f', 'r', 'o', 'm'],
{
    reveal_strlit("From");
    reveal_strlit("from");
}

/// The characters of `Host` and of its lower-case form.
proof fn spelled_host()
    ensures
        "Host"@ =~= seq!['H', 'o', 's', 't'],
        "host"@ =~= seq!['h', 'o', 's', 't'],
{
    reveal_strlit("Host");
    reveal_strlit("host");
}

/// The characters of `Origin` and of its lower-case form.
proof fn spelled_origin()
    ensures
        "Origin"@ =~= seq!['O', 'r', 'i', 'g', 'i', 'n'],
        "origin"@ =~= seq!['o', 'r', 'i', 'g', 'i', 'n'],
{
    reveal_strlit("Origin");
    reveal_strlit("origin");
}

/// The characters of `Pragma` and of its lower-case form.
proof fn spelled_pragma()
    ensures
        "Pragma"@ =~= seq!['P', 'r', 'a', 'g', 'm', 'a'],
        "pragma"@ =~= seq!['p', 'r', 'a', 'g', 'm', 'a'],
{
    reveal_strlit("Pragma");
    reveal_strlit("pragma");
}

/// The characters of `Referer` and of its lower-case form.
proof fn spelled_referer()
    ensures
        "Referer"@ =~= seq!['R', 'e', 'f', 'e', 'r', 'e', 'r'],
        "referer"@ =~= seq!['r', 'e', 'f', 'e', 'r', 'e', 'r'],
{
    reveal_strlit("Referer");
    reveal_strlit("referer");
}

/// The characters of `Upgrade` and of its lower-case form.
proof fn spelled_upgrade()
    ensures
        "Upgrade"@ =~= seq!['U', 'p', 'g', 'r', 'a', 'd', 'e'],
        "upgrade"@ =~= seq!['u', 'p', 'g', 'r', 'a', 'd', 'e'],
{
    reveal_strlit("Upgrade");
    reveal_strlit("upgrade");
}

/// The characters of `User-Agent` and of its lower-case form.
proof fn spelled_user_agent()
    ensures
        "User-Agent"@ =~= seq!['U', 's', 'e', 'r', '-', 'A', 'g', 'e', 'n', 't'],
        "user-agent"@ =~= seq!['u', 's', 'e', 'r', '-', 'a', 'g', 'e', 'n', 't'],
{
    reveal_strlit("User-Agent");
    reveal_strlit("user-agent");
}

/// The characters of `Via` and of its lower-case form.
proof fn spelled_via()
    ensures
        "Via"@ =~= seq!['V', 'i', 'a'],
        "via"@ =~= seq!['v', 'i', 'a'],
{
    reveal_strlit("Via");
    reveal_strlit("via");
}

/// The characters of `Warning` and of its lower-case form.
proof fn spelled_warning()
    ensures
        "Warning"@ =~= seq!['W', 'a', 'r', 'n', 'i', 'n', 'g'],
        "warning"@ =~= seq!['w', 'a', 'r', 'n', 'i', 'n', 'g'],
{
    reveal_strlit("Warning");
    reveal_strlit("warning");
}

/// The characters of `Access-Control-Allow-Origin` and of its lower-case form.
proof fn spelled_access_control_allow_origin()
    ensures
        "Access-Control-Allow-Origin"@ =~= seq!['A', 'c', 'c', 'e', 's', 's', '-', 'C', 'o', 'n', 't', 'r', 'o', 'l', '-', 'A', 'l', 'l', 'o', 'w', '-', 'O', 'r', 'i', 'g', 'i', 'n'],
        "access-control-allow-origin"@ =~= seq!['a', 'c', 'c', 'e', 's', 's', '-', 'c', 'o', 'n', 't', 'r', 'o', 'l', '-', 'a', 'l', 'l', 'o', 'w', '-', 'o', 'r', 'i', 'g', 'i', 'n'],
{
    reveal_strlit("Access-Control-Allow-Origin");
    reveal_strlit("access-control-allow-origin");
}

/// The characters of `Age` and of its lower-case form.
proof fn spelled_age()
    ensures
        "Age"@ =~= seq!['A', 'g', 'e'],
        "age"@ =~= seq!['a', 'g', 'e'],
{
    reveal_strlit("Age");
    reveal_strlit("age");
}

/// The characters of `Allow` and of its lower-case form.
proof fn spelled_allow()
    ensures
        "Allow"@ =~= seq!['A', 'l', 'l', 'o', 'w'],
        "allow"@ =~= seq!['a', 'l', 'l', 'o', 'w'],
{
    reveal_strlit("Allow");
    reveal_strlit("allow");
}

/// The characters of `Content-Disposition` and of its lower-case form.
proof fn spelled_content_disposition()
    ensures
        "Content-Disposition"@ =~= seq!['C', 'o', 'n', 't', 'e', 'n', 't', '-', 'D', 'i', 's', 'p', 'o', 's', 'i', 't', 'i', 'o', 'n'],
        "content-disposition"@ =~= seq!['c', 'o', 'n', 't', 'e', 'n', 't', '-', 'd', 'i', 's', 'p', 'o', 's', 'i', 't', 'i', 'o', 'n'],
{
    reveal_strlit("Content-Disposition");
    reveal_strlit("content-disposition");
}

/// The characters of `Content-Language` and of its lower-case form.
proof fn spelled_content_language()
    ensures
        "Content-Language"@ =~= seq!['C', 'o', 'n', 't', 'e', 'n', 't', '-', 'L', 'a', 'n', 'g', 'u', 'a', 'g', 'e'],
        "content-language"@ =~= seq!['c', 'o', 'n', 't', 'e', 'n', 't', '-', 'l', 'a', 'n', 'g', 'u', 'a', 'g', 'e'],
{
    reveal_strlit("Content-Language");
    reveal_strlit("content-language");
}

/// The characters of `Content-Location` and of its lower-case form.
proof fn spelled_content_location()
    ensures
        "Content-Location"@ =~= seq!['C', 'o', 'n', 't', 'e', 'n', 't', '-', 'L', 'o', 'c', 'a', 't', 'i', 'o', 'n'],
        "content-location"@ =~= seq!['c', 'o', 'n', 't', 'e', 'n', 't', '-', 'l', 'o', 'c', 'a', 't', 'i', 'o', 'n'],
{
    reveal_strlit("Content-Location");
    reveal_strlit("content-location");
}

/// The characters of `ETag` and of its lower-case form.
proof fn spelled_etag()
    ensures
        "ETag"@ =~= seq!['E', 'T', 'a', 'g'],
        "etag"@ =~= seq!['e', 't', 'a', 'g'],
{
    reveal_strlit("ETag");
    reveal_strlit("etag");
}

/// The characters of `Expires` and of its lower-case form.
proof fn spelled_expires()
    ensures
        "Expires"@ =~= seq!['E', 'x', 'p', 'i', 'r', 'e', 's'],
        "expires"@ =~= seq!['e', 'x', 'p', 'i', 'r', 'e', 's'],
{
    reveal_strlit("Expires");
    reveal_strlit("expires");
}

/// The characters of `Last-Modified` and of its lower-case form.
proof fn spelled_last_modified()
    ensures
        "Last-Modified"@ =~= seq!['L', 'a', 's', 't', '-', 'M', 'o', 'd', 'i', 'f', 'i', 'e', 'd'],
        "last-modified"@ =~= seq!['l', 'a', 's', 't', '-', 'm', 'o', 'd', 'i', 'f', 'i', 'e', 'd'],
{
    reveal_strlit("Last-Modified");
    reveal_strlit("last-modified");
}

/// The characters of `Link` and of its lower-case form.
proof fn spelled_link()
    ensures
        "Link"@ =~= seq!['L', 'i', 'n', 'k'],
        "link"@ =~= seq!['l', 'i', 'n', 'k'],
{
    reveal_strlit("Link");
    reveal_strlit("link");
}

/// The characters of `Location` and of its lower-case form.
proof fn spelled_location()
    ensures
        "Location"@ =~= seq!['L', 'o', 'c', 'a', 't', 'i', 'o', 'n'],
        "location"@ =~= seq!['l', 'o', 'c', 'a', 't', 'i', 'o', 'n'],
{
    reveal_strlit("Location");
    reveal_strlit("location");
}

/// The characters of `Server` and of its lower-case form.
proof fn spelled_server()
    ensures
        "Server"@ =~= seq!['S', 'e', 'r', 'v', 'e', 'r'],
        "server"@ =~= seq!['s', 'e', 'r', 'v', 'e', 'r'],
{
    reveal_strlit("Server");
    reveal_strlit("server");
}

/// The characters of `Set-Cookie` and of its lower-case form.
proof fn spelled_set_cookie()
    ensures
        "Set-Cookie"@ =~= seq!['S', 'e', 't', '-', 'C', 'o', 'o', 'k', 'i', 'e'],
        "set-cookie"@ =~= seq!['s', 'e', 't', '-', 'c', 'o', 'o', 'k', 'i', 'e'],
{
    reveal_strlit("Set-Cookie");
    reveal_strlit("set-cookie");
}

/// The characters of `Transfer-Encoding` and of its lower-case form.
proof fn spelled_transfer_encoding()
    ensures
        "Transfer-Encoding"@ =~= seq!['T', 'r', 'a', 'n', 's', 'f', 'e', 'r', '-', 'E', 'n', 'c', 'o', 'd', 'i', 'n', 'g'],
        "transfer-encoding"@ =~= seq!['t', 'r', 'a', 'n', 's', 'f', 'e', 'r', '-', 'e', 'n', 'c', 'o', 'd', 'i', 'n', 'g'],
{
    reveal_strlit("Transfer-Encoding");
    reveal_strlit("transfer-encoding");
}

/// `Accept` reads back as itself.
proof fn lemma_accept_reads_back()
    ensures
        reads_back("Accept"@, HeaderType::Accept@),
{
    spelled_accept();
    assert(ascii_lower("Accept"@) =~= "accept"@);
    assert(HeaderType::known_by_name("accept"@) == Some(HeaderType::Accept));
}

/// `Accept-Charset` reads back as itself.
proof fn lemma_accept_charset_reads_back()
    ensures
        reads_back("Accept-Charset"@, HeaderType::AcceptCharset@),
{
    spelled_accept_charset();
    assert(ascii_lower("Accept-Charset"@) =~= "accept-charset"@);
    spelled_accept();
    assert("accept-charset"@.len() != "accept"@.len());
    assert(HeaderType::known_by_name("accept-charset"@) == Some(HeaderType::AcceptCharset));
}

/// `Accept-Encoding` reads back as itself.
proof fn lemma_accept_encoding_reads_back()
    ensures
        reads_back("Accept-Encoding"@, HeaderType::AcceptEncoding@),
{
    spelled_accept_encoding();
    assert(ascii_lower("Accept-Encoding"@) =~= "accept-encoding"@);
    spelled_accept();
    assert("accept-encoding"@.len() != "accept"@.len());
    spelled_accept_charset();
    assert("accept-encoding"@.len() != "accept-charset"@.len());
    assert(HeaderType::known_by_name("accept-encoding"@) == Some(HeaderType::AcceptEncoding));
}

/// `Accept-Language` reads back as itself.
proof fn lemma_accept_language_reads_back()
    ensures
        reads_back("Accept-Language"@, HeaderType::AcceptLanguage@),
{
    spelled_accept_language();
    assert(ascii_lower("Accept-Language"@) =~= "accept-language"@);
    spelled_accept();
    assert("accept-language"@.len() != "accept"@.len());
    spelled_accept_charset();
    assert("accept-language"@.len() != "accept-charset"@.len());
    spelled_accept_encoding();
    assert("accept-language"@[7] != "accept-encoding"@[7]);
    assert(HeaderType::known_by_name("accept-language"@) == Some(HeaderType::AcceptLanguage));
}

/// `Access-Control-Request-Method` reads back as itself.
proof fn lemma_access_control_request_method_reads_back()
    ensures
        reads_back("Access-Control-Request-Method"@, HeaderType::AccessControlRequestMethod@),
{
    spelled_access_control_request_method();
    assert(ascii_lower("Access-Control-Request-Method"@) =~= "access-control-request-method"@);
    spelled_accept();
    assert("access-control-request-method"@.len() != "accept"@.len());
    spelled_accept_charset();
    assert("access-control-request-method"@.len() != "accept-charset"@.len());
    spelled_accept_encoding();
    assert("access-control-request-method"@.len() != "accept-encoding"@.len());
    spelled_accept_language();
    assert("access-control-request-method"@.len() != "accept-language"@.len());
    assert(HeaderType::known_by_name("access-control-request-method"@) == Some(HeaderType::AccessControlRequestMethod));
}

/// `Authorization` reads back as itself.
proof fn lemma_authorization_reads_back()
    ensures
        reads_back("Authorization"@, HeaderType::Authorization@),
{
    spelled_authorization();
    assert(ascii_lower("Authorization"@) =~= "authorization"@);
    spelled_accept();
    assert("authorization"@.len() != "accept"@.len());
    spelled_accept_charset();
    assert("authorization"@.len() != "accept-charset"@.len());
    spelled_accept_encoding();
    assert("authorization"@.len() != "accept-encoding"@.len());
    spelled_accept_language();
    assert("authorization"@.len() != "accept-language"@.len());
    spelled_access_control_request_method();
    assert("authorization"@.len() != "access-control-request-method"@.len());
    assert(HeaderType::known_by_name("authorization"@) == Some(HeaderType::Authorization));
}

/// `Cache-Control` reads back as itself.
proof fn lemma_cache_control_reads_back()
    ensures
        reads_back("Cache-Control"@, HeaderType::CacheControl@),
{
    spelled_cache_control();
    assert(ascii_lower("Cache-Control"@) =~= "cache-control"@);
    spelled_accept();
    assert("cache-control"@.len() != "accept"@.len());
    spelled_accept_charset();
    assert("cache-control"@.len() != "accept-charset"@.len());
    spelled_accept_encoding();
    assert("cache-control"@.len() != "accept-encoding"@.len());
    spelled_accept_language();
    assert("cache-control"@.len() != "accept-language"@.len());
    spelled_access_control_request_method();
    assert("cache-control"@.len() != "access-control-request-method"@.len());
    spelled_authorization();
    assert("cache-control"@[0] != "authorization"@[0]);
    assert(HeaderType::known_by_name("cache-control"@) == Some(HeaderType::CacheControl));
}

/// `Connection` reads back as itself.
proof fn lemma_connection_reads_back()
    ensures
        reads_back("Connection"@, HeaderType::Connection@),
{
    spelled_connection();
    assert(ascii_lower("Connection"@) =~= "connection"@);
    spelled_accept();
    assert("connection"@.len() != "accept"@.len());
    spelled_accept_charset();
    assert("connection"@.len() != "accept-charset"@.len());
    spelled_accept_encoding();
    assert("connection"@.len() != "accept-encoding"@.len());
    spelled_accept_language();
    assert("connection"@.len() != "accept-language"@.len());
    spelled_access_control_request_method();
    assert("connection"@.len() != "access-control-request-method"@.len());
    spelled_authorization();
    assert("connection"@.len() != "authorization"@.len());
    spelled_cache_control();
    assert("connection"@.len() != "cache-control"@.len());
    assert(HeaderType::known_by_name("connection"@) == Some(HeaderType::Connection));
}

/// `Content-Encoding` reads back as itself.
proof fn lemma_content_encoding_reads_back()
    ensures
        reads_back("Content-Encoding"@, HeaderType::ContentEncoding@),
{
    spelled_content_encoding();
    assert(ascii_lower("Content-Encoding"@) =~= "content-encoding"@);
    spelled_accept();
    assert("content-encoding"@.len() != "accept"@.len());
    spelled_accept_charset();
    assert("content-encoding"@.len() != "accept-charset"@.len());
    spelled_accept_encoding();
    assert("content-encoding"@.len() != "accept-encoding"@.len());
    spelled_accept_language();
    assert("content-encoding"@.len() != "accept-language"@.len());
    spelled_access_control_request_method();
    assert("content-encoding"@.len() != "access-control-request-method"@.len());
    spelled_authorization();
    assert("content-encoding"@.len() != "authorization"@.len());
    spelled_cache_control();
    assert("content-encoding"@.len() != "cache-control"@.len());
    spelled_connection();
    assert("content-encoding"@.len() != "connection"@.len());
    assert(HeaderType::known_by_name("content-encoding"@) == Some(HeaderType::ContentEncoding));
}

/// `Content-Length` reads back as itself.
proof fn lemma_content_length_reads_back()
    ensures
        reads_back("Content-Length"@, HeaderType::ContentLength@),
{
    spelled_content_length();
    assert(ascii_lower("Content-Length"@) =~= "content-length"@);
    spelled_accept();
    assert("content-length"@.len() != "accept"@.len());
    spelled_accept_charset();
    assert("content-length"@[0] != "accept-charset"@[0]);
    spelled_accept_encoding();
    assert("content-length"@.len() != "accept-encoding"@.len());
    spelled_accept_language();
    assert("content-length"@.len() != "accept-language"@.len());
    spelled_access_control_request_method();
    assert("content-length"@.len() != "access-control-request-method"@.len());
    spelled_authorization();
    assert("content-length"@.len() != "authorization"@.len());
    spelled_cache_control();
    assert("content-length"@.len() != "cache-control"@.len());
    spelled_connection();
    assert("content-length"@.len() != "connection"@.len());
    spelled_content_encoding();
    assert("content-length"@.len() != "content-encoding"@.len());
    assert(HeaderType::known_by_name("content-length"@) == Some(HeaderType::ContentLength));
}

/// `Content-Type` reads back as itself.
proof fn lemma_content_type_reads_back()
    ensures
        reads_back("Content-Type"@, HeaderType::ContentType@),
{
    spelled_content_type();
    assert(ascii_lower("Content-Type"@) =~= "content-type"@);
    spelled_accept();
    assert("content-type"@.len() != "accept"@.len());
    spelled_accept_charset();
    assert("content-type"@.len() != "accept-charset"@.len());
    spelled_accept_encoding();
    assert("content-type"@.len() != "accept-encoding"@.len());
    spelled_accept_language();
    assert("content-type"@.len() != "accept-language"@.len());
    spelled_access_control_request_method();
    assert("content-type"@.len() != "access-control-request-method"@.len());
    spelled_authorization();
    assert("content-type"@.len() != "authorization"@.len());
    spelled_cache_control();
    assert("content-type"@.len() != "cache-control"@.len());
    spelled_connection();
    assert("content-type"@.len() != "connection"@.len());
    spelled_content_encoding();
    assert("content-type"@.len() != "content-encoding"@.len());
    spelled_content_length();
    assert("content-type"@.len() != "content-length"@.len());
    assert(HeaderType::known_by_name("content-type"@) == Some(HeaderType::ContentType));
}

/// `Cookie` reads back as itself.
proof fn lemma_cookie_reads_back()
    ensures
        reads_back("Cookie"@, HeaderType::Cookie@),
{
    spelled_cookie();
    assert(ascii_lower("Cookie"@) =~= "cookie"@);
    spelled_accept();
    assert("cookie"@[0] != "accept"@[0]);
    spelled_accept_charset();
    assert("cookie"@.len() != "accept-charset"@.len());
    spelled_accept_encoding();
    assert("cookie"@.len() != "accept-encoding"@.len());
    spelled_accept_language();
    assert("cookie"@.len() != "accept-language"@.len());
    spelled_access_control_request_method();
    assert("cookie"@.len() != "access-control-request-method"@.len());
    spelled_authorization();
    assert("cookie"@.len() != "authorization"@.len());
    spelled_cache_control();
    assert("cookie"@.len() != "cache-control"@.len());
    spelled_connection();
    assert("cookie"@.len() != "connection"@.len());
    spelled_content_encoding();
    assert("cookie"@.len() != "content-encoding"@.len());
    spelled_content_length();
    assert("cookie"@.len() != "content-length"@.len());
    spelled_content_type();
    assert("cookie"@.len() != "content-type"@.len());
    assert(HeaderType::known_by_name("cookie"@) == Some(HeaderType::Cookie));
}

/// `Date` reads back as itself.
proof fn lemma_date_reads_back()
    ensures
        reads_back("Date"@, HeaderType::Date@),
{
    spelled_date();
    assert(ascii_lower("Date"@) =~= "date"@);
    spelled_accept();
    assert("date"@.len() != "accept"@.len());
    spelled_accept_charset();
    assert("date"@.len() != "accept-charset"@.len());
    spelled_accept_encoding();
    assert("date"@.len() != "accept-encoding"@.len());
    spelled_accept_language();
    assert("date"@.len() != "accept-language"@.len());
    spelled_access_control_request_method();
    assert("date"@.len() != "access-control-request-method"@.len());
    spelled_authorization();
    assert("date"@.len() != "authorization"@.len());
    spelled_cache_control();
    assert("date"@.len() != "cache-control"@.len());
    spelled_connection();
    assert("date"@.len() != "connection"@.len());
    spelled_content_encoding();
    assert("date"@.len() != "content-encoding"@.len());
    spelled_content_length();
    assert("date"@.len() != "content-length"@.len());
    spelled_content_type();
    assert("date"@.len() != "content-type"@.len());
    spelled_cookie();
    assert("date"@.len() != "cookie"@.len());
    assert(HeaderType::known_by_name("date"@) == Some(HeaderType::Date));
}

/// `Expect` reads back as itself.
proof fn lemma_expect_reads_back()
    ensures
        reads_back("Expect"@, HeaderType::Expect@),
{
    spelled_expect();
    assert(ascii_lower("Expect"@) =~= "expect"@);
    spelled_accept();
    assert("expect"@[0] != "accept"@[0]);
    spelled_accept_charset();
    assert("expect"@.len() != "accept-charset"@.len());
    spelled_accept_encoding();
    assert("expect"@.len() != "accept-encoding"@.len());
    spelled_accept_language();
    assert("expect"@.len() != "accept-language"@.len());
    spelled_access_control_request_method();
    assert("expect"@.len() != "access-control-request-method"@.len());
    spelled_authorization();
    assert("expect"@.len() != "authorization"@.len());
    spelled_cache_control();
    assert("expect"@.len() != "cache-control"@.len());
    spelled_connection();
    assert("expect"@.len() != "connection"@.len());
    spelled_content_encoding();
    assert("expect"@.len() != "content-encoding"@.len());
    spelled_content_length();
    assert("expect"@.len() != "content-length"@.len());
    spelled_content_type();
    assert("expect"@.len() != "content-type"@.len());
    spelled_cookie();
    assert("expect"@[0] != "cookie"@[0]);
    spelled_date();
    assert("expect"@.len() != "date"@.len());
    assert(HeaderType::known_by_name("expect"@) == Some(HeaderType::Expect));
}

/// `Forwarded` reads back as itself.
proof fn lemma_forwarded_reads_back()
    ensures
        reads_back("Forwarded"@, HeaderType::Forwarded@),
{
    spelled_forwarded();
    assert(ascii_lower("Forwarded"@) =~= "forwarded"@);
    spelled_accept();
    assert("forwarded"@.len() != "accept"@.len());
    spelled_accept_charset();
    assert("forwarded"@.len() != "accept-charset"@.len());
    spelled_accept_encoding();
    assert("forwarded"@.len() != "accept-encoding"@.len());
    spelled_accept_language();
    assert("forwarded"@.len() != "accept-language"@.len());
    spelled_access_control_request_method();
    assert("forwarded"@.len() != "access-control-request-method"@.len());
    spelled_authorization();
    assert("forwarded"@.len() != "authorization"@.len());
    spelled_cache_control();
    assert("forwarded"@.len() != "cache-control"@.len());
    spelled_connection();
    assert("forwarded"@.len() != "connection"@.len());
    spelled_content_encoding();
    assert("forwarded"@.len() != "content-encoding"@.len());
    spelled_content_length();
    assert("forwarded"@.len() != "content-length"@.len());
    spelled_content_type();
    assert("forwarded"@.len() != "content-type"@.len());
    spelled_cookie();
    assert("forwarded"@.len() != "cookie"@.len());
    spelled_date();
    assert("forwarded"@.len() != "date"@.len());
    spelled_expect();
    assert("forwarded"@.len() != "expect"@.len());
    assert(HeaderType::known_by_name("forwarded"@) == Some(HeaderType::Forwarded));
}

/// `From` reads back as itself.
proof fn lemma_from_reads_back()
    ensures
        reads_back("From"@, HeaderType::From@),
{
    spelled_from();
    assert(ascii_lower("From"@) =~= "from"@);
    spelled_accept();
    assert("from"@.len() != "accept"@.len());
    spelled_accept_charset();
    assert("from"@.len() != "accept-charset"@.len());
    spelled_accept_encoding();
    assert("from"@.len() != "accept-encoding"@.len());
    spelled_accept_language();
    assert("from"@.len() != "accept-language"@.len());
    spelled_access_control_request_method();
    assert("from"@.len() != "access-control-request-method"@.len());
    spelled_authorization();
    assert("from"@.len() != "authorization"@.len());
    spelled_cache_control();
    assert("from"@.len() != "cache-control"@.len());
    spelled_connection();
    assert("from"@.len() != "connection"@.len());
    spelled_content_encoding();
    assert("from"@.len() != "content-encoding"@.len());
    spelled_content_length();
    assert("from"@.len() != "content-length"@.len());
    spelled_content_type();
    assert("from"@.len() != "content-type"@.len());
    spelled_cookie();
    assert("from"@.len() != "cookie"@.len());
    spelled_date();
    assert("from"@[0] != "date"@[0]);
    spelled_expect();
    assert("from"@.len() != "expect"@.len());
    spelled_forwarded();
    assert("from"@.len() != "forwarded"@.len());
    assert(HeaderType::known_by_name("from"@) == Some(HeaderType::From));
}

/// `Host` reads back as itself.
proof fn lemma_host_reads_back()
    ensures
        reads_back("Host"@, HeaderType::Host@),
{
    spelled_host();
    assert(ascii_lower("Host"@) =~= "host"@);
    spelled_accept();
    assert("host"@.len() != "accept"@.len());
    spelled_accept_charset();
    assert("host"@.len() != "accept-charset"@.len());
    spelled_accept_encoding();
    assert("host"@.len() != "accept-encoding"@.len());
    spelled_accept_language();
    assert("host"@.len() != "accept-language"@.len());
    spelled_access_control_request_method();
    assert("host"@.len() != "access-control-request-method"@.len());
    spelled_authorization();
    assert("host"@.len() != "authorization"@.len());
    spelled_cache_control();
    assert("host"@.len() != "cache-control"@.len());
    spelled_connection();
    assert("host"@.len() != "connection"@.len());
    spelled_content_encoding();
    assert("host"@.len() != "content-encoding"@.len());
    spelled_content_length();
    assert("host"@.len() != "content-length"@.len());
    spelled_content_type();
    assert("host"@.len() != "content-type"@.len());
    spelled_cookie();
    assert("host"@.len() != "cookie"@.len());
    spelled_date();
    assert("host"@[0] != "date"@[0]);
    spelled_expect();
    assert("host"@.len() != "expect"@.len());
    spelled_forwarded();
    assert("host"@.len() != "forwarded"@.len());
    spelled_from();
    assert("host"@[0] != "from"@[0]);
    assert(HeaderType::known_by_name("host"@) == Some(HeaderType::Host));
}

/// `Origin` reads back as itself.
proof fn lemma_origin_reads_back()
    ensures
        reads_back("Origin"@, HeaderType::Origin@),
{
    spelled_origin();
    assert(ascii_lower("Origin"@) =~= "origin"@);
    spelled_accept();
    assert("origin"@[0] != "accept"@[0]);
    spelled_accept_charset();
    assert("origin"@.len() != "accept-charset"@.len());
    spelled_accept_encoding();
    assert("origin"@.len() != "accept-encoding"@.len());
    spelled_accept_language();
    assert("origin"@.len() != "accept-language"@.len());
    spelled_access_control_request_method();
    assert("origin"@.len() != "access-control-request-method"@.len());
    spelled_authorization();
    assert("origin"@.len() != "authorization"@.len());
    spelled_cache_control();
    assert("origin"@.len() != "cache-control"@.len());
    spelled_connection();
    assert("origin"@.len() != "connection"@.len());
    spelled_content_encoding();
    assert("origin"@.len() != "content-encoding"@.len());
    spelled_content_length();
    assert("origin"@.len() != "content-length"@.len());
    spelled_content_type();
    assert("origin"@.len() != "content-type"@.len());
    spelled_cookie();
    assert("origin"@[0] != "cookie"@[0]);
    spelled_date();
    assert("origin"@.len() != "date"@.len());
    spelled_expect();
    assert("origin"@[0] != "expect"@[0]);
    spelled_forwarded();
    assert("origin"@.len() != "forwarded"@.len());
    spelled_from();
    assert("origin"@.len() != "from"@.len());
    spelled_host();
    assert("origin"@.len() != "host"@.len());
    assert(HeaderType::known_by_name("origin"@) == Some(HeaderType::Origin));
}

/// `Pragma` reads back as itself.
proof fn lemma_pragma_reads_back()
    ensures
        reads_back("Pragma"@, HeaderType::Pragma@),
{
    spelled_pragma();
    assert(ascii_lower("Pragma"@) =~= "pragma"@);
    spelled_accept();
    assert("pragma"@[0] != "accept"@[0]);
    spelled_accept_charset();
    assert("pragma"@.len() != "accept-charset"@.len());
    spelled_accept_encoding();
    assert("pragma"@.len() != "accept-encoding"@.len());
    spelled_accept_language();
    assert("pragma"@.len() != "accept-language"@.len());
    spelled_access_control_request_method();
    assert("pragma"@.len() != "access-control-request-method"@.len());
    spelled_authorization();
    assert("pragma"@.len() != "authorization"@.len());
    spelled_cache_control();
    assert("pragma"@.len() != "cache-control"@.len());
    spelled_connection();
    assert("pragma"@.len() != "connection"@.len());
    spelled_content_encoding();
    assert("pragma"@.len() != "content-encoding"@.len());
    spelled_content_length();
    assert("pragma"@.len() != "content-length"@.len());
    spelled_content_type();
    assert("pragma"@.len() != "content-type"@.len());
    spelled_cookie();
    assert("pragma"@[0] != "cookie"@[0]);
    spelled_date();
    assert("pragma"@.len() != "date"@.len());
    spelled_expect();
    assert("pragma"@[0] != "expect"@[0]);
    spelled_forwarded();
    assert("pragma"@.len() != "forwarded"@.len());
    spelled_from();
    assert("pragma"@.len() != "from"@.len());
    spelled_host();
    assert("pragma"@.len() != "host"@.len());
    spelled_origin();
    assert("pragma"@[0] != "origin"@[0]);
    assert(HeaderType::known_by_name("pragma"@) == Some(HeaderType::Pragma));
}

/// `Referer` reads back as itself.
proof fn lemma_referer_reads_back()
    ensures
        reads_back("Referer"@, HeaderType::Referer@),
{
    spelled_referer();
    assert(ascii_lower("Referer"@) =~= "referer"@);
    spelled_accept();
    assert("referer"@.len() != "accept"@.len());
    spelled_accept_charset();
    assert("referer"@.len() != "accept-charset"@.len());
    spelled_accept_encoding();
    assert("referer"@.len() != "accept-encoding"@.len());
    spelled_accept_language();
    assert("referer"@.len() != "accept-language"@.len());
    spelled_access_control_request_method();
    assert("referer"@.len() != "access-control-request-method"@.len());
    spelled_authorization();
    assert("referer"@.len() != "authorization"@.len());
    spelled_cache_control();
    assert("referer"@.len() != "cache-control"@.len());
    spelled_connection();
    assert("referer"@.len() != "connection"@.len());
    spelled_content_encoding();
    assert("referer"@.len() != "content-encoding"@.len());
    spelled_content_length();
    assert("referer"@.len() != "content-length"@.len());
    spelled_content_type();
    assert("referer"@.len() != "content-type"@.len());
    spelled_cookie();
    assert("referer"@.len() != "cookie"@.len());
    spelled_date();
    assert("referer"@.len() != "date"@.len());
    spelled_expect();
    assert("referer"@.len() != "expect"@.len());
    spelled_forwarded();
    assert("referer"@.len() != "forwarded"@.len());
    spelled_from();
    assert("referer"@.len() != "from"@.len());
    spelled_host();
    assert("referer"@.len() != "host"@.len());
    spelled_origin();
    assert("referer"@.len() != "origin"@.len());
    spelled_pragma();
    assert("referer"@.len() != "pragma"@.len());
    assert(HeaderType::known_by_name("referer"@) == Some(HeaderType::Referer));
}

/// `Upgrade` reads back as itself.
proof fn lemma_upgrade_reads_back()
    ensures
        reads_back("Upgrade"@, HeaderType::Upgrade@),
{
    spelled_upgrade();
    assert(ascii_lower("Upgrade"@) =~= "upgrade"@);
    spelled_accept();
    assert("upgrade"@.len() != "accept"@.len());
    spelled_accept_charset();
    assert("upgrade"@.len() != "accept-charset"@.len());
    spelled_accept_encoding();
    assert("upgrade"@.len() != "accept-encoding"@.len());
    spelled_accept_language();
    assert("upgrade"@.len() != "accept-language"@.len());
    spelled_access_control_request_method();
    assert("upgrade"@.len() != "access-control-request-method"@.len());
    spelled_authorization();
    assert("upgrade"@.len() != "authorization"@.len());
    spelled_cache_control();
    assert("upgrade"@.len() != "cache-control"@.len());
    spelled_connection();
    assert("upgrade"@.len() != "connection"@.len());
    spelled_content_encoding();
    assert("upgrade"@.len() != "content-encoding"@.len());
    spelled_content_length();
    assert("upgrade"@.len() != "content-length"@.len());
    spelled_content_type();
    assert("upgrade"@.len() != "content-type"@.len());
    spelled_cookie();
    assert("upgrade"@.len() != "cookie"@.len());
    spelled_date();
    assert("upgrade"@.len() != "date"@.len());
    spelled_expect();
    assert("upgrade"@.len() != "expect"@.len());
    spelled_forwarded();
    assert("upgrade"@.len() != "forwarded"@.len());
    spelled_from();
    assert("upgrade"@.len() != "from"@.len());
    spelled_host();
    assert("upgrade"@.len() != "host"@.len());
    spelled_origin();
    assert("upgrade"@.len() != "origin"@.len());
    spelled_pragma();
    assert("upgrade"@.len() != "pragma"@.len());
    spelled_referer();
    assert("upgrade"@[0] != "referer"@[0]);
    assert(HeaderType::known_by_name("upgrade"@) == Some(HeaderType::Upgrade));
}

/// `User-Agent` reads back as itself.
proof fn lemma_user_agent_reads_back()
    ensures
        reads_back("User-Agent"@, HeaderType::UserAgent@),
{
    spelled_user_agent();
    assert(ascii_lower("User-Agent"@) =~= "user-agent"@);
    spelled_accept();
    assert("user-agent"@.len() != "accept"@.len());
    spelled_accept_charset();
    assert("user-agent"@.len() != "accept-charset"@.len());
    spelled_accept_encoding();
    assert("user-agent"@.len() != "accept-encoding"@.len());
    spelled_accept_language();
    assert("user-agent"@.len() != "accept-language"@.len());
    spelled_access_control_request_method();
    assert("user-agent"@.len() != "access-control-request-method"@.len());
    spelled_authorization();
    assert("user-agent"@.len() != "authorization"@.len());
    spelled_cache_control();
    assert("user-agent"@.len() != "cache-control"@.len());
    spelled_connection();
    assert("user-agent"@[0] != "connection"@[0]);
    spelled_content_encoding();
    assert("user-agent"@.len() != "content-encoding"@.len());
    spelled_content_length();
    assert("user-agent"@.len() != "content-length"@.len());
    spelled_content_type();
    assert("user-agent"@.len() != "content-type"@.len());
    spelled_cookie();
    assert("user-agent"@.len() != "cookie"@.len());
    spelled_date();
    assert("user-agent"@.len() != "date"@.len());
    spelled_expect();
    assert("user-agent"@.len() != "expect"@.len());
    spelled_forwarded();
    assert("user-agent"@.len() != "forwarded"@.len());
    spelled_from();
    assert("user-agent"@.len() != "from"@.len());
    spelled_host();
    assert("user-agent"@.len() != "host"@.len());
    spelled_origin();
    assert("user-agent"@.len() != "origin"@.len());
    spelled_pragma();
    assert("user-agent"@.len() != "pragma"@.len());
    spelled_referer();
    assert("user-agent"@.len() != "referer"@.len());
    spelled_upgrade();
    assert("user-agent"@.len() != "upgrade"@.len());
    assert(HeaderType::known_by_name("user-agent"@) == Some(HeaderType::UserAgent));
}

/// `Via` reads back as itself.
proof fn lemma_via_reads_back()
    ensures
        reads_back("Via"@, HeaderType::Via@),
{
    spelled_via();
    assert(ascii_lower("Via"@) =~= "via"@);
    spelled_accept();
    assert("via"@.len() != "accept"@.len());
    spelled_accept_charset();
    assert("via"@.len() != "accept-charset"@.len());
    spelled_accept_encoding();
    assert("via"@.len() != "accept-encoding"@.len());
    spelled_accept_language();
    assert("via"@.len() != "accept-language"@.len());
    spelled_access_control_request_method();
    assert("via"@.len() != "access-control-request-method"@.len());
    spelled_authorization();
    assert("via"@.len() != "authorization"@.len());
    spelled_cache_control();
    assert("via"@.len() != "cache-control"@.len());
    spelled_connection();
    assert("via"@.len() != "connection"@.len());
    spelled_content_encoding();
    assert("via"@.len() != "content-encoding"@.len());
    spelled_content_length();
    assert("via"@.len() != "content-length"@.len());
    spelled_content_type();
    assert("via"@.len() != "content-type"@.len());
    spelled_cookie();
    assert("via"@.len() != "cookie"@.len());
    spelled_date();
    assert("via"@.len() != "date"@.len());
    spelled_expect();
    assert("via"@.len() != "expect"@.len());
    spelled_forwarded();
    assert("via"@.len() != "forwarded"@.len());
    spelled_from();
    assert("via"@.len() != "from"@.len());
    spelled_host();
    assert("via"@.len() != "host"@.len());
    spelled_origin();
    assert("via"@.len() != "origin"@.len());
    spelled_pragma();
    assert("via"@.len() != "pragma"@.len());
    spelled_referer();
    assert("via"@.len() != "referer"@.len());
    spelled_upgrade();
    assert("via"@.len() != "upgrade"@.len());
    spelled_user_agent();
    assert("via"@.len() != "user-agent"@.len());
    assert(HeaderType::known_by_name("via"@) == Some(HeaderType::Via));
}

/// `Warning` reads back as itself.
proof fn lemma_warning_reads_back()
    ensures
        reads_back("Warning"@, HeaderType::Warning@),
{
    spelled_warning();
    assert(ascii_lower("Warning"@) =~= "warning"@);
    spelled_accept();
    assert("warning"@.len() != "accept"@.len());
    spelled_accept_charset();
    assert("warning"@.len() != "accept-charset"@.len());
    spelled_accept_encoding();
    assert("warning"@.len() != "accept-encoding"@.len());
    spelled_accept_language();
    assert("warning"@.len() != "accept-language"@.len());
    spelled_access_control_request_method();
    assert("warning"@.len() != "access-control-request-method"@.len());
    spelled_authorization();
    assert("warning"@.len() != "authorization"@.len());
    spelled_cache_control();
    assert("warning"@.len() != "cache-control"@.len());
    spelled_connection();
    assert("warning"@.len() != "connection"@.len());
    spelled_content_encoding();
    assert("warning"@.len() != "content-encoding"@.len());
    spelled_content_length();
    assert("warning"@.len() != "content-length"@.len());
    spelled_content_type();
    assert("warning"@.len() != "content-type"@.len());
    spelled_cookie();
    assert("warning"@.len() != "cookie"@.len());
    spelled_date();
    assert("warning"@.len() != "date"@.len());
    spelled_expect();
    assert("warning"@.len() != "expect"@.len());
    spelled_forwarded();
    assert("warning"@.len() != "forwarded"@.len());
    spelled_from();
    assert("warning"@.len() != "from"@.len());
    spelled_host();
    assert("warning"@.len() != "host"@.len());
    spelled_origin();
    assert("warning"@.len() != "origin"@.len());
    spelled_pragma();
    assert("warning"@.len() != "pragma"@.len());
    spelled_referer();
    assert("warning"@[0] != "referer"@[0]);
    spelled_upgrade();
    assert("warning"@[0] != "upgrade"@[0]);
    spelled_user_agent();
    assert("warning"@.len() != "user-agent"@.len());
    spelled_via();
    assert("warning"@.len() != "via"@.len());
    assert(HeaderType::known_by_name("warning"@) == Some(HeaderType::Warning));
}

/// `Access-Control-Allow-Origin` reads back as itself.
proof fn lemma_access_control_allow_origin_reads_back()
    ensures
        reads_back("Access-Control-Allow-Origin"@, HeaderType::AccessControlAllowOrigin@),
{
    spelled_access_control_allow_origin();
    assert(ascii_lower("Access-Control-Allow-Origin"@) =~= "access-control-allow-origin"@);
    spelled_accept();
    assert("access-control-allow-origin"@.len() != "accept"@.len());
    spelled_accept_charset();
    assert("access-control-allow-origin"@.len() != "accept-charset"@.len());
    spelled_accept_encoding();
    assert("access-control-allow-origin"@.len() != "accept-encoding"@.len());
    spelled_accept_language();
    assert("access-control-allow-origin"@.len() != "accept-language"@.len());
    spelled_access_control_request_method();
    assert("access-control-allow-origin"@.len() != "access-control-request-method"@.len());
    spelled_authorization();
    assert("access-control-allow-origin"@.len() != "authorization"@.len());
    spelled_cache_control();
    assert("access-control-allow-origin"@.len() != "cache-control"@.len());
    spelled_connection();
    assert("access-control-allow-origin"@.len() != "connection"@.len());
    spelled_content_encoding();
    assert("access-control-allow-origin"@.len() != "content-encoding"@.len());
    spelled_content_length();
    assert("access-control-allow-origin"@.len() != "content-length"@.len());
    spelled_content_type();
    assert("access-control-allow-origin"@.len() != "content-type"@.len());
    spelled_cookie();
    assert("access-control-allow-origin"@.len() != "cookie"@.len());
    spelled_date();
    assert("access-control-allow-origin"@.len() != "date"@.len());
    spelled_expect();
    assert("access-control-allow-origin"@.len() != "expect"@.len());
    spelled_forwarded();
    assert("access-control-allow-origin"@.len() != "forwarded"@.len());
    spelled_from();
    assert("access-control-allow-origin"@.len() != "from"@.len());
    spelled_host();
    assert("access-control-allow-origin"@.len() != "host"@.len());
    spelled_origin();
    assert("access-control-allow-origin"@.len() != "origin"@.len());
    spelled_pragma();
    assert("access-control-allow-origin"@.len() != "pragma"@.len());
    spelled_referer();
    assert("access-control-allow-origin"@.len() != "referer"@.len());
    spelled_upgrade();
    assert("access-control-allow-origin"@.len() != "upgrade"@.len());
    spelled_user_agent();
    assert("access-control-allow-origin"@.len() != "user-agent"@.len());
    spelled_via();
    assert("access-control-allow-origin"@.len() != "via"@.len());
    spelled_warning();
    assert("access-control-allow-origin"@.len() != "warning"@.len());
    assert(HeaderType::known_by_name("access-control-allow-origin"@) == Some(HeaderType::AccessControlAllowOrigin));
}

/// `Age` reads back as itself.
proof fn lemma_age_reads_back()
    ensures
        reads_back("Age"@, HeaderType::Age@),
{
    spelled_age();
    assert(ascii_lower("Age"@) =~= "age"@);
    spelled_accept();
    assert("age"@.len() != "accept"@.len());
    spelled_accept_charset();
    assert("age"@.len() != "accept-charset"@.len());
    spelled_accept_encoding();
    assert("age"@.len() != "accept-encoding"@.len());
    spelled_accept_language();
    assert("age"@.len() != "accept-language"@.len());
    spelled_access_control_request_method();
    assert("age"@.len() != "access-control-request-method"@.len());
    spelled_authorization();
    assert("age"@.len() != "authorization"@.len());
    spelled_cache_control();
    assert("age"@.len() != "cache-control"@.len());
    spelled_connection();
    assert("age"@.len() != "connection"@.len());
    spelled_content_encoding();
    assert("age"@.len() != "content-encoding"@.len());
    spelled_content_length();
    assert("age"@.len() != "content-length"@.len());
    spelled_content_type();
    assert("age"@.len() != "content-type"@.len());
    spelled_cookie();
    assert("age"@.len() != "cookie"@.len());
    spelled_date();
    assert("age"@.len() != "date"@.len());
    spelled_expect();
    assert("age"@.len() != "expect"@.len());
    spelled_forwarded();
    assert("age"@.len() != "forwarded"@.len());
    spelled_from();
    assert("age"@.len() != "from"@.len());
    spelled_host();
    assert("age"@.len() != "host"@.len());
    spelled_origin();
    assert("age"@.len() != "origin"@.len());
    spelled_pragma();
    assert("age"@.len() != "pragma"@.len());
    spelled_referer();
    assert("age"@.len() != "referer"@.len());
    spelled_upgrade();
    assert("age"@.len() != "upgrade"@.len());
    spelled_user_agent();
    assert("age"@.len() != "user-agent"@.len());
    spelled_via();
    assert("age"@[0] != "via"@[0]);
    spelled_warning();
    assert("age"@.len() != "warning"@.len());
    spelled_access_control_allow_origin();
    assert("age"@.len() != "access-control-allow-origin"@.len());
    assert(HeaderType::known_by_name("age"@) == Some(HeaderType::Age));
}

/// `Allow` reads back as itself.
proof fn lemma_allow_reads_back()
    ensures
        reads_back("Allow"@, HeaderType::Allow@),
{
    spelled_allow();
    assert(ascii_lower("Allow"@) =~= "allow"@);
    spelled_accept();
    assert("allow"@.len() != "accept"@.len());
    spelled_accept_charset();
    assert("allow"@.len() != "accept-charset"@.len());
    spelled_accept_encoding();
    assert("allow"@.len() != "accept-encoding"@.len());
    spelled_accept_language();
    assert("allow"@.len() != "accept-language"@.len());
    spelled_access_control_request_method();
    assert("allow"@.len() != "access-control-request-method"@.len());
    spelled_authorization();
    assert("allow"@.len() != "authorization"@.len());
    spelled_cache_control();
    assert("allow"@.len() != "cache-control"@.len());
    spelled_connection();
    assert("allow"@.len() != "connection"@.len());
    spelled_content_encoding();
    assert("allow"@.len() != "content-encoding"@.len());
    spelled_content_length();
    assert("allow"@.len() != "content-length"@.len());
    spelled_content_type();
    assert("allow"@.len() != "content-type"@.len());
    spelled_cookie();
    assert("allow"@.len() != "cookie"@.len());
    spelled_date();
    assert("allow"@.len() != "date"@.len());
    spelled_expect();
    assert("allow"@.len() != "expect"@.len());
    spelled_forwarded();
    assert("allow"@.len() != "forwarded"@.len());
    spelled_from();
    assert("allow"@.len() != "from"@.len());
    spelled_host();
    assert("allow"@.len() != "host"@.len());
    spelled_origin();
    assert("allow"@.len() != "origin"@.len());
    spelled_pragma();
    assert("allow"@.len() != "pragma"@.len());
    spelled_referer();
    assert("allow"@.len() != "referer"@.len());
    spelled_upgrade();
    assert("allow"@.len() != "upgrade"@.len());
    spelled_user_agent();
    assert("allow"@.len() != "user-agent"@.len());
    spelled_via();
    assert("allow"@.len() != "via"@.len());
    spelled_warning();
    assert("allow"@.len() != "warning"@.len());
    spelled_access_control_allow_origin();
    assert("allow"@.len() != "access-control-allow-origin"@.len());
    spelled_age();
    assert("allow"@.len() != "age"@.len());
    assert(HeaderType::known_by_name("allow"@) == Some(HeaderType::Allow));
}

/// `Content-Disposition` reads back as itself.
proof fn lemma_content_disposition_reads_back()
    ensures
        reads_back("Content-Disposition"@, HeaderType::ContentDisposition@),
{
    spelled_content_disposition();
    assert(ascii_lower("Content-Disposition"@) =~= "content-disposition"@);
    spelled_accept();
    assert("content-disposition"@.len() != "accept"@.len());
    spelled_accept_charset();
    assert("content-disposition"@.len() != "accept-charset"@.len());
    spelled_accept_encoding();
    assert("content-disposition"@.len() != "accept-encoding"@.len());
    spelled_accept_language();
    assert("content-disposition"@.len() != "accept-language"@.len());
    spelled_access_control_request_method();
    assert("content-disposition"@.len() != "access-control-request-method"@.len());
    spelled_authorization();
    assert("content-disposition"@.len() != "authorization"@.len());
    spelled_cache_control();
    assert("content-disposition"@.len() != "cache-control"@.len());
    spelled_connection();
    assert("content-disposition"@.len() != "connection"@.len());
    spelled_content_encoding();
    assert("content-disposition"@.len() != "content-encoding"@.len());
    spelled_content_length();
    assert("content-disposition"@.len() != "content-length"@.len());
    spelled_content_type();
    assert("content-disposition"@.len() != "content-type"@.len());
    spelled_cookie();
    assert("content-disposition"@.len() != "cookie"@.len());
    spelled_date();
    assert("content-disposition"@.len() != "date"@.len());
    spelled_expect();
    assert("content-disposition"@.len() != "expect"@.len());
    spelled_forwarded();
    assert("content-disposition"@.len() != "forwarded"@.len());
    spelled_from();
    assert("content-disposition"@.len() != "from"@.len());
    spelled_host();
    assert("content-disposition"@.len() != "host"@.len());
    spelled_origin();
    assert("content-disposition"@.len() != "origin"@.len());
    spelled_pragma();
    assert("content-disposition"@.len() != "pragma"@.len());
    spelled_referer();
    assert("content-disposition"@.len() != "referer"@.len());
    spelled_upgrade();
    assert("content-disposition"@.len() != "upgrade"@.len());
    spelled_user_agent();
    assert("content-disposition"@.len() != "user-agent"@.len());
    spelled_via();
    assert("content-disposition"@.len() != "via"@.len());
    spelled_warning();
    assert("content-disposition"@.len() != "warning"@.len());
    spelled_access_control_allow_origin();
    assert("content-disposition"@.len() != "access-control-allow-origin"@.len());
    spelled_age();
    assert("content-disposition"@.len() != "age"@.len());
    spelled_allow();
    assert("content-disposition"@.len() != "allow"@.len());
    assert(HeaderType::known_by_name("content-disposition"@) == Some(HeaderType::ContentDisposition));
}

/// `Content-Language` reads back as itself.
proof fn lemma_content_language_reads_back()
    ensures
        reads_back("Content-Language"@, HeaderType::ContentLanguage@),
{
    spelled_content_language();
    assert(ascii_lower("Content-Language"@) =~= "content-language"@);
    spelled_accept();
    assert("content-language"@.len() != "accept"@.len());
    spelled_accept_charset();
    assert("content-language"@.len() != "accept-charset"@.len());
    spelled_accept_encoding();
    assert("content-language"@.len() != "accept-encoding"@.len());
    spelled_accept_language();
    assert("content-language"@.len() != "accept-language"@.len());
    spelled_access_control_request_method();
    assert("content-language"@.len() != "access-control-request-method"@.len());
    spelled_authorization();
    assert("content-language"@.len() != "authorization"@.len());
    spelled_cache_control();
    assert("content-language"@.len() != "cache-control"@.len());
    spelled_connection();
    assert("content-language"@.len() != "connection"@.len());
    spelled_content_encoding();
    assert("content-language"@[8] != "content-encoding"@[8]);
    spelled_content_length();
    assert("content-language"@.len() != "content-length"@.len());
    spelled_content_type();
    assert("content-language"@.len() != "content-type"@.len());
    spelled_cookie();
    assert("content-language"@.len() != "cookie"@.len());
    spelled_date();
    assert("content-language"@.len() != "date"@.len());
    spelled_expect();
    assert("content-language"@.len() != "expect"@.len());
    spelled_forwarded();
    assert("content-language"@.len() != "forwarded"@.len());
    spelled_from();
    assert("content-language"@.len() != "from"@.len());
    spelled_host();
    assert("content-language"@.len() != "host"@.len());
    spelled_origin();
    assert("content-language"@.len() != "origin"@.len());
    spelled_pragma();
    assert("content-language"@.len() != "pragma"@.len());
    spelled_referer();
    assert("content-language"@.len() != "referer"@.len());
    spelled_upgrade();
    assert("content-language"@.len() != "upgrade"@.len());
    spelled_user_agent();
    assert("content-language"@.len() != "user-agent"@.len());
    spelled_via();
    assert("content-language"@.len() != "via"@.len());
    spelled_warning();
    assert("content-language"@.len() != "warning"@.len());
    spelled_access_control_allow_origin();
    assert("content-language"@.len() != "access-control-allow-origin"@.len());
    spelled_age();
    assert("content-language"@.len() != "age"@.len());
    spelled_allow();
    assert("content-language"@.len() != "allow"@.len());
    spelled_content_disposition();
    assert("content-language"@.len() != "content-disposition"@.len());
    assert(HeaderType::known_by_name("content-language"@) == Some(HeaderType::ContentLanguage));
}

/// `Content-Location` reads back as itself.
proof fn lemma_content_location_reads_back()
    ensures
        reads_back("Content-Location"@, HeaderType::ContentLocation@),
{
    spelled_content_location();
    assert(ascii_lower("Content-Location"@) =~= "content-location"@);
    spelled_accept();
    assert("content-location"@.len() != "accept"@.len());
    spelled_accept_charset();
    assert("content-location"@.len() != "accept-charset"@.len());
    spelled_accept_encoding();
    assert("content-location"@.len() != "accept-encoding"@.len());
    spelled_accept_language();
    assert("content-location"@.len() != "accept-language"@.len());
    spelled_access_control_request_method();
    assert("content-location"@.len() != "access-control-request-method"@.len());
    spelled_authorization();
    assert("content-location"@.len() != "authorization"@.len());
    spelled_cache_control();
    assert("content-location"@.len() != "cache-control"@.len());
    spelled_connection();
    assert("content-location"@.len() != "connection"@.len());
    spelled_content_encoding();
    assert("content-location"@[8] != "content-encoding"@[8]);
    spelled_content_length();
    assert("content-location"@.len() != "content-length"@.len());
    spelled_content_type();
    assert("content-location"@.len() != "content-type"@.len());
    spelled_cookie();
    assert("content-location"@.len() != "cookie"@.len());
    spelled_date();
    assert("content-location"@.len() != "date"@.len());
    spelled_expect();
    assert("content-location"@.len() != "expect"@.len());
    spelled_forwarded();
    assert("content-location"@.len() != "forwarded"@.len());
    spelled_from();
    assert("content-location"@.len() != "from"@.len());
    spelled_host();
    assert("content-location"@.len() != "host"@.len());
    spelled_origin();
    assert("content-location"@.len() != "origin"@.len());
    spelled_pragma();
    assert("content-location"@.len() != "pragma"@.len());
    spelled_referer();
    assert("content-location"@.len() != "referer"@.len());
    spelled_upgrade();
    assert("content-location"@.len() != "upgrade"@.len());
    spelled_user_agent();
    assert("content-location"@.len() != "user-agent"@.len());
    spelled_via();
    assert("content-location"@.len() != "via"@.len());
    spelled_warning();
    assert("content-location"@.len() != "warning"@.len());
    spelled_access_control_allow_origin();
    assert("content-location"@.len() != "access-control-allow-origin"@.len());
    spelled_age();
    assert("content-location"@.len() != "age"@.len());
    spelled_allow();
    assert("content-location"@.len() != "allow"@.len());
    spelled_content_disposition();
    assert("content-location"@.len() != "content-disposition"@.len());
    spelled_content_language();
    assert("content-location"@[9] != "content-language"@[9]);
    assert(HeaderType::known_by_name("content-location"@) == Some(HeaderType::ContentLocation));
}

/// `ETag` reads back as itself.
proof fn lemma_etag_reads_back()
    ensures
        reads_back("ETag"@, HeaderType::ETag@),
{
    spelled_etag();
    assert(ascii_lower("ETag"@) =~= "etag"@);
    spelled_accept();
    assert("etag"@.len() != "accept"@.len());
    spelled_accept_charset();
    assert("etag"@.len() != "accept-charset"@.len());
    spelled_accept_encoding();
    assert("etag"@.len() != "accept-encoding"@.len());
    spelled_accept_language();
    assert("etag"@.len() != "accept-language"@.len());
    spelled_access_control_request_method();
    assert("etag"@.len() != "access-control-request-method"@.len());
    spelled_authorization();
    assert("etag"@.len() != "authorization"@.len());
    spelled_cache_control();
    assert("etag"@.len() != "cache-control"@.len());
    spelled_connection();
    assert("etag"@.len() != "connection"@.len());
    spelled_content_encoding();
    assert("etag"@.len() != "content-encoding"@.len());
    spelled_content_length();
    assert("etag"@.len() != "content-length"@.len());
    spelled_content_type();
    assert("etag"@.len() != "content-type"@.len());
    spelled_cookie();
    assert("etag"@.len() != "cookie"@.len());
    spelled_date();
    assert("etag"@[0] != "date"@[0]);
    spelled_expect();
    assert("etag"@.len() != "expect"@.len());
    spelled_forwarded();
    assert("etag"@.len() != "forwarded"@.len());
    spelled_from();
    assert("etag"@[0] != "from"@[0]);
    spelled_host();
    assert("etag"@[0] != "host"@[0]);
    spelled_origin();
    assert("etag"@.len() != "origin"@.len());
    spelled_pragma();
    assert("etag"@.len() != "pragma"@.len());
    spelled_referer();
    assert("etag"@.len() != "referer"@.len());
    spelled_upgrade();
    assert("etag"@.len() != "upgrade"@.len());
    spelled_user_agent();
    assert("etag"@.len() != "user-agent"@.len());
    spelled_via();
    assert("etag"@.len() != "via"@.len());
    spelled_warning();
    assert("etag"@.len() != "warning"@.len());
    spelled_access_control_allow_origin();
    assert("etag"@.len() != "access-control-allow-origin"@.len());
    spelled_age();
    assert("etag"@.len() != "age"@.len());
    spelled_allow();
    assert("etag"@.len() != "allow"@.len());
    spelled_content_disposition();
    assert("etag"@.len() != "content-disposition"@.len());
    spelled_content_language();
    assert("etag"@.len() != "content-language"@.len());
    spelled_content_location();
    assert("etag"@.len() != "content-location"@.len());
    assert(HeaderType::known_by_name("etag"@) == Some(HeaderType::ETag));
}

/// `Expires` reads back as itself.
proof fn lemma_expires_reads_back()
    ensures
        reads_back("Expires"@, HeaderType::Expires@),
{
    spelled_expires();
    assert(ascii_lower("Expires"@) =~= "expires"@);
    spelled_accept();
    assert("expires"@.len() != "accept"@.len());
    spelled_accept_charset();
    assert("expires"@.len() != "accept-charset"@.len());
    spelled_accept_encoding();
    assert("expires"@.len() != "accept-encoding"@.len());
    spelled_accept_language();
    assert("expires"@.len() != "accept-language"@.len());
    spelled_access_control_request_method();
    assert("expires"@.len() != "access-control-request-method"@.len());
    spelled_authorization();
    assert("expires"@.len() != "authorization"@.len());
    spelled_cache_control();
    assert("expires"@.len() != "cache-control"@.len());
    spelled_connection();
    assert("expires"@.len() != "connection"@.len());
    spelled_content_encoding();
    assert("expires"@.len() != "content-encoding"@.len());
    spelled_content_length();
    assert("expires"@.len() != "content-length"@.len());
    spelled_content_type();
    assert("expires"@.len() != "content-type"@.len());
    spelled_cookie();
    assert("expires"@.len() != "cookie"@.len());
    spelled_date();
    assert("expires"@.len() != "date"@.len());
    spelled_expect();
    assert("expires"@.len() != "expect"@.len());
    spelled_forwarded();
    assert("expires"@.len() != "forwarded"@.len());
    spelled_from();
    assert("expires"@.len() != "from"@.len());
    spelled_host();
    assert("expires"@.len() != "host"@.len());
    spelled_origin();
    assert("expires"@.len() != "origin"@.len());
    spelled_pragma();
    assert("expires"@.len() != "pragma"@.len());
    spelled_referer();
    assert("expires"@[0] != "referer"@[0]);
    spelled_upgrade();
    assert("expires"@[0] != "upgrade"@[0]);
    spelled_user_agent();
    assert("expires"@.len() != "user-agent"@.len());
    spelled_via();
    assert("expires"@.len() != "via"@.len());
    spelled_warning();
    assert("expires"@[0] != "warning"@[0]);
    spelled_access_control_allow_origin();
    assert("expires"@.len() != "access-control-allow-origin"@.len());
    spelled_age();
    assert("expires"@.len() != "age"@.len());
    spelled_allow();
    assert("expires"@.len() != "allow"@.len());
    spelled_content_disposition();
    assert("expires"@.len() != "content-disposition"@.len());
    spelled_content_language();
    assert("expires"@.len() != "content-language"@.len());
    spelled_content_location();
    assert("expires"@.len() != "content-location"@.len());
    spelled_etag();
    assert("expires"@.len() != "etag"@.len());
    assert(HeaderType::known_by_name("expires"@) == Some(HeaderType::Expires));
}

/// `Last-Modified` reads back as itself.
proof fn lemma_last_modified_reads_back()
    ensures
        reads_back("Last-Modified"@, HeaderType::LastModified@),
{
    spelled_last_modified();
    assert(ascii_lower("Last-Modified"@) =~= "last-modified"@);
    spelled_accept();
    assert("last-modified"@.len() != "accept"@.len());
    spelled_accept_charset();
    assert("last-modified"@.len() != "accept-charset"@.len());
    spelled_accept_encoding();
    assert("last-modified"@.len() != "accept-encoding"@.len());
    spelled_accept_language();
    assert("last-modified"@.len() != "accept-language"@.len());
    spelled_access_control_request_method();
    assert("last-modified"@.len() != "access-control-request-method"@.len());
    spelled_authorization();
    assert("last-modified"@[0] != "authorization"@[0]);
    spelled_cache_control();
    assert("last-modified"@[0] != "cache-control"@[0]);
    spelled_connection();
    assert("last-modified"@.len() != "connection"@.len());
    spelled_content_encoding();
    assert("last-modified"@.len() != "content-encoding"@.len());
    spelled_content_length();
    assert("last-modified"@.len() != "content-length"@.len());
    spelled_content_type();
    assert("last-modified"@.len() != "content-type"@.len());
    spelled_cookie();
    assert("last-modified"@.len() != "cookie"@.len());
    spelled_date();
    assert("last-modified"@.len() != "date"@.len());
    spelled_expect();
    assert("last-modified"@.len() != "expect"@.len());
    spelled_forwarded();
    assert("last-modified"@.len() != "forwarded"@.len());
    spelled_from();
    assert("last-modified"@.len() != "from"@.len());
    spelled_host();
    assert("last-modified"@.len() != "host"@.len());
    spelled_origin();
    assert("last-modified"@.len() != "origin"@.len());
    spelled_pragma();
    assert("last-modified"@.len() != "pragma"@.len());
    spelled_referer();
    assert("last-modified"@.len() != "referer"@.len());
    spelled_upgrade();
    assert("last-modified"@.len() != "upgrade"@.len());
    spelled_user_agent();
    assert("last-modified"@.len() != "user-agent"@.len());
    spelled_via();
    assert("last-modified"@.len() != "via"@.len());
    spelled_warning();
    assert("last-modified"@.len() != "warning"@.len());
    spelled_access_control_allow_origin();
    assert("last-modified"@.len() != "access-control-allow-origin"@.len());
    spelled_age();
    assert("last-modified"@.len() != "age"@.len());
    spelled_allow();
    assert("last-modified"@.len() != "allow"@.len());
    spelled_content_disposition();
    assert("last-modified"@.len() != "content-disposition"@.len());
    spelled_content_language();
    assert("last-modified"@.len() != "content-language"@.len());
    spelled_content_location();
    assert("last-modified"@.len() != "content-location"@.len());
    spelled_etag();
    assert("last-modified"@.len() != "etag"@.len());
    spelled_expires();
    assert("last-modified"@.len() != "expires"@.len());
    assert(HeaderType::known_by_name("last-modified"@) == Some(HeaderType::LastModified));
}

/// `Link` reads back as itself.
proof fn lemma_link_reads_back()
    ensures
        reads_back("Link"@, HeaderType::Link@),
{
    spelled_link();
    assert(ascii_lower("Link"@) =~= "link"@);
    spelled_accept();
    assert("link"@.len() != "accept"@.len());
    spelled_accept_charset();
    assert("link"@.len() != "accept-charset"@.len());
    spelled_accept_encoding();
    assert("link"@.len() != "accept-encoding"@.len());
    spelled_accept_language();
    assert("link"@.len() != "accept-language"@.len());
    spelled_access_control_request_method();
    assert("link"@.len() != "access-control-request-method"@.len());
    spelled_authorization();
    assert("link"@.len() != "authorization"@.len());
    spelled_cache_control();
    assert("link"@.len() != "cache-control"@.len());
    spelled_connection();
    assert("link"@.len() != "connection"@.len());
    spelled_content_encoding();
    assert("link"@.len() != "content-encoding"@.len());
    spelled_content_length();
    assert("link"@.len() != "content-length"@.len());
    spelled_content_type();
    assert("link"@.len() != "content-type"@.len());
    spelled_cookie();
    assert("link"@.len() != "cookie"@.len());
    spelled_date();
    assert("link"@[0] != "date"@[0]);
    spelled_expect();
    assert("link"@.len() != "expect"@.len());
    spelled_forwarded();
    assert("link"@.len() != "forwarded"@.len());
    spelled_from();
    assert("link"@[0] != "from"@[0]);
    spelled_host();
    assert("link"@[0] != "host"@[0]);
    spelled_origin();
    assert("link"@.len() != "origin"@.len());
    spelled_pragma();
    assert("link"@.len() != "pragma"@.len());
    spelled_referer();
    assert("link"@.len() != "referer"@.len());
    spelled_upgrade();
    assert("link"@.len() != "upgrade"@.len());
    spelled_user_agent();
    assert("link"@.len() != "user-agent"@.len());
    spelled_via();
    assert("link"@.len() != "via"@.len());
    spelled_warning();
    assert("link"@.len() != "warning"@.len());
    spelled_access_control_allow_origin();
    assert("link"@.len() != "access-control-allow-origin"@.len());
    spelled_age();
    assert("link"@.len() != "age"@.len());
    spelled_allow();
    assert("link"@.len() != "allow"@.len());
    spelled_content_disposition();
    assert("link"@.len() != "content-disposition"@.len());
    spelled_content_language();
    assert("link"@.len() != "content-language"@.len());
    spelled_content_location();
    assert("link"@.len() != "content-location"@.len());
    spelled_etag();
    assert("link"@[0] != "etag"@[0]);
    spelled_expires();
    assert("link"@.len() != "expires"@.len());
    spelled_last_modified();
    assert("link"@.len() != "last-modified"@.len());
    assert(HeaderType::known_by_name("link"@) == Some(HeaderType::Link));
}

/// `Location` reads back as itself.
proof fn lemma_location_reads_back()
    ensures
        reads_back("Location"@, HeaderType::Location@),
{
    spelled_location();
    assert(ascii_lower("Location"@) =~= "location"@);
    spelled_accept();
    assert("location"@.len() != "accept"@.len());
    spelled_accept_charset();
    assert("location"@.len() != "accept-charset"@.len());
    spelled_accept_encoding();
    assert("location"@.len() != "accept-encoding"@.len());
    spelled_accept_language();
    assert("location"@.len() != "accept-language"@.len());
    spelled_access_control_request_method();
    assert("location"@.len() != "access-control-request-method"@.len());
    spelled_authorization();
    assert("location"@.len() != "authorization"@.len());
    spelled_cache_control();
    assert("location"@.len() != "cache-control"@.len());
    spelled_connection();
    assert("location"@.len() != "connection"@.len());
    spelled_content_encoding();
    assert("location"@.len() != "content-encoding"@.len());
    spelled_content_length();
    assert("location"@.len() != "content-length"@.len());
    spelled_content_type();
    assert("location"@.len() != "content-type"@.len());
    spelled_cookie();
    assert("location"@.len() != "cookie"@.len());
    spelled_date();
    assert("location"@.len() != "date"@.len());
    spelled_expect();
    assert("location"@.len() != "expect"@.len());
    spelled_forwarded();
    assert("location"@.len() != "forwarded"@.len());
    spelled_from();
    assert("location"@.len() != "from"@.len());
    spelled_host();
    assert("location"@.len() != "host"@.len());
    spelled_origin();
    assert("location"@.len() != "origin"@.len());
    spelled_pragma();
    assert("location"@.len() != "pragma"@.len());
    spelled_referer();
    assert("location"@.len() != "referer"@.len());
    spelled_upgrade();
    assert("location"@.len() != "upgrade"@.len());
    spelled_user_agent();
    assert("location"@.len() != "user-agent"@.len());
    spelled_via();
    assert("location"@.len() != "via"@.len());
    spelled_warning();
    assert("location"@.len() != "warning"@.len());
    spelled_access_control_allow_origin();
    assert("location"@.len() != "access-control-allow-origin"@.len());
    spelled_age();
    assert("location"@.len() != "age"@.len());
    spelled_allow();
    assert("location"@.len() != "allow"@.len());
    spelled_content_disposition();
    assert("location"@.len() != "content-disposition"@.len());
    spelled_content_language();
    assert("location"@.len() != "content-language"@.len());
    spelled_content_location();
    assert("location"@.len() != "content-location"@.len());
    spelled_etag();
    assert("location"@.len() != "etag"@.len());
    spelled_expires();
    assert("location"@.len() != "expires"@.len());
    spelled_last_modified();
    assert("location"@.len() != "last-modified"@.len());
    spelled_link();
    assert("location"@.len() != "link"@.len());
    assert(HeaderType::known_by_name("location"@) == Some(HeaderType::Location));
}

/// `Server` reads back as itself.
proof fn lemma_server_reads_back()
    ensures
        reads_back("Server"@, HeaderType::Server@),
{
    spelled_server();
    assert(ascii_lower("Server"@) =~= "server"@);
    spelled_accept();
    assert("server"@[0] != "accept"@[0]);
    spelled_accept_charset();
    assert("server"@.len() != "accept-charset"@.len());
    spelled_accept_encoding();
    assert("server"@.len() != "accept-encoding"@.len());
    spelled_accept_language();
    assert("server"@.len() != "accept-language"@.len());
    spelled_access_control_request_method();
    assert("server"@.len() != "access-control-request-method"@.len());
    spelled_authorization();
    assert("server"@.len() != "authorization"@.len());
    spelled_cache_control();
    assert("server"@.len() != "cache-control"@.len());
    spelled_connection();
    assert("server"@.len() != "connection"@.len());
    spelled_content_encoding();
    assert("server"@.len() != "content-encoding"@.len());
    spelled_content_length();
    assert("server"@.len() != "content-length"@.len());
    spelled_content_type();
    assert("server"@.len() != "content-type"@.len());
    spelled_cookie();
    assert("server"@[0] != "cookie"@[0]);
    spelled_date();
    assert("server"@.len() != "date"@.len());
    spelled_expect();
    assert("server"@[0] != "expect"@[0]);
    spelled_forwarded();
    assert("server"@.len() != "forwarded"@.len());
    spelled_from();
    assert("server"@.len() != "from"@.len());
    spelled_host();
    assert("server"@.len() != "host"@.len());
    spelled_origin();
    assert("server"@[0] != "origin"@[0]);
    spelled_pragma();
    assert("server"@[0] != "pragma"@[0]);
    spelled_referer();
    assert("server"@.len() != "referer"@.len());
    spelled_upgrade();
    assert("server"@.len() != "upgrade"@.len());
    spelled_user_agent();
    assert("server"@.len() != "user-agent"@.len());
    spelled_via();
    assert("server"@.len() != "via"@.len());
    spelled_warning();
    assert("server"@.len() != "warning"@.len());
    spelled_access_control_allow_origin();
    assert("server"@.len() != "access-control-allow-origin"@.len());
    spelled_age();
    assert("server"@.len() != "age"@.len());
    spelled_allow();
    assert("server"@.len() != "allow"@.len());
    spelled_content_disposition();
    assert("server"@.len() != "content-disposition"@.len());
    spelled_content_language();
    assert("server"@.len() != "content-language"@.len());
    spelled_content_location();
    assert("server"@.len() != "content-location"@.len());
    spelled_etag();
    assert("server"@.len() != "etag"@.len());
    spelled_expires();
    assert("server"@.len() != "expires"@.len());
    spelled_last_modified();
    assert("server"@.len() != "last-modified"@.len());
    spelled_link();
    assert("server"@.len() != "link"@.len());
    spelled_location();
    assert("server"@.len() != "location"@.len());
    assert(HeaderType::known_by_name("server"@) == Some(HeaderType::Server));
}

/// `Set-Cookie` reads back as itself.
proof fn lemma_set_cookie_reads_back()
    ensures
        reads_back("Set-Cookie"@, HeaderType::SetCookie@),
{
    spelled_set_cookie();
    assert(ascii_lower("Set-Cookie"@) =~= "set-cookie"@);
    spelled_accept();
    assert("set-cookie"@.len() != "accept"@.len());
    spelled_accept_charset();
    assert("set-cookie"@.len() != "accept-charset"@.len());
    spelled_accept_encoding();
    assert("set-cookie"@.len() != "accept-encoding"@.len());
    spelled_accept_language();
    assert("set-cookie"@.len() != "accept-language"@.len());
    spelled_access_control_request_method();
    assert("set-cookie"@.len() != "access-control-request-method"@.len());
    spelled_authorization();
    assert("set-cookie"@.len() != "authorization"@.len());
    spelled_cache_control();
    assert("set-cookie"@.len() != "cache-control"@.len());
    spelled_connection();
    assert("set-cookie"@[0] != "connection"@[0]);
    spelled_content_encoding();
    assert("set-cookie"@.len() != "content-encoding"@.len());
    spelled_content_length();
    assert("set-cookie"@.len() != "content-length"@.len());
    spelled_content_type();
    assert("set-cookie"@.len() != "content-type"@.len());
    spelled_cookie();
    assert("set-cookie"@.len() != "cookie"@.len());
    spelled_date();
    assert("set-cookie"@.len() != "date"@.len());
    spelled_expect();
    assert("set-cookie"@.len() != "expect"@.len());
    spelled_forwarded();
    assert("set-cookie"@.len() != "forwarded"@.len());
    spelled_from();
    assert("set-cookie"@.len() != "from"@.len());
    spelled_host();
    assert("set-cookie"@.len() != "host"@.len());
    spelled_origin();
    assert("set-cookie"@.len() != "origin"@.len());
    spelled_pragma();
    assert("set-cookie"@.len() != "pragma"@.len());
    spelled_referer();
    assert("set-cookie"@.len() != "referer"@.len());
    spelled_upgrade();
    assert("set-cookie"@.len() != "upgrade"@.len());
    spelled_user_agent();
    assert("set-cookie"@[0] != "user-agent"@[0]);
    spelled_via();
    assert("set-cookie"@.len() != "via"@.len());
    spelled_warning();
    assert("set-cookie"@.len() != "warning"@.len());
    spelled_access_control_allow_origin();
    assert("set-cookie"@.len() != "access-control-allow-origin"@.len());
    spelled_age();
    assert("set-cookie"@.len() != "age"@.len());
    spelled_allow();
    assert("set-cookie"@.len() != "allow"@.len());
    spelled_content_disposition();
    assert("set-cookie"@.len() != "content-disposition"@.len());
    spelled_content_language();
    assert("set-cookie"@.len() != "content-language"@.len());
    spelled_content_location();
    assert("set-cookie"@.len() != "content-location"@.len());
    spelled_etag();
    assert("set-cookie"@.len() != "etag"@.len());
    spelled_expires();
    assert("set-cookie"@.len() != "expires"@.len());
    spelled_last_modified();
    assert("set-cookie"@.len() != "last-modified"@.len());
    spelled_link();
    assert("set-cookie"@.len() != "link"@.len());
    spelled_location();
    assert("set-cookie"@.len() != "location"@.len());
    spelled_server();
    assert("set-cookie"@.len() != "server"@.len());
    assert(HeaderType::known_by_name("set-cookie"@) == Some(HeaderType::SetCookie));
}

/// `Transfer-Encoding` reads back as itself.
proof fn lemma_transfer_encoding_reads_back()
    ensures
        reads_back("Transfer-Encoding"@, HeaderType::TransferEncoding@),
{
    spelled_transfer_encoding();
    assert(ascii_lower("Transfer-Encoding"@) =~= "transfer-encoding"@);
    spelled_accept();
    assert("transfer-encoding"@.len() != "accept"@.len());
    spelled_accept_charset();
    assert("transfer-encoding"@.len() != "accept-charset"@.len());
    spelled_accept_encoding();
    assert("transfer-encoding"@.len() != "accept-encoding"@.len());
    spelled_accept_language();
    assert("transfer-encoding"@.len() != "accept-language"@.len());
    spelled_access_control_request_method();
    assert("transfer-encoding"@.len() != "access-control-request-method"@.len());
    spelled_authorization();
    assert("transfer-encoding"@.len() != "authorization"@.len());
    spelled_cache_control();
    assert("transfer-encoding"@.len() != "cache-control"@.len());
    spelled_connection();
    assert("transfer-encoding"@.len() != "connection"@.len());
    spelled_content_encoding();
    assert("transfer-encoding"@.len() != "content-encoding"@.len());
    spelled_content_length();
    assert("transfer-encoding"@.len() != "content-length"@.len());
    spelled_content_type();
    assert("transfer-encoding"@.len() != "content-type"@.len());
    spelled_cookie();
    assert("transfer-encoding"@.len() != "cookie"@.len());
    spelled_date();
    assert("transfer-encoding"@.len() != "date"@.len());
    spelled_expect();
    assert("transfer-encoding"@.len() != "expect"@.len());
    spelled_forwarded();
    assert("transfer-encoding"@.len() != "forwarded"@.len());
    spelled_from();
    assert("transfer-encoding"@.len() != "from"@.len());
    spelled_host();
    assert("transfer-encoding"@.len() != "host"@.len());
    spelled_origin();
    assert("transfer-encoding"@.len() != "origin"@.len());
    spelled_pragma();
    assert("transfer-encoding"@.len() != "pragma"@.len());
    spelled_referer();
    assert("transfer-encoding"@.len() != "referer"@.len());
    spelled_upgrade();
    assert("transfer-encoding"@.len() != "upgrade"@.len());
    spelled_user_agent();
    assert("transfer-encoding"@.len() != "user-agent"@.len());
    spelled_via();
    assert("transfer-encoding"@.len() != "via"@.len());
    spelled_warning();
    assert("transfer-encoding"@.len() != "warning"@.len());
    spelled_access_control_allow_origin();
    assert("transfer-encoding"@.len() != "access-control-allow-origin"@.len());
    spelled_age();
    assert("transfer-encoding"@.len() != "age"@.len());
    spelled_allow();
    assert("transfer-encoding"@.len() != "allow"@.len());
    spelled_content_disposition();
    assert("transfer-encoding"@.len() != "content-disposition"@.len());
    spelled_content_language();
    assert("transfer-encoding"@.len() != "content-language"@.len());
    spelled_content_location();
    assert("transfer-encoding"@.len() != "content-location"@.len());
    spelled_etag();
    assert("transfer-encoding"@.len() != "etag"@.len());
    spelled_expires();
    assert("transfer-encoding"@.len() != "expires"@.len());
    spelled_last_modified();
    assert("transfer-encoding"@.len() != "last-modified"@.len());
    spelled_link();
    assert("transfer-encoding"@.len() != "link"@.len());
    spelled_location();
    assert("transfer-encoding"@.len() != "location"@.len());
    spelled_server();
    assert("transfer-encoding"@.len() != "server"@.len());
    spelled_set_cookie();
    assert("transfer-encoding"@.len() != "set-cookie"@.len());
    assert(HeaderType::known_by_name("transfer-encoding"@) == Some(HeaderType::TransferEncoding));
}

/// The law of the names: every well-known header name, written out, reads
/// back as itself.
pub proof fn lemma_known_name_reads_back(h: HeaderType)
    requires
        !(h is Custom),
    ensures
        reads_back(h.name_text(), h@),
{
    match h {
        HeaderType::Accept => lemma_accept_reads_back(),
        HeaderType::AcceptCharset => lemma_accept_charset_reads_back(),
        HeaderType::AcceptEncoding => lemma_accept_encoding_reads_back(),
        HeaderType::AcceptLanguage => lemma_accept_language_reads_back(),
        HeaderType::AccessControlRequestMethod => lemma_access_control_request_method_reads_back(),
        HeaderType::Authorization => lemma_authorization_reads_back(),
        HeaderType::CacheControl => lemma_cache_control_reads_back(),
        HeaderType::Connection => lemma_connection_reads_back(),
        HeaderType::ContentEncoding => lemma_content_encoding_reads_back(),
        HeaderType::ContentLength => lemma_content_length_reads_back(),
        HeaderType::ContentType => lemma_content_type_reads_back(),
        HeaderType::Cookie => lemma_cookie_reads_back(),
        HeaderType::Date => lemma_date_reads_back(),
        HeaderType::Expect => lemma_expect_reads_back(),
        HeaderType::Forwarded => lemma_forwarded_reads_back(),
        HeaderType::From => lemma_from_reads_back(),
        HeaderType::Host => lemma_host_reads_back(),
        HeaderType::Origin => lemma_origin_reads_back(),
        HeaderType::Pragma => lemma_pragma_reads_back(),
        HeaderType::Referer => lemma_referer_reads_back(),
        HeaderType::Upgrade => lemma_upgrade_reads_back(),
        HeaderType::UserAgent => lemma_user_agent_reads_back(),
        HeaderType::Via => lemma_via_reads_back(),
        HeaderType::Warning => lemma_warning_reads_back(),
        HeaderType::AccessControlAllowOrigin => lemma_access_control_allow_origin_reads_back(),
        HeaderType::Age => lemma_age_reads_back(),
        HeaderType::Allow => lemma_allow_reads_back(),
        HeaderType::ContentDisposition => lemma_content_disposition_reads_back(),
        HeaderType::ContentLanguage => lemma_content_language_reads_back(),
        HeaderType::ContentLocation => lemma_content_location_reads_back(),
        HeaderType::ETag => lemma_etag_reads_back(),
        HeaderType::Expires => lemma_expires_reads_back(),
        HeaderType::LastModified => lemma_last_modified_reads_back(),
        HeaderType::Link => lemma_link_reads_back(),
        HeaderType::Location => lemma_location_reads_back(),
        HeaderType::Server => lemma_server_reads_back(),
        HeaderType::SetCookie => lemma_set_cookie_reads_back(),
        HeaderType::TransferEncoding => lemma_transfer_encoding_reads_back(),
        HeaderType::Custom(_) => {},
    }
}

} // verus!
