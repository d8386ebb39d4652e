//! The HTTP client: what a URL names, the request for it, and what a secure
//! connection needs. The client opens no connection itself: it says where to
//! connect and what to send.

use vstd::prelude::*;
use vstd::utf8::encode_utf8;
use std::sync::Arc;
use crate::http::address::{Address, SocketAddress};
use crate::http::headers::{first_index, written_order, HeaderLike, HeaderType, HeaderView};
use crate::http::headers::Headers;
use crate::http::method::Method;
use crate::http::parse::{framing, FramingSpec, Outcome, Parsed};
use crate::http::request::{request_bytes, Request, RequestView};
use crate::http::response::{response_bytes, response_head, response_of_bytes, Response};
use crate::http::response::ResponseView;
use crate::http::round_trip::{lemma_response_body_by_length, response_head_ready};
use crate::http::round_trip::response_in_order;
use crate::server::connection::ReadEnd;
use crate::text::{chars_of, find_char, index_of, slice_chars, string_of};

verus! {

/// The TLS configuration of a client, as rustls holds it.
#[verifier::external_type_specification]
#[verifier::external_body]
pub struct ExClientConfig(rustls::ClientConfig);

/// A store of root certificates, as rustls holds it.
#[verifier::external_type_specification]
#[verifier::external_body]
pub struct ExRootCertStore(rustls::RootCertStore);

/// The trust anchors that a store holds, in the order in which they were
/// added. A trust anchor is a subject, a public key, and name constraints if
/// it has any, each as DER bytes.
pub uninterp spec fn anchors_of(store: rustls::RootCertStore) -> Seq<
    (Seq<u8>, Seq<u8>, Option<Seq<u8>>),
>;

/// The trust anchor that the DER bytes of a certificate hold: its subject,
/// its public key and its name constraints. `None` where the bytes are not
/// those of a certificate that can serve as a trust anchor.
pub uninterp spec fn trust_anchor_of(der: Seq<u8>) -> Option<(Seq<u8>, Seq<u8>, Option<Seq<u8>>)>;

/// Whether the DER bytes are those of a certificate that can serve as a
/// trust anchor.
pub open spec fn is_trust_anchor(der: Seq<u8>) -> bool {
    trust_anchor_of(der) is Some
}

/// Whether a text names a server for TLS: it is a DNS name or an IP address.
pub uninterp spec fn names_server(host: Seq<char>) -> bool;

/// A store without trust anchors.
///
/// Trusted: `RootCertStore::empty` of rustls, which makes a store with no
/// roots.
#[verifier::external_body]
fn empty_roots() -> (r: rustls::RootCertStore)
    ensures
        anchors_of(r) == Seq::<(Seq<u8>, Seq<u8>, Option<Seq<u8>>)>::empty(),
{
    rustls::RootCertStore::empty()
}

/// Adds the trust anchor of a certificate to a store, and says whether it was
/// added.
///
/// Trusted: `RootCertStore::add` of rustls. It takes the trust anchor out of
/// the DER bytes with webpki's `TrustAnchor::try_from_cert_der`, which
/// depends on the bytes alone. Where that succeeds, the subject, the public
/// key and the name constraints go to the end of the store, and nothing else
/// of the certificate is kept; where it fails, the store is left as it was.
#[verifier::external_body]
fn add_root(store: &mut rustls::RootCertStore, der: Vec<u8>) -> (r: bool)
    ensures
        r == trust_anchor_of(der@) is Some,
        r ==> anchors_of(*final(store)) == anchors_of(*old(store)).push(trust_anchor_of(der@)->0),
        !r ==> anchors_of(*final(store)) == anchors_of(*old(store)),
{
    store.add(&rustls::Certificate(der)).is_ok()
}

/// A client configuration with rustls' safe defaults, the given roots, and
/// no client authentication.
///
/// Trusted: `ClientConfig::builder` of rustls with `with_safe_defaults`,
/// `with_root_certificates` and `with_no_client_auth`. Nothing is claimed of
/// the result.
#[verifier::external_body]
fn config_with_roots(roots: rustls::RootCertStore) -> (r: Arc<rustls::ClientConfig>) {
    Arc::new(
        rustls::ClientConfig::builder().with_safe_defaults().with_root_certificates(
            roots,
        ).with_no_client_auth(),
    )
}

/// Whether a text names a server for TLS.
///
/// Trusted: `ServerName::try_from` of rustls on a string slice, which
/// succeeds on a syntactically valid DNS name or IP address and depends on
/// the text alone.
#[verifier::external_body]
fn is_server_name(host: &str) -> (r: bool)
    ensures
        r == names_server(host@),
{
    rustls::ServerName::try_from(host).is_ok()
}

/// How a URL is reached.
#[derive(Debug, Clone, Copy, PartialEq, Eq, Structural)]
pub enum Protocol {
    Http,
    Https,
}

/// Why the client could not go on.
#[derive(Debug, Clone, Copy, PartialEq, Eq, Structural)]
pub enum ClientError {
    /// The URL does not start with `http://` or `https://`, or its host
    /// could not be resolved.
    InvalidUrl,
    /// The certificate at this position is no trust anchor.
    InvalidCertificate(usize),
    /// The request has no `Host` header to name the server by.
    MissingHost,
    /// The `Host` header does not name a server.
    InvalidServerName,
    /// The server sent nothing for too long before its response was
    /// complete.
    Timeout,
    /// The server closed the connection before its response was complete.
    Disconnected,
    /// What the server sent is no response.
    InvalidResponse,
}

/// What the bytes that a server has sent so far come to.
#[derive(Debug)]
pub enum Reading {
    /// The response is not complete; more must be read.
    More,
    /// The response is complete.
    Done(Response),
    /// There will be no response.
    Failed(ClientError),
}

/// What the bytes that a server has sent so far come to, in contracts.
pub enum ReadingSpec {
    More,
    Done(ResponseView),
    Failed(ClientError),
}

/// What the bytes that a server has sent so far come to. `end` says how the
/// stream stopped, if it has. A response that is complete is taken, and what
/// follows it is not looked at. What is no response fails. Where the
/// response is not complete, more is read while the stream goes on; a
/// stream that has ended fails as disconnected, and one that has stalled as
/// timed out.
pub open spec fn response_read(bytes: Seq<u8>, end: Option<ReadEnd>) -> ReadingSpec {
    match response_of_bytes(bytes, end == Some(ReadEnd::EndOfStream)) {
        Outcome::Complete(response, _) => ReadingSpec::Done(response),
        Outcome::Malformed => ReadingSpec::Failed(ClientError::InvalidResponse),
        Outcome::Incomplete => match end {
            None => ReadingSpec::More,
            Some(ReadEnd::EndOfStream) => ReadingSpec::Failed(ClientError::Disconnected),
            Some(ReadEnd::TimedOut) => ReadingSpec::Failed(ClientError::Timeout),
        },
    }
}

/// Whether the result of a read is the given outcome.
pub open spec fn reading_as(r: Reading, spec: ReadingSpec) -> bool {
    match spec {
        ReadingSpec::More => r is More,
        ReadingSpec::Done(response) => r matches Reading::Done(x) && x@ == response,
        ReadingSpec::Failed(e) => r matches Reading::Failed(x) && x == e,
    }
}

/// The law of the body's end for the client: of a response that declares
/// the length of its body, the client takes exactly that many bytes as the
/// body, whatever follows them and however the stream stands. With the body
/// one byte or more short, it reads on while the stream goes on, and fails
/// as timed out where the server stays silent and as disconnected where the
/// server closes; it never takes the shorter body.
pub proof fn lemma_client_reads_declared_length(
    r: ResponseView,
    extra: Seq<u8>,
    k: int,
    end: Option<ReadEnd>,
)
    requires
        response_head_ready(r),
        framing(written_order(r.headers)) == FramingSpec::Length(r.body.len()),
        0 <= k < r.body.len(),
    ensures
        response_read(response_bytes(r) + extra, end) == ReadingSpec::Done(response_in_order(r)),
        response_read(encode_utf8(response_head(r)) + r.body.take(k), None) == ReadingSpec::More,
        response_read(encode_utf8(response_head(r)) + r.body.take(k), Some(ReadEnd::TimedOut))
            == ReadingSpec::Failed(ClientError::Timeout),
        response_read(encode_utf8(response_head(r)) + r.body.take(k), Some(ReadEnd::EndOfStream))
            == ReadingSpec::Failed(ClientError::Disconnected),
{
    lemma_response_body_by_length(r, extra, k, true);
    lemma_response_body_by_length(r, extra, k, false);
}

/// The parts of a URL.
#[derive(Debug)]
pub struct ParsedUrl {
    pub protocol: Protocol,
    /// The host as the URL gives it; it becomes the `Host` header.
    pub host: String,
    /// The host with the port of the protocol behind it, which is what is
    /// resolved to a socket address.
    pub authority: String,
    /// The path, which starts with a slash.
    pub path: String,
    /// The query, without the `?`.
    pub query: String,
}

/// What the parts of a URL are in contracts.
pub struct UrlView {
    pub protocol: Protocol,
    pub host: Seq<char>,
    pub authority: Seq<char>,
    pub path: Seq<char>,
    pub query: Seq<char>,
}

impl View for ParsedUrl {
    type V = UrlView;

    open spec fn view(&self) -> UrlView {
        UrlView {
            protocol: self.protocol,
            host: self.host@,
            authority: self.authority@,
            path: self.path@,
            query: self.query@,
        }
    }
}

/// Whether `t` begins with `prefix`.
pub open spec fn begins_with(t: Seq<char>, prefix: Seq<char>) -> bool {
    prefix.len() <= t.len() && t.take(prefix.len() as int) == prefix
}

/// The parts of what follows the scheme of a URL. The host runs up to the
/// first slash. What follows that slash is the path up to the first `?`, and
/// the query behind it. The port is that of the protocol.
pub open spec fn url_parts(rest: Seq<char>, protocol: Protocol) -> UrlView {
    let slash = index_of(rest, '/');
    let host = rest.take(slash);
    let tail = if slash < rest.len() {
        rest.skip(slash + 1)
    } else {
        Seq::empty()
    };
    let mark = index_of(tail, '?');
    UrlView {
        protocol,
        host,
        authority: host + match protocol {
            Protocol::Http => ":80"@,
            Protocol::Https => ":443"@,
        },
        path: seq!['/'] + tail.take(mark),
        query: if mark < tail.len() {
            tail.skip(mark + 1)
        } else {
            Seq::empty()
        },
    }
}

/// The parts of a URL, if it starts with `http://` or `https://`.
pub open spec fn url_of(url: Seq<char>) -> Option<UrlView> {
    if begins_with(url, "http://"@) {
        Some(url_parts(url.skip("http://"@.len() as int), Protocol::Http))
    } else if begins_with(url, "https://"@) {
        Some(url_parts(url.skip("https://"@.len() as int), Protocol::Https))
    } else {
        None
    }
}

/// The request that a client makes for a URL.
pub open spec fn request_for(
    url: UrlView,
    method: Seq<char>,
    content: Option<Seq<u8>>,
    socket: SocketAddress,
) -> RequestView {
    RequestView {
        method,
        uri: url.path,
        query: url.query,
        version: "HTTP/1.1"@,
        headers: seq![HeaderView { name: HeaderType::Host@, value: url.host }],
        content,
        address: Address { origin_addr: socket.ip, peer_addr: socket.ip, port: socket.port },
    }
}

/// Whether `v` begins with the characters of `prefix`; the length of
/// `prefix` where it does.
fn skip_prefix(v: &Vec<char>, prefix: &str) -> (r: Option<usize>)
    ensures
        r is Some <==> begins_with(v@, prefix@),
        r matches Some(n) ==> n == prefix@.len(),
{
    let p = chars_of(prefix);
    if p.len() > v.len() {
        return None;
    }
    let mut i: usize = 0;
    while i < p.len()
        invariant
            i <= p@.len() <= v@.len(),
            p@ == prefix@,
            forall|j: int| 0 <= j < i ==> v@[j] == p@[j],
        decreases p@.len() - i,
    {
        if v[i] != p[i] {
            assert(v@.take(p@.len() as int)[i as int] != p@[i as int]);
            return None;
        }
        i += 1;
    }
    assert(v@.take(p@.len() as int) =~= p@);
    Some(p.len())
}

/// An HTTP client.
pub struct Client {
    tls_config: Option<Arc<rustls::ClientConfig>>,
}

/// A request that is ready to be sent.
#[derive(Debug)]
pub struct ClientRequest {
    /// Whether the request goes over TLS.
    pub protocol: Protocol,
    /// Where to connect.
    pub address: SocketAddress,
    /// What to send.
    pub request: Request,
}

/// What a secure connection for a request is opened with.
#[derive(Debug)]
pub struct TlsPlan {
    /// The name by which the server is verified.
    pub server_name: String,
    /// The bytes to send.
    pub bytes: Vec<u8>,
}

impl Client {
    /// Whether the client has its TLS configuration.
    pub closed spec fn has_tls(&self) -> bool {
        self.tls_config is Some
    }

    /// A client without a TLS configuration.
    pub fn new() -> (r: Client)
        ensures
            !r.has_tls(),
    {
        Client { tls_config: None }
    }

    /// The parts of a URL, if it starts with `http://` or `https://`.
    pub fn parse_url(url: &str) -> (r: Option<ParsedUrl>)
        ensures
            match url_of(url@) {
                Some(parts) => r matches Some(p) && p@ == parts,
                None => r is None,
            },
    {
        let v = chars_of(url);
        let (from, protocol) = match skip_prefix(&v, "http://") {
            Some(n) => (n, Protocol::Http),
            None => match skip_prefix(&v, "https://") {
                Some(n) => (n, Protocol::Https),
                None => {
                    return None;
                },
            },
        };
        let rest = slice_chars(&v, from, v.len());
        assert(rest@ =~= v@.skip(from as int));
        let slash = find_char(&rest, 0, '/');
        assert(rest@.skip(0) =~= rest@);
        let host = slice_chars(&rest, 0, slash);
        assert(host@ =~= rest@.take(slash as int));
        let tail = if slash < rest.len() {
            let t = slice_chars(&rest, slash + 1, rest.len());
            assert(t@ =~= rest@.skip(slash + 1));
            t
        } else {
            Vec::new()
        };
        let mark = find_char(&tail, 0, '?');
        assert(tail@.skip(0) =~= tail@);
        let mut path: Vec<char> = Vec::new();
        path.push('/');
        let mut i: usize = 0;
        while i < mark
            invariant
                i <= mark <= tail@.len(),
                path@ == seq!['/'] + tail@.take(i as int),
            decreases mark - i,
        {
            path.push(tail[i]);
            i += 1;
            assert(path@ =~= seq!['/'] + tail@.take(i as int));
        }
        let query = if mark < tail.len() {
            let q = slice_chars(&tail, mark + 1, tail.len());
            assert(q@ =~= tail@.skip(mark + 1));
            q
        } else {
            Vec::new()
        };
        let host_text = string_of(&host);
        let mut authority = host_text.clone();
        match protocol {
            Protocol::Http => {
                authority = authority.concat(":80");
            },
            Protocol::Https => {
                authority = authority.concat(":443");
            },
        }
        Some(
            ParsedUrl {
                protocol,
                host: host_text,
                authority,
                path: string_of(&path),
                query: string_of(&query),
            },
        )
    }

    /// The request with the given method and content for a URL whose host
    /// was resolved to `resolved`. A URL without parts, or whose host could
    /// not be resolved, gives no request.
    fn request_to(
        url: &str,
        method: Method,
        content: Option<Vec<u8>>,
        resolved: Option<SocketAddress>,
    ) -> (r: Result<ClientRequest, ClientError>)
        ensures
            match (url_of(url@), resolved) {
                (Some(parts), Some(socket)) => r matches Ok(c) && c.protocol == parts.protocol
                    && c.address == socket && c.request@ == request_for(
                    parts,
                    method@,
                    crate::http::request::content_view(content),
                    socket,
                ),
                _ => r == Err::<ClientRequest, ClientError>(ClientError::InvalidUrl),
            },
    {
        match (Client::parse_url(url), resolved) {
            (Some(parts), Some(socket)) => {
                let mut headers = Headers::new();
                headers.add(HeaderType::Host, parts.host.as_str());
                let request = Request {
                    method,
                    uri: parts.path,
                    query: parts.query,
                    version: "HTTP/1.1".to_string(),
                    headers,
                    content,
                    address: Address::new(socket.ip, socket.port),
                };
                assert(request@.headers =~= seq![
                    HeaderView { name: HeaderType::Host@, value: parts.host@ },
                ]);
                Ok(ClientRequest { protocol: parts.protocol, address: socket, request })
            },
            _ => Err(ClientError::InvalidUrl),
        }
    }

    /// A GET request for a URL whose host was resolved to `resolved`.
    pub fn get(&mut self, url: &str, resolved: Option<SocketAddress>) -> (r: Result<
        ClientRequest,
        ClientError,
    >)
        ensures
            *final(self) == *old(self),
            match (url_of(url@), resolved) {
                (Some(parts), Some(socket)) => r matches Ok(c) && c.protocol == parts.protocol
                    && c.address == socket && c.request@ == request_for(
                    parts,
                    "GET"@,
                    None,
                    socket,
                ),
                _ => r == Err::<ClientRequest, ClientError>(ClientError::InvalidUrl),
            },
    {
        Client::request_to(url, Method::Get, None, resolved)
    }

    /// A POST request with the given data for a URL whose host was resolved
    /// to `resolved`.
    pub fn post(&mut self, url: &str, data: Vec<u8>, resolved: Option<SocketAddress>) -> (r:
        Result<ClientRequest, ClientError>)
        ensures
            *final(self) == *old(self),
            match (url_of(url@), resolved) {
                (Some(parts), Some(socket)) => r matches Ok(c) && c.protocol == parts.protocol
                    && c.address == socket && c.request@ == request_for(
                    parts,
                    "POST"@,
                    Some(data@),
                    socket,
                ),
                _ => r == Err::<ClientRequest, ClientError>(ClientError::InvalidUrl),
            },
    {
        Client::request_to(url, Method::Post, Some(data), resolved)
    }

    /// A PUT request with the given data for a URL whose host was resolved
    /// to `resolved`.
    pub fn put(&mut self, url: &str, data: Vec<u8>, resolved: Option<SocketAddress>) -> (r:
        Result<ClientRequest, ClientError>)
        ensures
            *final(self) == *old(self),
            match (url_of(url@), resolved) {
                (Some(parts), Some(socket)) => r matches Ok(c) && c.protocol == parts.protocol
                    && c.address == socket && c.request@ == request_for(
                    parts,
                    "PUT"@,
                    Some(data@),
                    socket,
                ),
                _ => r == Err::<ClientRequest, ClientError>(ClientError::InvalidUrl),
            },
    {
        Client::request_to(url, Method::Put, Some(data), resolved)
    }

    /// A DELETE request for a URL whose host was resolved to `resolved`.
    pub fn delete(&mut self, url: &str, resolved: Option<SocketAddress>) -> (r: Result<
        ClientRequest,
        ClientError,
    >)
        ensures
            *final(self) == *old(self),
            match (url_of(url@), resolved) {
                (Some(parts), Some(socket)) => r matches Ok(c) && c.protocol == parts.protocol
                    && c.address == socket && c.request@ == request_for(
                    parts,
                    "DELETE"@,
                    None,
                    socket,
                ),
                _ => r == Err::<ClientRequest, ClientError>(ClientError::InvalidUrl),
            },
    {
        Client::request_to(url, Method::Delete, None, resolved)
    }

    /// The bytes to send for a request over a plain connection.
    pub fn request(&self, request: &Request) -> (r: Vec<u8>)
        ensures
            r@ == request_bytes(request@),
    {
        request.to_bytes()
    }

    /// Decides what the bytes that the server has sent so far come to. `end`
    /// says how the stream stopped, if it has: `None` while more may come.
    pub fn read_response(bytes: &[u8], end: Option<ReadEnd>) -> (r: Reading)
        ensures
            reading_as(r, response_read(bytes@, end)),
    {
        let at_end = match end {
            Some(ReadEnd::EndOfStream) => true,
            _ => false,
        };
        match Response::parse(bytes, at_end) {
            Parsed::Complete { value, consumed } => Reading::Done(value),
            Parsed::Malformed => Reading::Failed(ClientError::InvalidResponse),
            Parsed::Incomplete => match end {
                None => Reading::More,
                Some(ReadEnd::EndOfStream) => Reading::Failed(ClientError::Disconnected),
                Some(ReadEnd::TimedOut) => Reading::Failed(ClientError::Timeout),
            },
        }
    }

    /// Whether the client still needs its TLS configuration. It is made once,
    /// from the root certificates of the system, before the first request
    /// over TLS.
    pub fn needs_tls_config(&self) -> (r: bool)
        ensures
            r == !self.has_tls(),
    {
        self.tls_config.is_none()
    }

    /// The TLS configuration, once it is made.
    pub fn tls_config(&self) -> (r: Option<&Arc<rustls::ClientConfig>>)
        ensures
            r is Some <==> self.has_tls(),
    {
        self.tls_config.as_ref()
    }

    /// Makes the TLS configuration from root certificates, given as DER
    /// bytes, unless the client has one already. Every certificate must be a
    /// trust anchor: at the first that is not, nothing is configured and its
    /// position is the error.
    pub fn configure_tls(&mut self, certificates: Vec<Vec<u8>>) -> (r: Result<(), ClientError>)
        ensures
            old(self).has_tls() ==> r is Ok && final(self).has_tls(),
            !old(self).has_tls() ==> match first_rejected(certificate_views(certificates@)) {
                Some(i) => r == Err::<(), ClientError>(ClientError::InvalidCertificate(i as usize))
                    && !final(self).has_tls(),
                None => r is Ok && final(self).has_tls(),
            },
    {
        if self.tls_config.is_some() {
            return Ok(());
        }
        match trusted_roots(certificates) {
            Ok(roots) => {
                self.tls_config = Some(config_with_roots(roots));
                Ok(())
            },
            Err(i) => Err(ClientError::InvalidCertificate(i)),
        }
    }

    /// What a secure connection for a request is opened with: the server is
    /// named by the first `Host` header of the request, which must be a DNS
    /// name or an IP address.
    pub fn request_tls(&self, request: &Request) -> (r: Result<TlsPlan, ClientError>)
        ensures
            match server_of(request@) {
                None => r == Err::<TlsPlan, ClientError>(ClientError::MissingHost),
                Some(host) => if names_server(host) {
                    r matches Ok(plan) && plan.server_name@ == host && plan.bytes@
                        == request_bytes(request@)
                } else {
                    r == Err::<TlsPlan, ClientError>(ClientError::InvalidServerName)
                },
            },
    {
        match request.headers.get(HeaderType::Host) {
            None => Err(ClientError::MissingHost),
            Some(host) => {
                if is_server_name(host) {
                    Ok(TlsPlan { server_name: host.to_string(), bytes: request.to_bytes() })
                } else {
                    Err(ClientError::InvalidServerName)
                }
            },
        }
    }
}

/// The host that a request names: the value of its first `Host` header.
pub open spec fn server_of(request: RequestView) -> Option<Seq<char>> {
    if first_index(request.headers, HeaderType::Host@) < request.headers.len() {
        Some(request.headers[first_index(request.headers, HeaderType::Host@)].value)
    } else {
        None
    }
}

/// The views of a sequence of byte vectors.
pub open spec fn certificate_views(s: Seq<Vec<u8>>) -> Seq<Seq<u8>> {
    Seq::new(s.len(), |i: int| s[i]@)
}

/// The position of the first certificate that is no trust anchor.
pub open spec fn first_rejected(certificates: Seq<Seq<u8>>) -> Option<int>
    decreases certificates.len(),
{
    if certificates.len() == 0 {
        None
    } else {
        match first_rejected(certificates.drop_last()) {
            Some(i) => Some(i),
            None => if is_trust_anchor(certificates.last()) {
                None
            } else {
                Some(certificates.len() - 1)
            },
        }
    }
}

/// A certificate that is rejected among the first `k` is the first that is
/// rejected among all.
proof fn lemma_first_rejected_prefix(certificates: Seq<Seq<u8>>, k: int)
    requires
        0 <= k <= certificates.len(),
        first_rejected(certificates.take(k)) is Some,
    ensures
        first_rejected(certificates) == first_rejected(certificates.take(k)),
    decreases certificates.len() - k,
{
    if k < certificates.len() {
        assert(certificates.take(k + 1).drop_last() =~= certificates.take(k));
        lemma_first_rejected_prefix(certificates, k + 1);
    } else {
        assert(certificates.take(k) =~= certificates);
    }
}

/// The trust anchors of the given certificates, in order.
pub open spec fn anchors_in(certificates: Seq<Seq<u8>>) -> Seq<(Seq<u8>, Seq<u8>, Option<Seq<u8>>)> {
    Seq::new(certificates.len(), |i: int| trust_anchor_of(certificates[i])->0)
}

/// A store with the trust anchors of the given certificates, in order. At
/// the first certificate that is no trust anchor there is no store, and the
/// position of that certificate is the error.
pub fn trusted_roots(certificates: Vec<Vec<u8>>) -> (r: Result<rustls::RootCertStore, usize>)
    ensures
        match first_rejected(certificate_views(certificates@)) {
            Some(i) => r == Err::<rustls::RootCertStore, usize>(i as usize),
            None => r matches Ok(store) && anchors_of(store) == anchors_in(
                certificate_views(certificates@),
            ),
        },
{
    let ghost all = certificate_views(certificates@);
    let mut store = empty_roots();
    let mut i: usize = 0;
    assert(all.take(0) =~= Seq::<Seq<u8>>::empty());
    assert(anchors_in(all.take(0)) =~= Seq::<(Seq<u8>, Seq<u8>, Option<Seq<u8>>)>::empty());
    while i < certificates.len()
        invariant
            i <= certificates@.len(),
            all == certificate_views(certificates@),
            first_rejected(all.take(i as int)) is None,
            anchors_of(store) == anchors_in(all.take(i as int)),
        decreases certificates@.len() - i,
    {
        proof {
            assert(all.take(i + 1).drop_last() =~= all.take(i as int));
            assert(all.take(i + 1).last() == certificates@[i as int]@);
        }
        if !add_root(&mut store, certificates[i].clone()) {
            proof {
                lemma_first_rejected_prefix(all, i + 1);
            }
            return Err(i);
        }
        assert(anchors_in(all.take(i as int)).push(trust_anchor_of(certificates@[i as int]@)->0)
            =~= anchors_in(all.take(i + 1)));
        i += 1;
    }
    assert(all.take(i as int) =~= all);
    Ok(store)
}

impl ClientRequest {
    /// The same request with one more header at the end.
    pub fn with_header<N: HeaderLike>(self, header: N, value: &str) -> (r: ClientRequest)
        ensures
            r.protocol == self.protocol,
            r.address == self.address,
            r.request@ == (RequestView {
                headers: self.request@.headers.push(
                    (HeaderView { name: header.header_id(), value: value@ }),
                ),
                ..self.request@
            }),
    {
        let mut r = self;
        r.request.headers.add(header, value);
        r
    }

    /// What is to be sent, and how: over a plain connection the bytes of the
    /// request, and over TLS the plan that `Client::request_tls` makes.
    pub fn send(&self, client: &Client) -> (r: Result<(Vec<u8>, Option<String>), ClientError>)
        ensures
            self.protocol == Protocol::Http ==> (r matches Ok(p) && p.0@ == request_bytes(
                self.request@,
            ) && p.1 is None),
            self.protocol == Protocol::Https ==> match server_of(self.request@) {
                None => r == Err::<(Vec<u8>, Option<String>), ClientError>(
                    ClientError::MissingHost,
                ),
                Some(host) => if names_server(host) {
                    r matches Ok(p) && p.0@ == request_bytes(self.request@) && (p.1 matches Some(
                        name,
                    ) && name@ == host)
                } else {
                    r == Err::<(Vec<u8>, Option<String>), ClientError>(
                        ClientError::InvalidServerName,
                    )
                },
            },
    {
        match self.protocol {
            Protocol::Http => Ok((client.request(&self.request), None)),
            Protocol::Https => match client.request_tls(&self.request) {
                Ok(plan) => Ok((plan.bytes, Some(plan.server_name))),
                Err(e) => Err(e),
            },
        }
    }
}

} // verus!
