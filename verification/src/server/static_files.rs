//! The handlers for files, directories and redirects. A handler does not
//! touch the filesystem: it says what is to be looked up or read, and goes on
//! when it is told what was found.

use vstd::prelude::*;
use vstd::slice::slice_to_vec;
use vstd::utf8::encode_utf8;
use crate::http::headers::{first_index, HeaderType, HeaderView};
use crate::http::parse::{percent_decode, Outcome};
use crate::http::request::{request_head, request_of_bytes, request_target, Request};
use crate::http::request::RequestView;
use crate::http::round_trip::{lemma_request_sent, read_as_sent, request_head_sendable};
use crate::http::response::{with_generated, Response, ResponseView};
use crate::http::status::StatusCode;
use crate::server::cache::{after_set, lemma_set_then_lookup, lookup, CacheView};
use crate::server::route::{ends_with, resolve, resolved};
use crate::server::server::AppState;
use crate::text::{chars_of, string_of};

verus! {

/// What the filesystem holds at a place.
#[derive(Debug, Clone, Copy, PartialEq, Eq, Structural)]
pub enum Located {
    /// Nothing.
    Missing,
    /// A regular file.
    File,
    /// A directory, with or without the index files `index.html` and
    /// `index.htm` in it.
    Directory { index_html: bool, index_htm: bool },
}

/// A place in the filesystem: a root and the segments that lead down from it.
#[derive(Debug)]
pub struct Place {
    pub root: String,
    pub segments: Vec<String>,
}

/// What a handler does next.
#[derive(Debug)]
pub enum StaticStep {
    /// The response is ready. `cached` says that it was made from the cache,
    /// without a look at the filesystem.
    Respond { response: Response, cached: bool },
    /// The caller finds out what is at the place and goes on with `located`.
    Locate { place: Place },
    /// The caller reads the file at the place and goes on with `serve_file`.
    /// `mime` is the content type where the handler fixes it; otherwise the
    /// caller infers it from the file's extension.
    Read { place: Place, mime: Option<String> },
}

/// A response with one header before the generated ones, in the protocol
/// version of the request.
pub open spec fn reply(
    request: RequestView,
    status: u16,
    header: HeaderView,
    body: Seq<u8>,
    date: Seq<char>,
) -> ResponseView {
    ResponseView {
        version: request.version,
        status,
        headers: with_generated(seq![header], date, body.len()),
        body,
    }
}

/// A response with a body of the given content type.
pub open spec fn page(
    request: RequestView,
    status: u16,
    mime: Seq<char>,
    body: Seq<u8>,
    date: Seq<char>,
) -> ResponseView {
    reply(request, status, HeaderView { name: HeaderType::ContentType@, value: mime }, body, date)
}

/// The 404 response.
pub open spec fn not_found_page(request: RequestView, date: Seq<char>) -> ResponseView {
    page(request, 404, "text/html"@, encode_utf8("<h1>404 Not Found</h1>"@), date)
}

/// The 403 response.
pub open spec fn forbidden_page(request: RequestView, date: Seq<char>) -> ResponseView {
    page(request, 403, "text/html"@, encode_utf8("<h1>403 Forbidden</h1>"@), date)
}

/// A redirect to the given location, with the given status and no body.
pub open spec fn redirect_page(
    request: RequestView,
    status: u16,
    location: Seq<char>,
    date: Seq<char>,
) -> ResponseView {
    reply(
        request,
        status,
        HeaderView { name: HeaderType::Location@, value: location },
        Seq::empty(),
        date,
    )
}

/// What a handler answers before it looks at the filesystem: 403 to a client
/// on the blacklist, and otherwise, with the cache in use, the cached body
/// for the path of the request if there is one.
pub open spec fn early_answer(
    request: RequestView,
    listed: bool,
    cache: CacheView,
    date: Seq<char>,
) -> Option<(ResponseView, bool)> {
    if listed {
        Some((forbidden_page(request, date), false))
    } else if cache.limit > 0 && lookup(cache.entries, request.uri) is Some {
        let entry = lookup(cache.entries, request.uri)->0;
        Some((page(request, 200, entry.mime, entry.data, date), true))
    } else {
        None
    }
}

/// Whether a step is the given response.
pub open spec fn responds(step: StaticStep, response: ResponseView, cached: bool) -> bool {
    step matches StaticStep::Respond { response: r, cached: c } && r@ == response && c == cached
}

/// A response with a body of the given content type.
fn make_page(request: &Request, status: StatusCode, mime: &str, body: Vec<u8>, date: &str) -> (r:
    Response)
    ensures
        r@ == page(request@, status@, mime@, body@, date@),
{
    let r = Response::new(status).with_header(HeaderType::ContentType, mime).with_bytes(
        body,
    ).with_request_compatibility(request).with_generated_headers(date);
    assert(r@.headers =~= with_generated(
        seq![HeaderView { name: HeaderType::ContentType@, value: mime@ }],
        date@,
        body@.len(),
    ));
    r
}

/// A redirect to the given location.
fn make_redirect(request: &Request, status: StatusCode, location: &str, date: &str) -> (r:
    Response)
    ensures
        r@ == redirect_page(request@, status@, location@, date@),
{
    let r = Response::new(status).with_header(
        HeaderType::Location,
        location,
    ).with_request_compatibility(request).with_generated_headers(date);
    assert(r@.headers =~= with_generated(
        seq![HeaderView { name: HeaderType::Location@, value: location@ }],
        date@,
        0,
    ));
    r
}

/// The 404 response to a request.
pub fn not_found(request: &Request, date: &str) -> (r: Response)
    ensures
        r@ == not_found_page(request@, date@),
{
    let body = slice_to_vec("<h1>404 Not Found</h1>".as_bytes());
    make_page(request, StatusCode::NotFound, "text/html", body, date)
}

/// The 403 response to a request.
pub fn forbidden(request: &Request, date: &str) -> (r: Response)
    ensures
        r@ == forbidden_page(request@, date@),
{
    let body = slice_to_vec("<h1>403 Forbidden</h1>".as_bytes());
    make_page(request, StatusCode::Forbidden, "text/html", body, date)
}

/// What a handler answers before it looks at the filesystem.
fn answer_early(request: &Request, state: &AppState, date: &str) -> (r: Option<StaticStep>)
    ensures
        match early_answer(
            request@,
            state.config.blacklist.lists(request@.address.origin_addr),
            state.cache@,
            date@,
        ) {
            Some((response, cached)) => r matches Some(step) && responds(step, response, cached),
            None => r is None,
        },
{
    if state.config.blacklist.contains(request.address.origin_addr) {
        return Some(StaticStep::Respond { response: forbidden(request, date), cached: false });
    }
    if state.cache.limit() > 0 {
        match state.cache.get(request.uri.as_str()) {
            Some(entry) => {
                let response = make_page(
                    request,
                    StatusCode::OK,
                    entry.mime.as_str(),
                    entry.data.clone(),
                    date,
                );
                return Some(StaticStep::Respond { response, cached: true });
            },
            None => {},
        }
    }
    None
}

/// The first step of serving a single file: the early answer where there is
/// one, and otherwise the file is to be read.
pub fn file_handler(request: &Request, state: &AppState, file: &str, date: &str) -> (r:
    StaticStep)
    ensures
        match early_answer(
            request@,
            state.config.blacklist.lists(request@.address.origin_addr),
            state.cache@,
            date@,
        ) {
            Some((response, cached)) => responds(r, response, cached),
            None => r matches StaticStep::Read { place, mime } && place.root@ == file@
                && place.segments@.len() == 0 && mime is None,
        },
{
    match answer_early(request, state, date) {
        Some(step) => step,
        None => StaticStep::Read {
            place: Place { root: file.to_string(), segments: Vec::new() },
            mime: None,
        },
    }
}

/// What a directory route answers before it looks at the filesystem: 403
/// where the path leads out of the directory, whatever the cache holds; and
/// otherwise the early answer, where there is one.
pub open spec fn directory_answer(
    request: RequestView,
    listed: bool,
    cache: CacheView,
    matches: Seq<char>,
    date: Seq<char>,
) -> Option<(ResponseView, bool)> {
    if resolved(matches, request.uri) is None {
        Some((forbidden_page(request, date), false))
    } else {
        early_answer(request, listed, cache, date)
    }
}

/// The first step of serving from a directory under a route with the pattern
/// `matches`: 403 where the client is on the blacklist or the path leads out
/// of the directory; the cached body where there is one; and otherwise the
/// place that the path names below the directory is to be looked up.
pub fn directory_handler(
    request: &Request,
    state: &AppState,
    directory: &str,
    matches: &str,
    date: &str,
) -> (r: StaticStep)
    ensures
        match directory_answer(
            request@,
            state.config.blacklist.lists(request@.address.origin_addr),
            state.cache@,
            matches@,
            date@,
        ) {
            Some((response, cached)) => responds(r, response, cached),
            None => r matches StaticStep::Locate { place } && place.root@ == directory@
                && place.segments@.len() == resolved(matches@, request@.uri)->0.len() && forall|
                i: int,
            |
                0 <= i < place.segments@.len() ==> (#[trigger] place.segments@[i])@ == resolved(
                    matches@,
                    request@.uri,
                )->0[i],
        },
{
    match resolve(matches, request.uri.as_str()) {
        None => StaticStep::Respond { response: forbidden(request, date), cached: false },
        Some(segments) => match answer_early(request, state, date) {
            Some(step) => step,
            None => StaticStep::Locate { place: Place { root: directory.to_string(), segments } },
        },
    }
}

/// What follows when the place of a request has been looked up.
pub enum NextSpec {
    /// A response.
    Respond(ResponseView),
    /// The file at the place is read; the content type is inferred.
    ReadPlace,
    /// The index file of the given name below the place is read as
    /// `text/html`.
    ReadIndex(Seq<char>),
}

/// What follows when the place of a request has been looked up. Nothing
/// there gives 404. A file is read. A directory redirects, with 301, to the
/// path with a slash at its end where the path has none; otherwise its index
/// file is read, `index.html` before `index.htm`; without one it gives 404.
pub open spec fn after_lookup(request: RequestView, found: Located, date: Seq<char>) -> NextSpec {
    match found {
        Located::Missing => NextSpec::Respond(not_found_page(request, date)),
        Located::File => NextSpec::ReadPlace,
        Located::Directory { index_html, index_htm } => if !ends_with(request.uri, seq!['/']) {
            NextSpec::Respond(redirect_page(request, 301, request.uri + seq!['/'], date))
        } else if index_html {
            NextSpec::ReadIndex("index.html"@)
        } else if index_htm {
            NextSpec::ReadIndex("index.htm"@)
        } else {
            NextSpec::Respond(not_found_page(request, date))
        },
    }
}

/// The step after the place of a request has been looked up.
pub fn located(request: &Request, place: Place, found: Located, date: &str) -> (r: StaticStep)
    ensures
        match after_lookup(request@, found, date@) {
            NextSpec::Respond(response) => responds(r, response, false),
            NextSpec::ReadPlace => r matches StaticStep::Read { place: p, mime } && p == place
                && mime is None,
            NextSpec::ReadIndex(name) => r matches StaticStep::Read { place: p, mime } && p.root
                == place.root && p.segments@.len() == place.segments@.len() + 1
                && p.segments@.last()@ == name && (forall|i: int|
                0 <= i < place.segments@.len() ==> p.segments@[i] == place.segments@[i]) && (
            mime matches Some(m) && m@ == "text/html"@),
        },
{
    match found {
        Located::Missing => StaticStep::Respond {
            response: not_found(request, date),
            cached: false,
        },
        Located::File => StaticStep::Read { place, mime: None },
        Located::Directory { index_html, index_htm } => {
            let uri = chars_of(request.uri.as_str());
            let n = uri.len();
            if n == 0 || uri[n - 1] != '/' {
                proof {
                    if n > 0 {
                        assert(uri@.skip(n - 1)[0] == uri@[n - 1]);
                    }
                }
                let mut target = uri;
                target.push('/');
                assert(target@ =~= request@.uri + seq!['/']);
                let location = string_of(&target);
                StaticStep::Respond {
                    response: make_redirect(
                        request,
                        StatusCode::MovedPermanently,
                        location.as_str(),
                        date,
                    ),
                    cached: false,
                }
            } else {
                assert(uri@.skip(n - 1) =~= seq!['/']);
                if index_html || index_htm {
                    let name = if index_html {
                        "index.html"
                    } else {
                        "index.htm"
                    };
                    let mut place = place;
                    place.segments.push(name.to_string());
                    StaticStep::Read { place, mime: Some("text/html".to_string()) }
                } else {
                    StaticStep::Respond { response: not_found(request, date), cached: false }
                }
            }
        },
    }
}

/// The last step of serving a file: the response with the contents that were
/// read. With the cache in use, the contents are offered to it under the
/// path of the request; with the cache turned off, it is left alone.
pub fn serve_file(
    request: &Request,
    state: &mut AppState,
    contents: Vec<u8>,
    mime: &str,
    date: &str,
) -> (r: Response)
    requires
        old(state).wf(),
    ensures
        final(state).wf(),
        final(state).config == old(state).config,
        r@ == page(request@, 200, mime@, contents@, date@),
        old(state).config.cache.size_limit == 0 ==> final(state).cache@ == old(state).cache@,
        final(state).cache@ == after_set(old(state).cache@, request@.uri, contents@, mime@),
{
    if state.config.cache.size_limit > 0 {
        state.cache.set(request.uri.as_str(), contents.clone(), mime);
    }
    make_page(request, StatusCode::OK, mime, contents, date)
}

/// The response of a redirect route: 302 with the configured location.
pub fn redirect_handler(request: &Request, target: &str, date: &str) -> (r: Response)
    ensures
        r@ == redirect_page(request@, 302, target@, date@),
{
    make_redirect(request, StatusCode::Found, target, date)
}

/// Where a request that came in over plain HTTP is sent when HTTPS is
/// forced: the same host and target under `https://`. `None` where the
/// request does not name its host.
pub open spec fn https_location(request: RequestView) -> Option<Seq<char>> {
    if first_index(request.headers, HeaderType::Host@) < request.headers.len() {
        Some(
            "https://"@ + request.headers[first_index(request.headers, HeaderType::Host@)].value
                + request_target(request.uri, request.query),
        )
    } else {
        None
    }
}

/// The answer to a request that came in over plain HTTP while HTTPS is
/// forced: 301 to the same place under `https://`, and 400 where the request
/// does not name its host.
pub fn https_redirect(request: &Request, date: &str) -> (r: Response)
    ensures
        match https_location(request@) {
            Some(location) => r@ == redirect_page(request@, 301, location, date@),
            None => r@ == page(
                request@,
                400,
                "text/html"@,
                encode_utf8("<h1>400 Bad Request</h1>"@),
                date@,
            ),
        },
{
    match request.headers.get(HeaderType::Host) {
        Some(host) => {
            let mut location: Vec<char> = Vec::new();
            crate::http::wire::push_str(&mut location, "https://");
            crate::http::wire::push_str(&mut location, host);
            crate::http::wire::push_str(&mut location, request.uri.as_str());
            if !request.query.as_str().is_empty() {
                location.push('?');
                crate::http::wire::push_str(&mut location, request.query.as_str());
            }
            assert(location@ =~= https_location(request@)->0);
            let text = string_of(&location);
            make_redirect(request, StatusCode::MovedPermanently, text.as_str(), date)
        },
        None => {
            let body = slice_to_vec("<h1>400 Bad Request</h1>".as_bytes());
            make_page(request, StatusCode::BadRequest, "text/html", body, date)
        },
    }
}

/// The law of the second request: once a file that fits into the cache has
/// been served, the same request is answered from the cache, with the same
/// response, for as long as the entry stays. So it is on a file route, and
/// on a directory route under whose pattern the path resolves.
pub proof fn lemma_second_request_is_cached(
    request: RequestView,
    cache: CacheView,
    contents: Seq<u8>,
    mime: Seq<char>,
    date: Seq<char>,
    matches: Seq<char>,
)
    requires
        cache.ok(),
        cache.limit > 0,
        contents.len() <= cache.limit,
    ensures
        early_answer(
            request,
            false,
            after_set(cache, request.uri, contents, mime),
            date,
        ) == Some((page(request, 200, mime, contents, date), true)),
        resolved(matches, request.uri) is Some ==> directory_answer(
            request,
            false,
            after_set(cache, request.uri, contents, mime),
            matches,
            date,
        ) == Some((page(request, 200, mime, contents, date), true)),
{
    lemma_set_then_lookup(cache, request.uri, contents, mime);
}

/// The law of the escape: a request whose path leads out of the served
/// directory is answered with 403, whoever asks and whatever the cache
/// holds.
pub proof fn lemma_escape_is_forbidden(
    request: RequestView,
    listed: bool,
    cache: CacheView,
    matches: Seq<char>,
    date: Seq<char>,
)
    requires
        resolved(matches, request.uri) is None,
    ensures
        directory_answer(request, listed, cache, matches, date) == Some(
            (forbidden_page(request, date), false),
        ),
        forbidden_page(request, date).status == 403,
{
}

/// The law of the escape in any encoding: a request is sent with the path of
/// its target written in whatever percent-encoding. Where the path that the
/// written path stands for leads out of the served directory, the request
/// that is read has that path, and it is answered with 403.
pub proof fn lemma_encoded_escape_is_forbidden(
    sent: RequestView,
    tail: Seq<u8>,
    listed: bool,
    cache: CacheView,
    matches: Seq<char>,
    date: Seq<char>,
)
    requires
        request_head_sendable(sent),
        read_as_sent(sent, tail) is Complete,
        resolved(matches, percent_decode(sent.uri)->0) is None,
    ensures
        request_of_bytes(encode_utf8(request_head(sent)) + tail, sent.address) matches Outcome::Complete(
            read,
            _,
        ) && read.uri == percent_decode(sent.uri)->0 && directory_answer(
            read,
            listed,
            cache,
            matches,
            date,
        ) == Some((forbidden_page(read, date), false)),
{
    lemma_request_sent(sent, tail);
}

} // verus!
