//! Routing: which host and which route take a request, and which path below
//! a served directory a request names.

use vstd::prelude::*;
use crate::http::headers::{first_index, HeaderType};
use crate::http::request::{Request, RequestView};
use crate::server::config::{Config, HostConfig, RouteConfig};
use crate::text::{chars_of, free_of, lemma_split_pieces, split, split_chars, str_eq};
use crate::text::string_of;

verus! {

/// Whether `t` begins with `prefix`.
pub open spec fn starts_with(t: Seq<char>, prefix: Seq<char>) -> bool {
    prefix.len() <= t.len() && t.take(prefix.len() as int) == prefix
}

/// Whether `t` ends with `suffix`.
pub open spec fn ends_with(t: Seq<char>, suffix: Seq<char>) -> bool {
    suffix.len() <= t.len() && t.skip(t.len() - suffix.len()) == suffix
}

/// Whether a pattern ends in the wildcard `/*`.
pub open spec fn is_wildcard(pattern: Seq<char>) -> bool {
    pattern.len() >= 2 && pattern[pattern.len() - 2] == '/' && pattern[pattern.len() - 1] == '*'
}

/// What stands before the wildcard of a pattern that ends in `/*`, and the
/// whole pattern otherwise.
pub open spec fn pattern_prefix(pattern: Seq<char>) -> Seq<char> {
    if is_wildcard(pattern) {
        pattern.take(pattern.len() - 2)
    } else {
        pattern
    }
}

/// Whether a route pattern accepts a path. A pattern `P/*` accepts `P` itself
/// and every path that begins with `P/`; so `/*` accepts every path that
/// begins with `/`, and the empty path. Any other pattern accepts the path
/// equal to it and nothing else.
pub open spec fn pattern_matches(pattern: Seq<char>, path: Seq<char>) -> bool {
    if is_wildcard(pattern) {
        path == pattern_prefix(pattern) || starts_with(path, pattern_prefix(pattern) + seq!['/'])
    } else {
        path == pattern
    }
}

/// Whether `v` begins with the first `n` characters of `prefix` followed by
/// a slash.
fn has_prefix_and_slash(v: &Vec<char>, prefix: &Vec<char>, n: usize) -> (r: bool)
    requires
        n <= prefix@.len(),
    ensures
        r == starts_with(v@, prefix@.take(n as int) + seq!['/']),
{
    let ghost want = prefix@.take(n as int) + seq!['/'];
    if v.len() <= n {
        return false;
    }
    let mut i: usize = 0;
    while i < n
        invariant
            i <= n <= prefix@.len(),
            n < v@.len(),
            want == prefix@.take(n as int) + seq!['/'],
            forall|j: int| 0 <= j < i ==> v@[j] == prefix@[j],
        decreases n - i,
    {
        if v[i] != prefix[i] {
            assert(v@.take(want.len() as int)[i as int] != want[i as int]);
            return false;
        }
        i += 1;
    }
    if v[n] != '/' {
        assert(v@.take(want.len() as int)[n as int] != want[n as int]);
        return false;
    }
    assert(v@.take(want.len() as int) =~= want);
    true
}

/// Whether the first `n` characters of `b` are all of `a`.
fn equals_prefix(a: &Vec<char>, b: &Vec<char>, n: usize) -> (r: bool)
    requires
        n <= b@.len(),
    ensures
        r == (a@ == b@.take(n as int)),
{
    if a.len() != n {
        return false;
    }
    let mut i: usize = 0;
    while i < n
        invariant
            i <= n <= b@.len(),
            a@.len() == n,
            forall|j: int| 0 <= j < i ==> a@[j] == b@[j],
        decreases n - i,
    {
        if a[i] != b[i] {
            assert(a@[i as int] != b@.take(n as int)[i as int]);
            return false;
        }
        i += 1;
    }
    assert(a@ =~= b@.take(n as int));
    true
}

/// Whether the route pattern accepts the path.
pub fn matches_pattern(pattern: &str, path: &str) -> (r: bool)
    ensures
        r == pattern_matches(pattern@, path@),
{
    let p = chars_of(pattern);
    let v = chars_of(path);
    let n = p.len();
    if n >= 2 && p[n - 2] == '/' && p[n - 1] == '*' {
        equals_prefix(&v, &p, n - 2) || has_prefix_and_slash(&v, &p, n - 2)
    } else {
        assert(p@.take(n as int) =~= p@);
        equals_prefix(&v, &p, n)
    }
}

/// Whether a host pattern accepts a `Host` header: the pattern `*` accepts
/// every header, and any other pattern the header equal to it.
pub open spec fn host_matches(pattern: Seq<char>, host: Seq<char>) -> bool {
    pattern == "*"@ || pattern == host
}

/// The position of the first host whose pattern accepts the header, or the
/// number of hosts if none does.
pub open spec fn first_host(hosts: Seq<HostConfig>, host: Seq<char>) -> int
    decreases hosts.len(),
{
    if hosts.len() == 0 {
        0
    } else if host_matches(hosts[0].matches@, host) {
        0
    } else {
        1 + first_host(hosts.drop_first(), host)
    }
}

/// The position of the first route whose pattern accepts the path, or the
/// number of routes if none does.
pub open spec fn first_route(routes: Seq<RouteConfig>, path: Seq<char>) -> int
    decreases routes.len(),
{
    if routes.len() == 0 {
        0
    } else if pattern_matches(routes[0].matches@, path) {
        0
    } else {
        1 + first_route(routes.drop_first(), path)
    }
}

/// Where a request goes.
#[derive(Debug, Clone, Copy, PartialEq, Eq, Structural)]
pub struct RouteChoice {
    /// The number of the host: 0 for the default host, and `n + 1` for the
    /// host at position `n`.
    pub host: usize,
    /// The number of the route under that host, or `None` where no route of
    /// the host accepts the path.
    pub route: Option<usize>,
}

/// The number of the host that serves a request with the given `Host`
/// header: the first host whose pattern accepts it, and the default host
/// where none does or the request has no such header.
pub open spec fn chosen_host(config: Config, host: Option<Seq<char>>) -> int {
    match host {
        Some(h) => if first_host(config.hosts@, h) < config.hosts@.len() {
            first_host(config.hosts@, h) + 1
        } else {
            0
        },
        None => 0,
    }
}

/// The `Host` header of a request, if it has one.
pub open spec fn host_header(request: RequestView) -> Option<Seq<char>> {
    if first_index(request.headers, HeaderType::Host@) < request.headers.len() {
        Some(request.headers[first_index(request.headers, HeaderType::Host@)].value)
    } else {
        None
    }
}

/// Where the request goes under the configuration.
pub open spec fn chosen_route(config: Config, request: RequestView) -> RouteChoice {
    let host = chosen_host(config, host_header(request));
    let routes = config.host(host).routes@;
    RouteChoice {
        host: host as usize,
        route: if first_route(routes, request.uri) < routes.len() {
            Some(first_route(routes, request.uri) as usize)
        } else {
            None
        },
    }
}

/// The position of the first host whose pattern accepts the header, or the
/// number of hosts.
fn find_host(hosts: &Vec<HostConfig>, host: &str) -> (r: usize)
    ensures
        r == first_host(hosts@, host@),
        r <= hosts@.len(),
{
    let mut i: usize = 0;
    assert(hosts@.skip(0) =~= hosts@);
    while i < hosts.len()
        invariant
            i <= hosts@.len(),
            first_host(hosts@, host@) == i + first_host(hosts@.skip(i as int), host@),
        decreases hosts@.len() - i,
    {
        proof {
            let rest = hosts@.skip(i as int);
            assert(rest[0] == hosts@[i as int]);
            assert(rest.drop_first() =~= hosts@.skip(i + 1));
        }
        let pattern = hosts[i].matches.as_str();
        if str_eq(pattern, "*") || str_eq(pattern, host) {
            return i;
        }
        i += 1;
    }
    i
}

/// The position of the first route whose pattern accepts the path, or the
/// number of routes.
fn find_route(routes: &Vec<RouteConfig>, path: &str) -> (r: usize)
    ensures
        r == first_route(routes@, path@),
        r <= routes@.len(),
{
    let mut i: usize = 0;
    assert(routes@.skip(0) =~= routes@);
    while i < routes.len()
        invariant
            i <= routes@.len(),
            first_route(routes@, path@) == i + first_route(routes@.skip(i as int), path@),
        decreases routes@.len() - i,
    {
        proof {
            let rest = routes@.skip(i as int);
            assert(rest[0] == routes@[i as int]);
            assert(rest.drop_first() =~= routes@.skip(i + 1));
        }
        if matches_pattern(routes[i].matches.as_str(), path) {
            return i;
        }
        i += 1;
    }
    i
}

/// Finds the host and the route that take the request: the first host whose
/// pattern accepts the `Host` header, or the default host, and under it the
/// first route whose pattern accepts the path.
pub fn route_request(config: &Config, request: &Request) -> (r: RouteChoice)
    ensures
        r == chosen_route(*config, request@),
        r.route matches Some(n) ==> config.has_route(r.host as int, n as int),
{
    let host: usize = match request.headers.get(HeaderType::Host) {
        Some(header) => {
            let i = find_host(&config.hosts, header);
            if i < config.hosts.len() {
                i + 1
            } else {
                0
            }
        },
        None => 0,
    };
    let routes = if host == 0 {
        &config.default_host.routes
    } else {
        &config.hosts[host - 1].routes
    };
    let i = find_route(routes, request.uri.as_str());
    RouteChoice {
        host,
        route: if i < routes.len() {
            Some(i)
        } else {
            None
        },
    }
}

/// The segments of a path that stay when it is walked from the root: empty
/// segments and `.` are passed over, `..` goes one segment back, and every
/// other segment goes one down. `None` where `..` would go above the root,
/// and where a segment holds a backslash, which some systems read as a
/// separator of their own.
pub open spec fn normalised(segments: Seq<Seq<char>>) -> Option<Seq<Seq<char>>>
    decreases segments.len(),
{
    if segments.len() == 0 {
        Some(Seq::empty())
    } else {
        match normalised(segments.drop_last()) {
            None => None,
            Some(walked) => {
                let segment = segments.last();
                if !free_of(segment, '\\') {
                    None
                } else if segment.len() == 0 || segment == seq!['.'] {
                    Some(walked)
                } else if segment == seq!['.', '.'] {
                    if walked.len() == 0 {
                        None
                    } else {
                        Some(walked.drop_last())
                    }
                } else {
                    Some(walked.push(segment))
                }
            },
        }
    }
}

/// What is left of a path for a route to serve: the path without the prefix
/// of the route's pattern.
pub open spec fn below_pattern(pattern: Seq<char>, path: Seq<char>) -> Seq<char> {
    if starts_with(path, pattern_prefix(pattern)) {
        path.skip(pattern_prefix(pattern).len() as int)
    } else {
        path
    }
}

/// The place below a served directory that a path names, as the segments
/// from the directory down; `None` where the path leads out of the
/// directory.
pub open spec fn resolved(pattern: Seq<char>, path: Seq<char>) -> Option<Seq<Seq<char>>> {
    normalised(split(below_pattern(pattern, path), '/'))
}

/// Whether a segment names an entry of a directory: it is not empty, is
/// neither `.` nor `..`, and holds neither a slash nor a backslash.
pub open spec fn is_plain_segment(segment: Seq<char>) -> bool {
    segment.len() > 0 && segment != seq!['.'] && segment != seq!['.', '.'] && !segment.contains(
        '/',
    ) && free_of(segment, '\\')
}

/// The law of the root: the segments that come out of a walk name entries
/// only, so following them from the served directory never leaves it.
pub proof fn lemma_normalised_stays_below(segments: Seq<Seq<char>>)
    requires
        forall|i: int| 0 <= i < segments.len() ==> !(#[trigger] segments[i]).contains('/'),
    ensures
        normalised(segments) matches Some(walked) ==> forall|i: int|
            0 <= i < walked.len() ==> is_plain_segment(#[trigger] walked[i]),
    decreases segments.len(),
{
    if segments.len() > 0 {
        let shorter = segments.drop_last();
        assert forall|i: int| 0 <= i < shorter.len() implies !(#[trigger] shorter[i]).contains(
            '/',
        ) by {
            assert(shorter[i] == segments[i]);
        }
        lemma_normalised_stays_below(shorter);
        match normalised(shorter) {
            None => {},
            Some(before) => {
                let segment = segments.last();
                assert(segment == segments[segments.len() - 1]);
                if normalised(segments) is Some {
                    let walked = normalised(segments)->0;
                    assert forall|i: int| 0 <= i < walked.len() implies is_plain_segment(
                        #[trigger] walked[i],
                    ) by {
                        if i < before.len() {
                            assert(walked[i] == before[i]);
                        }
                    }
                }
            },
        }
    }
}

/// A walk that stands at the root and meets `..`, or that meets a segment
/// with a backslash anywhere, leaves the directory, whatever follows.
pub proof fn lemma_walk_leaves(segments: Seq<Seq<char>>, k: int)
    requires
        0 <= k < segments.len(),
        (normalised(segments.take(k)) == Some(Seq::<Seq<char>>::empty()) && segments[k] == seq![
            '.',
            '.',
        ]) || !free_of(segments[k], '\\'),
    ensures
        normalised(segments) is None,
{
    let upto = segments.take(k + 1);
    assert(upto.drop_last() =~= segments.take(k));
    assert(upto.last() == segments[k]);
    if free_of(segments[k], '\\') {
        assert(segments[k].len() == 2);
    }
    lemma_normalised_prefix(segments, k + 1);
}

/// The law of the root for paths: where a path resolves below a served
/// directory, every segment of the result names an entry, so the place that
/// it names lies in the directory; a path that would lead out of it does not
/// resolve.
pub proof fn lemma_resolved_stays_below(pattern: Seq<char>, path: Seq<char>)
    ensures
        resolved(pattern, path) matches Some(walked) ==> forall|i: int|
            0 <= i < walked.len() ==> is_plain_segment(#[trigger] walked[i]),
{
    lemma_split_pieces(below_pattern(pattern, path), '/');
    lemma_normalised_stays_below(split(below_pattern(pattern, path), '/'));
}

/// The views of a sequence of character vectors.
pub open spec fn segment_views(v: Seq<Vec<char>>) -> Seq<Seq<char>> {
    Seq::new(v.len(), |i: int| v[i]@)
}

/// Whether a segment holds a backslash.
fn has_backslash(segment: &Vec<char>) -> (r: bool)
    ensures
        r == !free_of(segment@, '\\'),
{
    let mut i: usize = 0;
    while i < segment.len()
        invariant
            i <= segment@.len(),
            forall|j: int| 0 <= j < i ==> segment@[j] != '\\',
        decreases segment@.len() - i,
    {
        if segment[i] == '\\' {
            return true;
        }
        i += 1;
    }
    false
}

/// Walks the segments of a path from the root.
pub fn normalise(segments: &Vec<Vec<char>>) -> (r: Option<Vec<Vec<char>>>)
    ensures
        match normalised(segment_views(segments@)) {
            Some(walked) => r matches Some(w) && segment_views(w@) == walked,
            None => r is None,
        },
{
    let ghost all = segment_views(segments@);
    let mut walked: Vec<Vec<char>> = Vec::new();
    let mut i: usize = 0;
    assert(all.take(0) =~= Seq::<Seq<char>>::empty());
    assert(segment_views(walked@) =~= Seq::<Seq<char>>::empty());
    while i < segments.len()
        invariant
            i <= segments@.len(),
            all == segment_views(segments@),
            normalised(all.take(i as int)) == Some(segment_views(walked@)),
        decreases segments@.len() - i,
    {
        let segment = &segments[i];
        let ghost before = segment_views(walked@);
        proof {
            assert(all.take(i + 1).drop_last() =~= all.take(i as int));
            assert(all.take(i + 1).last() == segment@);
        }
        if has_backslash(segment) {
            proof {
                lemma_normalised_prefix(all, i + 1);
            }
            return None;
        }
        if segment.len() == 0 || (segment.len() == 1 && segment[0] == '.') {
            assert(segment@.len() == 0 || segment@ =~= seq!['.']);
        } else if segment.len() == 2 && segment[0] == '.' && segment[1] == '.' {
            assert(segment@ =~= seq!['.', '.']);
            if walked.len() == 0 {
                proof {
                    lemma_normalised_prefix(all, i + 1);
                }
                return None;
            }
            walked.pop();
            assert(segment_views(walked@) =~= before.drop_last());
        } else {
            assert(segment@ != seq!['.'] && segment@ != seq!['.', '.']) by {
                if segment@ == seq!['.'] {
                    assert(segment@.len() == 1 && segment@[0] == '.');
                }
                if segment@ == seq!['.', '.'] {
                    assert(segment@.len() == 2 && segment@[0] == '.' && segment@[1] == '.');
                }
            }
            walked.push(segment.clone());
            assert(segment_views(walked@) =~= before.push(segment@));
        }
        i += 1;
    }
    assert(all.take(i as int) =~= all);
    Some(walked)
}

/// A walk that leaves the root within the first `k` segments leaves it.
pub proof fn lemma_normalised_prefix(segments: Seq<Seq<char>>, k: int)
    requires
        0 <= k <= segments.len(),
        normalised(segments.take(k)) is None,
    ensures
        normalised(segments) is None,
    decreases segments.len() - k,
{
    if k < segments.len() {
        assert(segments.take(k + 1).drop_last() =~= segments.take(k));
        lemma_normalised_prefix(segments, k + 1);
    } else {
        assert(segments.take(k) =~= segments);
    }
}

/// The place below a served directory that the path names under a route
/// with the given pattern, as segments from the directory down.
pub fn resolve(pattern: &str, path: &str) -> (r: Option<Vec<String>>)
    ensures
        match resolved(pattern@, path@) {
            Some(walked) => r matches Some(w) && w@.len() == walked.len() && forall|i: int|
                0 <= i < w@.len() ==> (#[trigger] w@[i])@ == walked[i],
            None => r is None,
        },
{
    let p = chars_of(pattern);
    let v = chars_of(path);
    let n = p.len();
    let prefix_len: usize = if n >= 2 && p[n - 2] == '/' && p[n - 1] == '*' {
        n - 2
    } else {
        n
    };
    assert(pattern_prefix(pattern@) =~= p@.take(prefix_len as int));
    let mut below: Vec<char> = Vec::new();
    let from: usize = if prefix_len <= v.len() && has_prefix(&v, &p, prefix_len) {
        prefix_len
    } else {
        0
    };
    let mut i: usize = from;
    while i < v.len()
        invariant
            from <= i <= v@.len(),
            below@ == v@.subrange(from as int, i as int),
        decreases v@.len() - i,
    {
        below.push(v[i]);
        i += 1;
        assert(below@ =~= v@.subrange(from as int, i as int));
    }
    assert(below@ =~= below_pattern(pattern@, path@)) by {
        assert(v@.subrange(from as int, v@.len() as int) =~= v@.skip(from as int));
        assert(v@.skip(0) =~= v@);
    }
    let segments = split_chars(&below, '/');
    assert(segment_views(segments@) =~= split(below@, '/'));
    match normalise(&segments) {
        Some(walked) => {
            let mut out: Vec<String> = Vec::new();
            let mut k: usize = 0;
            while k < walked.len()
                invariant
                    k <= walked@.len(),
                    out@.len() == k,
                    forall|j: int| 0 <= j < k ==> (#[trigger] out@[j])@ == walked@[j]@,
                decreases walked@.len() - k,
            {
                out.push(string_of(&walked[k]));
                k += 1;
            }
            Some(out)
        },
        None => None,
    }
}

/// Whether `v` begins with the first `n` characters of `prefix`.
fn has_prefix(v: &Vec<char>, prefix: &Vec<char>, n: usize) -> (r: bool)
    requires
        n <= prefix@.len(),
        n <= v@.len(),
    ensures
        r == starts_with(v@, prefix@.take(n as int)),
{
    let mut i: usize = 0;
    while i < n
        invariant
            i <= n <= prefix@.len(),
            n <= v@.len(),
            forall|j: int| 0 <= j < i ==> v@[j] == prefix@[j],
        decreases n - i,
    {
        if v[i] != prefix[i] {
            assert(v@.take(n as int)[i as int] != prefix@.take(n as int)[i as int]);
            return false;
        }
        i += 1;
    }
    assert(v@.take(n as int) =~= prefix@.take(n as int));
    true
}

} // verus!
