//! The text of a configuration: one setting per line, as a key, an equals
//! sign and a value. Empty lines and lines that begin with `#` say nothing.

use vstd::prelude::*;
use crate::server::config::{BlacklistMode, Config, HostConfig, LoadBalancerConfig};
use crate::server::config::{LoadBalancerMode, LogLevel, RouteConfig, RouteType};
use crate::text::{chars_of, decimal_value, find_char, index_of, is_decimal, parse_decimal};
use crate::text::{slice_chars, split, split_chars, str_eq, string_of, trim, trim_chars};
use crate::http::parse::line_views;

verus! {

/// What a line of a configuration says.
pub enum LineSpec {
    /// Nothing: the line is empty or a comment.
    Nothing,
    /// A setting: a key and its value.
    Setting(Seq<char>, Seq<char>),
    /// The line is neither.
    Invalid,
}

/// A line without the carriage return at its end, if it has one.
pub open spec fn without_cr(line: Seq<char>) -> Seq<char> {
    if line.len() > 0 && line.last() == '\r' {
        line.drop_last()
    } else {
        line
    }
}

/// What a line says. Blanks around the line, around the key and around the
/// value do not count. A setting has a key that is not empty before its
/// first equals sign.
pub open spec fn line_of(line: Seq<char>) -> LineSpec {
    let t = trim(without_cr(line));
    let i = index_of(t, '=');
    if t.len() == 0 || t[0] == '#' {
        LineSpec::Nothing
    } else if i >= t.len() || trim(t.take(i)).len() == 0 {
        LineSpec::Invalid
    } else {
        LineSpec::Setting(trim(t.take(i)), trim(t.skip(i + 1)))
    }
}

/// The settings of the given lines, in order, or the position of the first
/// line that is invalid.
pub open spec fn settings_of(lines: Seq<Seq<char>>) -> Result<Seq<(Seq<char>, Seq<char>)>, int>
    decreases lines.len(),
{
    if lines.len() == 0 {
        Ok(Seq::empty())
    } else {
        match settings_of(lines.drop_last()) {
            Err(i) => Err(i),
            Ok(settings) => match line_of(lines.last()) {
                LineSpec::Nothing => Ok(settings),
                LineSpec::Setting(key, value) => Ok(settings.push((key, value))),
                LineSpec::Invalid => Err(lines.len() - 1),
            },
        }
    }
}

/// An invalid line among the first `k` is the first invalid line of all.
proof fn lemma_settings_prefix(lines: Seq<Seq<char>>, k: int)
    requires
        0 <= k <= lines.len(),
        settings_of(lines.take(k)) is Err,
    ensures
        settings_of(lines) == settings_of(lines.take(k)),
    decreases lines.len() - k,
{
    if k < lines.len() {
        assert(lines.take(k + 1).drop_last() =~= lines.take(k));
        lemma_settings_prefix(lines, k + 1);
    } else {
        assert(lines.take(k) =~= lines);
    }
}

/// The views of a sequence of settings.
pub open spec fn setting_views(s: Seq<(String, String)>) -> Seq<(Seq<char>, Seq<char>)> {
    Seq::new(s.len(), |i: int| (s[i].0@, s[i].1@))
}

/// Reads the settings of a configuration text, in order. The error is the
/// number of the first line that is neither empty, nor a comment, nor a
/// setting, counted from 0.
pub fn parse_settings(text: &str) -> (r: Result<Vec<(String, String)>, usize>)
    ensures
        match settings_of(split(text@, '\n')) {
            Ok(settings) => r matches Ok(v) && setting_views(v@) == settings,
            Err(line) => r == Err::<Vec<(String, String)>, usize>(line as usize),
        },
{
    let chars = chars_of(text);
    let lines = split_chars(&chars, '\n');
    let ghost all = split(text@, '\n');
    let mut out: Vec<(String, String)> = Vec::new();
    let mut i: usize = 0;
    assert(all.take(0) =~= Seq::<Seq<char>>::empty());
    assert(setting_views(out@) =~= Seq::<(Seq<char>, Seq<char>)>::empty());
    while i < lines.len()
        invariant
            i <= lines@.len(),
            all == split(text@, '\n'),
            lines@.len() == all.len(),
            forall|k: int| 0 <= k < lines@.len() ==> (#[trigger] lines@[k])@ == all[k],
            settings_of(all.take(i as int)) == Ok::<Seq<(Seq<char>, Seq<char>)>, int>(
                setting_views(out@),
            ),
        decreases lines@.len() - i,
    {
        let line = &lines[i];
        let ghost before = setting_views(out@);
        proof {
            assert(all.take(i + 1).drop_last() =~= all.take(i as int));
            assert(all.take(i + 1).last() == line@);
        }
        let n = line.len();
        let bare = if n > 0 && line[n - 1] == '\r' {
            slice_chars(line, 0, n - 1)
        } else {
            slice_chars(line, 0, n)
        };
        assert(bare@ =~= without_cr(line@));
        let t = trim_chars(&bare);
        if t.len() == 0 || t[0] == '#' {
        } else {
            let eq = find_char(&t, 0, '=');
            assert(t@.skip(0) =~= t@);
            if eq >= t.len() {
                proof {
                    lemma_settings_prefix(all, i + 1);
                }
                return Err(i);
            }
            let key_part = slice_chars(&t, 0, eq);
            assert(key_part@ =~= t@.take(eq as int));
            let key = trim_chars(&key_part);
            if key.len() == 0 {
                proof {
                    lemma_settings_prefix(all, i + 1);
                }
                return Err(i);
            }
            let value_part = slice_chars(&t, eq + 1, t.len());
            assert(value_part@ =~= t@.skip(eq + 1));
            let value = trim_chars(&value_part);
            out.push((string_of(&key), string_of(&value)));
            assert(setting_views(out@) =~= before.push((key@, value@)));
        }
        i += 1;
    }
    assert(all.take(i as int) =~= all);
    Ok(out)
}

/// What a value says of a switch: `true` or `false`, and nothing else.
pub open spec fn flag_of(value: Seq<char>) -> Option<bool> {
    if value == "true"@ {
        Some(true)
    } else if value == "false"@ {
        Some(false)
    } else {
        None
    }
}

/// Reads a switch.
pub fn read_flag(value: &str) -> (r: Option<bool>)
    ensures
        r == flag_of(value@),
{
    if str_eq(value, "true") {
        Some(true)
    } else if str_eq(value, "false") {
        Some(false)
    } else {
        None
    }
}

/// Reads a number in decimal that is no larger than `max`.
pub fn read_number(value: &str, max: u64) -> (r: Option<u64>)
    ensures
        r is Some <==> is_decimal(value@) && decimal_value(value@) <= max,
        r matches Some(n) ==> n == decimal_value(value@),
{
    match parse_decimal(&chars_of(value)) {
        Some(n) => if n <= max {
            Some(n)
        } else {
            None
        },
        None => None,
    }
}

/// The log level that a value names.
pub open spec fn level_of(value: Seq<char>) -> Option<LogLevel> {
    if value == "error"@ {
        Some(LogLevel::Error)
    } else if value == "warn"@ {
        Some(LogLevel::Warn)
    } else if value == "info"@ {
        Some(LogLevel::Info)
    } else if value == "debug"@ {
        Some(LogLevel::Debug)
    } else {
        None
    }
}

/// Reads a log level.
pub fn read_level(value: &str) -> (r: Option<LogLevel>)
    ensures
        r == level_of(value@),
{
    if str_eq(value, "error") {
        Some(LogLevel::Error)
    } else if str_eq(value, "warn") {
        Some(LogLevel::Warn)
    } else if str_eq(value, "info") {
        Some(LogLevel::Info)
    } else if str_eq(value, "debug") {
        Some(LogLevel::Debug)
    } else {
        None
    }
}

/// The blacklist mode that a value names.
pub open spec fn mode_of(value: Seq<char>) -> Option<BlacklistMode> {
    if value == "allow"@ {
        Some(BlacklistMode::Allow)
    } else if value == "block"@ {
        Some(BlacklistMode::Block)
    } else {
        None
    }
}

/// Reads a blacklist mode.
pub fn read_mode(value: &str) -> (r: Option<BlacklistMode>)
    ensures
        r == mode_of(value@),
{
    if str_eq(value, "allow") {
        Some(BlacklistMode::Allow)
    } else if str_eq(value, "block") {
        Some(BlacklistMode::Block)
    } else {
        None
    }
}

/// The words of a value: what stands between its spaces, without what is
/// empty.
pub open spec fn words(value: Seq<char>) -> Seq<Seq<char>> {
    split(value, ' ').filter(|w: Seq<char>| w.len() > 0)
}

/// The words of a value.
pub fn read_words(value: &str) -> (r: Vec<Vec<char>>)
    ensures
        line_views(r@) == words(value@),
{
    let pieces = split_chars(&chars_of(value), ' ');
    let ghost all = split(value@, ' ');
    let ghost keep = |w: Seq<char>| w.len() > 0;
    let mut out: Vec<Vec<char>> = Vec::new();
    let mut i: usize = 0;
    assert(all.take(0) =~= Seq::<Seq<char>>::empty());
    assert(line_views(out@) =~= Seq::<Seq<char>>::empty());
    while i < pieces.len()
        invariant
            i <= pieces@.len(),
            pieces@.len() == all.len(),
            forall|k: int| 0 <= k < pieces@.len() ==> (#[trigger] pieces@[k])@ == all[k],
            keep == |w: Seq<char>| w.len() > 0,
            line_views(out@) == all.take(i as int).filter(keep),
        decreases pieces@.len() - i,
    {
        let ghost before = line_views(out@);
        proof {
            crate::http::headers::lemma_filter_step(all, i as int, keep);
        }
        if pieces[i].len() > 0 {
            out.push(pieces[i].clone());
            assert(line_views(out@) =~= before.push(all[i as int]));
        }
        i += 1;
    }
    assert(all.take(i as int) =~= all);
    out
}

/// What a route is in contracts.
pub struct RouteView {
    pub route_type: RouteType,
    pub matches: Seq<char>,
    pub path: Option<Seq<char>>,
    pub targets: Option<(LoadBalancerMode, Seq<Seq<char>>)>,
    pub websocket_proxy: Option<Seq<char>>,
}

/// The view of a route.
pub open spec fn route_view(route: RouteConfig) -> RouteView {
    RouteView {
        route_type: route.route_type,
        matches: route.matches@,
        path: match route.path {
            Some(path) => Some(path@),
            None => None,
        },
        targets: match route.load_balancer {
            Some(balancer) => Some(
                (balancer.mode, Seq::new(balancer.targets@.len(), |i: int| balancer.targets@[i]@)),
            ),
            None => None,
        },
        websocket_proxy: match route.websocket_proxy {
            Some(target) => Some(target@),
            None => None,
        },
    }
}

/// The route type that a word names, but for `proxy`.
pub open spec fn plain_type_of(word: Seq<char>) -> Option<RouteType> {
    if word == "file"@ {
        Some(RouteType::File)
    } else if word == "directory"@ {
        Some(RouteType::Directory)
    } else if word == "redirect"@ {
        Some(RouteType::Redirect)
    } else {
        None
    }
}

/// The way of picking a target that a word names.
pub open spec fn balancing_of(word: Seq<char>) -> Option<LoadBalancerMode> {
    if word == "round-robin"@ {
        Some(LoadBalancerMode::RoundRobin)
    } else if word == "random"@ {
        Some(LoadBalancerMode::Random)
    } else {
        None
    }
}

/// The route that a value describes. A file, a directory and a redirect are
/// three words: the type, the pattern, and the path or location. A proxy is
/// `proxy`, the pattern, `round-robin` or `random`, and one target or more.
pub open spec fn route_of(value: Seq<char>) -> Option<RouteView> {
    let w = words(value);
    if w.len() == 3 && plain_type_of(w[0]) is Some {
        Some(
            RouteView {
                route_type: plain_type_of(w[0])->0,
                matches: w[1],
                path: Some(w[2]),
                targets: None,
                websocket_proxy: None,
            },
        )
    } else if w.len() >= 4 && w[0] == "proxy"@ && balancing_of(w[2]) is Some {
        Some(
            RouteView {
                route_type: RouteType::Proxy,
                matches: w[1],
                path: None,
                targets: Some((balancing_of(w[2])->0, w.skip(3))),
                websocket_proxy: None,
            },
        )
    } else {
        None
    }
}

/// Reads a route.
pub fn read_route(value: &str) -> (r: Option<RouteConfig>)
    ensures
        match route_of(value@) {
            Some(route) => r matches Some(x) && route_view(x) == route,
            None => r is None,
        },
{
    let w = read_words(value);
    let ghost views = line_views(w@);
    if w.len() < 3 {
        return None;
    }
    assert(views[0] == w@[0]@ && views[1] == w@[1]@ && views[2] == w@[2]@);
    let kind = string_of(&w[0]);
    let plain: Option<RouteType> = if str_eq(kind.as_str(), "file") {
        Some(RouteType::File)
    } else if str_eq(kind.as_str(), "directory") {
        Some(RouteType::Directory)
    } else if str_eq(kind.as_str(), "redirect") {
        Some(RouteType::Redirect)
    } else {
        None
    };
    match plain {
        Some(route_type) => {
            if w.len() == 3 {
                return Some(
                    RouteConfig {
                        route_type,
                        matches: string_of(&w[1]),
                        path: Some(string_of(&w[2])),
                        load_balancer: None,
                        websocket_proxy: None,
                    },
                );
            }
        },
        None => {},
    }
    if w.len() < 4 || !str_eq(kind.as_str(), "proxy") {
        proof {
            reveal_strlit("proxy");
            reveal_strlit("file");
            reveal_strlit("directory");
            reveal_strlit("redirect");
        }
        return None;
    }
    proof {
        reveal_strlit("proxy");
        reveal_strlit("file");
        reveal_strlit("directory");
        reveal_strlit("redirect");
    }
    let how = string_of(&w[2]);
    let mode = if str_eq(how.as_str(), "round-robin") {
        LoadBalancerMode::RoundRobin
    } else if str_eq(how.as_str(), "random") {
        LoadBalancerMode::Random
    } else {
        return None;
    };
    let mut targets: Vec<String> = Vec::new();
    let mut i: usize = 3;
    while i < w.len()
        invariant
            3 <= i <= w@.len(),
            views == line_views(w@),
            targets@.len() == i - 3,
            forall|k: int| 0 <= k < targets@.len() ==> (#[trigger] targets@[k])@ == views[k + 3],
        decreases w@.len() - i,
    {
        assert(views[i as int] == w@[i as int]@);
        targets.push(string_of(&w[i]));
        i += 1;
    }
    let route = RouteConfig {
        route_type: RouteType::Proxy,
        matches: string_of(&w[1]),
        path: None,
        load_balancer: Some(LoadBalancerConfig { targets, mode }),
        websocket_proxy: None,
    };
    let ghost pair = route_view(route).targets->0;
    assert(pair.1 =~= views.skip(3));
    Some(route)
}

impl Config {
    /// Takes away the hosts and the routes of the default host, so that the
    /// configuration serves nothing until routes are added.
    pub fn clear_routes(&mut self)
        ensures
            final(self).hosts@.len() == 0,
            final(self).default_host.routes@.len() == 0,
            final(self).default_host.matches == old(self).default_host.matches,
            final(self).address == old(self).address,
            final(self).port == old(self).port,
            final(self).threads == old(self).threads,
            final(self).connection_timeout == old(self).connection_timeout,
            final(self).default_websocket_proxy == old(self).default_websocket_proxy,
            final(self).tls_config == old(self).tls_config,
            final(self).plugins == old(self).plugins,
            final(self).logging == old(self).logging,
            final(self).cache == old(self).cache,
            final(self).blacklist == old(self).blacklist,
    {
        self.hosts.clear();
        self.default_host.routes.clear();
    }

    /// Adds a host without routes behind the hosts that there are.
    pub fn add_host(&mut self, pattern: &str)
        ensures
            final(self).hosts@.len() == old(self).hosts@.len() + 1,
            final(self).hosts@.last().matches@ == pattern@,
            final(self).hosts@.last().routes@.len() == 0,
            forall|i: int|
                0 <= i < old(self).hosts@.len() ==> final(self).hosts@[i] == old(self).hosts@[i],
            final(self).default_host == old(self).default_host,
            final(self).address == old(self).address,
            final(self).port == old(self).port,
            final(self).threads == old(self).threads,
            final(self).connection_timeout == old(self).connection_timeout,
            final(self).default_websocket_proxy == old(self).default_websocket_proxy,
            final(self).tls_config == old(self).tls_config,
            final(self).plugins == old(self).plugins,
            final(self).logging == old(self).logging,
            final(self).cache == old(self).cache,
            final(self).blacklist == old(self).blacklist,
    {
        self.hosts.push(HostConfig { matches: pattern.to_string(), routes: Vec::new() });
    }

    /// Adds a route behind the routes of the host that was added last, or of
    /// the default host where there is no other.
    pub fn add_route(&mut self, route: RouteConfig)
        ensures
            final(self).hosts@.len() == old(self).hosts@.len(),
            old(self).hosts@.len() == 0 ==> final(self).default_host.routes@
                == old(self).default_host.routes@.push(route) && final(self).default_host.matches
                == old(self).default_host.matches,
            old(self).hosts@.len() > 0 ==> final(self).default_host == old(self).default_host
                && final(self).hosts@.last().routes@ == old(self).hosts@.last().routes@.push(route)
                && final(self).hosts@.last().matches == old(self).hosts@.last().matches,
            forall|i: int|
                0 <= i < old(self).hosts@.len() - 1 ==> final(self).hosts@[i] == old(
                    self,
                ).hosts@[i],
            final(self).address == old(self).address,
            final(self).port == old(self).port,
            final(self).threads == old(self).threads,
            final(self).connection_timeout == old(self).connection_timeout,
            final(self).default_websocket_proxy == old(self).default_websocket_proxy,
            final(self).tls_config == old(self).tls_config,
            final(self).plugins == old(self).plugins,
            final(self).logging == old(self).logging,
            final(self).cache == old(self).cache,
            final(self).blacklist == old(self).blacklist,
    {
        let n = self.hosts.len();
        if n == 0 {
            self.default_host.routes.push(route);
        } else {
            self.hosts[n - 1].routes.push(route);
        }
    }
}

} // verus!
