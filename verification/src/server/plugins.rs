//! Plugins: code from outside the server that sees every request before its
//! handler and every response before it is written, and may answer a request
//! in the handler's place.

use vstd::prelude::*;
use vstd::slice::slice_to_vec;
use vstd::utf8::encode_utf8;
use crate::http::headers::{custom_id, HeaderType, HeaderView};
use crate::http::request::{Request, RequestView};
use crate::http::response::{Response, ResponseView};
use crate::http::status::StatusCode;
use crate::server::config::RouteConfig;
use crate::server::server::AppState;
use crate::text::str_eq;

verus! {

/// What a plugin does. A plugin is a state with hooks. Every hook is given
/// the application state, and the request hook the route of the request as
/// well; what a hook does depends on the plugin's state and on what it is
/// given, and on nothing else.
pub trait Plugin: Sized {
    /// What `on_request` does: the plugin afterwards, the request afterwards,
    /// and the answer, if the plugin answers the request itself. Of a plugin
    /// that does not say what its hook does, nothing is known.
    open spec fn request_step(self, request: RequestView, state: AppState, route: RouteConfig) -> (
        Self,
        RequestView,
        Option<ResponseView>,
    ) {
        arbitrary()
    }

    /// What `on_response` does: the plugin afterwards and the response
    /// afterwards. Of a plugin that does not say what its hook does, nothing
    /// is known.
    open spec fn response_step(
        self,
        response: ResponseView,
        state: AppState,
    ) -> (Self, ResponseView) {
        arbitrary()
    }

    /// What `on_load` does: the plugin afterwards, and whether it is ready.
    /// Of a plugin that does not say what its hook does, nothing is known.
    open spec fn load_step(
        self,
        config: Seq<(Seq<char>, Seq<char>)>,
        state: AppState,
    ) -> (Self, LoadSpec) {
        arbitrary()
    }

    /// What `on_unload` does: the plugin afterwards. Of a plugin that does
    /// not say what its hook does, nothing is known.
    open spec fn unload_step(self, state: AppState) -> Self {
        arbitrary()
    }

    /// The name that the plugin goes by in the logs.
    fn name(&self) -> String;

    /// Called once, with the settings of the plugin, before the plugin sees
    /// any request. The plugin says whether it is ready.
    fn on_load(&mut self, config: &Vec<(String, String)>, state: &AppState) -> (r: LoadOutcome)
        ensures
            *final(self) == old(self).load_step(pairs_view(config@), *state).0,
            r@ == old(self).load_step(pairs_view(config@), *state).1,
    ;

    /// Called once, when the server shuts down.
    fn on_unload(&mut self, state: &AppState)
        ensures
            *final(self) == old(self).unload_step(*state),
    ;

    /// Called with every request before its handler. The plugin may change
    /// the request, and may answer it, which keeps the request from the
    /// plugins behind this one and from the handler.
    fn on_request(
        &mut self,
        request: &mut Request,
        state: &AppState,
        route: &RouteConfig,
    ) -> (r: Option<Response>)
        ensures
            *final(self) == old(self).request_step(old(request)@, *state, *route).0,
            final(request)@ == old(self).request_step(old(request)@, *state, *route).1,
            answer_view(r) == old(self).request_step(old(request)@, *state, *route).2,
    ;

    /// Called with every response before it is written. The plugin may
    /// change the response.
    fn on_response(&mut self, response: &mut Response, state: &AppState)
        ensures
            *final(self) == old(self).response_step(old(response)@, *state).0,
            final(response)@ == old(self).response_step(old(response)@, *state).1,
    ;
}

/// What a plugin says when it is loaded.
#[derive(Debug)]
pub enum LoadOutcome {
    /// The plugin is ready.
    Ready,
    /// The plugin cannot be used, and the server starts without it.
    NonFatal(String),
    /// The plugin cannot be used, and the server does not start.
    Fatal(String),
}

/// What a plugin says when it is loaded, in contracts.
pub enum LoadSpec {
    Ready,
    NonFatal(Seq<char>),
    Fatal(Seq<char>),
}

impl View for LoadOutcome {
    type V = LoadSpec;

    open spec fn view(&self) -> LoadSpec {
        match self {
            LoadOutcome::Ready => LoadSpec::Ready,
            LoadOutcome::NonFatal(message) => LoadSpec::NonFatal(message@),
            LoadOutcome::Fatal(message) => LoadSpec::Fatal(message@),
        }
    }
}

/// The views of a sequence of settings.
pub open spec fn pairs_view(s: Seq<(String, String)>) -> Seq<(Seq<char>, Seq<char>)> {
    Seq::new(s.len(), |i: int| (s[i].0@, s[i].1@))
}

/// What an optional response is in contracts.
pub open spec fn answer_view(r: Option<Response>) -> Option<ResponseView> {
    match r {
        Some(response) => Some(response@),
        None => None,
    }
}

/// The request hooks of the plugins, run in order on a request: each plugin
/// sees the request as the one before left it, up to and including the first
/// plugin that answers. The plugins behind that one stay as they are.
pub open spec fn chain_request<P: Plugin>(
    plugins: Seq<P>,
    request: RequestView,
    state: AppState,
    route: RouteConfig,
) -> (
    Seq<P>,
    RequestView,
    Option<ResponseView>,
)
    decreases plugins.len(),
{
    if plugins.len() == 0 {
        (plugins, request, None)
    } else {
        let step = plugins[0].request_step(request, state, route);
        match step.2 {
            Some(_) => (seq![step.0] + plugins.drop_first(), step.1, step.2),
            None => {
                let rest = chain_request(plugins.drop_first(), step.1, state, route);
                (seq![step.0] + rest.0, rest.1, rest.2)
            },
        }
    }
}

/// The response hooks of the plugins, run in order on a response: each
/// plugin sees the response as the one before left it.
pub open spec fn chain_response<P: Plugin>(
    plugins: Seq<P>,
    response: ResponseView,
    state: AppState,
) -> (
    Seq<P>,
    ResponseView,
)
    decreases plugins.len(),
{
    if plugins.len() == 0 {
        (plugins, response)
    } else {
        let step = plugins[0].response_step(response, state);
        let rest = chain_response(plugins.drop_first(), step.1, state);
        (seq![step.0] + rest.0, rest.1)
    }
}

/// The number of plugins whose request hook runs on a request: all of them
/// where none answers, and otherwise those up to and including the first
/// that does.
pub open spec fn consulted<P: Plugin>(
    plugins: Seq<P>,
    request: RequestView,
    state: AppState,
    route: RouteConfig,
) -> int
    decreases plugins.len(),
{
    if plugins.len() == 0 {
        0
    } else {
        let step = plugins[0].request_step(request, state, route);
        match step.2 {
            Some(_) => 1,
            None => 1 + consulted(plugins.drop_first(), step.1, state, route),
        }
    }
}

/// The request as the plugin at position `i` sees it.
pub open spec fn request_at<P: Plugin>(
    plugins: Seq<P>,
    request: RequestView,
    i: int,
    state: AppState,
    route: RouteConfig,
) -> RequestView
    decreases i,
{
    if i <= 0 {
        request
    } else {
        plugins[i - 1].request_step(
            request_at(plugins, request, i - 1, state, route),
            state,
            route,
        ).1
    }
}

/// The response as the plugin at position `i` sees it.
pub open spec fn response_at<P: Plugin>(
    plugins: Seq<P>,
    response: ResponseView,
    i: int,
    state: AppState,
) -> ResponseView
    decreases i,
{
    if i <= 0 {
        response
    } else {
        plugins[i - 1].response_step(response_at(plugins, response, i - 1, state), state).1
    }
}

/// The law of the answer: the request hook runs once on each plugin up to the
/// first that answers, in order, and on no plugin behind it. Every plugin
/// behind the one that answered is as it was.
pub proof fn lemma_no_request_hook_after_answer<P: Plugin>(
    plugins: Seq<P>,
    request: RequestView,
    state: AppState,
    route: RouteConfig,
)
    ensures
        chain_request(plugins, request, state, route).0.len() == plugins.len(),
        0 <= consulted(plugins, request, state, route) <= plugins.len(),
        chain_request(plugins, request, state, route).2 is Some ==> consulted(
            plugins,
            request,
            state,
            route,
        ) >= 1,
        chain_request(plugins, request, state, route).2 is None ==> consulted(
            plugins,
            request,
            state,
            route,
        ) == plugins.len(),
        forall|i: int|
            0 <= i < consulted(plugins, request, state, route) ==> #[trigger] chain_request(
                plugins,
                request,
                state,
                route,
            ).0[i] == plugins[i].request_step(
                request_at(plugins, request, i, state, route),
                state,
                route,
            ).0,
        forall|i: int|
            0 <= i < consulted(plugins, request, state, route) - 1 ==> (#[trigger] plugins[i]).request_step(
                request_at(plugins, request, i, state, route), state, route).2 is None,
        forall|i: int|
            consulted(plugins, request, state, route) <= i < plugins.len() ==> #[trigger] chain_request(
                plugins,
                request, state, route).0[i] == plugins[i],
    decreases plugins.len(),
{
    if plugins.len() > 0 {
        let step = plugins[0].request_step(request, state, route);
        let rest = plugins.drop_first();
        let out = chain_request(plugins, request, state, route).0;
        match step.2 {
            Some(_) => {
                assert forall|i: int| 1 <= i < plugins.len() implies #[trigger] out[i]
                    == plugins[i] by {
                    assert(out[i] == rest[i - 1]);
                }
            },
            None => {
                lemma_no_request_hook_after_answer(rest, step.1, state, route);
                let inner = chain_request(rest, step.1, state, route).0;
                let n = consulted(plugins, request, state, route);
                assert forall|i: int| 0 <= i < n implies #[trigger] out[i]
                    == plugins[i].request_step(
                    request_at(plugins, request, i, state, route),
                    state,
                    route,
                ).0 by {
                    if i > 0 {
                        assert(out[i] == inner[i - 1]);
                        assert(plugins[i] == rest[i - 1]);
                        lemma_request_at_shift(plugins, request, i, state, route);
                    }
                }
                assert forall|i: int| 0 <= i < n - 1 implies (#[trigger] plugins[i]).request_step(
                    request_at(plugins, request, i, state, route), state, route).2 is None by {
                    if i > 0 {
                        assert(plugins[i] == rest[i - 1]);
                        lemma_request_at_shift(plugins, request, i, state, route);
                    }
                }
                assert forall|i: int| n <= i < plugins.len() implies #[trigger] out[i]
                    == plugins[i] by {
                    assert(out[i] == inner[i - 1]);
                    assert(plugins[i] == rest[i - 1]);
                }
            },
        }
    }
}

/// The request that a plugin sees, counted from the second plugin on.
proof fn lemma_request_at_shift<P: Plugin>(
    plugins: Seq<P>,
    request: RequestView,
    i: int,
    state: AppState,
    route: RouteConfig,
)
    requires
        1 <= i <= plugins.len(),
    ensures
        request_at(plugins, request, i, state, route) == request_at(
            plugins.drop_first(),
            plugins[0].request_step(request, state, route).1,
            i - 1, state, route),
    decreases i,
{
    let rest = plugins.drop_first();
    let next = plugins[0].request_step(request, state, route).1;
    if i > 1 {
        lemma_request_at_shift(plugins, request, i - 1, state, route);
        assert(plugins[i - 1] == rest[i - 2]);
        assert(request_at(rest, next, i - 1, state, route) == rest[i - 2].request_step(
            request_at(rest, next, i - 2, state, route), state, route).1);
    } else {
        assert(request_at(plugins, request, 0, state, route) == request);
        assert(request_at(rest, next, 0, state, route) == next);
    }
}

/// The response that a plugin sees, counted from the second plugin on.
proof fn lemma_response_at_shift<P: Plugin>(
    plugins: Seq<P>,
    response: ResponseView,
    i: int,
    state: AppState,
)
    requires
        1 <= i <= plugins.len(),
    ensures
        response_at(plugins, response, i, state) == response_at(
            plugins.drop_first(),
            plugins[0].response_step(response, state).1,
            i - 1, state),
    decreases i,
{
    let rest = plugins.drop_first();
    let next = plugins[0].response_step(response, state).1;
    if i > 1 {
        lemma_response_at_shift(plugins, response, i - 1, state);
        assert(plugins[i - 1] == rest[i - 2]);
        assert(response_at(rest, next, i - 1, state) == rest[i - 2].response_step(
            response_at(rest, next, i - 2, state), state).1);
    } else {
        assert(response_at(plugins, response, 0, state) == response);
        assert(response_at(rest, next, 0, state) == next);
    }
}

/// The law of the response hooks: on every response the hook of every plugin
/// runs exactly once, in load order, each on the response as the plugin
/// before it left it; and what is written is the response as the last plugin
/// left it.
pub proof fn lemma_every_response_hook_runs_once<P: Plugin>(
    plugins: Seq<P>,
    response: ResponseView, state: AppState)
    ensures
        chain_response(plugins, response, state).0.len() == plugins.len(),
        forall|i: int|
            0 <= i < plugins.len() ==> #[trigger] chain_response(plugins, response, state).0[i]
                == plugins[i].response_step(response_at(plugins, response, i, state), state).0,
        chain_response(plugins, response, state).1 == response_at(
            plugins,
            response,
            plugins.len() as int, state),
    decreases plugins.len(),
{
    if plugins.len() > 0 {
        let step = plugins[0].response_step(response, state);
        let rest = plugins.drop_first();
        lemma_every_response_hook_runs_once(rest, step.1, state);
        let out = chain_response(plugins, response, state).0;
        let inner = chain_response(rest, step.1, state).0;
        assert forall|i: int| 0 <= i < plugins.len() implies #[trigger] out[i]
            == plugins[i].response_step(response_at(plugins, response, i, state), state).0 by {
            if i > 0 {
                assert(out[i] == inner[i - 1]);
                assert(plugins[i] == rest[i - 1]);
                lemma_response_at_shift(plugins, response, i, state);
            }
        }
        lemma_response_at_shift(plugins, response, plugins.len() as int, state);
    }
}

/// The plugins that were loaded, in load order.
pub struct PluginManager<P: Plugin> {
    plugins: Vec<P>,
}

impl<P: Plugin> View for PluginManager<P> {
    type V = Seq<P>;

    closed spec fn view(&self) -> Seq<P> {
        self.plugins@
    }
}

impl<P: Plugin> PluginManager<P> {
    /// A manager without plugins.
    pub fn new() -> (r: Self)
        ensures
            r@ == Seq::<P>::empty(),
    {
        PluginManager { plugins: Vec::new() }
    }

    /// Adds a plugin behind those that are loaded.
    pub fn add_plugin(&mut self, plugin: P)
        ensures
            final(self)@ == old(self)@.push(plugin),
    {
        self.plugins.push(plugin);
    }

    /// The number of plugins.
    pub fn plugin_count(&self) -> (r: usize)
        ensures
            r == self@.len(),
    {
        self.plugins.len()
    }

    /// Tells every plugin, in load order, that the server shuts down.
    pub fn unload(&mut self, state: &AppState)
        ensures
            final(self)@ == unloaded(old(self)@, *state),
    {
        let n = self.plugins.len();
        let ghost before = self.plugins@;
        let mut i: usize = 0;
        while i < n
            invariant
                i <= n,
                n == before.len(),
                before == old(self)@,
                self.plugins@.len() == n,
                forall|k: int|
                    0 <= k < i ==> #[trigger] self.plugins@[k] == before[k].unload_step(*state),
                forall|k: int| i <= k < n ==> #[trigger] self.plugins@[k] == before[k],
            decreases n - i,
        {
            self.plugins[i].on_unload(state);
            i += 1;
        }
        assert(self.plugins@ =~= unloaded(before, *state));
    }

    /// Runs the request hooks on a request, in load order, up to the first
    /// plugin that answers.
    pub fn on_request(
        &mut self,
        request: &mut Request,
        state: &AppState,
        route: &RouteConfig,
    ) -> (r: Option<Response>)
        ensures
            final(self)@ == chain_request(old(self)@, old(request)@, *state, *route).0,
            final(request)@ == chain_request(old(self)@, old(request)@, *state, *route).1,
            answer_view(r) == chain_request(old(self)@, old(request)@, *state, *route).2,
    {
        let n = self.plugins.len();
        let ghost before = self.plugins@;
        let ghost first = request@;
        let mut i: usize = 0;
        assert(before.skip(0) =~= before);
        let ghost whole = chain_request(before, first, *state, *route).0;
        assert(before.take(0) + whole =~= whole) by {
            lemma_no_request_hook_after_answer(before, first, *state, *route);
        }
        while i < n
            invariant
                i <= n,
                n == before.len(),
                before == old(self)@,
                first == old(request)@,
                self.plugins@.len() == n,
                self.plugins@.skip(i as int) == before.skip(i as int),
                chain_request(before, first, *state, *route).0 == self.plugins@.take(i as int) + chain_request(
                    before.skip(i as int),
                    request@, *state, *route).0,
                chain_request(before, first, *state, *route).1 == chain_request(
                    before.skip(i as int),
                    request@,
                    *state,
                    *route,
                ).1,
                chain_request(before, first, *state, *route).2 == chain_request(
                    before.skip(i as int),
                    request@,
                    *state,
                    *route,
                ).2,
            decreases n - i,
        {
            let ghost rest = before.skip(i as int);
            let ghost seen = request@;
            let ghost held = self.plugins@;
            assert(rest[0] == self.plugins@[i as int]) by {
                assert(rest[0] == self.plugins@.skip(i as int)[0]);
            }
            let answer = self.plugins[i].on_request(request, state, route);
            proof {
                let step = rest[0].request_step(seen, *state, *route);
                assert(self.plugins@ =~= held.update(i as int, step.0));
                assert forall|j: int| i < j < n implies #[trigger] self.plugins@[j]
                    == before[j] by {
                    assert(held.skip(i as int)[j - i] == before.skip(i as int)[j - i]);
                }
                assert(self.plugins@.skip(i + 1) =~= before.skip(i + 1));
                assert(rest.drop_first() =~= before.skip(i + 1));
                assert(self.plugins@.take(i + 1) =~= held.take(i as int) + seq![step.0]);
                lemma_no_request_hook_after_answer(before.skip(i + 1), step.1, *state, *route);
                if step.2 is Some {
                    assert(chain_request(rest, seen, *state, *route) == (
                        seq![step.0] + rest.drop_first(),
                        step.1,
                        step.2,
                    ));
                    assert(held.take(i as int) + (seq![step.0] + rest.drop_first())
                        =~= self.plugins@);
                    assert(answer is Some);
                } else {
                    assert(answer is None);
                    let inner = chain_request(before.skip(i + 1), step.1, *state, *route).0;
                    assert(held.take(i as int) + (seq![step.0] + inner) =~= self.plugins@.take(
                        i + 1,
                    ) + inner);
                }
            }
            if answer.is_some() {
                return answer;
            }
            i += 1;
        }
        proof {
            assert(before.skip(i as int) =~= Seq::<P>::empty());
            assert(self.plugins@.take(i as int) =~= self.plugins@);
            assert(self.plugins@ + Seq::<P>::empty() =~= self.plugins@);
        }
        None
    }

    /// Runs the response hooks on a response, each once, in load order.
    pub fn on_response(&mut self, response: &mut Response, state: &AppState)
        ensures
            final(self)@ == chain_response(old(self)@, old(response)@, *state).0,
            final(response)@ == chain_response(old(self)@, old(response)@, *state).1,
    {
        let n = self.plugins.len();
        let ghost before = self.plugins@;
        let ghost first = response@;
        let mut i: usize = 0;
        assert(before.skip(0) =~= before);
        assert(before.take(0) + chain_response(before, first, *state).0 =~= chain_response(
            before,
            first, *state).0) by {
            lemma_every_response_hook_runs_once(before, first, *state);
        }
        while i < n
            invariant
                i <= n,
                n == before.len(),
                self.plugins@.len() == n,
                self.plugins@.skip(i as int) == before.skip(i as int),
                chain_response(before, first, *state).0 == self.plugins@.take(i as int) + chain_response(
                    before.skip(i as int),
                    response@, *state).0,
                chain_response(before, first, *state).1 == chain_response(
                    before.skip(i as int),
                    response@, *state).1,
            decreases n - i,
        {
            let ghost rest = before.skip(i as int);
            let ghost seen = response@;
            let ghost held = self.plugins@;
            assert(rest[0] == self.plugins@[i as int]) by {
                assert(rest[0] == self.plugins@.skip(i as int)[0]);
            }
            self.plugins[i].on_response(response, state);
            proof {
                let step = rest[0].response_step(seen, *state);
                assert(self.plugins@ =~= held.update(i as int, step.0));
                assert forall|j: int| i < j < n implies #[trigger] self.plugins@[j]
                    == before[j] by {
                    assert(held.skip(i as int)[j - i] == before.skip(i as int)[j - i]);
                }
                assert(self.plugins@.skip(i + 1) =~= before.skip(i + 1));
                assert(rest.drop_first() =~= before.skip(i + 1));
                assert(self.plugins@.take(i + 1) =~= held.take(i as int) + seq![step.0]);
                lemma_every_response_hook_runs_once(before.skip(i + 1), step.1, *state);
                let inner = chain_response(before.skip(i + 1), step.1, *state).0;
                assert(held.take(i as int) + (seq![step.0] + inner) =~= self.plugins@.take(i + 1)
                    + inner);
            }
            i += 1;
        }
        proof {
            assert(before.skip(i as int) =~= Seq::<P>::empty());
            assert(self.plugins@.take(i as int) =~= self.plugins@);
            assert(self.plugins@ + Seq::<P>::empty() =~= self.plugins@);
        }
    }
}

/// A plugin that is to be loaded, with its settings.
pub struct Candidate<P: Plugin> {
    pub plugin: P,
    pub config: Vec<(String, String)>,
}

/// What loading the plugins came to.
#[derive(Debug)]
pub struct LoadReport {
    /// The plugins that were passed over, each with its position among the
    /// candidates and what it said.
    pub skipped: Vec<(usize, String)>,
    /// The plugin at which loading stopped, with its position among the
    /// candidates and what it said. With it, the server must not start.
    pub fatal: Option<(usize, String)>,
}

/// The plugins that are in use after the candidates were loaded, in order:
/// those that were ready, each as its load hook left it, up to the first
/// that failed fatally.
pub open spec fn loaded<P: Plugin>(candidates: Seq<Candidate<P>>, state: AppState) -> Seq<P>
    decreases candidates.len(),
{
    if candidates.len() == 0 {
        Seq::empty()
    } else {
        let step = candidates[0].plugin.load_step(pairs_view(candidates[0].config@), state);
        match step.1 {
            LoadSpec::Ready => seq![step.0] + loaded(candidates.drop_first(), state),
            LoadSpec::NonFatal(_) => loaded(candidates.drop_first(), state),
            LoadSpec::Fatal(_) => Seq::empty(),
        }
    }
}

/// The candidates that were passed over before any failed fatally, each
/// with its position, counted from `at`, and what it said.
pub open spec fn skipped<P: Plugin>(candidates: Seq<Candidate<P>>, at: int, state: AppState) -> Seq<
    (int, Seq<char>),
>
    decreases candidates.len(),
{
    if candidates.len() == 0 {
        Seq::empty()
    } else {
        let step = candidates[0].plugin.load_step(pairs_view(candidates[0].config@), state);
        match step.1 {
            LoadSpec::Ready => skipped(candidates.drop_first(), at + 1, state),
            LoadSpec::NonFatal(message) => seq![(at, message)] + skipped(
                candidates.drop_first(),
                at + 1, state),
            LoadSpec::Fatal(_) => Seq::empty(),
        }
    }
}

/// The first candidate that failed fatally, with its position, counted from
/// `at`, and what it said.
pub open spec fn fatal<P: Plugin>(
    candidates: Seq<Candidate<P>>,
    at: int,
    state: AppState,
) -> Option<
    (int, Seq<char>),
>
    decreases candidates.len(),
{
    if candidates.len() == 0 {
        None
    } else {
        let step = candidates[0].plugin.load_step(pairs_view(candidates[0].config@), state);
        match step.1 {
            LoadSpec::Fatal(message) => Some((at, message)),
            _ => fatal(candidates.drop_first(), at + 1, state),
        }
    }
}

/// The views of the notes of a report.
pub open spec fn notes_view(s: Seq<(usize, String)>) -> Seq<(int, Seq<char>)> {
    Seq::new(s.len(), |i: int| (s[i].0 as int, s[i].1@))
}

/// Loads the plugins, in order: each is called with its settings, and joins
/// the manager if it is ready. A plugin that fails is passed over. At the
/// first plugin that fails fatally loading stops, and the server must not
/// start.
pub fn load_plugins<P: Plugin>(
    manager: &mut PluginManager<P>,
    candidates: Vec<Candidate<P>>,
    state: &AppState,
) -> (r:
    LoadReport)
    ensures
        final(manager)@ == old(manager)@ + loaded(candidates@, *state),
        notes_view(r.skipped@) == skipped(candidates@, 0, *state),
        match fatal(candidates@, 0, *state) {
            Some((i, message)) => r.fatal matches Some(note) && note.0 == i && note.1@ == message,
            None => r.fatal is None,
        },
{
    let mut pending = candidates;
    let ghost all = pending@;
    let ghost before = manager@;
    let n = pending.len();
    let mut taken: usize = 0;
    let mut notes: Vec<(usize, String)> = Vec::new();
    assert(all.skip(0) =~= all);
    assert(notes_view(notes@) + skipped(all, 0, *state) =~= skipped(all, 0, *state));
    while pending.len() > 0
        invariant
            before == old(manager)@,
            all == candidates@,
            n == all.len(),
            taken + pending@.len() == n,
            pending@ == all.skip(taken as int),
            before + loaded(all, *state) == manager@ + loaded(pending@, *state),
            skipped(all, 0, *state) == notes_view(notes@) + skipped(pending@, taken as int, *state),
            fatal(all, 0, *state) == fatal(pending@, taken as int, *state),
        decreases pending@.len(),
    {
        let ghost rest = pending@;
        let ghost held = manager@;
        let ghost noted = notes_view(notes@);
        let candidate = pending.remove(0);
        assert(pending@ =~= rest.drop_first());
        assert(pending@ =~= all.skip(taken + 1));
        let mut plugin = candidate.plugin;
        let outcome = plugin.on_load(&candidate.config, state);
        match outcome {
            LoadOutcome::Ready => {
                manager.add_plugin(plugin);
                let ghost others = loaded(rest.drop_first(), *state);
                assert(held + (seq![plugin] + others) =~= held.push(plugin) + others);
            },
            LoadOutcome::NonFatal(message) => {
                notes.push((taken, message));
                let ghost later = skipped(rest.drop_first(), taken + 1, *state);
                assert(noted + (seq![(taken as int, message@)] + later) =~= notes_view(notes@)
                    + later);
            },
            LoadOutcome::Fatal(message) => {
                assert(held + Seq::<P>::empty() =~= held);
                assert(noted + Seq::<(int, Seq<char>)>::empty() =~= noted);
                return LoadReport { skipped: notes, fatal: Some((taken, message)) };
            },
        }
        taken += 1;
    }
    assert(manager@ + Seq::<P>::empty() =~= manager@);
    assert(notes_view(notes@) + Seq::<(int, Seq<char>)>::empty() =~= notes_view(notes@));
    LoadReport { skipped: notes, fatal: None }
}

/// The plugins after each of them was told that the server shuts down.
pub open spec fn unloaded<P: Plugin>(plugins: Seq<P>, state: AppState) -> Seq<P> {
    Seq::new(plugins.len(), |i: int| plugins[i].unload_step(state))
}

/// A plugin that answers every request for `/override` itself and marks
/// every response with the header `X-Example-Plugin: true`.
#[derive(Debug, Default, Clone, Copy)]
pub struct ExamplePlugin;

/// The answer of the example plugin, in the protocol version of the request.
pub open spec fn example_answer(request: RequestView) -> ResponseView {
    ResponseView {
        version: request.version,
        status: 200,
        headers: seq![HeaderView { name: HeaderType::ContentType@, value: "text/plain"@ }],
        body: encode_utf8("Response overridden by example plugin :)"@),
    }
}

impl Plugin for ExamplePlugin {
    open spec fn request_step(self, request: RequestView, state: AppState, route: RouteConfig) -> (
        Self,
        RequestView,
        Option<ResponseView>,
    ) {
        (
            self,
            request,
            if request.uri == "/override"@ {
                Some(example_answer(request))
            } else {
                None
            },
        )
    }

    open spec fn response_step(
        self,
        response: ResponseView,
        state: AppState,
    ) -> (Self, ResponseView) {
        (
            self,
            ResponseView {
                headers: response.headers.push(
                    HeaderView { name: custom_id("X-Example-Plugin"@), value: "true"@ },
                ),
                ..response
            },
        )
    }

    open spec fn load_step(
        self,
        config: Seq<(Seq<char>, Seq<char>)>,
        state: AppState,
    ) -> (Self, LoadSpec) {
        (self, LoadSpec::Ready)
    }

    open spec fn unload_step(self, state: AppState) -> Self {
        self
    }

    fn name(&self) -> (r: String)
        ensures
            r@ == "Example Plugin"@,
    {
        "Example Plugin".to_string()
    }

    fn on_load(&mut self, config: &Vec<(String, String)>, state: &AppState) -> (r: LoadOutcome) {
        LoadOutcome::Ready
    }

    fn on_unload(&mut self, state: &AppState) {
    }

    fn on_request(
        &mut self,
        request: &mut Request,
        state: &AppState,
        route: &RouteConfig,
    ) -> (r: Option<Response>) {
        if str_eq(request.uri.as_str(), "/override") {
            let body = slice_to_vec("Response overridden by example plugin :)".as_bytes());
            let response = Response::new(StatusCode::OK).with_bytes(body).with_header(
                HeaderType::ContentType,
                "text/plain",
            ).with_request_compatibility(request);
            assert(response@.headers =~= example_answer(request@).headers);
            Some(response)
        } else {
            None
        }
    }

    fn on_response(&mut self, response: &mut Response, state: &AppState) {
        response.headers.add(HeaderType::Custom("X-Example-Plugin".to_string()), "true");
    }
}

} // verus!
