//! The reverse proxy: which target a request goes to, what happens when a
//! target fails, and what is added to the response on its way back.

use vstd::prelude::*;
use vstd::slice::slice_to_vec;
use vstd::utf8::encode_utf8;
use crate::http::address::{ip_text, IpAddress};
use crate::http::headers::{HeaderType, HeaderView};
use crate::http::request::{Request, RequestView};
use crate::http::response::{Response, ResponseView};
use crate::http::status::StatusCode;
use crate::server::config::{LoadBalancerConfig, LoadBalancerMode};
use crate::server::static_files::page;

verus! {

/// The seconds for which a target that failed is passed over.
pub const COOLDOWN_SECONDS: u64 = 30;

/// What the proxy names itself in the `Via` header.
pub open spec fn via_text() -> Seq<char> {
    "1.1 humphrey"@
}

/// The targets of a proxy route with what is known of their health.
#[derive(Debug)]
pub struct LoadBalancer {
    targets: Vec<String>,
    mode: LoadBalancerMode,
    next: usize,
    resting_until: Vec<u64>,
}

/// What a load balancer is in contracts.
pub struct BalancerView {
    /// The targets.
    pub targets: Seq<Seq<char>>,
    /// How a target is picked.
    pub mode: LoadBalancerMode,
    /// The count of the requests so far, modulo the number of targets.
    pub next: nat,
    /// For each target, the time up to which it is passed over.
    pub resting_until: Seq<u64>,
}

impl BalancerView {
    /// Whether the view is in order: one time for each target, the count
    /// below the number of targets, and no more targets than can be counted.
    pub open spec fn ok(self) -> bool {
        self.resting_until.len() == self.targets.len() && self.targets.len() <= usize::MAX && (
        self.next < self.targets.len() || self.targets.len() == 0 && self.next == 0)
    }

    /// Whether the target at position `i` is in use at the time `now`.
    pub open spec fn healthy(self, i: int, now: u64) -> bool {
        self.resting_until[i] <= now
    }

    /// The first target in use at `now` among the `k` targets that follow
    /// `start` in the round, `start` itself first.
    pub open spec fn first_healthy(self, start: int, k: int, now: u64) -> Option<int>
        decreases k,
    {
        if k <= 0 || self.targets.len() == 0 {
            None
        } else if self.healthy(start % (self.targets.len() as int), now) {
            Some(start % (self.targets.len() as int))
        } else {
            self.first_healthy(start + 1, k - 1, now)
        }
    }

    /// Where the search for the target of a request starts: at the count for
    /// round robin, and at the random number, modulo the number of targets,
    /// for a random pick.
    pub open spec fn start(self, random: usize) -> int {
        match self.mode {
            LoadBalancerMode::RoundRobin => self.next as int,
            LoadBalancerMode::Random => if self.targets.len() == 0 {
                0
            } else {
                random as int % (self.targets.len() as int)
            },
        }
    }

    /// The view after a request was given its target: the count has gone on
    /// by one, modulo the number of targets.
    pub open spec fn counted(self) -> BalancerView {
        BalancerView {
            next: if self.targets.len() == 0 {
                0
            } else {
                ((self.next + 1) % self.targets.len()) as nat
            },
            ..self
        }
    }

    /// The view after the target at `i` failed at the time `now`: it is
    /// passed over until the cooldown is over.
    pub open spec fn rested(self, i: int, now: u64) -> BalancerView {
        BalancerView {
            resting_until: self.resting_until.update(
                i,
                if now + COOLDOWN_SECONDS > u64::MAX {
                    u64::MAX
                } else {
                    (now + COOLDOWN_SECONDS) as u64
                },
            ),
            ..self
        }
    }
}

/// What the search finds is a target in use; it finds none only where none
/// of the targets that it looks at is in use.
pub proof fn lemma_first_healthy(b: BalancerView, start: int, k: int, now: u64)
    requires
        b.ok(),
        0 <= start,
    ensures
        b.first_healthy(start, k, now) matches Some(t) ==> 0 <= t < b.targets.len() && b.healthy(
            t,
            now,
        ),
        b.first_healthy(start, k, now) is None ==> forall|j: int|
            0 <= j < k ==> !b.healthy(#[trigger] ((start + j) % (b.targets.len() as int)), now)
                || b.targets.len() == 0,
    decreases k,
{
    if k > 0 && b.targets.len() > 0 {
        let n = b.targets.len() as int;
        if !b.healthy(start % n, now) {
            lemma_first_healthy(b, start + 1, k - 1, now);
            assert forall|j: int| 0 <= j < k && b.first_healthy(start, k, now) is None implies !b.healthy(
                #[trigger] ((start + j) % n),
                now,
            ) by {
                if j > 0 {
                    assert((start + 1 + (j - 1)) % n == (start + j) % n);
                }
            }
        }
    }
}

/// The law of the rest: a target that failed is not picked again before its
/// cooldown is over, wherever the search starts. So a target that stays
/// down is marked once in a cooldown at most.
pub proof fn lemma_marked_target_rests(
    b: BalancerView,
    target: int,
    now: u64,
    later: u64,
    start: int,
    k: int,
)
    requires
        b.ok(),
        0 <= target < b.targets.len(),
        0 <= start,
        later < now + COOLDOWN_SECONDS,
        later < u64::MAX,
    ensures
        b.rested(target, now).first_healthy(start, k, later) != Some(target),
{
    let rested = b.rested(target, now);
    assert(rested.ok());
    assert(!rested.healthy(target, later));
    lemma_first_healthy(rested, start, k, later);
}

impl View for LoadBalancer {
    type V = BalancerView;

    closed spec fn view(&self) -> BalancerView {
        BalancerView {
            targets: Seq::new(self.targets@.len(), |i: int| self.targets@[i]@),
            mode: self.mode,
            next: self.next as nat,
            resting_until: self.resting_until@,
        }
    }
}

impl LoadBalancer {
    /// A load balancer over the configured targets, all of them in use.
    pub fn new(config: &LoadBalancerConfig) -> (r: LoadBalancer)
        ensures
            r@.ok(),
            r@.mode == config.mode,
            r@.next == 0,
            r@.targets == Seq::new(config.targets@.len(), |i: int| config.targets@[i]@),
            r@.resting_until == Seq::new(config.targets@.len(), |i: int| 0u64),
    {
        let mut targets: Vec<String> = Vec::new();
        let mut resting_until: Vec<u64> = Vec::new();
        let mut i: usize = 0;
        while i < config.targets.len()
            invariant
                i <= config.targets@.len(),
                targets@.len() == i,
                resting_until@.len() == i,
                forall|k: int| 0 <= k < i ==> (#[trigger] targets@[k])@ == config.targets@[k]@,
                forall|k: int| 0 <= k < i ==> #[trigger] resting_until@[k] == 0,
            decreases config.targets@.len() - i,
        {
            targets.push(config.targets[i].clone());
            resting_until.push(0);
            i += 1;
        }
        let r = LoadBalancer { targets, mode: config.mode, next: 0, resting_until };
        assert(r@.targets =~= Seq::new(config.targets@.len(), |i: int| config.targets@[i]@));
        assert(r@.resting_until =~= Seq::new(config.targets@.len(), |i: int| 0u64));
        r
    }

    /// The number of targets.
    pub fn len(&self) -> (r: usize)
        ensures
            r == self@.targets.len(),
    {
        self.targets.len()
    }

    /// The target at position `i`.
    pub fn target(&self, i: usize) -> (r: &str)
        requires
            i < self@.targets.len(),
        ensures
            r@ == self@.targets[i as int],
    {
        self.targets[i].as_str()
    }

    /// The first target in use at `now` among the `k` that follow `start`.
    fn search(&self, start: usize, k: usize, now: u64) -> (r: Option<usize>)
        requires
            self@.ok(),
            start < self@.targets.len() || self@.targets.len() == 0,
        ensures
            match self@.first_healthy(start as int, k as int, now) {
                Some(t) => r == Some(t as usize) && t < self@.targets.len(),
                None => r is None,
            },
    {
        let n = self.targets.len();
        if n == 0 {
            return None;
        }
        let mut at: usize = start;
        let mut left: usize = k;
        let ghost mut walked: int = start as int;
        proof {
            vstd::arithmetic::div_mod::lemma_small_mod(start as nat, n as nat);
        }
        while left > 0
            invariant
                n == self@.targets.len(),
                n > 0,
                self@.ok(),
                at < n,
                0 <= walked,
                at == walked % (n as int),
                self@.first_healthy(start as int, k as int, now) == self@.first_healthy(
                    walked,
                    left as int,
                    now,
                ),
            decreases left,
        {
            if self.resting_until[at] <= now {
                return Some(at);
            }
            proof {
                assert((walked + 1) % (n as int) == if at + 1 == n {
                    0
                } else {
                    at + 1
                }) by (nonlinear_arith)
                    requires
                        at == walked % (n as int),
                        0 <= walked,
                        0 <= at < n,
                ;
                walked = walked + 1;
            }
            at = if at + 1 == n {
                0
            } else {
                at + 1
            };
            left -= 1;
        }
        None
    }

    /// Picks the target of a request at the time `now`: the first target in
    /// use, looking from the count onward for round robin, and from the
    /// random number onward for a random pick. `None` where no target is in
    /// use. The count goes on by one.
    pub fn select(&mut self, random: usize, now: u64) -> (r: Option<usize>)
        requires
            old(self)@.ok(),
        ensures
            final(self)@.ok(),
            final(self)@ == old(self)@.counted(),
            match old(self)@.first_healthy(
                old(self)@.start(random),
                old(self)@.targets.len() as int,
                now,
            ) {
                Some(t) => r == Some(t as usize) && t < old(self)@.targets.len(),
                None => r is None,
            },
    {
        let n = self.targets.len();
        if n == 0 {
            assert(self@ =~= old(self)@.counted());
            return None;
        }
        let start = match self.mode {
            LoadBalancerMode::RoundRobin => self.next,
            LoadBalancerMode::Random => random % n,
        };
        let found = self.search(start, n, now);
        self.next = if self.next + 1 == n {
            0
        } else {
            self.next + 1
        };
        proof {
            let old_next = old(self)@.next as int;
            assert((old_next + 1) % (n as int) == self.next) by (nonlinear_arith)
                requires
                    0 <= old_next < n,
                    self.next == if old_next + 1 == n {
                        0int
                    } else {
                        old_next + 1
                    },
            ;
            assert(self@.targets =~= old(self)@.targets);
        }
        found
    }

    /// Notes that the target at position `target` failed at the time `now`,
    /// and picks the target for the one retry: the first target in use that
    /// follows the failed one in the round. `None` where no other target is
    /// in use.
    pub fn fail_over(&mut self, target: usize, now: u64) -> (r: Option<usize>)
        requires
            old(self)@.ok(),
            target < old(self)@.targets.len(),
        ensures
            final(self)@.ok(),
            final(self)@ == old(self)@.rested(target as int, now),
            match final(self)@.first_healthy(
                target + 1,
                old(self)@.targets.len() - 1,
                now,
            ) {
                Some(t) => r == Some(t as usize) && t < old(self)@.targets.len(),
                None => r is None,
            },
    {
        let n = self.targets.len();
        let until = now.saturating_add(COOLDOWN_SECONDS);
        self.resting_until.set(target, until);
        assert(self@.targets =~= old(self)@.targets);
        let start = if target + 1 == n {
            0
        } else {
            target + 1
        };
        proof {
            let m = n as int;
            assert((target + 1) % m == (start as int) % m) by (nonlinear_arith)
                requires
                    m > 0,
                    0 <= target < m,
                    start == if target + 1 == m {
                        0int
                    } else {
                        target + 1
                    },
            ;
            lemma_search_from_residue(self@, target + 1, start as int, n - 1, now);
        }
        self.search(start, n - 1, now)
    }
}

/// The search depends on its start only modulo the number of targets.
proof fn lemma_search_from_residue(b: BalancerView, a: int, c: int, k: int, now: u64)
    requires
        b.targets.len() > 0,
        0 <= a,
        0 <= c,
        a % (b.targets.len() as int) == c % (b.targets.len() as int),
    ensures
        b.first_healthy(a, k, now) == b.first_healthy(c, k, now),
    decreases k,
{
    if k > 0 {
        let n = b.targets.len() as int;
        assert((a + 1) % n == (c + 1) % n) by (nonlinear_arith)
            requires
                a % n == c % n,
                n > 0,
        ;
        lemma_search_from_residue(b, a + 1, c + 1, k - 1, now);
    }
}

/// Where the proxying of one request stands.
#[derive(Debug, Clone, Copy, PartialEq, Eq, Structural)]
pub enum ProxyState {
    /// No target has been tried.
    Start,
    /// The request is with the target at this position; `retried` says that
    /// it is the second target tried.
    Trying { target: usize, retried: bool },
    /// The request is done with.
    Done,
}

/// What came of the action that the proxy asked for.
#[derive(Debug, Clone, Copy, PartialEq, Eq, Structural)]
pub enum ProxyEvent {
    /// A request for the route has come in; `random` is a random number for
    /// a random pick, and `now` the time in seconds.
    Begin { random: usize, now: u64 },
    /// The target answered with a response that could be parsed.
    Answered,
    /// The target could not be reached, or its answer could not be parsed.
    Failed { now: u64 },
}

/// What the caller is to do next.
#[derive(Debug, Clone, Copy, PartialEq, Eq, Structural)]
pub enum ProxyAction {
    /// Send the request to the target at this position and read its answer.
    Send { target: usize, marked: Option<usize> },
    /// Return the target's answer, with the proxy's headers added.
    Return,
    /// Return 502.
    BadGateway { marked: Option<usize> },
}

/// Decides what is done next with a request on a proxy route. The request
/// goes to the target that the load balancer picks. A target that fails is
/// marked and passed over until its cooldown is over, and the request is
/// tried once more, on the next target in use. When that fails too, or no
/// target is in use, the answer is 502. `marked` names the target that was
/// just marked.
pub fn proxy_step(balancer: &mut LoadBalancer, state: ProxyState, event: ProxyEvent) -> (r: (
    ProxyState,
    ProxyAction,
))
    requires
        old(balancer)@.ok(),
    ensures
        final(balancer)@.ok(),
        r == proxy_next(old(balancer)@, state, event).1,
        final(balancer)@ == proxy_next(old(balancer)@, state, event).0,
{
    let n = balancer.len();
    match (state, event) {
        (ProxyState::Start, ProxyEvent::Begin { random, now }) => {
            match balancer.select(random, now) {
                Some(target) => (
                    ProxyState::Trying { target, retried: false },
                    ProxyAction::Send { target, marked: None },
                ),
                None => (ProxyState::Done, ProxyAction::BadGateway { marked: None }),
            }
        },
        (ProxyState::Trying { target, retried }, ProxyEvent::Failed { now }) => {
            if target >= n {
                (ProxyState::Done, ProxyAction::BadGateway { marked: None })
            } else {
                let next = balancer.fail_over(target, now);
                match next {
                    Some(other) => if retried {
                        (ProxyState::Done, ProxyAction::BadGateway { marked: Some(target) })
                    } else {
                        (
                            ProxyState::Trying { target: other, retried: true },
                            ProxyAction::Send { target: other, marked: Some(target) },
                        )
                    },
                    None => (ProxyState::Done, ProxyAction::BadGateway { marked: Some(target) }),
                }
            }
        },
        (ProxyState::Trying { target, retried }, ProxyEvent::Answered) => (
            ProxyState::Done,
            ProxyAction::Return,
        ),
        _ => (ProxyState::Done, ProxyAction::BadGateway { marked: None }),
    }
}

/// The load balancer afterwards, the state that follows and the action to
/// perform, for each state and event.
pub open spec fn proxy_next(b: BalancerView, state: ProxyState, event: ProxyEvent) -> (
    BalancerView,
    (ProxyState, ProxyAction),
) {
    match (state, event) {
        (ProxyState::Start, ProxyEvent::Begin { random, now }) => (
            b.counted(),
            match b.first_healthy(b.start(random), b.targets.len() as int, now) {
                Some(t) => (
                    ProxyState::Trying { target: t as usize, retried: false },
                    ProxyAction::Send { target: t as usize, marked: None },
                ),
                None => (ProxyState::Done, ProxyAction::BadGateway { marked: None }),
            },
        ),
        (ProxyState::Trying { target, retried }, ProxyEvent::Failed { now }) => if target
            >= b.targets.len() {
            (b, (ProxyState::Done, ProxyAction::BadGateway { marked: None }))
        } else {
            (
                b.rested(target as int, now),
                match b.rested(target as int, now).first_healthy(
                    target + 1,
                    b.targets.len() - 1,
                    now,
                ) {
                    Some(t) => if retried {
                        (ProxyState::Done, ProxyAction::BadGateway { marked: Some(target) })
                    } else {
                        (
                            ProxyState::Trying { target: t as usize, retried: true },
                            ProxyAction::Send { target: t as usize, marked: Some(target) },
                        )
                    },
                    None => (ProxyState::Done, ProxyAction::BadGateway { marked: Some(target) }),
                },
            )
        },
        (ProxyState::Trying { target, retried }, ProxyEvent::Answered) => (
            b,
            (ProxyState::Done, ProxyAction::Return),
        ),
        _ => (b, (ProxyState::Done, ProxyAction::BadGateway { marked: None })),
    }
}

/// The time that an event carries.
pub open spec fn time_of(event: ProxyEvent) -> u64 {
    match event {
        ProxyEvent::Begin { random, now } => now,
        ProxyEvent::Failed { now } => now,
        ProxyEvent::Answered => 0,
    }
}

/// The target that an action sends the request to.
pub open spec fn sent_to(action: ProxyAction) -> Option<usize> {
    match action {
        ProxyAction::Send { target, marked } => Some(target),
        _ => None,
    }
}

/// Whether a state is that of a request on its second target.
pub open spec fn on_retry(state: ProxyState) -> bool {
    match state {
        ProxyState::Trying { target, retried } => retried,
        _ => false,
    }
}

/// The law of the retry: a request is sent to a target only where the target
/// is in use at that time, it is sent on from its first target only, and a
/// request on its second target is done with after the next event. So it goes
/// to two targets at most.
pub proof fn lemma_proxy_sends_to_healthy(b: BalancerView, state: ProxyState, event: ProxyEvent)
    requires
        b.ok(),
    ensures
        proxy_next(b, state, event).0.ok(),
        sent_to(proxy_next(b, state, event).1.1) matches Some(target) ==> target < b.targets.len()
            && proxy_next(b, state, event).0.healthy(target as int, time_of(event)) && !on_retry(
            state,
        ),
        on_retry(state) ==> proxy_next(b, state, event).1.0 is Done,
{
    match (state, event) {
        (ProxyState::Start, ProxyEvent::Begin { random, now }) => {
            if b.targets.len() > 0 {
                assert(0 <= b.start(random)) by (nonlinear_arith)
                    requires
                        b.start(random) == b.next as int || b.start(random) == random as int % (
                        b.targets.len() as int),
                        b.targets.len() > 0,
                ;
            }
            lemma_first_healthy(b, b.start(random), b.targets.len() as int, now);
        },
        (ProxyState::Trying { target, retried }, ProxyEvent::Failed { now }) => {
            if target < b.targets.len() {
                lemma_first_healthy(
                    b.rested(target as int, now),
                    target + 1,
                    b.targets.len() - 1,
                    now,
                );
            }
        },
        _ => {},
    }
}

/// The response that the proxy hands back: the target's response with a
/// `Via` header and an `X-Forwarded-For` header that names the client, both
/// behind the headers that the response has.
pub open spec fn proxied(response: ResponseView, client: IpAddress) -> ResponseView {
    ResponseView {
        headers: response.headers.push(HeaderView { name: HeaderType::Via@, value: via_text() }).push(
            HeaderView {
                name: HeaderType::id_of_name("X-Forwarded-For"@),
                value: ip_text(client),
            },
        ),
        ..response
    }
}

/// Adds the proxy's headers to the response of a target.
pub fn proxy_response(response: Response, request: &Request) -> (r: Response)
    ensures
        r@ == proxied(response@, request@.address.origin_addr),
{
    let client = request.address.origin_addr.to_string();
    response.with_header(HeaderType::Via, "1.1 humphrey").with_header(
        "X-Forwarded-For",
        client.as_str(),
    )
}

/// The 502 response.
pub open spec fn bad_gateway_page(request: RequestView, date: Seq<char>) -> ResponseView {
    page(request, 502, "text/html"@, encode_utf8("<h1>502 Bad Gateway</h1>"@), date)
}

/// The 502 response to a request.
pub fn bad_gateway(request: &Request, date: &str) -> (r: Response)
    ensures
        r@ == bad_gateway_page(request@, date@),
{
    let body = slice_to_vec("<h1>502 Bad Gateway</h1>".as_bytes());
    let r = Response::new(StatusCode::BadGateway).with_header(
        HeaderType::ContentType,
        "text/html",
    ).with_bytes(body).with_request_compatibility(request).with_generated_headers(date);
    assert(r@.headers =~= bad_gateway_page(request@, date@).headers);
    r
}

} // verus!
