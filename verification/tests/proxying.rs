use humphrey::http::address::{Address, IpAddress};
use humphrey::http::parse::Parsed;
use humphrey::http::request::Request;
use humphrey::http::response::Response;
use humphrey::http::status::StatusCode;
use humphrey::server::config::{LoadBalancerConfig, LoadBalancerMode};
use humphrey::server::config::LogLevel;
use humphrey::server::connection::{
    connection_step, log_level_of, status_of, ConnectionAction, ConnectionEvent, ConnectionState,
    ErrorKind,
};
use humphrey::server::proxy::{
    bad_gateway, proxy_response, proxy_step, LoadBalancer, ProxyAction, ProxyEvent, ProxyState,
    COOLDOWN_SECONDS,
};
use humphrey::server::websocket::{
    splice_start, splice_step, SpliceAction, SpliceEvent, SpliceState, BUFFER_SIZE, PARK_MILLIS,
};

fn balancer(targets: &[&str], mode: LoadBalancerMode) -> LoadBalancer {
    LoadBalancer::new(&LoadBalancerConfig {
        targets: targets.iter().map(|t| t.to_string()).collect(),
        mode,
    })
}

fn sent(action: ProxyAction) -> usize {
    match action {
        ProxyAction::Send { target, .. } => target,
        other => panic!("{:?}", other),
    }
}

#[test]
fn round_robin_takes_the_targets_in_turn() {
    let mut balancer = balancer(&["a:1", "b:2", "c:3"], LoadBalancerMode::RoundRobin);
    assert_eq!(balancer.len(), 3);
    assert_eq!(balancer.target(1), "b:2");
    let picks: Vec<Option<usize>> = (0..7).map(|_| balancer.select(99, 0)).collect();
    assert_eq!(picks, vec![Some(0), Some(1), Some(2), Some(0), Some(1), Some(2), Some(0)]);
}

#[test]
fn a_random_pick_is_the_number_modulo_the_pool() {
    let mut balancer = balancer(&["a:1", "b:2", "c:3"], LoadBalancerMode::Random);
    assert_eq!(balancer.select(0, 0), Some(0));
    assert_eq!(balancer.select(4, 0), Some(1));
    assert_eq!(balancer.select(8, 0), Some(2));
    assert_eq!(balancer.select(usize::MAX, 0), Some(usize::MAX % 3));
}

#[test]
fn without_targets_there_is_nothing_to_pick() {
    let mut balancer = balancer(&[], LoadBalancerMode::RoundRobin);
    assert_eq!(balancer.select(5, 0), None);
    let (state, action) =
        proxy_step(&mut balancer, ProxyState::Start, ProxyEvent::Begin { random: 1, now: 0 });
    assert_eq!(state, ProxyState::Done);
    assert_eq!(action, ProxyAction::BadGateway { marked: None });
}

#[test]
fn a_failed_target_is_marked_once_and_both_requests_succeed_on_the_other() {
    let mut balancer = balancer(&["down:1", "up:2"], LoadBalancerMode::RoundRobin);
    let mut markings = Vec::new();
    for now in [100, 101] {
        let (state, action) =
            proxy_step(&mut balancer, ProxyState::Start, ProxyEvent::Begin { random: 0, now });
        let mut state = state;
        let mut target = sent(action);
        if target == 0 {
            let (next, action) = proxy_step(&mut balancer, state, ProxyEvent::Failed { now });
            if let ProxyAction::Send { marked: Some(m), .. } = action {
                markings.push(m);
            }
            state = next;
            target = sent(action);
        }
        assert_eq!(target, 1);
        let (done, action) = proxy_step(&mut balancer, state, ProxyEvent::Answered);
        assert_eq!(done, ProxyState::Done);
        assert_eq!(action, ProxyAction::Return);
    }
    assert_eq!(markings, vec![0]);
}

#[test]
fn a_marked_target_is_used_again_when_its_cooldown_is_over() {
    let mut balancer = balancer(&["a:1", "b:2"], LoadBalancerMode::RoundRobin);
    assert_eq!(balancer.fail_over(0, 1000), Some(1));
    assert_eq!(balancer.select(0, 1000), Some(1));
    assert_eq!(balancer.select(0, 1000 + COOLDOWN_SECONDS - 1), Some(1));
    assert_eq!(balancer.select(0, 1000 + COOLDOWN_SECONDS - 1), Some(1));
    assert_eq!(balancer.select(0, 1000 + COOLDOWN_SECONDS - 1), Some(1));
    assert_eq!(balancer.select(0, 1000 + COOLDOWN_SECONDS), Some(0));
    assert_eq!(balancer.fail_over(1, u64::MAX - 1), Some(0));
    assert_eq!(balancer.select(0, u64::MAX - 1), Some(0));
    assert_eq!(balancer.select(0, u64::MAX), Some(0));
    assert_eq!(balancer.select(0, u64::MAX), Some(1));
}

#[test]
fn when_both_tries_fail_the_answer_is_502() {
    let mut balancer = balancer(&["a:1", "b:2", "c:3"], LoadBalancerMode::RoundRobin);
    let (state, action) =
        proxy_step(&mut balancer, ProxyState::Start, ProxyEvent::Begin { random: 0, now: 5 });
    assert_eq!(action, ProxyAction::Send { target: 0, marked: None });
    let (state, action) = proxy_step(&mut balancer, state, ProxyEvent::Failed { now: 5 });
    assert_eq!(state, ProxyState::Trying { target: 1, retried: true });
    assert_eq!(action, ProxyAction::Send { target: 1, marked: Some(0) });
    let (state, action) = proxy_step(&mut balancer, state, ProxyEvent::Failed { now: 5 });
    assert_eq!(state, ProxyState::Done);
    assert_eq!(action, ProxyAction::BadGateway { marked: Some(1) });
    assert_eq!(balancer.select(0, 6), Some(2));
    let (_, action) = proxy_step(&mut balancer, ProxyState::Done, ProxyEvent::Answered);
    assert_eq!(action, ProxyAction::BadGateway { marked: None });
}

#[test]
fn with_every_target_resting_the_answer_is_502() {
    let mut balancer = balancer(&["a:1"], LoadBalancerMode::RoundRobin);
    let (state, _) =
        proxy_step(&mut balancer, ProxyState::Start, ProxyEvent::Begin { random: 0, now: 5 });
    let (state, action) = proxy_step(&mut balancer, state, ProxyEvent::Failed { now: 5 });
    assert_eq!(state, ProxyState::Done);
    assert_eq!(action, ProxyAction::BadGateway { marked: Some(0) });
    let (_, action) =
        proxy_step(&mut balancer, ProxyState::Start, ProxyEvent::Begin { random: 0, now: 6 });
    assert_eq!(action, ProxyAction::BadGateway { marked: None });
}

#[test]
fn the_proxy_appends_its_headers_to_the_response() {
    let request = match Request::parse(
        b"GET / HTTP/1.1\r\nHost: x\r\n\r\n",
        Address::new(IpAddress::V4(0xc0a8_0a01), 9),
    ) {
        Parsed::Complete { value, .. } => value,
        _ => panic!("the request is complete"),
    };
    let response = Response::new(StatusCode::OK)
        .with_header("Via", "1.0 upstream")
        .with_header("X-Forwarded-For", "198.51.100.1")
        .with_bytes(b"ok".to_vec());
    let response = proxy_response(response, &request);
    assert_eq!(response.headers.get_all("Via"), vec!["1.0 upstream", "1.1 humphrey"]);
    assert_eq!(response.headers.get_all("X-Forwarded-For"), vec!["198.51.100.1", "192.168.10.1"]);
    assert_eq!(response.body, b"ok".to_vec());
    let page = bad_gateway(&request, "now");
    assert!(page.status_code == StatusCode::BadGateway);
    assert_eq!(page.body, b"<h1>502 Bad Gateway</h1>".to_vec());
    assert_eq!(page.headers.get("Content-Type"), Some("text/html"));
}

#[test]
fn addresses_are_written_in_full() {
    assert_eq!(IpAddress::V4(0).to_string(), "0.0.0.0");
    assert_eq!(IpAddress::V4(0x7f00_0001).to_string(), "127.0.0.1");
    assert_eq!(IpAddress::V4(u32::MAX).to_string(), "255.255.255.255");
    assert_eq!(IpAddress::V4(0x0102_0304).to_string(), "1.2.3.4");
    assert_eq!(IpAddress::V6(1).to_string(), "0:0:0:0:0:0:0:1");
    assert_eq!(
        IpAddress::V6(0x2001_0db8_0000_0000_0000_ff00_0042_8329).to_string(),
        "2001:db8:0:0:0:ff00:42:8329"
    );
    assert_eq!(IpAddress::V6(u128::MAX).to_string(), "ffff:ffff:ffff:ffff:ffff:ffff:ffff:ffff");
}

fn walk(events: &[SpliceEvent]) -> (SpliceState, Vec<SpliceAction>) {
    let mut state = splice_start();
    let mut actions = Vec::new();
    for event in events {
        let (next, action) = splice_step(state, *event);
        state = next;
        actions.push(action);
    }
    (state, actions)
}

#[test]
fn a_splice_carries_what_it_reads_to_the_other_side() {
    let (state, actions) = walk(&[
        SpliceEvent::Connected,
        SpliceEvent::Written,
        SpliceEvent::Read(7),
        SpliceEvent::Read(1024),
        SpliceEvent::Written,
        SpliceEvent::Written,
        SpliceEvent::Woken,
        SpliceEvent::WouldBlock,
        SpliceEvent::Read(3),
        SpliceEvent::Written,
        SpliceEvent::Woken,
        SpliceEvent::WouldBlock,
        SpliceEvent::WouldBlock,
        SpliceEvent::Woken,
    ]);
    assert_eq!(state, SpliceState::ReadingSource);
    assert_eq!(
        actions,
        vec![
            SpliceAction::WriteGreeting,
            SpliceAction::ReadSource(BUFFER_SIZE),
            SpliceAction::ReadDestination(BUFFER_SIZE),
            SpliceAction::WriteToDestination(7),
            SpliceAction::WriteToSource(1024),
            SpliceAction::Park(PARK_MILLIS),
            SpliceAction::ReadSource(1024),
            SpliceAction::ReadDestination(1024),
            SpliceAction::WriteToSource(3),
            SpliceAction::Park(10),
            SpliceAction::ReadSource(1024),
            SpliceAction::ReadDestination(1024),
            SpliceAction::Park(10),
            SpliceAction::ReadSource(1024),
        ]
    );
}

#[test]
fn a_splice_ends_when_either_side_ends_or_fails() {
    let closed = (SpliceState::Closed, SpliceAction::Close);
    assert_eq!(splice_step(SpliceState::Connecting, SpliceEvent::ConnectFailed), closed);
    assert_eq!(splice_step(SpliceState::Greeting, SpliceEvent::WriteFailed), closed);
    assert_eq!(splice_step(SpliceState::ReadingSource, SpliceEvent::EndOfStream), closed);
    assert_eq!(splice_step(SpliceState::ReadingSource, SpliceEvent::ReadFailed), closed);
    assert_eq!(splice_step(SpliceState::ReadingSource, SpliceEvent::Read(0)), closed);
    assert_eq!(splice_step(SpliceState::ReadingSource, SpliceEvent::Read(1025)), closed);
    assert_eq!(
        splice_step(SpliceState::ReadingDestination { from_source: 5 }, SpliceEvent::EndOfStream),
        closed
    );
    assert_eq!(
        splice_step(SpliceState::WritingDestination { from_destination: 5 }, SpliceEvent::WriteFailed),
        closed
    );
    assert_eq!(splice_step(SpliceState::WritingSource, SpliceEvent::WriteFailed), closed);
    assert_eq!(splice_step(SpliceState::Parked, SpliceEvent::Read(3)), closed);
    assert_eq!(splice_step(SpliceState::Closed, SpliceEvent::Woken), closed);
    assert_eq!(splice_step(SpliceState::Closed, SpliceEvent::Connected), closed);
}

#[test]
fn a_connection_carries_one_request_and_closes() {
    let mut state = ConnectionState::AcceptedRaw;
    let mut actions = Vec::new();
    for event in [
        ConnectionEvent::Accepted { tls: true },
        ConnectionEvent::HandshakeDone,
        ConnectionEvent::RequestRead,
        ConnectionEvent::ResponseMade,
        ConnectionEvent::HooksDone,
        ConnectionEvent::WriteOver,
        ConnectionEvent::RequestRead,
    ] {
        let (next, action) = connection_step(state, event);
        state = next;
        actions.push(action);
    }
    assert_eq!(state, ConnectionState::Closed);
    assert_eq!(
        actions,
        vec![
            ConnectionAction::Handshake,
            ConnectionAction::ReadRequest,
            ConnectionAction::Handle,
            ConnectionAction::RunHooks,
            ConnectionAction::Write,
            ConnectionAction::Close,
            ConnectionAction::Close,
        ]
    );
    assert_eq!(
        connection_step(ConnectionState::AcceptedRaw, ConnectionEvent::Accepted { tls: false }),
        (ConnectionState::Readable, ConnectionAction::ReadRequest)
    );
}

#[test]
fn failures_on_a_connection_end_it_with_the_status_of_their_kind() {
    let closed = (ConnectionState::Closed, ConnectionAction::Close);
    assert_eq!(connection_step(ConnectionState::AcceptedRaw, ConnectionEvent::HandshakeFailed), closed);
    assert_eq!(
        connection_step(ConnectionState::Readable, ConnectionEvent::ReadFailed(ErrorKind::Timeout)),
        closed
    );
    assert_eq!(
        connection_step(ConnectionState::Readable, ConnectionEvent::ReadFailed(ErrorKind::Disconnected)),
        closed
    );
    assert_eq!(
        connection_step(ConnectionState::Readable, ConnectionEvent::ReadFailed(ErrorKind::BadRequest)),
        (ConnectionState::Serialised, ConnectionAction::WriteStatus(400))
    );
    assert_eq!(
        connection_step(ConnectionState::Parsed, ConnectionEvent::HandlerFailed),
        (ConnectionState::Serialised, ConnectionAction::WriteStatus(500))
    );
    assert_eq!(connection_step(ConnectionState::Serialised, ConnectionEvent::WriteOver), closed);
    assert_eq!(connection_step(ConnectionState::Parsed, ConnectionEvent::HandlerTimedOut), closed);
    assert_eq!(connection_step(ConnectionState::Parsed, ConnectionEvent::TunnelOver), closed);
    assert_eq!(log_level_of(ErrorKind::BadRequest), LogLevel::Warn);
    assert_eq!(log_level_of(ErrorKind::Timeout), LogLevel::Info);
    assert_eq!(log_level_of(ErrorKind::Disconnected), LogLevel::Debug);
    assert_eq!(log_level_of(ErrorKind::BadGateway), LogLevel::Error);
    assert_eq!(log_level_of(ErrorKind::Internal), LogLevel::Error);
    assert!(status_of(ErrorKind::BadRequest) == Some(StatusCode::BadRequest));
    assert!(status_of(ErrorKind::NotFound) == Some(StatusCode::NotFound));
    assert!(status_of(ErrorKind::Forbidden) == Some(StatusCode::Forbidden));
    assert!(status_of(ErrorKind::BadGateway) == Some(StatusCode::BadGateway));
    assert!(status_of(ErrorKind::Internal) == Some(StatusCode::InternalError));
    assert!(status_of(ErrorKind::Timeout).is_none());
    assert!(status_of(ErrorKind::Disconnected).is_none());
}
