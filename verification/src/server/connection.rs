//! The life of one connection: an optional TLS handshake, one request, one
//! response, and the close. The caller owns the stream, performs each action
//! and reports what came of it.

use vstd::prelude::*;
use crate::http::status::StatusCode;
use crate::server::config::LogLevel;

verus! {

/// The kinds of failure that the server tells apart.
#[derive(Debug, Clone, Copy, PartialEq, Eq, Structural)]
pub enum ErrorKind {
    /// The request could not be parsed.
    BadRequest,
    /// The peer sent nothing for too long.
    Timeout,
    /// The peer closed the connection before the request was complete.
    Disconnected,
    /// No route or no file answers the request.
    NotFound,
    /// The client is on the blacklist, or the path leads out of the root.
    Forbidden,
    /// No proxy target could be reached.
    BadGateway,
    /// The handler failed.
    Internal,
}

/// How the stream stopped before a request was complete.
#[derive(Debug, Clone, Copy, PartialEq, Eq, Structural)]
pub enum ReadEnd {
    /// The peer closed its side.
    EndOfStream,
    /// The read timed out.
    TimedOut,
}

/// The failure that an incomplete request comes to when the stream stops.
pub fn incomplete_request(end: ReadEnd) -> (r: ErrorKind)
    ensures
        r == match end {
            ReadEnd::EndOfStream => ErrorKind::Disconnected,
            ReadEnd::TimedOut => ErrorKind::Timeout,
        },
{
    match end {
        ReadEnd::EndOfStream => ErrorKind::Disconnected,
        ReadEnd::TimedOut => ErrorKind::Timeout,
    }
}

/// The status that the client sees for a failure, or `None` where the
/// connection is closed without a response.
pub open spec fn visible_status(kind: ErrorKind) -> Option<u16> {
    match kind {
        ErrorKind::BadRequest => Some(400u16),
        ErrorKind::Timeout => None,
        ErrorKind::Disconnected => None,
        ErrorKind::NotFound => Some(404u16),
        ErrorKind::Forbidden => Some(403u16),
        ErrorKind::BadGateway => Some(502u16),
        ErrorKind::Internal => Some(500u16),
    }
}

/// The status that the client sees for a failure.
pub fn status_of(kind: ErrorKind) -> (r: Option<StatusCode>)
    ensures
        match visible_status(kind) {
            Some(code) => r matches Some(status) && status@ == code,
            None => r is None,
        },
{
    match kind {
        ErrorKind::BadRequest => Some(StatusCode::BadRequest),
        ErrorKind::Timeout => None,
        ErrorKind::Disconnected => None,
        ErrorKind::NotFound => Some(StatusCode::NotFound),
        ErrorKind::Forbidden => Some(StatusCode::Forbidden),
        ErrorKind::BadGateway => Some(StatusCode::BadGateway),
        ErrorKind::Internal => Some(StatusCode::InternalError),
    }
}

/// The level at which a failure is logged.
pub open spec fn logged_at(kind: ErrorKind) -> LogLevel {
    match kind {
        ErrorKind::BadRequest => LogLevel::Warn,
        ErrorKind::Timeout => LogLevel::Info,
        ErrorKind::Disconnected => LogLevel::Debug,
        ErrorKind::NotFound => LogLevel::Warn,
        ErrorKind::Forbidden => LogLevel::Warn,
        ErrorKind::BadGateway => LogLevel::Error,
        ErrorKind::Internal => LogLevel::Error,
    }
}

/// The level at which a failure is logged.
pub fn log_level_of(kind: ErrorKind) -> (r: LogLevel)
    ensures
        r == logged_at(kind),
{
    match kind {
        ErrorKind::BadRequest => LogLevel::Warn,
        ErrorKind::Timeout => LogLevel::Info,
        ErrorKind::Disconnected => LogLevel::Debug,
        ErrorKind::NotFound => LogLevel::Warn,
        ErrorKind::Forbidden => LogLevel::Warn,
        ErrorKind::BadGateway => LogLevel::Error,
        ErrorKind::Internal => LogLevel::Error,
    }
}

/// Where a connection stands.
#[derive(Debug, Clone, Copy, PartialEq, Eq, Structural)]
pub enum ConnectionState {
    /// Accepted; nothing has been read or written.
    AcceptedRaw,
    /// Ready to be read: without TLS, or after the handshake.
    Readable,
    /// A request has been parsed and is with the plugins and the handler.
    Parsed,
    /// A response has been produced and is with the response hooks.
    Handled,
    /// The response is being written.
    Serialised,
    /// The connection is closed.
    Closed,
}

/// What came of the action that the driver asked for.
#[derive(Debug, Clone, Copy, PartialEq, Eq, Structural)]
pub enum ConnectionEvent {
    /// The connection was accepted; `tls` says whether it is to be wrapped.
    Accepted { tls: bool },
    /// The TLS handshake succeeded.
    HandshakeDone,
    /// The TLS handshake failed.
    HandshakeFailed,
    /// A whole request was read and parsed.
    RequestRead,
    /// No request could be read.
    ReadFailed(ErrorKind),
    /// The handler, or a plugin in its place, produced a response.
    ResponseMade,
    /// The handler failed.
    HandlerFailed,
    /// The handler took longer than it may. Its response is abandoned.
    HandlerTimedOut,
    /// The request asked for a WebSocket, and the tunnel to its target has
    /// come to its end. Such a request gets no response.
    TunnelOver,
    /// The response hooks have run and the response is serialised.
    HooksDone,
    /// The bytes were written, or the write failed.
    WriteOver,
}

/// What the caller is to do next.
#[derive(Debug, Clone, Copy, PartialEq, Eq, Structural)]
pub enum ConnectionAction {
    /// Perform the TLS handshake.
    Handshake,
    /// Read and parse one request.
    ReadRequest,
    /// Route the request, run the request hooks and the handler.
    Handle,
    /// Run the response hooks and serialise the response.
    RunHooks,
    /// Write the serialised response.
    Write,
    /// Write a response with nothing but this status.
    WriteStatus(u16),
    /// Close the stream.
    Close,
}

/// The state that follows and the action to perform, for each state and
/// event. A connection is read once, carries one request and one response,
/// and is closed; a failure to read closes it, after a 400 where the request
/// was malformed; a failure of the handler closes it after a 500, and a
/// handler that takes too long closes it without a response. A request
/// that was passed on as a WebSocket gets no response: the connection is
/// closed when the tunnel is over. An event that the state does not wait for
/// closes the connection.
pub open spec fn connection_next(state: ConnectionState, event: ConnectionEvent) -> (
    ConnectionState,
    ConnectionAction,
) {
    match (state, event) {
        (ConnectionState::AcceptedRaw, ConnectionEvent::Accepted { tls }) => if tls {
            (ConnectionState::AcceptedRaw, ConnectionAction::Handshake)
        } else {
            (ConnectionState::Readable, ConnectionAction::ReadRequest)
        },
        (ConnectionState::AcceptedRaw, ConnectionEvent::HandshakeDone) => (
            ConnectionState::Readable,
            ConnectionAction::ReadRequest,
        ),
        (ConnectionState::Readable, ConnectionEvent::RequestRead) => (
            ConnectionState::Parsed,
            ConnectionAction::Handle,
        ),
        (ConnectionState::Readable, ConnectionEvent::ReadFailed(kind)) => if kind
            == ErrorKind::BadRequest {
            (ConnectionState::Serialised, ConnectionAction::WriteStatus(400))
        } else {
            (ConnectionState::Closed, ConnectionAction::Close)
        },
        (ConnectionState::Parsed, ConnectionEvent::ResponseMade) => (
            ConnectionState::Handled,
            ConnectionAction::RunHooks,
        ),
        (ConnectionState::Parsed, ConnectionEvent::HandlerFailed) => (
            ConnectionState::Serialised,
            ConnectionAction::WriteStatus(500),
        ),
        (ConnectionState::Parsed, ConnectionEvent::HandlerTimedOut) => (
            ConnectionState::Closed,
            ConnectionAction::Close,
        ),
        (ConnectionState::Parsed, ConnectionEvent::TunnelOver) => (
            ConnectionState::Closed,
            ConnectionAction::Close,
        ),
        (ConnectionState::Handled, ConnectionEvent::HooksDone) => (
            ConnectionState::Serialised,
            ConnectionAction::Write,
        ),
        _ => (ConnectionState::Closed, ConnectionAction::Close),
    }
}

/// Decides what is done next on a connection.
pub fn connection_step(state: ConnectionState, event: ConnectionEvent) -> (r: (
    ConnectionState,
    ConnectionAction,
))
    ensures
        r == connection_next(state, event),
{
    let closed = (ConnectionState::Closed, ConnectionAction::Close);
    match state {
        ConnectionState::AcceptedRaw => match event {
            ConnectionEvent::Accepted { tls } => if tls {
                (ConnectionState::AcceptedRaw, ConnectionAction::Handshake)
            } else {
                (ConnectionState::Readable, ConnectionAction::ReadRequest)
            },
            ConnectionEvent::HandshakeDone => (
                ConnectionState::Readable,
                ConnectionAction::ReadRequest,
            ),
            _ => closed,
        },
        ConnectionState::Readable => match event {
            ConnectionEvent::RequestRead => (ConnectionState::Parsed, ConnectionAction::Handle),
            ConnectionEvent::ReadFailed(kind) => if kind == ErrorKind::BadRequest {
                (ConnectionState::Serialised, ConnectionAction::WriteStatus(400))
            } else {
                closed
            },
            _ => closed,
        },
        ConnectionState::Parsed => match event {
            ConnectionEvent::ResponseMade => (ConnectionState::Handled, ConnectionAction::RunHooks),
            ConnectionEvent::HandlerFailed => (
                ConnectionState::Serialised,
                ConnectionAction::WriteStatus(500),
            ),
            _ => closed,
        },
        ConnectionState::Handled => match event {
            ConnectionEvent::HooksDone => (ConnectionState::Serialised, ConnectionAction::Write),
            _ => closed,
        },
        ConnectionState::Serialised => closed,
        ConnectionState::Closed => closed,
    }
}

/// How far a connection has come.
pub open spec fn progress(state: ConnectionState) -> nat {
    match state {
        ConnectionState::AcceptedRaw => 0,
        ConnectionState::Readable => 1,
        ConnectionState::Parsed => 2,
        ConnectionState::Handled => 3,
        ConnectionState::Serialised => 4,
        ConnectionState::Closed => 5,
    }
}

/// The law of the single request: a connection never goes back. It is read
/// at most once and handles at most one request, every response passes the
/// response hooks before it is written, and what is closed stays closed.
pub proof fn lemma_connection_moves_on(state: ConnectionState, event: ConnectionEvent)
    ensures
        progress(connection_next(state, event).0) >= progress(state),
        connection_next(state, event).1 is ReadRequest ==> progress(state) == 0,
        connection_next(state, event).1 is Handle ==> state is Readable,
        connection_next(state, event).1 is Write ==> state is Handled,
        connection_next(state, event).1 is RunHooks ==> state is Parsed,
        progress(state) >= 1 ==> progress(connection_next(state, event).0) > progress(state)
            || state is Closed,
        connection_next(state, event).0 is Closed <==> connection_next(state, event).1 is Close,
{
}

} // verus!
