//! Passing a WebSocket connection on to a target: after the client's
//! handshake has been sent to the target, bytes are carried both ways until
//! either side ends.
//!
//! The sockets belong to the caller. The caller performs each action that
//! the splice asks for and reports what came of it; the splice decides what
//! is done next.

use vstd::prelude::*;

verus! {

/// The most bytes that one read takes from a socket.
pub const BUFFER_SIZE: usize = 1024;

/// The milliseconds for which the worker rests between two rounds.
pub const PARK_MILLIS: u64 = 10;

/// Where a splice stands.
#[derive(Debug, Clone, Copy, PartialEq, Eq, Structural)]
pub enum SpliceState {
    /// The connection to the target is being opened.
    Connecting,
    /// The client's handshake is being written to the target.
    Greeting,
    /// The client's socket is being read.
    ReadingSource,
    /// The target's socket is being read; `from_source` bytes of the client
    /// wait to be written.
    ReadingDestination { from_source: usize },
    /// The client's bytes are being written to the target; `from_destination`
    /// bytes of the target wait to be written.
    WritingDestination { from_destination: usize },
    /// The target's bytes are being written to the client.
    WritingSource,
    /// The worker rests.
    Parked,
    /// Both sockets are closed.
    Closed,
}

/// What came of the action that the splice asked for.
#[derive(Debug, Clone, Copy, PartialEq, Eq, Structural)]
pub enum SpliceEvent {
    /// The connection to the target is open.
    Connected,
    /// The target could not be reached.
    ConnectFailed,
    /// All bytes were written.
    Written,
    /// The write failed.
    WriteFailed,
    /// This many bytes were read.
    Read(usize),
    /// Nothing is there to read at the moment.
    WouldBlock,
    /// The other end has closed its side.
    EndOfStream,
    /// The read failed.
    ReadFailed,
    /// The rest is over.
    Woken,
}

/// What the caller is to do next.
#[derive(Debug, Clone, Copy, PartialEq, Eq, Structural)]
pub enum SpliceAction {
    /// Write the client's handshake to the target, then make both sockets
    /// non-blocking.
    WriteGreeting,
    /// Read up to this many bytes from the client.
    ReadSource(usize),
    /// Read up to this many bytes from the target.
    ReadDestination(usize),
    /// Write the first so many bytes of what was read from the client to the
    /// target.
    WriteToDestination(usize),
    /// Write the first so many bytes of what was read from the target to the
    /// client.
    WriteToSource(usize),
    /// Rest for this many milliseconds.
    Park(u64),
    /// Close both sockets.
    Close,
}

/// How many bytes a read brought that did not end the splice: none where
/// nothing was there to read.
pub open spec fn bytes_of(event: SpliceEvent) -> Option<usize> {
    match event {
        SpliceEvent::Read(n) => if 0 < n <= BUFFER_SIZE {
            Some(n)
        } else {
            None
        },
        SpliceEvent::WouldBlock => Some(0),
        _ => None,
    }
}

/// What follows a round of reads: what the client sent goes to the target,
/// then what the target sent goes to the client, then the worker rests.
pub open spec fn after_reads(from_source: usize, from_destination: usize) -> (
    SpliceState,
    SpliceAction,
) {
    if from_source > 0 {
        (SpliceState::WritingDestination { from_destination }, SpliceAction::WriteToDestination(from_source))
    } else if from_destination > 0 {
        (SpliceState::WritingSource, SpliceAction::WriteToSource(from_destination))
    } else {
        (SpliceState::Parked, SpliceAction::Park(PARK_MILLIS))
    }
}

/// The state that follows and the action to perform, for each state and
/// event. A round reads the client, reads the target, writes what the client
/// sent to the target and what the target sent to the client, and rests. The
/// end of either stream, a failure, and an event that the state does not
/// wait for all end the splice with both sockets closed.
pub open spec fn splice_next(state: SpliceState, event: SpliceEvent) -> (SpliceState, SpliceAction) {
    match (state, event) {
        (SpliceState::Connecting, SpliceEvent::Connected) => (
            SpliceState::Greeting,
            SpliceAction::WriteGreeting,
        ),
        (SpliceState::Greeting, SpliceEvent::Written) => (
            SpliceState::ReadingSource,
            SpliceAction::ReadSource(BUFFER_SIZE),
        ),
        (SpliceState::ReadingSource, _) => match bytes_of(event) {
            Some(n) => (
                SpliceState::ReadingDestination { from_source: n },
                SpliceAction::ReadDestination(BUFFER_SIZE),
            ),
            None => (SpliceState::Closed, SpliceAction::Close),
        },
        (SpliceState::ReadingDestination { from_source }, _) => match bytes_of(event) {
            Some(n) => after_reads(from_source, n),
            None => (SpliceState::Closed, SpliceAction::Close),
        },
        (SpliceState::WritingDestination { from_destination }, SpliceEvent::Written) => after_reads(
            0,
            from_destination,
        ),
        (SpliceState::WritingSource, SpliceEvent::Written) => (
            SpliceState::Parked,
            SpliceAction::Park(PARK_MILLIS),
        ),
        (SpliceState::Parked, SpliceEvent::Woken) => (
            SpliceState::ReadingSource,
            SpliceAction::ReadSource(BUFFER_SIZE),
        ),
        _ => (SpliceState::Closed, SpliceAction::Close),
    }
}

/// The state in which a splice starts. The caller begins by opening the
/// connection to the target.
pub fn splice_start() -> (r: SpliceState)
    ensures
        r == SpliceState::Connecting,
{
    SpliceState::Connecting
}

/// Decides what is done next.
pub fn splice_step(state: SpliceState, event: SpliceEvent) -> (r: (SpliceState, SpliceAction))
    ensures
        r == splice_next(state, event),
{
    let closed = (SpliceState::Closed, SpliceAction::Close);
    let read: Option<usize> = match event {
        SpliceEvent::Read(n) => if 0 < n && n <= BUFFER_SIZE {
            Some(n)
        } else {
            None
        },
        SpliceEvent::WouldBlock => Some(0),
        _ => None,
    };
    match state {
        SpliceState::Connecting => match event {
            SpliceEvent::Connected => (SpliceState::Greeting, SpliceAction::WriteGreeting),
            _ => closed,
        },
        SpliceState::Greeting => match event {
            SpliceEvent::Written => (
                SpliceState::ReadingSource,
                SpliceAction::ReadSource(BUFFER_SIZE),
            ),
            _ => closed,
        },
        SpliceState::ReadingSource => match read {
            Some(n) => (
                SpliceState::ReadingDestination { from_source: n },
                SpliceAction::ReadDestination(BUFFER_SIZE),
            ),
            None => closed,
        },
        SpliceState::ReadingDestination { from_source } => match read {
            Some(n) => rounds_on(from_source, n),
            None => closed,
        },
        SpliceState::WritingDestination { from_destination } => match event {
            SpliceEvent::Written => rounds_on(0, from_destination),
            _ => closed,
        },
        SpliceState::WritingSource => match event {
            SpliceEvent::Written => (SpliceState::Parked, SpliceAction::Park(PARK_MILLIS)),
            _ => closed,
        },
        SpliceState::Parked => match event {
            SpliceEvent::Woken => (
                SpliceState::ReadingSource,
                SpliceAction::ReadSource(BUFFER_SIZE),
            ),
            _ => closed,
        },
        SpliceState::Closed => closed,
    }
}

/// What follows a round of reads.
fn rounds_on(from_source: usize, from_destination: usize) -> (r: (SpliceState, SpliceAction))
    ensures
        r == after_reads(from_source, from_destination),
{
    if from_source > 0 {
        (
            SpliceState::WritingDestination { from_destination },
            SpliceAction::WriteToDestination(from_source),
        )
    } else if from_destination > 0 {
        (SpliceState::WritingSource, SpliceAction::WriteToSource(from_destination))
    } else {
        (SpliceState::Parked, SpliceAction::Park(PARK_MILLIS))
    }
}

/// Whether an event tells of an end or a failure.
pub open spec fn ends(event: SpliceEvent) -> bool {
    event is ConnectFailed || event is WriteFailed || event is EndOfStream || event is ReadFailed
}

/// The law of the close: whichever side ends or fails, in whatever state,
/// the splice is over and both sockets are closed; and a splice that is over
/// stays over.
pub proof fn lemma_splice_closes(state: SpliceState, event: SpliceEvent)
    ensures
        ends(event) ==> splice_next(state, event) == (SpliceState::Closed, SpliceAction::Close),
        state is Closed ==> splice_next(state, event).0 is Closed,
        splice_next(state, event).0 is Closed <==> splice_next(state, event).1 is Close,
{
}

/// The law of the bytes: in one round, exactly what was read from the client
/// is written to the target, and exactly what was read from the target is
/// written to the client, in that order, before the worker rests.
pub proof fn lemma_splice_carries(first: SpliceEvent, second: SpliceEvent)
    requires
        bytes_of(first) is Some,
        bytes_of(second) is Some,
    ensures
        ({
            let a = bytes_of(first)->0;
            let b = bytes_of(second)->0;
            let s1 = splice_next(SpliceState::ReadingSource, first);
            let s2 = splice_next(s1.0, second);
            let s3 = splice_next(s2.0, SpliceEvent::Written);
            let s4 = splice_next(s3.0, SpliceEvent::Written);
            &&& s1.1 == SpliceAction::ReadDestination(BUFFER_SIZE)
            &&& a > 0 && b > 0 ==> s2.1 == SpliceAction::WriteToDestination(a) && s3.1
                == SpliceAction::WriteToSource(b) && s4.1 == SpliceAction::Park(PARK_MILLIS)
            &&& a > 0 && b == 0 ==> s2.1 == SpliceAction::WriteToDestination(a) && s3.1
                == SpliceAction::Park(PARK_MILLIS)
            &&& a == 0 && b > 0 ==> s2.1 == SpliceAction::WriteToSource(b) && s3.1
                == SpliceAction::Park(PARK_MILLIS)
            &&& a == 0 && b == 0 ==> s2.1 == SpliceAction::Park(PARK_MILLIS)
        }),
{
}

} // verus!
