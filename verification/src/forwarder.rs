//! The traffic forwarder: it relays a TCP connection to a vsock endpoint,
//! copying each direction chunk by chunk until end of stream or an error.

use vstd::prelude::*;
use crate::decimal::{decimal, decimal_text};

verus! {

/// The size of the buffer each direction is copied through.
pub const FORWARD_BUFFER_LEN: usize = 1024;

/// How a read from the source ended: with a number of bytes (zero at end of
/// stream), or with an error.
#[derive(Debug, Clone, PartialEq, Eq)]
pub enum ReadResult {
    Bytes(usize),
    Failed,
}

/// What the outside world reports to the copying loop.
#[derive(Debug, Clone, PartialEq, Eq)]
pub enum ForwardEvent {
    /// A read from the source finished.
    Read(ReadResult),
    /// Writing the last chunk to the destination finished, successfully or not.
    Wrote(bool),
}

/// Where the copying loop stands.
#[derive(Debug, Clone, PartialEq, Eq)]
pub enum ForwardState {
    /// Waiting for a read from the source.
    Reading,
    /// Waiting for the write of a chunk of this many bytes.
    Writing(usize),
    /// Copying has ended.
    Done,
}

/// What the copying loop asks the outside world to do next.
#[derive(Debug, Clone, PartialEq, Eq)]
pub enum ForwardAction {
    /// Read from the source into the buffer.
    Read,
    /// Write the first this many bytes of the buffer to the destination.
    Write(usize),
    /// Stop copying.
    Stop,
}

/// The loop's first step.
pub open spec fn forward_start_spec() -> (ForwardState, ForwardAction) {
    (ForwardState::Reading, ForwardAction::Read)
}

/// The event can occur in the state: a read result while reading (never
/// more than the buffer holds), a write result while writing, anything once
/// done.
pub open spec fn forward_accepts(state: ForwardState, event: ForwardEvent) -> bool {
    match state {
        ForwardState::Reading => match event {
            ForwardEvent::Read(ReadResult::Bytes(n)) => n <= FORWARD_BUFFER_LEN,
            ForwardEvent::Read(ReadResult::Failed) => true,
            ForwardEvent::Wrote(_) => false,
        },
        ForwardState::Writing(_) => event is Wrote,
        ForwardState::Done => true,
    }
}

/// The copying loop's transition: a non-empty chunk read is written out; a
/// successful write leads to the next read; end of stream, a read error or
/// a write error ends the loop, and an ended loop stays ended.
pub open spec fn forward_step(state: ForwardState, event: ForwardEvent) -> (
    ForwardState,
    ForwardAction,
) {
    match (state, event) {
        (ForwardState::Reading, ForwardEvent::Read(ReadResult::Bytes(n))) => if n == 0 {
            (ForwardState::Done, ForwardAction::Stop)
        } else {
            (ForwardState::Writing(n), ForwardAction::Write(n))
        },
        (ForwardState::Writing(_), ForwardEvent::Wrote(true)) => (
            ForwardState::Reading,
            ForwardAction::Read,
        ),
        _ => (ForwardState::Done, ForwardAction::Stop),
    }
}

/// The copying loop's first state and action.
pub fn forward_start() -> (r: (ForwardState, ForwardAction))
    ensures
        r == forward_start_spec(),
{
    (ForwardState::Reading, ForwardAction::Read)
}

/// One step of copying from a source to a destination: given where the
/// loop stands and what just happened, where it stands next and what to do.
pub fn forward(state: ForwardState, event: ForwardEvent) -> (r: (ForwardState, ForwardAction))
    requires
        forward_accepts(state, event),
    ensures
        r == forward_step(state, event),
{
    match (state, event) {
        (ForwardState::Reading, ForwardEvent::Read(ReadResult::Bytes(n))) => {
            if n == 0 {
                (ForwardState::Done, ForwardAction::Stop)
            } else {
                (ForwardState::Writing(n), ForwardAction::Write(n))
            }
        },
        (ForwardState::Writing(_), ForwardEvent::Wrote(true)) => (
            ForwardState::Reading,
            ForwardAction::Read,
        ),
        _ => (ForwardState::Done, ForwardAction::Stop),
    }
}

/// The actions the loop takes on the events `events`, from `state`.
pub open spec fn forward_actions(state: ForwardState, events: Seq<ForwardEvent>) -> Seq<
    ForwardAction,
>
    decreases events.len(),
{
    if events.len() == 0 {
        seq![]
    } else {
        let (next, action) = forward_step(state, events[0]);
        seq![action] + forward_actions(next, events.drop_first())
    }
}

/// The sizes of the chunks the loop is asked to write, in order.
pub open spec fn written_sizes(actions: Seq<ForwardAction>) -> Seq<usize>
    decreases actions.len(),
{
    if actions.len() == 0 {
        seq![]
    } else {
        let rest = written_sizes(actions.drop_first());
        match actions[0] {
            ForwardAction::Write(n) => seq![n] + rest,
            _ => rest,
        }
    }
}

/// The sizes of the non-empty chunks read while the loop was reading, in
/// order.
pub open spec fn read_sizes(state: ForwardState, events: Seq<ForwardEvent>) -> Seq<usize>
    decreases events.len(),
{
    if events.len() == 0 {
        seq![]
    } else {
        let rest = read_sizes(forward_step(state, events[0]).0, events.drop_first());
        match (state, events[0]) {
            (ForwardState::Reading, ForwardEvent::Read(ReadResult::Bytes(n))) => if n > 0 {
                seq![n] + rest
            } else {
                rest
            },
            _ => rest,
        }
    }
}

/// The address the forwarder listens on: `ip:port`.
pub fn listen_address(local_ip: &str, local_port: u16) -> (addr: String)
    ensures
        addr@ == local_ip@ + ":"@ + decimal(local_port as nat),
{
    let port = decimal_text(local_port as u64);
    let mut addr = String::from_str(local_ip);
    addr.append(":");
    addr.append(port.as_str());
    addr
}

} // verus!
