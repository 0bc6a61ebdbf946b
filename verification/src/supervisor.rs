//! Supervising the connection to the device.
//!
//! The supervisor is either disconnected or connected. Disconnected, it asks
//! for a connection; a connection that cannot be opened ends the bridge.
//! Connected, it asks for a message, has each message forwarded, and asks for
//! the next. Any error, whether the stream, a frame or a register write
//! caused it, costs the connection: it is dropped and a new one is opened at
//! once, without delay and however often it takes. Connecting, reading and
//! forwarding are done by the caller, who reports each result as an
//! [`Event`].
//!
//! A register write that fails costs the device connection too, although that
//! connection is not at fault and the one to the register server stays as it
//! is. That is how the bridge is meant to behave for now; it may well be
//! more than is needed.

use crate::forward::{forward_step, ForwardAction, ForwardError, ForwardState, Point, WriteOutcome};
use crate::frame::DecodeError;
use crate::message::DeviceMessage;
use vstd::prelude::*;

verus! {

/// Whether there is a live connection to the device.
#[derive(Clone, Copy, Debug, PartialEq, Eq, Structural)]
pub enum LinkState {
    /// No connection.
    Disconnected,
    /// A live connection.
    Connected,
}

/// What happened to the last thing the supervisor asked for.
#[derive(Clone, Copy, Debug, PartialEq, Eq)]
pub enum Event {
    /// The connection was opened.
    ConnectSucceeded,
    /// The connection could not be opened.
    ConnectFailed,
    /// Reading a message ended like this.
    Read(Result<DeviceMessage, DecodeError>),
    /// Forwarding a message ended like this.
    Forwarded(Result<(), ForwardError>),
}

/// What the supervisor asks for.
#[derive(Clone, Copy, Debug, PartialEq, Eq, Structural)]
pub enum Action {
    /// Drop the connection, if there is one, and open a new one.
    Connect,
    /// Read the next message from the connection.
    Read,
    /// Forward this message.
    Forward(DeviceMessage),
    /// Give up: the bridge cannot run without a connection.
    Stop,
}

/// One step of the supervisor: the state after `event` arrived in `state`,
/// and what it asks for.
///
/// An event that does not answer what was asked for in `state` is handled as
/// an error is: the supervisor disconnects and asks for a new connection.
pub open spec fn supervise(state: LinkState, event: Event) -> (LinkState, Action) {
    match (state, event) {
        (LinkState::Disconnected, Event::ConnectSucceeded) => (LinkState::Connected, Action::Read),
        (LinkState::Disconnected, Event::ConnectFailed) => (LinkState::Disconnected, Action::Stop),
        (LinkState::Connected, Event::Read(Ok(message))) => (
            LinkState::Connected,
            Action::Forward(message),
        ),
        (LinkState::Connected, Event::Forwarded(Ok(_))) => (LinkState::Connected, Action::Read),
        _ => (LinkState::Disconnected, Action::Connect),
    }
}

/// `event` reports an error of reading or of forwarding.
pub open spec fn is_failure(event: Event) -> bool {
    event matches Event::Read(Err(_)) || event matches Event::Forwarded(Err(_))
}

/// Keeps the connection to the device alive.
#[derive(Clone, Copy, Debug, PartialEq, Eq)]
pub struct Supervisor {
    /// Whether there is a live connection.
    pub state: LinkState,
}

impl Supervisor {
    /// A supervisor without a connection, and its first request: to connect.
    pub fn start() -> (start: (Supervisor, Action))
        ensures
            start.0.state == LinkState::Disconnected,
            start.1 == Action::Connect,
    {
        (Supervisor { state: LinkState::Disconnected }, Action::Connect)
    }

    /// Takes in what happened and says what to do next.
    pub fn on_event(&mut self, event: Event) -> (action: Action)
        ensures
            final(self).state == supervise(old(self).state, event).0,
            action == supervise(old(self).state, event).1,
            is_failure(event) ==> final(self).state == LinkState::Disconnected && action
                == Action::Connect,
            final(self).state == LinkState::Connected <==> action is Read || action is Forward,
            action is Stop <==> old(self).state == LinkState::Disconnected && event
                is ConnectFailed,
    {
        match (self.state, event) {
            (LinkState::Disconnected, Event::ConnectSucceeded) => {
                self.state = LinkState::Connected;
                Action::Read
            },
            (LinkState::Disconnected, Event::ConnectFailed) => Action::Stop,
            (LinkState::Connected, Event::Read(Ok(message))) => Action::Forward(message),
            (LinkState::Connected, Event::Forwarded(Ok(_))) => Action::Read,
            _ => {
                self.state = LinkState::Disconnected;
                Action::Connect
            },
        }
    }
}

/// A register write that fails costs the device connection: forwarding ends
/// with the failure, and the supervisor, told of it while connected,
/// disconnects and asks for a new connection.
pub proof fn lemma_failed_write_reconnects(message: DeviceMessage, point: Point)
    ensures
        forward_step(
            message,
            ForwardState::Awaiting(point),
            WriteOutcome::Failed,
        ).1 matches ForwardAction::Done(Err(error)) && supervise(
            LinkState::Connected,
            Event::Forwarded(Err(error)),
        ) == (LinkState::Disconnected, Action::Connect),
{
}

} // verus!
