//! The per-client session: it decides, its owner acts.

use vstd::prelude::*;
use vstd::string::StringSliceAdditionalSpecFns;
use crate::frame::{Message, ProtocolError, Reaction};
use crate::parser::command;
use crate::session::{
    opened, step, Event, SessionModel, SessionState, CLIENT_TIMEOUT,
};

verus! {

/// The state of one client's control channel.
///
/// The owner feeds it every inbound frame with [`ControlSocket::handle`],
/// every tick of a timer of period `HEARTBEAT_INTERVAL` with
/// [`ControlSocket::heartbeat`], and the release of the transport with
/// [`ControlSocket::stopped`], each with the current reading of one
/// monotonic clock in nanoseconds, and carries out the reaction it gets.
#[derive(Clone, Copy, Debug, PartialEq, Eq)]
pub struct ControlSocket {
    /// The peer must prove to be alive at least once per `CLIENT_TIMEOUT`.
    last_heartbeat: u64,
    state: SessionState,
}

impl View for ControlSocket {
    type V = SessionModel;

    closed spec fn view(&self) -> SessionModel {
        SessionModel { last_heartbeat: self.last_heartbeat as nat, state: self.state }
    }
}

/// The event that an inbound item of the transport stands for.
pub open spec fn inbound(msg: Result<Message, ProtocolError>) -> Event {
    match msg {
        Ok(frame) => Event::Frame(frame@),
        Err(_) => Event::Broken,
    }
}

impl ControlSocket {
    /// A session that opens at `now`.
    pub fn new(now: u64) -> (socket: Self)
        ensures
            socket@ == opened(now as nat),
    {
        ControlSocket { last_heartbeat: now, state: SessionState::Open }
    }

    /// When the peer last proved to be alive.
    pub fn last_heartbeat(&self) -> (at: u64)
        ensures
            at == self@.last_heartbeat,
    {
        self.last_heartbeat
    }

    pub fn state(&self) -> (state: SessionState)
        ensures
            state == self@.state,
    {
        self.state
    }

    /// Takes one inbound item at `now`: a step of the session on the event
    /// that the item stands for.
    pub fn handle(&mut self, msg: Result<Message, ProtocolError>, now: u64) -> (reaction: Reaction)
        ensures
            (final(self)@, reaction@) == step(old(self)@, inbound(msg), now as nat),
    {
        match self.state {
            SessionState::Open => {},
            _ => { return Reaction::Idle; },
        }
        match msg {
            Ok(Message::Ping(payload)) => {
                self.touch(now);
                Reaction::Reply(Message::Pong(payload))
            },
            Ok(Message::Pong(_)) => {
                self.touch(now);
                Reaction::Idle
            },
            Ok(Message::Text(text)) => {
                match command(text.as_str()) {
                    Ok(parsed) => Reaction::Execute(parsed.execute()),
                    Err(error) => Reaction::Discard(error),
                }
            },
            Ok(Message::Binary(bytes)) => Reaction::Reply(Message::Binary(bytes)),
            Ok(Message::Close(reason)) => {
                self.state = SessionState::Closing;
                Reaction::Close(reason)
            },
            _ => {
                self.state = SessionState::Closed;
                Reaction::Abort
            },
        }
    }

    /// Takes one tick of the heartbeat timer at `now`: a ping for a peer
    /// that is still in time, the end for one that is not.
    pub fn heartbeat(&mut self, now: u64) -> (reaction: Reaction)
        ensures
            (final(self)@, reaction@) == step(old(self)@, Event::Tick, now as nat),
    {
        match self.state {
            SessionState::Open => {},
            _ => { return Reaction::Idle; },
        }
        if now > self.last_heartbeat && now - self.last_heartbeat > CLIENT_TIMEOUT {
            self.state = SessionState::Closed;
            Reaction::Expire
        } else {
            Reaction::Reply(Message::Ping(Vec::new()))
        }
    }

    /// Takes note that the transport was released.
    pub fn stopped(&mut self)
        ensures
            final(self)@ == step(old(self)@, Event::Released, 0).0,
    {
        self.state = SessionState::Closed;
    }

    /// Records a sign of life at `now`; the record never moves back.
    fn touch(&mut self, now: u64)
        ensures
            final(self)@ == (SessionModel {
                last_heartbeat: crate::session::later(old(self)@.last_heartbeat, now as nat),
                ..old(self)@
            }),
    {
        if self.last_heartbeat <= now {
            self.last_heartbeat = now;
        }
    }
}

} // verus!
