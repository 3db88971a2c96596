//! The frames of the control channel and what a session asks of its
//! transport and of the input backend.

use vstd::prelude::*;
use crate::command::BackendCall;
use crate::grammar::ParseError;

verus! {

/// Why a peer closes the channel.
#[derive(Clone, Debug, PartialEq, Eq)]
pub struct CloseReason {
    /// The status code of the close frame.
    pub code: u16,
    /// The optional text that came with it.
    pub description: Option<String>,
}

pub struct CloseReasonView {
    pub code: u16,
    pub description: Option<Seq<char>>,
}

impl View for CloseReason {
    type V = CloseReasonView;

    open spec fn view(&self) -> CloseReasonView {
        CloseReasonView {
            code: self.code,
            description: match self.description {
                Some(text) => Some(text@),
                None => None,
            },
        }
    }
}

/// The view of an optional close reason.
pub open spec fn reason_view(reason: Option<CloseReason>) -> Option<CloseReasonView> {
    match reason {
        Some(r) => Some(r@),
        None => None,
    }
}

/// One frame of the channel, inbound or outbound.
#[derive(Clone, Debug, PartialEq, Eq)]
pub enum Message {
    Text(String),
    Binary(Vec<u8>),
    /// A fragment of a longer message; the session reads no fragments.
    Continuation,
    Ping(Vec<u8>),
    Pong(Vec<u8>),
    Close(Option<CloseReason>),
    /// A frame without content.
    Nop,
}

pub enum MessageView {
    Text(Seq<char>),
    Binary(Seq<u8>),
    Continuation,
    Ping(Seq<u8>),
    Pong(Seq<u8>),
    Close(Option<CloseReasonView>),
    Nop,
}

impl View for Message {
    type V = MessageView;

    open spec fn view(&self) -> MessageView {
        match *self {
            Message::Text(text) => MessageView::Text(text@),
            Message::Binary(bytes) => MessageView::Binary(bytes@),
            Message::Continuation => MessageView::Continuation,
            Message::Ping(payload) => MessageView::Ping(payload@),
            Message::Pong(payload) => MessageView::Pong(payload@),
            Message::Close(reason) => MessageView::Close(reason_view(reason)),
            Message::Nop => MessageView::Nop,
        }
    }
}

/// A frame that broke the framing rules. The session reads nothing of it.
#[derive(Clone, Copy, Debug, PartialEq, Eq)]
pub struct ProtocolError {}

/// What the owner of a session has to do after one event. The session
/// itself touches neither the transport nor the backend.
#[derive(Clone, Debug, PartialEq, Eq)]
pub enum Reaction {
    /// Nothing.
    Idle,
    /// Send this frame to the peer.
    Reply(Message),
    /// Make this call on the input backend. A failure of the backend is
    /// the owner's to log; the session goes on.
    Execute(BackendCall),
    /// The text was no command: note the error and drop the frame.
    Discard(ParseError),
    /// Send a close frame with this reason, then release the transport.
    Close(Option<CloseReason>),
    /// Release the transport without a close frame: the peer broke the
    /// protocol or sent a frame the session does not take.
    Abort,
    /// Release the transport without a close frame: the peer was silent
    /// for longer than the timeout.
    Expire,
}

pub enum ReactionView {
    Idle,
    Reply(MessageView),
    Execute(BackendCall),
    Discard(ParseError),
    Close(Option<CloseReasonView>),
    Abort,
    Expire,
}

impl View for Reaction {
    type V = ReactionView;

    open spec fn view(&self) -> ReactionView {
        match *self {
            Reaction::Idle => ReactionView::Idle,
            Reaction::Reply(frame) => ReactionView::Reply(frame@),
            Reaction::Execute(call) => ReactionView::Execute(call),
            Reaction::Discard(error) => ReactionView::Discard(error),
            Reaction::Close(reason) => ReactionView::Close(reason_view(reason)),
            Reaction::Abort => ReactionView::Abort,
            Reaction::Expire => ReactionView::Expire,
        }
    }
}

impl ReactionView {
    /// The frame that this reaction puts on the wire, if any.
    pub open spec fn outbound(self) -> Option<MessageView> {
        match self {
            ReactionView::Reply(frame) => Some(frame),
            ReactionView::Close(reason) => Some(MessageView::Close(reason)),
            _ => None,
        }
    }

    /// The call that this reaction makes on the input backend, if any.
    pub open spec fn backend_call(self) -> Option<BackendCall> {
        match self {
            ReactionView::Execute(call) => Some(call),
            _ => None,
        }
    }

    /// Whether this reaction releases the transport.
    pub open spec fn releases(self) -> bool {
        self is Close || self is Abort || self is Expire
    }
}

} // verus!
