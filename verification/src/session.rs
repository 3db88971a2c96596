//! The session as a transition system: one state, one event, one reaction.
//!
//! Time is a count of nanoseconds on a monotonic clock of the owner's
//! choosing. A reading that lies before the last heartbeat counts as no
//! time passed.

use vstd::prelude::*;
use vstd::utf8::encode_utf8;
use crate::command::Command;
use crate::frame::{MessageView, ReactionView};
use crate::grammar::parse_command;

verus! {

/// How often the owner's timer ticks, in nanoseconds: five seconds.
pub const HEARTBEAT_INTERVAL: u64 = 5_000_000_000;

/// How long a peer may stay silent, in nanoseconds: ten seconds.
pub const CLIENT_TIMEOUT: u64 = 10_000_000_000;

#[derive(Clone, Copy, Debug, PartialEq, Eq, Structural)]
pub enum SessionState {
    /// Frames are taken and answered.
    Open,
    /// The close frame is on its way out; the transport is not released yet.
    Closing,
    /// The transport is released. Nothing is sent or executed any more.
    Closed,
}

/// What a session is, mathematically.
pub struct SessionModel {
    /// When the peer last proved to be alive.
    pub last_heartbeat: nat,
    pub state: SessionState,
}

/// What can happen to a session.
pub enum Event {
    /// A well-formed frame arrived.
    Frame(MessageView),
    /// Something arrived that is no well-formed frame.
    Broken,
    /// The heartbeat timer ticked.
    Tick,
    /// The transport was released.
    Released,
}

/// The later of two readings of the clock.
pub open spec fn later(a: nat, b: nat) -> nat {
    if a <= b {
        b
    } else {
        a
    }
}

/// Whether at `now` the peer has been silent for longer than the timeout.
pub open spec fn expired(last_heartbeat: nat, now: nat) -> bool {
    now - last_heartbeat > CLIENT_TIMEOUT
}

/// The session that opens at `now`.
pub open spec fn opened(now: nat) -> SessionModel {
    SessionModel { last_heartbeat: now, state: SessionState::Open }
}

/// What an open session does with a well-formed frame that arrives at `now`.
pub open spec fn on_frame(s: SessionModel, frame: MessageView, now: nat) -> (
    SessionModel,
    ReactionView,
) {
    match frame {
        MessageView::Ping(payload) => (
            SessionModel { last_heartbeat: later(s.last_heartbeat, now), ..s },
            ReactionView::Reply(MessageView::Pong(payload)),
        ),
        MessageView::Pong(_) => (
            SessionModel { last_heartbeat: later(s.last_heartbeat, now), ..s },
            ReactionView::Idle,
        ),
        MessageView::Text(text) => match parse_command(encode_utf8(text)) {
            Ok(command) => (s, ReactionView::Execute(command.backend_call())),
            Err(error) => (s, ReactionView::Discard(error)),
        },
        MessageView::Binary(bytes) => (s, ReactionView::Reply(MessageView::Binary(bytes))),
        MessageView::Close(reason) => (
            SessionModel { state: SessionState::Closing, ..s },
            ReactionView::Close(reason),
        ),
        MessageView::Continuation | MessageView::Nop => (
            SessionModel { state: SessionState::Closed, ..s },
            ReactionView::Abort,
        ),
    }
}

/// What an open session does when its timer ticks at `now`.
pub open spec fn on_tick(s: SessionModel, now: nat) -> (SessionModel, ReactionView) {
    if expired(s.last_heartbeat, now) {
        (SessionModel { state: SessionState::Closed, ..s }, ReactionView::Expire)
    } else {
        (s, ReactionView::Reply(MessageView::Ping(Seq::empty())))
    }
}

/// One step of a session. Only an open session reacts; the release of the
/// transport closes a session in any state.
pub open spec fn step(s: SessionModel, event: Event, now: nat) -> (SessionModel, ReactionView) {
    match event {
        Event::Released => (SessionModel { state: SessionState::Closed, ..s }, ReactionView::Idle),
        _ => if s.state == SessionState::Open {
            match event {
                Event::Frame(frame) => on_frame(s, frame, now),
                Event::Broken => (
                    SessionModel { state: SessionState::Closed, ..s },
                    ReactionView::Abort,
                ),
                _ => on_tick(s, now),
            }
        } else {
            (s, ReactionView::Idle)
        },
    }
}

/// The state after a sequence of events, each with the time it happened.
pub open spec fn run(s: SessionModel, trace: Seq<(Event, nat)>) -> SessionModel
    decreases trace.len(),
{
    if trace.len() == 0 {
        s
    } else {
        step(run(s, trace.drop_last()), trace.last().0, trace.last().1).0
    }
}

/// The reaction to the `i`-th event of a trace.
pub open spec fn reaction_at(s: SessionModel, trace: Seq<(Event, nat)>, i: int) -> ReactionView
    recommends
        0 <= i < trace.len(),
{
    step(run(s, trace.take(i)), trace[i].0, trace[i].1).1
}

/// `n` ticks of the timer, the first at `first`, one interval apart.
pub open spec fn ticks(first: nat, n: nat) -> Seq<(Event, nat)> {
    Seq::new(n, |j: int| (Event::Tick, (first + j * HEARTBEAT_INTERVAL) as nat))
}

/// No event moves the last heartbeat back, and none reopens a session.
pub proof fn lemma_step_is_monotone(s: SessionModel, event: Event, now: nat)
    ensures
        step(s, event, now).0.last_heartbeat >= s.last_heartbeat,
        s.state != SessionState::Open ==> step(s, event, now).0.state != SessionState::Open,
        s.state == SessionState::Closed ==> step(s, event, now).0 == s,
{
}

/// Over any sequence of events the last heartbeat never moves back.
pub proof fn lemma_heartbeat_never_moves_back(s: SessionModel, trace: Seq<(Event, nat)>)
    ensures
        run(s, trace).last_heartbeat >= s.last_heartbeat,
    decreases trace.len(),
{
    if trace.len() > 0 {
        lemma_heartbeat_never_moves_back(s, trace.drop_last());
        lemma_step_is_monotone(run(s, trace.drop_last()), trace.last().0, trace.last().1);
    }
}

/// An open session answers every ping with a pong of the same payload and
/// moves the last heartbeat to the time of the ping.
pub proof fn lemma_ping_is_answered(s: SessionModel, payload: Seq<u8>, now: nat)
    requires
        s.state == SessionState::Open,
    ensures
        step(s, Event::Frame(MessageView::Ping(payload)), now).1 == ReactionView::Reply(
            MessageView::Pong(payload),
        ),
        step(s, Event::Frame(MessageView::Ping(payload)), now).0.state == SessionState::Open,
        step(s, Event::Frame(MessageView::Ping(payload)), now).0.last_heartbeat
            >= s.last_heartbeat,
        now >= s.last_heartbeat ==> step(
            s,
            Event::Frame(MessageView::Ping(payload)),
            now,
        ).0.last_heartbeat == now,
{
}

/// The command that an event spells: that of a text frame which parses.
pub open spec fn spelled(event: Event) -> Option<Command> {
    match event {
        Event::Frame(MessageView::Text(text)) => match parse_command(encode_utf8(text)) {
            Ok(command) => Some(command),
            Err(_) => None,
        },
        _ => None,
    }
}

/// The backend is called for one reason only: an open session took a text
/// frame that spells a command, and the call is that command's. A text
/// that fails to parse calls nothing and leaves the session as it was.
pub proof fn lemma_backend_called_only_for_commands(s: SessionModel, event: Event, now: nat)
    ensures
        step(s, event, now).1.backend_call() == (if s.state == SessionState::Open {
            match spelled(event) {
                Some(command) => Some(command.backend_call()),
                None => None,
            }
        } else {
            None
        }),
        event is Frame && event->Frame_0 is Text && spelled(event) is None ==> step(
            s,
            event,
            now,
        ).0 == s,
{
}

/// Once a session has left `Open` it stays out of it, keeps its last
/// heartbeat, and reacts to nothing: no frame goes out, no call is made.
pub proof fn lemma_closed_is_silent(s: SessionModel, trace: Seq<(Event, nat)>)
    requires
        s.state != SessionState::Open,
    ensures
        run(s, trace).state != SessionState::Open,
        run(s, trace).last_heartbeat == s.last_heartbeat,
        s.state == SessionState::Closed ==> run(s, trace) == s,
        forall|i: int|
            0 <= i < trace.len() ==> #[trigger] reaction_at(s, trace, i) == ReactionView::Idle,
    decreases trace.len(),
{
    if trace.len() > 0 {
        lemma_closed_is_silent(s, trace.drop_last());
    }
    assert forall|i: int| 0 <= i < trace.len() implies #[trigger] reaction_at(s, trace, i)
        == ReactionView::Idle by {
        lemma_closed_is_silent(s, trace.take(i));
    }
}

/// An open session answers a close frame with a close frame of the same
/// reason, and whatever happens afterwards it emits nothing more.
pub proof fn lemma_close_ends_emission(
    s: SessionModel,
    reason: Option<crate::frame::CloseReasonView>,
    now: nat,
    trace: Seq<(Event, nat)>,
)
    requires
        s.state == SessionState::Open,
    ensures
        step(s, Event::Frame(MessageView::Close(reason)), now).1.outbound() == Some(
            MessageView::Close(reason),
        ),
        step(s, Event::Frame(MessageView::Close(reason)), now).0.state == SessionState::Closing,
        forall|i: int|
            0 <= i < trace.len() ==> (#[trigger] reaction_at(
                step(s, Event::Frame(MessageView::Close(reason)), now).0,
                trace,
                i,
            )).outbound() is None,
{
    let after = step(s, Event::Frame(MessageView::Close(reason)), now).0;
    lemma_closed_is_silent(after, trace);
}

/// Ticks that all come in time leave an open session as it is, and each
/// of them sends an empty ping.
pub proof fn lemma_ticks_in_time(s: SessionModel, first: nat, n: nat)
    requires
        s.state == SessionState::Open,
        n > 0 ==> first + (n - 1) * HEARTBEAT_INTERVAL <= s.last_heartbeat + CLIENT_TIMEOUT,
    ensures
        run(s, ticks(first, n)) == s,
        forall|i: int|
            0 <= i < n ==> #[trigger] reaction_at(s, ticks(first, n), i) == ReactionView::Reply(
                MessageView::Ping(Seq::empty()),
            ),
    decreases n,
{
    if n > 0 {
        let shorter = (n - 1) as nat;
        assert(ticks(first, n).drop_last() =~= ticks(first, shorter));
        lemma_ticks_in_time(s, first, shorter);
        assert forall|i: int| 0 <= i < n implies #[trigger] reaction_at(s, ticks(first, n), i)
            == ReactionView::Reply(MessageView::Ping(Seq::empty())) by {
            assert(ticks(first, n).take(i) =~= ticks(first, i as nat));
            lemma_ticks_in_time(s, first, i as nat);
        }
    }
}

/// A peer that stays silent is dropped within one interval of its
/// deadline. Take an open session and a timer of which one tick, at
/// `first`, comes no later than the deadline (there is one whenever the
/// timer started no later than the last heartbeat, the interval being
/// shorter than the timeout). If nothing but the ticks happens, then the
/// tick numbered `k` behind `first` is later than the deadline by at most
/// one interval, every tick before it sends a ping, and that tick ends the
/// session without a frame.
pub proof fn lemma_silent_peer_expires(s: SessionModel, first: nat) -> (k: nat)
    requires
        s.state == SessionState::Open,
        first <= s.last_heartbeat + CLIENT_TIMEOUT,
    ensures
        s.last_heartbeat + CLIENT_TIMEOUT < first + k * HEARTBEAT_INTERVAL,
        first + k * HEARTBEAT_INTERVAL <= s.last_heartbeat + CLIENT_TIMEOUT + HEARTBEAT_INTERVAL,
        run(s, ticks(first, k)) == s,
        forall|i: int|
            0 <= i < k ==> #[trigger] reaction_at(s, ticks(first, k + 1), i) == ReactionView::Reply(
                MessageView::Ping(Seq::empty()),
            ),
        reaction_at(s, ticks(first, k + 1), k as int) == ReactionView::Expire,
        run(s, ticks(first, k + 1)).state == SessionState::Closed,
{
    let deadline = s.last_heartbeat + CLIENT_TIMEOUT;
    let k = ((deadline - first) / (HEARTBEAT_INTERVAL as int) + 1) as nat;
    let all = ticks(first, k + 1);
    assert(all.drop_last() =~= ticks(first, k));
    assert(all.take(k as int) =~= ticks(first, k));
    lemma_ticks_in_time(s, first, k);
    assert forall|i: int| 0 <= i < k implies #[trigger] reaction_at(s, all, i)
        == ReactionView::Reply(MessageView::Ping(Seq::empty())) by {
        assert(all.take(i) =~= ticks(first, i as nat));
        lemma_ticks_in_time(s, first, i as nat);
    }
    k
}

} // verus!
