//! One client connection, as a state machine.
//!
//! A session never touches a socket or the serial line. Its caller performs
//! the [`Action`] that the session asks for, reports what came of it as an
//! [`Event`], and is told the next action. The session decides everything in
//! between: when the guard of the serial line is taken and given back, how
//! much of a request is still to be written, whether there is a reply to
//! send, and when the connection is over.

use vstd::prelude::*;
use vstd::slice::slice_subrange;
use crate::frame::{Frame, MAX_FRAME_LEN};

verus! {

/// Why a session ended.
#[derive(Clone, Copy, Debug, PartialEq, Eq, Structural)]
pub enum CloseReason {
    /// The client closed the connection, or sent an empty frame.
    PeerClosed,
    /// Receiving from the client failed.
    ReceiveFailed,
    /// The serial line reported a fault while the request was written.
    WriteFailed,
    /// The serial line reported a fault while the reply was read.
    ReadFailed,
    /// Sending the reply to the client failed.
    SendFailed,
}

/// The four states in which a session can be observed.
#[derive(Clone, Copy, Debug, PartialEq, Eq, Structural)]
pub enum Phase {
    /// Waiting for the next frame of the client.
    Connected,
    /// Carrying a request to the serial line: from asking for the guard
    /// until the guard has been given back.
    Forwarding,
    /// Sending the reply of the serial line to the client.
    Replying,
    /// Over; nothing will happen again.
    Closed,
}

/// What the caller has to do next on behalf of a session.
#[derive(Clone, Copy, Debug, PartialEq, Eq, Structural)]
pub enum Action {
    /// Wait for the next frame of the client.
    Receive,
    /// Take the guard of the serial line, waiting for it if need be.
    Acquire,
    /// Write [`Session::pending_write`] to the serial line.
    Write,
    /// Read once from the serial line, for a bounded time.
    Read,
    /// Give the guard of the serial line back.
    Release,
    /// Send [`Session::pending_reply`] to the client as one frame.
    Send,
    /// End the session.
    Stop,
}

/// What the caller reports to a session.
#[derive(Debug)]
pub enum Event {
    /// A frame arrived from the client.
    Received(Frame),
    /// The client closed the connection.
    PeerClosed,
    /// Receiving from the client failed.
    ReceiveFailed,
    /// The guard of the serial line is now held for this session.
    Acquired,
    /// The serial line accepted this many of the bytes handed to it.
    Wrote(usize),
    /// The serial line reported a fault on writing.
    WriteFailed,
    /// The bounded read returned these bytes.
    ReadDone(Frame),
    /// The bounded read ended without any byte.
    ReadTimedOut,
    /// The serial line reported a fault on reading.
    ReadFailed,
    /// The guard of the serial line has been given back.
    Released,
    /// The reply went out to the client.
    Sent,
    /// Sending the reply to the client failed.
    SendFailed,
}

/// An [`Event`] as a mathematical value.
pub enum EventView {
    Received(Seq<u8>),
    PeerClosed,
    ReceiveFailed,
    Acquired,
    Wrote(nat),
    WriteFailed,
    ReadDone(Seq<u8>),
    ReadTimedOut,
    ReadFailed,
    Released,
    Sent,
    SendFailed,
}

impl View for Event {
    type V = EventView;

    open spec fn view(&self) -> EventView {
        match self {
            Event::Received(frame) => EventView::Received(frame@),
            Event::PeerClosed => EventView::PeerClosed,
            Event::ReceiveFailed => EventView::ReceiveFailed,
            Event::Acquired => EventView::Acquired,
            Event::Wrote(n) => EventView::Wrote(*n as nat),
            Event::WriteFailed => EventView::WriteFailed,
            Event::ReadDone(frame) => EventView::ReadDone(frame@),
            Event::ReadTimedOut => EventView::ReadTimedOut,
            Event::ReadFailed => EventView::ReadFailed,
            Event::Released => EventView::Released,
            Event::Sent => EventView::Sent,
            Event::SendFailed => EventView::SendFailed,
        }
    }
}

impl EventView {
    /// Every frame that the event carries is within [`MAX_FRAME_LEN`].
    pub open spec fn bounded(self) -> bool {
        match self {
            EventView::Received(bytes) => bytes.len() <= MAX_FRAME_LEN,
            EventView::ReadDone(bytes) => bytes.len() <= MAX_FRAME_LEN,
            _ => true,
        }
    }

    /// The event that stands for a receive call which reported `len` bytes
    /// for a buffer that holds `buf`: the frame made of the first `len`
    /// bytes, or a failure when the message did not fit.
    pub open spec fn received(buf: Seq<u8>, len: nat) -> EventView {
        if len <= buf.len() && len <= MAX_FRAME_LEN {
            EventView::Received(buf.take(len as int))
        } else {
            EventView::ReceiveFailed
        }
    }

    /// The event that stands for a read of the serial line which reported
    /// `len` bytes for a buffer that holds `buf`: the first `len` bytes, or
    /// a fault when that is more than the buffer or a frame can hold.
    pub open spec fn read_done(buf: Seq<u8>, len: nat) -> EventView {
        if len <= buf.len() && len <= MAX_FRAME_LEN {
            EventView::ReadDone(buf.take(len as int))
        } else {
            EventView::ReadFailed
        }
    }
}

impl Event {
    /// The event to report when a receive call returned `len` as the length
    /// of the client's message and filled `buf` with it.
    ///
    /// A message that is longer than the buffer or than [`MAX_FRAME_LEN`]
    /// cannot be forwarded as one frame: receiving it has failed.
    pub fn received(buf: &[u8], len: usize) -> (event: Event)
        ensures
            event@ == EventView::received(buf@, len as nat),
    {
        match Frame::from_prefix(buf, len) {
            Some(frame) => Event::Received(frame),
            None => Event::ReceiveFailed,
        }
    }

    /// The event to report when a bounded read of the serial line returned
    /// `len` as the number of bytes that it put into `buf`.
    ///
    /// A count beyond the buffer or beyond [`MAX_FRAME_LEN`] is a fault of
    /// the line.
    pub fn read_done(buf: &[u8], len: usize) -> (event: Event)
        ensures
            event@ == EventView::read_done(buf@, len as nat),
    {
        match Frame::from_prefix(buf, len) {
            Some(frame) => Event::ReadDone(frame),
            None => Event::ReadFailed,
        }
    }
}

/// What a session does once the guard has been given back.
pub enum Resume {
    /// Send this reply to the client.
    Reply(Seq<u8>),
    /// Wait for the next frame: the serial line had nothing to say.
    Idle,
    /// End the session for this reason.
    Close(CloseReason),
}

/// A session as a mathematical value.
///
/// `Acquiring`, `Writing`, `Reading` and `Releasing` together make up
/// [`Phase::Forwarding`].
pub enum SessionState {
    /// Waiting for the next frame of the client.
    Connected,
    /// Waiting for the guard, with the request that is to be forwarded.
    Acquiring { request: Seq<u8> },
    /// Holding the guard; the first `written` bytes of `request` are on the
    /// serial line.
    Writing { request: Seq<u8>, written: nat },
    /// Holding the guard; the request is on the serial line in full and one
    /// bounded read is due.
    Reading,
    /// Holding the guard, which is to be given back.
    Releasing { then: Resume },
    /// Sending `reply` to the client.
    Replying { reply: Seq<u8> },
    /// Over.
    Closed { reason: CloseReason },
}

impl SessionState {
    /// The invariant of a session: a request or reply in flight is neither
    /// empty nor longer than [`MAX_FRAME_LEN`], and while a request is being
    /// written some of it is still left.
    pub open spec fn wf(self) -> bool {
        match self {
            SessionState::Acquiring { request } => 0 < request.len() <= MAX_FRAME_LEN,
            SessionState::Writing { request, written } => written < request.len() <= MAX_FRAME_LEN,
            SessionState::Releasing { then: Resume::Reply(reply) } => 0 < reply.len()
                <= MAX_FRAME_LEN,
            SessionState::Replying { reply } => 0 < reply.len() <= MAX_FRAME_LEN,
            _ => true,
        }
    }

    /// The observable state of the session.
    pub open spec fn phase(self) -> Phase {
        match self {
            SessionState::Connected => Phase::Connected,
            SessionState::Acquiring { .. } => Phase::Forwarding,
            SessionState::Writing { .. } => Phase::Forwarding,
            SessionState::Reading => Phase::Forwarding,
            SessionState::Releasing { .. } => Phase::Forwarding,
            SessionState::Replying { .. } => Phase::Replying,
            SessionState::Closed { .. } => Phase::Closed,
        }
    }

    /// Whether the session holds the guard of the serial line.
    pub open spec fn holds_guard(self) -> bool {
        self is Writing || self is Reading || self is Releasing
    }

    /// The one thing that the session waits for its caller to do.
    pub open spec fn action(self) -> Action {
        match self {
            SessionState::Connected => Action::Receive,
            SessionState::Acquiring { .. } => Action::Acquire,
            SessionState::Writing { .. } => Action::Write,
            SessionState::Reading => Action::Read,
            SessionState::Releasing { .. } => Action::Release,
            SessionState::Replying { .. } => Action::Send,
            SessionState::Closed { .. } => Action::Stop,
        }
    }

    /// The bytes to hand to the serial line: what is left of the request
    /// while it is being written, nothing otherwise.
    pub open spec fn pending_write(self) -> Seq<u8> {
        match self {
            SessionState::Writing { request, written } => request.skip(written as int),
            _ => Seq::empty(),
        }
    }

    /// The bytes to send to the client: the reply while it is being sent,
    /// nothing otherwise.
    pub open spec fn pending_reply(self) -> Seq<u8> {
        match self {
            SessionState::Replying { reply } => reply,
            _ => Seq::empty(),
        }
    }

    /// Why the session ended, once it has.
    pub open spec fn close_reason(self) -> Option<CloseReason> {
        match self {
            SessionState::Closed { reason } => Some(reason),
            _ => None,
        }
    }

    /// The state that follows `self` when `event` is reported, or `None`
    /// when the session does not wait for that event.
    ///
    /// A write that accepts no byte counts as a fault: the line makes no
    /// progress. A report of more bytes written than were handed over is no
    /// event that the session waits for.
    pub open spec fn next(self, event: EventView) -> Option<SessionState> {
        match (self, event) {
            (SessionState::Connected, EventView::Received(bytes)) => if bytes.len() == 0 {
                Some(SessionState::Closed { reason: CloseReason::PeerClosed })
            } else {
                Some(SessionState::Acquiring { request: bytes })
            },
            (SessionState::Connected, EventView::PeerClosed) => Some(
                SessionState::Closed { reason: CloseReason::PeerClosed },
            ),
            (SessionState::Connected, EventView::ReceiveFailed) => Some(
                SessionState::Closed { reason: CloseReason::ReceiveFailed },
            ),
            (SessionState::Acquiring { request }, EventView::Acquired) => Some(
                SessionState::Writing { request, written: 0 },
            ),
            (SessionState::Writing { request, written }, EventView::Wrote(n)) => if n == 0 {
                Some(SessionState::Releasing { then: Resume::Close(CloseReason::WriteFailed) })
            } else if written + n < request.len() {
                Some(SessionState::Writing { request, written: written + n })
            } else if written + n == request.len() {
                Some(SessionState::Reading)
            } else {
                None
            },
            (SessionState::Writing { .. }, EventView::WriteFailed) => Some(
                SessionState::Releasing { then: Resume::Close(CloseReason::WriteFailed) },
            ),
            (SessionState::Reading, EventView::ReadDone(bytes)) => if bytes.len() == 0 {
                Some(SessionState::Releasing { then: Resume::Idle })
            } else {
                Some(SessionState::Releasing { then: Resume::Reply(bytes) })
            },
            (SessionState::Reading, EventView::ReadTimedOut) => Some(
                SessionState::Releasing { then: Resume::Idle },
            ),
            (SessionState::Reading, EventView::ReadFailed) => Some(
                SessionState::Releasing { then: Resume::Close(CloseReason::ReadFailed) },
            ),
            (SessionState::Releasing { then }, EventView::Released) => Some(
                match then {
                    Resume::Reply(reply) => SessionState::Replying { reply },
                    Resume::Idle => SessionState::Connected,
                    Resume::Close(reason) => SessionState::Closed { reason },
                },
            ),
            (SessionState::Replying { .. }, EventView::Sent) => Some(SessionState::Connected),
            (SessionState::Replying { .. }, EventView::SendFailed) => Some(
                SessionState::Closed { reason: CloseReason::SendFailed },
            ),
            _ => None,
        }
    }
}

/// Reporting an event never breaks the invariant of a session: whatever
/// frame the event brings within [`MAX_FRAME_LEN`], the state that follows
/// is well formed.
pub proof fn lemma_next_preserves_wf(state: SessionState, event: EventView)
    requires
        state.wf(),
        event.bounded(),
        state.next(event) is Some,
    ensures
        state.next(event)->0.wf(),
{
}

/// The guard is taken by one event only and given back by one event only:
/// a session comes to hold it exactly on `Acquired` and ceases to hold it
/// exactly on `Released`. So whichever way an exchange ends, with a reply,
/// with silence or with a fault, the session leaves it through the release
/// of the guard.
pub proof fn lemma_guard_discipline(state: SessionState, event: EventView)
    requires
        state.next(event) is Some,
    ensures
        !state.holds_guard() && state.next(event)->0.holds_guard() <==> event is Acquired,
        state.holds_guard() && !state.next(event)->0.holds_guard() <==> event is Released,
        event is Wrote || event is WriteFailed || event is ReadDone || event is ReadTimedOut
            || event is ReadFailed ==> state.holds_guard(),
{
}

/// A session that holds the guard can always go on, and every way on leads
/// to the release: a fault is accepted while writing and while reading, and
/// after the read only `Released` is.
pub proof fn lemma_guard_is_given_back(state: SessionState)
    requires
        state.holds_guard(),
    ensures
        state is Writing ==> state.next(EventView::WriteFailed) is Some
            && state.next(EventView::WriteFailed)->0 is Releasing,
        state is Reading ==> state.next(EventView::ReadFailed) is Some && state.next(
            EventView::ReadFailed,
        )->0 is Releasing,
        state is Releasing ==> state.next(EventView::Released) is Some && !state.next(
            EventView::Released,
        )->0.holds_guard(),
{
}

/// A session takes the next frame of its client only when it is
/// `Connected`: no exchange begins before the one before it is over.
pub proof fn lemma_one_exchange_at_a_time(state: SessionState, bytes: Seq<u8>)
    requires
        state.next(EventView::Received(bytes)) is Some,
    ensures
        state is Connected,
{
}

/// `Closed` is final: a closed session waits for no event.
pub proof fn lemma_closed_is_final(state: SessionState, event: EventView)
    requires
        state is Closed,
    ensures
        state.next(event) is None,
{
}

/// A read that brings nothing is no failure: whether it timed out or
/// returned no byte, the session gives the guard back and is `Connected`
/// again, ready for the next frame.
pub proof fn lemma_timeout_is_not_failure(state: SessionState, event: EventView)
    requires
        state is Reading,
        event is ReadTimedOut || event == EventView::ReadDone(Seq::<u8>::empty()),
    ensures
        state.next(event) == Some(SessionState::Releasing { then: Resume::Idle }),
        state.next(event)->0.next(EventView::Released) == Some(SessionState::Connected),
{
}

/// The answer to an event that a session does not wait for.
#[derive(Clone, Copy, Debug, PartialEq, Eq, Structural)]
pub struct Unexpected {
    /// What the session still waits for its caller to do.
    pub awaited: Action,
}

enum After {
    Reply(Frame),
    Idle,
    Close(CloseReason),
}

enum Stage {
    Connected,
    Acquiring { request: Frame },
    Writing { request: Frame, written: usize },
    Reading,
    Releasing { then: After },
    Replying { reply: Frame },
    Closed { reason: CloseReason },
}

impl View for After {
    type V = Resume;

    closed spec fn view(&self) -> Resume {
        match self {
            After::Reply(reply) => Resume::Reply(reply@),
            After::Idle => Resume::Idle,
            After::Close(reason) => Resume::Close(*reason),
        }
    }
}

impl View for Stage {
    type V = SessionState;

    closed spec fn view(&self) -> SessionState {
        match self {
            Stage::Connected => SessionState::Connected,
            Stage::Acquiring { request } => SessionState::Acquiring { request: request@ },
            Stage::Writing { request, written } => SessionState::Writing {
                request: request@,
                written: *written as nat,
            },
            Stage::Reading => SessionState::Reading,
            Stage::Releasing { then } => SessionState::Releasing { then: then@ },
            Stage::Replying { reply } => SessionState::Replying { reply: reply@ },
            Stage::Closed { reason } => SessionState::Closed { reason: *reason },
        }
    }
}

/// One client connection: where it stands and what it carries.
pub struct Session {
    stage: Stage,
}

impl View for Session {
    type V = SessionState;

    closed spec fn view(&self) -> SessionState {
        self.stage@
    }
}

/// The stage that follows `stage` on `event`, with the action that it waits
/// for; on an event that `stage` does not wait for, `stage` itself.
fn advance(stage: Stage, event: Event) -> (r: (Stage, Result<Action, Unexpected>))
    requires
        stage@.wf(),
    ensures
        r.0@.wf(),
        match stage@.next(event@) {
            Some(state) => r.0@ == state && r.1 == Ok::<Action, Unexpected>(state.action()),
            None => r.0@ == stage@ && r.1 == Err::<Action, Unexpected>(
                Unexpected { awaited: stage@.action() },
            ),
        },
{
    match stage {
        Stage::Connected => match event {
            Event::Received(frame) => {
                if frame.len() == 0 {
                    (Stage::Closed { reason: CloseReason::PeerClosed }, Ok(Action::Stop))
                } else {
                    (Stage::Acquiring { request: frame }, Ok(Action::Acquire))
                }
            },
            Event::PeerClosed => (
                Stage::Closed { reason: CloseReason::PeerClosed },
                Ok(Action::Stop),
            ),
            Event::ReceiveFailed => (
                Stage::Closed { reason: CloseReason::ReceiveFailed },
                Ok(Action::Stop),
            ),
            _ => (Stage::Connected, Err(Unexpected { awaited: Action::Receive })),
        },
        Stage::Acquiring { request } => match event {
            Event::Acquired => (Stage::Writing { request, written: 0 }, Ok(Action::Write)),
            _ => (Stage::Acquiring { request }, Err(Unexpected { awaited: Action::Acquire })),
        },
        Stage::Writing { request, written } => match event {
            Event::Wrote(n) => {
                let left: usize = request.len() - written;
                if n == 0 {
                    (
                        Stage::Releasing { then: After::Close(CloseReason::WriteFailed) },
                        Ok(Action::Release),
                    )
                } else if n < left {
                    (Stage::Writing { request, written: written + n }, Ok(Action::Write))
                } else if n == left {
                    (Stage::Reading, Ok(Action::Read))
                } else {
                    (
                        Stage::Writing { request, written },
                        Err(Unexpected { awaited: Action::Write }),
                    )
                }
            },
            Event::WriteFailed => (
                Stage::Releasing { then: After::Close(CloseReason::WriteFailed) },
                Ok(Action::Release),
            ),
            _ => (Stage::Writing { request, written }, Err(Unexpected { awaited: Action::Write })),
        },
        Stage::Reading => match event {
            Event::ReadDone(frame) => {
                if frame.len() == 0 {
                    (Stage::Releasing { then: After::Idle }, Ok(Action::Release))
                } else {
                    (Stage::Releasing { then: After::Reply(frame) }, Ok(Action::Release))
                }
            },
            Event::ReadTimedOut => (Stage::Releasing { then: After::Idle }, Ok(Action::Release)),
            Event::ReadFailed => (
                Stage::Releasing { then: After::Close(CloseReason::ReadFailed) },
                Ok(Action::Release),
            ),
            _ => (Stage::Reading, Err(Unexpected { awaited: Action::Read })),
        },
        Stage::Releasing { then } => match event {
            Event::Released => match then {
                After::Reply(reply) => (Stage::Replying { reply }, Ok(Action::Send)),
                After::Idle => (Stage::Connected, Ok(Action::Receive)),
                After::Close(reason) => (Stage::Closed { reason }, Ok(Action::Stop)),
            },
            _ => (Stage::Releasing { then }, Err(Unexpected { awaited: Action::Release })),
        },
        Stage::Replying { reply } => match event {
            Event::Sent => (Stage::Connected, Ok(Action::Receive)),
            Event::SendFailed => (
                Stage::Closed { reason: CloseReason::SendFailed },
                Ok(Action::Stop),
            ),
            _ => (Stage::Replying { reply }, Err(Unexpected { awaited: Action::Send })),
        },
        Stage::Closed { reason } => (
            Stage::Closed { reason },
            Err(Unexpected { awaited: Action::Stop }),
        ),
    }
}

impl Session {
    #[verifier::type_invariant]
    spec fn well_formed(&self) -> bool {
        self.stage@.wf()
    }

    /// A session for a connection that was just accepted.
    pub fn new() -> (session: Session)
        ensures
            session@ == SessionState::Connected,
    {
        Session { stage: Stage::Connected }
    }

    /// Reports `event` to the session and returns what to do next.
    ///
    /// An event that the session does not wait for changes nothing and is
    /// answered with the action that is still due.
    pub fn step(&mut self, event: Event) -> (result: Result<Action, Unexpected>)
        ensures
            final(self)@.wf(),
            match old(self)@.next(event@) {
                Some(state) => final(self)@ == state && result == Ok::<Action, Unexpected>(
                    state.action(),
                ),
                None => final(self)@ == old(self)@ && result == Err::<Action, Unexpected>(
                    Unexpected { awaited: old(self)@.action() },
                ),
            },
    {
        proof {
            use_type_invariant(&*self);
        }
        let mut stage = Stage::Connected;
        core::mem::swap(&mut self.stage, &mut stage);
        let (next, result) = advance(stage, event);
        self.stage = next;
        result
    }

    /// The observable state of the session.
    pub fn phase(&self) -> (phase: Phase)
        ensures
            phase == self@.phase(),
            self@.wf(),
    {
        proof {
            use_type_invariant(self);
        }
        match &self.stage {
            Stage::Connected => Phase::Connected,
            Stage::Acquiring { .. } => Phase::Forwarding,
            Stage::Writing { .. } => Phase::Forwarding,
            Stage::Reading => Phase::Forwarding,
            Stage::Releasing { .. } => Phase::Forwarding,
            Stage::Replying { .. } => Phase::Replying,
            Stage::Closed { .. } => Phase::Closed,
        }
    }

    /// What the session waits for its caller to do.
    pub fn action(&self) -> (action: Action)
        ensures
            action == self@.action(),
    {
        match &self.stage {
            Stage::Connected => Action::Receive,
            Stage::Acquiring { .. } => Action::Acquire,
            Stage::Writing { .. } => Action::Write,
            Stage::Reading => Action::Read,
            Stage::Releasing { .. } => Action::Release,
            Stage::Replying { .. } => Action::Send,
            Stage::Closed { .. } => Action::Stop,
        }
    }

    /// Whether the session holds the guard of the serial line.
    pub fn holds_guard(&self) -> (held: bool)
        ensures
            held == self@.holds_guard(),
    {
        match &self.stage {
            Stage::Writing { .. } => true,
            Stage::Reading => true,
            Stage::Releasing { .. } => true,
            _ => false,
        }
    }

    /// The bytes to hand to the serial line when the action is
    /// [`Action::Write`]: the part of the request that the line has not
    /// accepted yet. Empty in every other state.
    pub fn pending_write(&self) -> (bytes: &[u8])
        ensures
            bytes@ == self@.pending_write(),
            bytes@.len() <= MAX_FRAME_LEN,
            self@.action() == Action::Write ==> bytes@.len() > 0,
    {
        proof {
            use_type_invariant(self);
        }
        match &self.stage {
            Stage::Writing { request, written } => {
                let all = request.as_slice();
                slice_subrange(all, *written, all.len())
            },
            _ => {
                let nothing: &[u8] = &[];
                nothing
            },
        }
    }

    /// The bytes to send to the client when the action is [`Action::Send`]:
    /// the reply that was read from the serial line. Empty in every other
    /// state.
    pub fn pending_reply(&self) -> (bytes: &[u8])
        ensures
            bytes@ == self@.pending_reply(),
            bytes@.len() <= MAX_FRAME_LEN,
            self@.action() == Action::Send ==> bytes@.len() > 0,
    {
        proof {
            use_type_invariant(self);
        }
        match &self.stage {
            Stage::Replying { reply } => reply.as_slice(),
            _ => {
                let nothing: &[u8] = &[];
                nothing
            },
        }
    }

    /// Why the session ended; `None` while it has not.
    pub fn close_reason(&self) -> (reason: Option<CloseReason>)
        ensures
            reason == self@.close_reason(),
    {
        match &self.stage {
            Stage::Closed { reason } => Some(*reason),
            _ => None,
        }
    }
}

} // verus!
