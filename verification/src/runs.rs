//! Runs of a session: what a whole succession of events leads to.

use vstd::prelude::*;
use crate::session::{EventView, Resume, SessionState};

verus! {

/// The state that a session reaches from `state` when `events` are reported
/// one after the other, or `None` when it does not wait for one of them.
pub open spec fn run(state: SessionState, events: Seq<EventView>) -> Option<SessionState>
    decreases events.len(),
{
    if events.len() == 0 {
        Some(state)
    } else {
        match state.next(events.first()) {
            Some(then) => run(then, events.drop_first()),
            None => None,
        }
    }
}

/// The reports of a write that the serial line accepted in parts of these
/// sizes.
pub open spec fn wrote(parts: Seq<nat>) -> Seq<EventView> {
    parts.map_values(|n: nat| EventView::Wrote(n))
}

/// The sum of `parts`.
pub open spec fn total(parts: Seq<nat>) -> nat
    decreases parts.len(),
{
    if parts.len() == 0 {
        0
    } else {
        parts.first() + total(parts.drop_first())
    }
}

/// The events of one exchange that goes well: the request arrives, the
/// guard is taken, the line accepts the request in `parts`, the read
/// returns `reply`, the guard is given back.
pub open spec fn exchange(request: Seq<u8>, parts: Seq<nat>, reply: Seq<u8>) -> Seq<EventView> {
    seq![EventView::Received(request), EventView::Acquired] + wrote(parts) + seq![
        EventView::ReadDone(reply),
        EventView::Released,
    ]
}

/// A run of `first` followed by `second` is the run of `second` from where
/// the run of `first` ends.
pub proof fn lemma_run_in_two(state: SessionState, first: Seq<EventView>, second: Seq<EventView>)
    ensures
        run(state, first + second) == match run(state, first) {
            Some(then) => run(then, second),
            None => None,
        },
    decreases first.len(),
{
    if first.len() > 0 {
        assert((first + second).drop_first() =~= first.drop_first() + second);
        if let Some(then) = state.next(first.first()) {
            lemma_run_in_two(then, first.drop_first(), second);
        }
    }
}

/// However the serial line cuts a request into parts, as long as each part
/// holds at least one byte and together they are what was left to write,
/// the session goes on to read once all of them are reported: the request
/// is written in full, and no more.
pub proof fn lemma_written_in_full(request: Seq<u8>, written: nat, parts: Seq<nat>)
    requires
        written < request.len(),
        forall|i: int| 0 <= i < parts.len() ==> parts[i] > 0,
        written + total(parts) == request.len(),
    ensures
        run(SessionState::Writing { request, written }, wrote(parts)) == Some(
            SessionState::Reading,
        ),
    decreases parts.len(),
{
    if parts.len() > 0 {
        let n = parts.first();
        let rest = parts.drop_first();
        assert(wrote(parts).drop_first() =~= wrote(rest));
        if written + n == request.len() {
            // Nothing is left to write, so no part is left either.
            assert(rest.len() == 0) by {
                if rest.len() > 0 {
                    assert(total(rest) == rest.first() + total(rest.drop_first()));
                }
            }
            assert(run(SessionState::Reading, wrote(rest)) == Some(SessionState::Reading));
        } else {
            lemma_written_in_full(request, written + n, rest);
        }
    }
}

/// A request goes to the serial line and the reply comes back unaltered:
/// whatever non-empty `request` a connected session receives, in whatever
/// parts the line accepts it, and whatever non-empty `reply` the one read
/// returns, the session ends up sending exactly `reply`, as one frame, and
/// is connected again once it is sent. With a line that echoes, the client
/// gets back what it sent.
pub proof fn lemma_exchange_is_exact(request: Seq<u8>, parts: Seq<nat>, reply: Seq<u8>)
    requires
        request.len() > 0,
        reply.len() > 0,
        forall|i: int| 0 <= i < parts.len() ==> parts[i] > 0,
        total(parts) == request.len(),
    ensures
        run(SessionState::Connected, exchange(request, parts, reply)) == Some(
            SessionState::Replying { reply },
        ),
        (SessionState::Replying { reply }).pending_reply() == reply,
        (SessionState::Replying { reply }).next(EventView::Sent) == Some(SessionState::Connected),
{
    let head = seq![EventView::Received(request), EventView::Acquired];
    let tail = seq![EventView::ReadDone(reply), EventView::Released];
    let writing = SessionState::Writing { request, written: 0 };
    assert(run(SessionState::Connected, head) == Some(writing)) by {
        reveal_with_fuel(run, 3);
    }
    lemma_written_in_full(request, 0, parts);
    assert(run(SessionState::Reading, tail) == Some(SessionState::Replying { reply })) by {
        reveal_with_fuel(run, 3);
    }
    lemma_run_in_two(SessionState::Connected, head, wrote(parts));
    lemma_run_in_two(SessionState::Connected, head + wrote(parts), tail);
}

/// A request to which the serial line says nothing costs the session
/// nothing: after the same exchange with a read that times out, the session
/// is connected and waits for the next frame.
pub proof fn lemma_silence_keeps_connection(request: Seq<u8>, parts: Seq<nat>)
    requires
        request.len() > 0,
        forall|i: int| 0 <= i < parts.len() ==> parts[i] > 0,
        total(parts) == request.len(),
    ensures
        run(
            SessionState::Connected,
            seq![EventView::Received(request), EventView::Acquired] + wrote(parts) + seq![
                EventView::ReadTimedOut,
                EventView::Released,
            ],
        ) == Some(SessionState::Connected),
{
    let head = seq![EventView::Received(request), EventView::Acquired];
    let tail = seq![EventView::ReadTimedOut, EventView::Released];
    let writing = SessionState::Writing { request, written: 0 };
    assert(run(SessionState::Connected, head) == Some(writing)) by {
        reveal_with_fuel(run, 3);
    }
    lemma_written_in_full(request, 0, parts);
    assert(run(SessionState::Reading, tail) == Some(SessionState::Connected)) by {
        reveal_with_fuel(run, 3);
    }
    lemma_run_in_two(SessionState::Connected, head, wrote(parts));
    lemma_run_in_two(SessionState::Connected, head + wrote(parts), tail);
}

} // verus!
