//! Many sessions, one serial line.
//!
//! This module is a model: it holds no executable code. A [`Bridge`] is the
//! state of the whole system at one moment: every session that was accepted,
//! who holds the guard of the serial line, and the record of everything that
//! was written to or read from the line so far. The system moves when a
//! connection is accepted ([`accept`]) or when an event is reported to one
//! session ([`deliver`]); sessions move as [`SessionState::next`] says, which
//! is what [`crate::session::Session::step`] is verified to compute.
//!
//! The one thing assumed of the surroundings is what a lock provides: the
//! guard is handed out only while nobody holds it. Everything else is
//! proved: [`inv`] holds in every reachable state, and with it the sessions
//! exclude each other from the line, and the record of the line is a
//! succession of exchanges, each the request of one session, written in
//! order, followed by at most one read.

use vstd::prelude::*;
use crate::session::{lemma_next_preserves_wf, EventView, SessionState};

verus! {

/// One operation on the serial line.
pub enum LineOp {
    /// These bytes were accepted by the line.
    Write(Seq<u8>),
    /// One bounded read returned these bytes (none, if it timed out).
    Read(Seq<u8>),
}

/// One entry in the record of the serial line.
pub struct LineEntry {
    /// The session on whose behalf the operation was made.
    pub session: nat,
    /// The number of the hold of the guard under which it was made: how many
    /// times the guard had been taken before.
    pub hold: nat,
    /// What was done.
    pub op: LineOp,
}

/// The bridge with all its sessions at one moment.
pub struct Bridge {
    /// The sessions that were accepted, each under its own number.
    pub sessions: Map<nat, SessionState>,
    /// The session that holds the guard, if any does.
    pub holder: Option<nat>,
    /// For each hold of the guard so far, the request that it was taken for.
    pub requests: Seq<Seq<u8>>,
    /// Everything that happened on the serial line, in order.
    pub line: Seq<LineEntry>,
}

/// The bridge before any connection was accepted.
pub open spec fn init(bridge: Bridge) -> bool {
    &&& bridge.sessions == Map::<nat, SessionState>::empty()
    &&& bridge.holder is None
    &&& bridge.requests == Seq::<Seq<u8>>::empty()
    &&& bridge.line == Seq::<LineEntry>::empty()
}

/// A connection is accepted and gets a session of its own, numbered `id`.
pub open spec fn accept(pre: Bridge, post: Bridge, id: nat) -> bool {
    &&& !pre.sessions.dom().contains(id)
    &&& post == Bridge { sessions: pre.sessions.insert(id, SessionState::Connected), ..pre }
}

/// What an event leaves on the serial line when it is reported to a session
/// in state `state`.
pub open spec fn line_effect(state: SessionState, event: EventView) -> Option<LineOp> {
    match (state, event) {
        (SessionState::Writing { request, written }, EventView::Wrote(n)) => if 0 < n && written
            + n <= request.len() {
            Some(LineOp::Write(request.subrange(written as int, (written + n) as int)))
        } else {
            None
        },
        (SessionState::Reading, EventView::ReadDone(bytes)) => Some(LineOp::Read(bytes)),
        (SessionState::Reading, EventView::ReadTimedOut) => Some(LineOp::Read(Seq::empty())),
        _ => None,
    }
}

/// The request that a session is about to forward or is forwarding.
pub open spec fn request_of(state: SessionState) -> Seq<u8> {
    match state {
        SessionState::Acquiring { request } => request,
        SessionState::Writing { request, .. } => request,
        _ => Seq::empty(),
    }
}

/// `event` is reported to session `id`, which waits for it.
///
/// The guard is handed out only while nobody holds it; that is the only
/// condition that reaches beyond the session itself.
pub open spec fn deliver(pre: Bridge, post: Bridge, id: nat, event: EventView) -> bool {
    &&& pre.sessions.dom().contains(id)
    &&& event.bounded()
    &&& event is Acquired ==> pre.holder is None
    &&& pre.sessions[id].next(event) matches Some(state)
    &&& post.sessions == pre.sessions.insert(id, state)
    &&& post.holder == match event {
        EventView::Acquired => Some(id),
        EventView::Released => None,
        _ => pre.holder,
    }
    &&& post.requests == if event is Acquired {
        pre.requests.push(request_of(pre.sessions[id]))
    } else {
        pre.requests
    }
    &&& post.line == match line_effect(pre.sessions[id], event) {
        Some(op) => pre.line.push(
            LineEntry { session: id, hold: (pre.requests.len() - 1) as nat, op },
        ),
        None => pre.line,
    }
}

/// One move of the bridge.
pub open spec fn step(pre: Bridge, post: Bridge) -> bool {
    ||| exists|id: nat| accept(pre, post, id)
    ||| exists|id: nat, event: EventView| deliver(pre, post, id, event)
}

/// The bytes that were written to the line under hold number `hold`, in the
/// order in which the line accepted them.
pub open spec fn written_in(line: Seq<LineEntry>, hold: nat) -> Seq<u8>
    decreases line.len(),
{
    if line.len() == 0 {
        Seq::empty()
    } else {
        let before = written_in(line.drop_last(), hold);
        match line.last().op {
            LineOp::Write(bytes) => if line.last().hold == hold {
                before + bytes
            } else {
                before
            },
            LineOp::Read(_) => before,
        }
    }
}

/// No read was made under hold number `hold`.
pub open spec fn unread(line: Seq<LineEntry>, hold: nat) -> bool {
    forall|i: int| 0 <= i < line.len() && #[trigger] line[i].hold == hold ==> line[i].op is Write
}

/// The guard and the sessions agree on who holds it, and at most one does.
pub open spec fn exclusive(bridge: Bridge) -> bool {
    &&& forall|id: nat|
        bridge.sessions.dom().contains(id) ==> (#[trigger] bridge.sessions[id].holds_guard()
            <==> bridge.holder == Some(id))
    &&& bridge.holder matches Some(id) ==> bridge.sessions.dom().contains(id)
        && bridge.requests.len() > 0
}

/// The record of the line is ordered by holds of the guard, and each hold
/// belongs to one session.
pub open spec fn grouped(bridge: Bridge) -> bool {
    &&& forall|i: int|
        0 <= i < bridge.line.len() ==> #[trigger] bridge.line[i].hold < bridge.requests.len()
    &&& forall|i: int, j: int|
        0 <= i <= j < bridge.line.len() ==> #[trigger] bridge.line[i].hold
            <= #[trigger] bridge.line[j].hold
    &&& forall|i: int, j: int|
        0 <= i < bridge.line.len() && 0 <= j < bridge.line.len() && #[trigger] bridge.line[i].hold
            == #[trigger] bridge.line[j].hold ==> bridge.line[i].session == bridge.line[j].session
    &&& bridge.holder matches Some(id) ==> forall|i: int|
        0 <= i < bridge.line.len() && #[trigger] bridge.line[i].hold == bridge.requests.len() - 1
            ==> bridge.line[i].session == id
}

/// Under each hold the line saw the request of that hold, from its first
/// byte on and as far as it got.
pub open spec fn in_order(bridge: Bridge) -> bool {
    forall|hold: nat|
        hold < bridge.requests.len() ==> (#[trigger] written_in(bridge.line, hold)).is_prefix_of(
            bridge.requests[hold as int],
        )
}

/// A read came only after the whole request of its hold.
pub open spec fn read_after_request(bridge: Bridge) -> bool {
    forall|j: int|
        0 <= j < bridge.line.len() && (#[trigger] bridge.line[j]).op is Read ==> written_in(
            bridge.line.take(j),
            bridge.line[j].hold,
        ) == bridge.requests[bridge.line[j].hold as int]
}

/// Nothing came after the read under the same hold.
pub open spec fn read_is_last(bridge: Bridge) -> bool {
    forall|j: int, k: int|
        0 <= j < k < bridge.line.len() && (#[trigger] bridge.line[j]).op is Read
            ==> bridge.line[j].hold != (#[trigger] bridge.line[k]).hold
}

/// The session that holds the guard is as far in its exchange as the record
/// of the line says: while it writes, the line has seen what it counts as
/// written, and until it has read, the line has seen no read.
pub open spec fn in_step(bridge: Bridge) -> bool {
    bridge.holder matches Some(id) ==> {
        let hold = (bridge.requests.len() - 1) as nat;
        match bridge.sessions[id] {
            SessionState::Writing { request, written } => {
                &&& request == bridge.requests[hold as int]
                &&& written_in(bridge.line, hold) == request.take(written as int)
                &&& unread(bridge.line, hold)
            },
            SessionState::Reading => {
                &&& written_in(bridge.line, hold) == bridge.requests[hold as int]
                &&& unread(bridge.line, hold)
            },
            _ => true,
        }
    }
}

/// The record of the line tells of whole exchanges: under each hold the
/// request of that hold, in order; then, only once all of it is written, at
/// most one read; and nothing after it.
pub open spec fn faithful(bridge: Bridge) -> bool {
    &&& in_order(bridge)
    &&& read_after_request(bridge)
    &&& read_is_last(bridge)
    &&& in_step(bridge)
}

/// What holds of the bridge at every moment.
pub open spec fn inv(bridge: Bridge) -> bool {
    &&& forall|id: nat|
        bridge.sessions.dom().contains(id) ==> (#[trigger] bridge.sessions[id]).wf()
    &&& exclusive(bridge)
    &&& grouped(bridge)
    &&& faithful(bridge)
}

/// An entry added to the record adds its bytes to what was written under
/// its own hold, if it is a write, and changes nothing else.
pub proof fn lemma_written_in_push(line: Seq<LineEntry>, entry: LineEntry, hold: nat)
    ensures
        written_in(line.push(entry), hold) == match entry.op {
            LineOp::Write(bytes) => if entry.hold == hold {
                written_in(line, hold) + bytes
            } else {
                written_in(line, hold)
            },
            LineOp::Read(_) => written_in(line, hold),
        },
{
    assert(line.push(entry).drop_last() =~= line);
}

/// Nothing was written under a hold that has no entry in the record.
pub proof fn lemma_written_in_absent(line: Seq<LineEntry>, hold: nat)
    requires
        forall|i: int| 0 <= i < line.len() ==> #[trigger] line[i].hold != hold,
    ensures
        written_in(line, hold) == Seq::<u8>::empty(),
    decreases line.len(),
{
    if line.len() > 0 {
        lemma_written_in_absent(line.drop_last(), hold);
    }
}

/// The invariant holds before anything has happened.
pub proof fn lemma_init_inv(bridge: Bridge)
    requires
        init(bridge),
    ensures
        inv(bridge),
{
}

/// Accepting a connection keeps the invariant.
pub proof fn lemma_accept_inv(pre: Bridge, post: Bridge, id: nat)
    requires
        inv(pre),
        accept(pre, post, id),
    ensures
        inv(post),
{
    assert(exclusive(post));
    assert(faithful(post));
}

proof fn lemma_deliver_exclusive(pre: Bridge, post: Bridge, id: nat, event: EventView)
    requires
        inv(pre),
        deliver(pre, post, id, event),
    ensures
        exclusive(post),
        forall|other: nat|
            post.sessions.dom().contains(other) ==> (#[trigger] post.sessions[other]).wf(),
{
    lemma_next_preserves_wf(pre.sessions[id], event);
    assert(pre.sessions[id].holds_guard() <==> pre.holder == Some(id));
}

proof fn lemma_deliver_grouped(pre: Bridge, post: Bridge, id: nat, event: EventView)
    requires
        inv(pre),
        deliver(pre, post, id, event),
    ensures
        grouped(post),
{
    if line_effect(pre.sessions[id], event) is Some {
        assert(pre.sessions[id].holds_guard());
    }
}

proof fn lemma_deliver_in_order(pre: Bridge, post: Bridge, id: nat, event: EventView)
    requires
        inv(pre),
        deliver(pre, post, id, event),
    ensures
        in_order(post),
{
    let state = pre.sessions[id];
    let last = (pre.requests.len() - 1) as nat;
    assert(state.holds_guard() <==> pre.holder == Some(id));
    match line_effect(state, event) {
        Some(op) => {
            let entry = LineEntry { session: id, hold: last, op };
            assert forall|hold: nat| hold < post.requests.len() implies (#[trigger] written_in(
                post.line,
                hold,
            )).is_prefix_of(post.requests[hold as int]) by {
                lemma_written_in_push(pre.line, entry, hold);
                assert(written_in(pre.line, hold).is_prefix_of(pre.requests[hold as int]));
            }
        },
        None => {
            if event is Acquired {
                lemma_written_in_absent(pre.line, pre.requests.len());
            }
            assert forall|hold: nat| hold < post.requests.len() implies (#[trigger] written_in(
                post.line,
                hold,
            )).is_prefix_of(post.requests[hold as int]) by {
                if hold < pre.requests.len() {
                    assert(written_in(pre.line, hold).is_prefix_of(pre.requests[hold as int]));
                }
            }
        },
    }
}

proof fn lemma_deliver_reads(pre: Bridge, post: Bridge, id: nat, event: EventView)
    requires
        inv(pre),
        deliver(pre, post, id, event),
    ensures
        read_after_request(post),
        read_is_last(post),
{
    let state = pre.sessions[id];
    assert(state.holds_guard() <==> pre.holder == Some(id));
    assert forall|j: int|
        0 <= j < post.line.len() && (#[trigger] post.line[j]).op is Read implies written_in(
        post.line.take(j),
        post.line[j].hold,
    ) == post.requests[post.line[j].hold as int] by {
        if j < pre.line.len() {
            assert(post.line[j] == pre.line[j]);
            assert(post.line.take(j) =~= pre.line.take(j));
            assert(pre.line[j].hold < pre.requests.len());
        } else {
            assert(post.line.take(j) =~= pre.line);
        }
    }
    assert forall|j: int, k: int|
        0 <= j < k < post.line.len() && (#[trigger] post.line[j]).op is Read implies post.line[j].hold
        != (#[trigger] post.line[k]).hold by {
        assert(post.line[j] == pre.line[j]);
        if k < pre.line.len() {
            assert(post.line[k] == pre.line[k]);
        }
    }
}

proof fn lemma_deliver_in_step(pre: Bridge, post: Bridge, id: nat, event: EventView)
    requires
        inv(pre),
        deliver(pre, post, id, event),
    ensures
        in_step(post),
{
    let state = pre.sessions[id];
    let last = (pre.requests.len() - 1) as nat;
    assert(state.holds_guard() <==> pre.holder == Some(id));
    match line_effect(state, event) {
        Some(op) => {
            let entry = LineEntry { session: id, hold: last, op };
            lemma_written_in_push(pre.line, entry, last);
            if let SessionState::Writing { request, written } = state {
                if let EventView::Wrote(n) = event {
                    assert(request.take(written as int) + request.subrange(
                        written as int,
                        (written + n) as int,
                    ) =~= request.take((written + n) as int));
                    assert(request.take(request.len() as int) =~= request);
                }
            }
            if op is Write {
                assert forall|i: int|
                    0 <= i < post.line.len() && #[trigger] post.line[i].hold
                        == last implies post.line[i].op is Write by {
                    if i < pre.line.len() {
                        assert(post.line[i] == pre.line[i]);
                    }
                }
            }
        },
        None => {
            if event is Acquired {
                let fresh = pre.requests.len();
                lemma_written_in_absent(pre.line, fresh);
                assert(request_of(state).take(0) =~= Seq::<u8>::empty());
                assert(unread(post.line, fresh));
            } else if let Some(holder) = post.holder {
                if holder != id {
                    assert(post.sessions[holder] == pre.sessions[holder]);
                }
            }
        },
    }
}

proof fn lemma_deliver_faithful(pre: Bridge, post: Bridge, id: nat, event: EventView)
    requires
        inv(pre),
        deliver(pre, post, id, event),
    ensures
        faithful(post),
{
    lemma_deliver_in_order(pre, post, id, event);
    lemma_deliver_reads(pre, post, id, event);
    lemma_deliver_in_step(pre, post, id, event);
}

/// Reporting an event to a session that waits for it keeps the invariant.
pub proof fn lemma_deliver_inv(pre: Bridge, post: Bridge, id: nat, event: EventView)
    requires
        inv(pre),
        deliver(pre, post, id, event),
    ensures
        inv(post),
{
    lemma_deliver_exclusive(pre, post, id, event);
    lemma_deliver_grouped(pre, post, id, event);
    lemma_deliver_faithful(pre, post, id, event);
}

/// Every move of the bridge keeps the invariant: with [`lemma_init_inv`],
/// it holds at every moment.
pub proof fn lemma_step_inv(pre: Bridge, post: Bridge)
    requires
        inv(pre),
        step(pre, post),
    ensures
        inv(post),
{
    if exists|id: nat| accept(pre, post, id) {
        let id = choose|id: nat| accept(pre, post, id);
        lemma_accept_inv(pre, post, id);
    } else {
        let (id, event) = choose|id: nat, event: EventView| deliver(pre, post, id, event);
        lemma_deliver_inv(pre, post, id, event);
    }
}

/// A history of the bridge: it begins before anything has happened and
/// goes on move by move.
pub open spec fn history(states: Seq<Bridge>) -> bool {
    &&& states.len() > 0
    &&& init(states[0])
    &&& forall|i: int| 0 <= i < states.len() - 1 ==> step(#[trigger] states[i], states[i + 1])
}

/// The invariant holds at every moment of every history.
pub proof fn lemma_inv_always(states: Seq<Bridge>, i: int)
    requires
        history(states),
        0 <= i < states.len(),
    ensures
        inv(states[i]),
    decreases i,
{
    if i == 0 {
        lemma_init_inv(states[0]);
    } else {
        lemma_inv_always(states, i - 1);
        lemma_step_inv(states[i - 1], states[i]);
    }
}

/// The record of the line is only ever added to: what it held before a
/// move, it holds after it, at the same place.
pub proof fn lemma_record_is_kept(pre: Bridge, post: Bridge)
    requires
        step(pre, post),
    ensures
        pre.line.is_prefix_of(post.line),
{
}

/// Mutual exclusion: no two sessions hold the guard at the same moment.
pub proof fn lemma_mutual_exclusion(bridge: Bridge, a: nat, b: nat)
    requires
        inv(bridge),
        bridge.sessions.dom().contains(a),
        bridge.sessions.dom().contains(b),
        a != b,
    ensures
        !(bridge.sessions[a].holds_guard() && bridge.sessions[b].holds_guard()),
{
}

/// Only the holder of the guard touches the serial line: a move that adds
/// to the record of the line is made by the session that holds the guard,
/// adds one entry, and that entry is its own. So from the moment a session
/// takes the guard until it gives it back, through the writing of its
/// request and the read of the reply, no other session can put a byte on
/// the line or take one off it.
pub proof fn lemma_line_belongs_to_holder(pre: Bridge, post: Bridge, id: nat, event: EventView)
    requires
        inv(pre),
        deliver(pre, post, id, event),
        post.line != pre.line,
    ensures
        pre.holder == Some(id),
        post.holder == Some(id),
        post.line == pre.line.push(post.line.last()),
        post.line.last().session == id,
        forall|other: nat|
            pre.sessions.dom().contains(other) && #[trigger] pre.sessions[other].holds_guard()
                ==> other == id,
{
    assert(pre.sessions[id].holds_guard() <==> pre.holder == Some(id));
}

/// Exchanges do not interleave: whatever lies in the record of the line
/// between two entries of one hold of the guard belongs to that hold too,
/// and so to the same session. Entries of two sessions never share a hold.
pub proof fn lemma_exchanges_do_not_interleave(bridge: Bridge, i: int, k: int, j: int)
    requires
        inv(bridge),
        0 <= i <= k <= j < bridge.line.len(),
        bridge.line[i].hold == bridge.line[j].hold,
    ensures
        bridge.line[k].hold == bridge.line[i].hold,
        bridge.line[k].session == bridge.line[i].session,
        bridge.line[j].session == bridge.line[i].session,
{
}

/// What the line saw under one hold of the guard is the request that the
/// guard was taken for, from its first byte on, without a gap and without
/// a byte of anything else: all of it, or as much as the line accepted
/// before a fault.
pub proof fn lemma_line_carries_request(bridge: Bridge, hold: nat)
    requires
        inv(bridge),
        hold < bridge.requests.len(),
    ensures
        written_in(bridge.line, hold).is_prefix_of(bridge.requests[hold as int]),
{
}

/// A read is made only when the whole request is on the line, and it ends
/// the exchange: under the same hold nothing is written or read after it.
pub proof fn lemma_read_ends_exchange(bridge: Bridge, j: int)
    requires
        inv(bridge),
        0 <= j < bridge.line.len(),
        bridge.line[j].op is Read,
    ensures
        written_in(bridge.line.take(j), bridge.line[j].hold)
            == bridge.requests[bridge.line[j].hold as int],
        forall|k: int| j < k < bridge.line.len() ==> (#[trigger] bridge.line[k]).hold
            > bridge.line[j].hold,
{
}

/// What happens to one session happens to it alone: an event reported to
/// a session leaves every other session as it was.
pub proof fn lemma_others_untouched(
    pre: Bridge,
    post: Bridge,
    id: nat,
    event: EventView,
    other: nat,
)
    requires
        deliver(pre, post, id, event),
        pre.sessions.dom().contains(other),
        other != id,
    ensures
        post.sessions.dom().contains(other),
        post.sessions[other] == pre.sessions[other],
{
}

/// A fault of the serial line ends the session that met it and no other.
/// When session `a` is told of a fault while it writes or reads (a write
/// that accepts no byte is one), and then that the guard is given back, `a`
/// is closed, the guard is free, the record of the line is as it was, any
/// other session `b` is as it was, and if `b` waits for the guard it can
/// have it and begins to write its request.
pub proof fn lemma_fault_is_contained(
    pre: Bridge,
    mid: Bridge,
    post: Bridge,
    a: nat,
    b: nat,
    fault: EventView,
)
    requires
        inv(pre),
        pre.sessions.dom().contains(b),
        a != b,
        fault is WriteFailed || fault is ReadFailed || fault == EventView::Wrote(0),
        deliver(pre, mid, a, fault),
        deliver(mid, post, a, EventView::Released),
    ensures
        inv(post),
        post.sessions[a] is Closed,
        post.holder is None,
        post.sessions[b] == pre.sessions[b],
        post.line == pre.line,
        pre.sessions[b] is Acquiring ==> exists|then: Bridge|
            #[trigger] deliver(post, then, b, EventView::Acquired) && then.sessions[b]
                == (SessionState::Writing { request: request_of(pre.sessions[b]), written: 0 }),
{
    lemma_deliver_inv(pre, mid, a, fault);
    lemma_deliver_inv(mid, post, a, EventView::Released);
    if pre.sessions[b] is Acquiring {
        let state = post.sessions[b];
        let then = Bridge {
            sessions: post.sessions.insert(b, state.next(EventView::Acquired)->0),
            holder: Some(b),
            requests: post.requests.push(request_of(state)),
            line: post.line,
        };
        assert(deliver(post, then, b, EventView::Acquired));
    }
}

} // verus!
