use uart_bridge::frame::MAX_FRAME_LEN;
use uart_bridge::session::{Action, CloseReason, Event, Phase, Session};

/// One operation as the simulated serial line saw it.
#[derive(Clone, Debug, PartialEq)]
enum Op {
    Write(Vec<u8>),
    Read(Vec<u8>),
}

#[derive(Clone, Debug, PartialEq)]
struct Entry {
    session: usize,
    op: Op,
}

/// How the simulated peripheral answers what it heard since the last read.
#[derive(Clone, Debug)]
enum Answer {
    Echo,
    Silent,
    Fixed(Vec<u8>, Vec<u8>),
}

/// A serial line with a peripheral behind it and a guard in front of it.
struct Serial {
    record: Vec<Entry>,
    holder: Option<usize>,
    chunk: usize,
    heard: Vec<u8>,
    answer: Answer,
    write_faults: usize,
    read_faults: usize,
}

fn serial(answer: Answer, chunk: usize) -> Serial {
    Serial {
        record: Vec::new(),
        holder: None,
        chunk,
        heard: Vec::new(),
        answer,
        write_faults: 0,
        read_faults: 0,
    }
}

/// A client with the frames it will send and the replies it has got.
struct Peer {
    session: Session,
    outbox: Vec<Vec<u8>>,
    inbox: Vec<Vec<u8>>,
    send_fails: bool,
}

fn peer(frames: &[&[u8]]) -> Peer {
    let mut outbox = Vec::new();
    for frame in frames {
        outbox.push(frame.to_vec());
    }
    Peer { session: Session::new(), outbox, inbox: Vec::new(), send_fails: false }
}

/// Lets session `id` make one move. Returns whether it moved: a session
/// that waits for a guard in use, or that has stopped, does not.
fn turn(id: usize, peer: &mut Peer, serial: &mut Serial) -> bool {
    let event = match peer.session.action() {
        Action::Receive => {
            if peer.outbox.is_empty() {
                Event::PeerClosed
            } else {
                let frame = peer.outbox.remove(0);
                let mut buf = [0u8; MAX_FRAME_LEN];
                buf[..frame.len()].copy_from_slice(&frame);
                Event::received(&buf, frame.len())
            }
        }
        Action::Acquire => {
            if serial.holder.is_some() {
                return false;
            }
            serial.holder = Some(id);
            serial.heard.clear();
            Event::Acquired
        }
        Action::Write => {
            assert_eq!(serial.holder, Some(id), "a write without the guard");
            if serial.write_faults > 0 {
                serial.write_faults -= 1;
                Event::WriteFailed
            } else {
                let bytes = peer.session.pending_write();
                let n = if bytes.len() < serial.chunk { bytes.len() } else { serial.chunk };
                serial.heard.extend_from_slice(&bytes[..n]);
                serial.record.push(Entry { session: id, op: Op::Write(bytes[..n].to_vec()) });
                Event::Wrote(n)
            }
        }
        Action::Read => {
            assert_eq!(serial.holder, Some(id), "a read without the guard");
            if serial.read_faults > 0 {
                serial.read_faults -= 1;
                Event::ReadFailed
            } else {
                let reply = match &serial.answer {
                    Answer::Echo => serial.heard.clone(),
                    Answer::Silent => Vec::new(),
                    Answer::Fixed(request, reply) => {
                        if &serial.heard == request {
                            reply.clone()
                        } else {
                            Vec::new()
                        }
                    }
                };
                serial.heard.clear();
                serial.record.push(Entry { session: id, op: Op::Read(reply.clone()) });
                if reply.is_empty() {
                    Event::ReadTimedOut
                } else {
                    let mut buf = [0u8; MAX_FRAME_LEN];
                    buf[..reply.len()].copy_from_slice(&reply);
                    Event::read_done(&buf, reply.len())
                }
            }
        }
        Action::Release => {
            assert_eq!(serial.holder, Some(id), "a release without the guard");
            serial.holder = None;
            Event::Released
        }
        Action::Send => {
            if peer.send_fails {
                Event::SendFailed
            } else {
                peer.inbox.push(peer.session.pending_reply().to_vec());
                Event::Sent
            }
        }
        Action::Stop => return false,
    };
    let answer = peer.session.step(event).unwrap();
    assert_eq!(answer, peer.session.action());
    assert_eq!(peer.session.holds_guard(), serial.holder == Some(id));
    true
}

/// Runs all sessions to their end, choosing who moves next by a fixed
/// pseudo-random sequence that `seed` selects.
fn run_all(peers: &mut Vec<Peer>, serial: &mut Serial, seed: u64) {
    let mut state = seed.wrapping_mul(6364136223846793005).wrapping_add(1442695040888963407);
    let mut budget = 1_000_000;
    loop {
        let mut open = 0;
        for peer in peers.iter() {
            if peer.session.action() != Action::Stop {
                open += 1;
            }
        }
        if open == 0 {
            return;
        }
        state = state.wrapping_mul(6364136223846793005).wrapping_add(1442695040888963407);
        let id = ((state >> 33) as usize) % peers.len();
        turn(id, &mut peers[id], serial);
        budget -= 1;
        assert!(budget > 0, "the sessions do not come to an end");
    }
}

/// Runs one session alone until it waits for `action`.
fn run_until(id: usize, peer: &mut Peer, serial: &mut Serial, action: Action) {
    let mut budget = 10_000;
    while peer.session.action() != action {
        assert!(turn(id, peer, serial), "the session cannot move");
        budget -= 1;
        assert!(budget > 0);
    }
}

/// Reads the record as a succession of exchanges, each made of the writes
/// of one session and the one read that follows them. Panics where an
/// entry of another session stands inside an exchange.
fn exchanges(record: &[Entry]) -> Vec<(usize, Vec<u8>, Vec<u8>)> {
    let mut done = Vec::new();
    let mut open: Option<(usize, Vec<u8>)> = None;
    for entry in record {
        match &entry.op {
            Op::Write(bytes) => match open.as_mut() {
                None => open = Some((entry.session, bytes.clone())),
                Some((session, written)) => {
                    assert_eq!(*session, entry.session, "a foreign write inside an exchange");
                    written.extend_from_slice(bytes);
                }
            },
            Op::Read(bytes) => match open.take() {
                None => panic!("a read that no write precedes"),
                Some((session, written)) => {
                    assert_eq!(session, entry.session, "a foreign read inside an exchange");
                    done.push((session, written, bytes.clone()));
                }
            },
        }
    }
    assert!(open.is_none(), "an exchange without its read");
    done
}

fn requests_of(id: usize, record: &[Entry]) -> Vec<Vec<u8>> {
    let mut requests = Vec::new();
    for (session, request, _) in exchanges(record) {
        if session == id {
            requests.push(request);
        }
    }
    requests
}

#[test]
fn end_to_end_scenario_through_a_simulated_peripheral() {
    let mut line = serial(Answer::Fixed(vec![0x41, 0x42], vec![0x4f, 0x4b]), MAX_FRAME_LEN);
    let mut client = peer(&[&[0x41, 0x42], &[0x41, 0x42]]);

    run_until(0, &mut client, &mut line, Action::Send);
    assert_eq!(client.session.pending_reply(), &[0x4f, 0x4b]);
    run_until(0, &mut client, &mut line, Action::Receive);
    assert_eq!(client.inbox, vec![vec![0x4f, 0x4b]]);
    assert_eq!(client.session.phase(), Phase::Connected);
    assert_eq!(line.holder, None);
    assert_eq!(
        line.record,
        vec![
            Entry { session: 0, op: Op::Write(vec![0x41, 0x42]) },
            Entry { session: 0, op: Op::Read(vec![0x4f, 0x4b]) },
        ]
    );

    // A second exchange on the same connection.
    run_until(0, &mut client, &mut line, Action::Send);
    run_until(0, &mut client, &mut line, Action::Receive);
    assert_eq!(client.inbox, vec![vec![0x4f, 0x4b], vec![0x4f, 0x4b]]);
    assert_eq!(client.session.phase(), Phase::Connected);
}

#[test]
fn silent_peripheral_leaves_the_session_connected() {
    let mut line = serial(Answer::Silent, MAX_FRAME_LEN);
    let mut client = peer(&[&[1, 2, 3], &[4, 5]]);

    assert!(turn(0, &mut client, &mut line));
    run_until(0, &mut client, &mut line, Action::Receive);
    assert_eq!(client.session.phase(), Phase::Connected);
    assert_eq!(client.session.close_reason(), None);
    assert!(client.inbox.is_empty());
    assert_eq!(line.holder, None);

    assert!(turn(0, &mut client, &mut line));
    run_until(0, &mut client, &mut line, Action::Receive);
    assert_eq!(client.session.phase(), Phase::Connected);
    assert!(client.inbox.is_empty());
    assert_eq!(
        line.record,
        vec![
            Entry { session: 0, op: Op::Write(vec![1, 2, 3]) },
            Entry { session: 0, op: Op::Read(vec![]) },
            Entry { session: 0, op: Op::Write(vec![4, 5]) },
            Entry { session: 0, op: Op::Read(vec![]) },
        ]
    );
}

#[test]
fn echoing_peripheral_returns_each_frame_exactly() {
    let mut frames: Vec<Vec<u8>> = Vec::new();
    frames.push(vec![0]);
    frames.push(vec![0xff; 3]);
    frames.push((0..=255u8).collect());
    frames.push(vec![0x5a; MAX_FRAME_LEN]);
    for chunk in [1, 7, 64, MAX_FRAME_LEN] {
        let mut line = serial(Answer::Echo, chunk);
        let mut client =
            Peer { session: Session::new(), outbox: frames.clone(), inbox: Vec::new(), send_fails: false };
        run_until(0, &mut client, &mut line, Action::Stop);
        assert_eq!(client.inbox, frames);
        assert_eq!(client.session.close_reason(), Some(CloseReason::PeerClosed));
        assert_eq!(requests_of(0, &line.record), frames);
    }
}

#[test]
fn writes_of_two_sessions_never_interleave() {
    for seed in 0..200 {
        let mut line = serial(Answer::Echo, 1);
        let mut peers = vec![
            peer(&[&[0xa1, 0xa2, 0xa3, 0xa4], &[0xa5, 0xa6], &[0xa7]]),
            peer(&[&[0xb1, 0xb2, 0xb3], &[0xb4, 0xb5, 0xb6, 0xb7, 0xb8]]),
        ];
        run_all(&mut peers, &mut line, seed);

        // Every exchange on the line is the request of one session, whole
        // and in order, whatever the schedule.
        let a = vec![vec![0xa1, 0xa2, 0xa3, 0xa4], vec![0xa5, 0xa6], vec![0xa7]];
        let b = vec![vec![0xb1, 0xb2, 0xb3], vec![0xb4, 0xb5, 0xb6, 0xb7, 0xb8]];
        assert_eq!(requests_of(0, &line.record), a);
        assert_eq!(requests_of(1, &line.record), b);
        assert_eq!(exchanges(&line.record).len(), 5);
        assert_eq!(line.holder, None);
    }
}

#[test]
fn no_write_comes_between_a_request_and_its_reply() {
    for seed in 0..200 {
        let mut line = serial(Answer::Echo, 2);
        let mut peers = vec![
            peer(&[&[1, 1, 1, 1, 1], &[2, 2, 2]]),
            peer(&[&[3, 3, 3, 3], &[4]]),
            peer(&[&[5, 5, 5, 5, 5, 5, 5]]),
        ];
        run_all(&mut peers, &mut line, seed);

        // The peripheral echoes what it heard since the last read: had a
        // foreign write slipped in, some client would have got bytes that
        // it did not send.
        assert_eq!(peers[0].inbox, vec![vec![1, 1, 1, 1, 1], vec![2, 2, 2]]);
        assert_eq!(peers[1].inbox, vec![vec![3, 3, 3, 3], vec![4]]);
        assert_eq!(peers[2].inbox, vec![vec![5, 5, 5, 5, 5, 5, 5]]);
        for (_, request, reply) in exchanges(&line.record) {
            assert_eq!(request, reply);
        }
    }
}

#[test]
fn session_waits_while_another_holds_the_guard() {
    let mut line = serial(Answer::Echo, 1);
    let mut a = peer(&[&[1, 2, 3]]);
    let mut b = peer(&[&[9]]);

    run_until(0, &mut a, &mut line, Action::Write);
    run_until(1, &mut b, &mut line, Action::Acquire);
    assert_eq!(line.holder, Some(0));
    assert!(!turn(1, &mut b, &mut line));
    assert_eq!(b.session.action(), Action::Acquire);
    assert!(!b.session.holds_guard());

    run_until(0, &mut a, &mut line, Action::Read);
    assert!(!turn(1, &mut b, &mut line));
    run_until(0, &mut a, &mut line, Action::Release);
    assert!(!turn(1, &mut b, &mut line));
    run_until(0, &mut a, &mut line, Action::Send);
    assert_eq!(line.holder, None);

    assert!(turn(1, &mut b, &mut line));
    assert_eq!(line.holder, Some(1));
    assert!(b.session.holds_guard());
}

#[test]
fn write_fault_closes_only_the_session_that_met_it() {
    let mut line = serial(Answer::Echo, MAX_FRAME_LEN);
    let mut a = peer(&[&[1, 2, 3], &[4]]);
    let mut b = peer(&[&[7, 8, 9]]);

    run_until(1, &mut b, &mut line, Action::Acquire);
    line.write_faults = 1;
    run_until(0, &mut a, &mut line, Action::Stop);
    assert_eq!(a.session.phase(), Phase::Closed);
    assert_eq!(a.session.close_reason(), Some(CloseReason::WriteFailed));
    assert!(a.inbox.is_empty());
    assert_eq!(line.holder, None);
    assert_eq!(b.session.phase(), Phase::Forwarding);
    assert_eq!(b.session.close_reason(), None);

    // The fault has cleared: the other session's request goes through.
    run_until(1, &mut b, &mut line, Action::Receive);
    assert_eq!(b.inbox, vec![vec![7, 8, 9]]);
    assert_eq!(b.session.phase(), Phase::Connected);
    assert_eq!(
        line.record,
        vec![
            Entry { session: 1, op: Op::Write(vec![7, 8, 9]) },
            Entry { session: 1, op: Op::Read(vec![7, 8, 9]) },
        ]
    );
}

#[test]
fn read_fault_closes_only_the_session_that_met_it() {
    let mut line = serial(Answer::Echo, MAX_FRAME_LEN);
    let mut a = peer(&[&[1, 2, 3]]);
    let mut b = peer(&[&[7, 8, 9], &[10]]);

    run_until(1, &mut b, &mut line, Action::Acquire);
    line.read_faults = 1;
    run_until(0, &mut a, &mut line, Action::Stop);
    assert_eq!(a.session.close_reason(), Some(CloseReason::ReadFailed));
    assert_eq!(line.holder, None);
    assert_eq!(b.session.close_reason(), None);

    run_until(1, &mut b, &mut line, Action::Stop);
    assert_eq!(b.inbox, vec![vec![7, 8, 9], vec![10]]);
    assert_eq!(b.session.close_reason(), Some(CloseReason::PeerClosed));
}

#[test]
fn fault_under_any_schedule_spares_the_other_sessions() {
    for seed in 0..100 {
        let mut line = serial(Answer::Echo, 3);
        line.write_faults = 1;
        let mut peers =
            vec![peer(&[&[1, 1, 1, 1], &[2, 2]]), peer(&[&[3, 3, 3, 3, 3]]), peer(&[&[4], &[5, 5]])];
        run_all(&mut peers, &mut line, seed);

        let mut faulted = 0;
        for peer in peers.iter() {
            match peer.session.close_reason() {
                Some(CloseReason::WriteFailed) => faulted += 1,
                Some(CloseReason::PeerClosed) => {}
                other => panic!("closed for {:?}", other),
            }
        }
        assert_eq!(faulted, 1);
        assert_eq!(line.holder, None);
        let sent: Vec<Vec<Vec<u8>>> = vec![
            vec![vec![1, 1, 1, 1], vec![2, 2]],
            vec![vec![3, 3, 3, 3, 3]],
            vec![vec![4], vec![5, 5]],
        ];
        for (id, peer) in peers.iter().enumerate() {
            if peer.session.close_reason() == Some(CloseReason::PeerClosed) {
                assert_eq!(peer.inbox, sent[id]);
            }
        }
    }
}

#[test]
fn send_failure_closes_only_the_session_that_met_it() {
    let mut line = serial(Answer::Echo, MAX_FRAME_LEN);
    let mut a = peer(&[&[1], &[2]]);
    a.send_fails = true;
    let mut b = peer(&[&[3]]);

    run_until(0, &mut a, &mut line, Action::Stop);
    assert_eq!(a.session.close_reason(), Some(CloseReason::SendFailed));
    assert_eq!(line.holder, None);

    run_until(1, &mut b, &mut line, Action::Stop);
    assert_eq!(b.inbox, vec![vec![3]]);
    assert_eq!(b.session.close_reason(), Some(CloseReason::PeerClosed));
}

#[test]
fn guard_is_free_whenever_every_session_has_ended() {
    for seed in 0..50 {
        let mut line = serial(Answer::Silent, 2);
        line.read_faults = 1;
        line.write_faults = 1;
        let mut peers = vec![peer(&[&[1, 2, 3]]), peer(&[&[4, 5, 6]]), peer(&[&[7, 8, 9]])];
        run_all(&mut peers, &mut line, seed);
        assert_eq!(line.holder, None);
        for peer in peers.iter() {
            assert_eq!(peer.session.phase(), Phase::Closed);
            assert!(!peer.session.holds_guard());
            assert!(peer.inbox.is_empty());
        }
    }
}
