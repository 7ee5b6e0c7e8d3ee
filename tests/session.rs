use tunnelvision::envelope::{ConnectionHandle, Envelope, Handshake};
use tunnelvision::registry::ConnectionRegistry;
use tunnelvision::session::{HubReceipt, InboundStep, OutboundStep, Session, SessionState};

const ID_A: &str = "aaaaaaaaaaaaaaaaaaaaaa";
const ID_B: &str = "bbbbbbbbbbbbbbbbbbbbbb";

fn active(id: u64) -> Session {
    let mut s = Session::new(ConnectionHandle::new(id));
    assert!(s.probe_sent(true));
    s
}

fn addressed(id: &str, body: &[u8]) -> Envelope {
    let mut p = id.as_bytes().to_vec();
    p.extend_from_slice(body);
    Envelope::Binary(p)
}

fn handshake_text(id: &str) -> (Envelope, Option<Handshake>) {
    let text = format!("{{\"connected\":true,\"hash\":\"{}\"}}", id);
    (Envelope::Text(text), Some(Handshake::new(true, id.to_string())))
}

/// Runs a published envelope through a subscriber's outbound step.
fn deliver(s: &Session, reg: &ConnectionRegistry, e: &Envelope) -> OutboundStep {
    s.outbound(reg, e.clone())
}

#[test]
fn new_session_is_connecting() {
    let s = Session::new(ConnectionHandle::new(4));
    assert_eq!(s.state(), SessionState::Connecting);
    assert_eq!(s.handle(), ConnectionHandle::new(4));
}

#[test]
fn probe_success_activates() {
    let mut s = Session::new(ConnectionHandle::new(1));
    assert!(s.probe_sent(true));
    assert_eq!(s.state(), SessionState::Active);
}

#[test]
fn probe_failure_closes_without_starting() {
    let mut s = Session::new(ConnectionHandle::new(1));
    assert!(!s.probe_sent(false));
    assert_eq!(s.state(), SessionState::Closed);
    assert!(!s.probe_sent(true));
    assert_eq!(s.state(), SessionState::Closed);
}

#[test]
fn liveness_probe_is_ping() {
    assert_eq!(Session::liveness_probe(), Envelope::Ping(vec![1, 2, 3]));
}

#[test]
fn text_reaches_sender_and_other() {
    let mut reg = ConnectionRegistry::new();
    let mut a = active(1);
    let b = active(2);
    let step = a.inbound(&mut reg, Envelope::Text("hi".to_string()), None);
    let published = match step {
        InboundStep::Publish(e) => e,
        other => panic!("unexpected step {:?}", other),
    };
    assert_eq!(published, Envelope::Text("hi".to_string()));
    for s in [&a, &b] {
        assert_eq!(
            deliver(s, &reg, &published),
            OutboundStep::Send(Envelope::Text("hi".to_string()))
        );
    }
}

#[test]
fn handshake_registers_and_is_broadcast() {
    let mut reg = ConnectionRegistry::new();
    let mut b = active(2);
    let (frame, hs) = handshake_text(ID_A);
    let step = b.inbound(&mut reg, frame.clone(), hs);
    assert_eq!(step, InboundStep::Publish(frame));
    assert_eq!(reg.lookup(&ID_A.to_string()), Some(ConnectionHandle::new(2)));
}

#[test]
fn undecodable_text_is_still_broadcast() {
    let mut reg = ConnectionRegistry::new();
    let mut a = active(1);
    let step = a.inbound(&mut reg, Envelope::Text("not json".to_string()), None);
    assert_eq!(step, InboundStep::Publish(Envelope::Text("not json".to_string())));
    assert_eq!(reg.lookup(&"not json".to_string()), None);
}

#[test]
fn addressed_binary_reaches_owner_only() {
    let mut reg = ConnectionRegistry::new();
    let mut a = active(1);
    let mut b = active(2);
    let (frame, hs) = handshake_text(ID_A);
    b.inbound(&mut reg, frame, hs);
    let step = a.inbound(&mut reg, addressed(ID_A, b"hello"), None);
    let published = match step {
        InboundStep::Publish(e) => e,
        other => panic!("unexpected step {:?}", other),
    };
    assert_eq!(published, addressed(ID_A, b"hello"));
    assert_eq!(
        deliver(&b, &reg, &published),
        OutboundStep::Send(Envelope::Binary(b"hello".to_vec()))
    );
    assert_eq!(deliver(&a, &reg, &published), OutboundStep::Skip);
}

#[test]
fn reregistered_identifier_reaches_peer() {
    let mut reg = ConnectionRegistry::new();
    let a = active(1);
    let mut b = active(2);
    let (frame, hs) = handshake_text(ID_A);
    b.inbound(&mut reg, frame, hs);
    let (frame, hs) = handshake_text(ID_B);
    b.inbound(&mut reg, frame, hs);
    let to_new = addressed(ID_B, b"x");
    assert_eq!(
        deliver(&b, &reg, &to_new),
        OutboundStep::Send(Envelope::Binary(b"x".to_vec()))
    );
    assert_eq!(deliver(&a, &reg, &to_new), OutboundStep::Skip);
    let to_old = addressed(ID_A, b"x");
    assert_eq!(deliver(&a, &reg, &to_old), OutboundStep::Skip);
    assert_eq!(deliver(&b, &reg, &to_old), OutboundStep::Skip);
    assert_eq!(reg.lookup(&ID_A.to_string()), None);
}

#[test]
fn reregistration_keeps_other_peers_identifiers() {
    let mut reg = ConnectionRegistry::new();
    let mut a = active(1);
    let mut b = active(2);
    let (frame, hs) = handshake_text(ID_A);
    a.inbound(&mut reg, frame, hs);
    let (frame, hs) = handshake_text(ID_B);
    b.inbound(&mut reg, frame, hs);
    let (frame, hs) = handshake_text("cccccccccccccccccccccc");
    b.inbound(&mut reg, frame, hs);
    assert_eq!(reg.lookup(&ID_A.to_string()), Some(ConnectionHandle::new(1)));
    assert_eq!(reg.lookup(&ID_B.to_string()), None);
    assert_eq!(
        reg.lookup(&"cccccccccccccccccccccc".to_string()),
        Some(ConnectionHandle::new(2))
    );
}

#[test]
fn close_removes_all_identifiers() {
    let mut reg = ConnectionRegistry::new();
    let a = active(1);
    let mut b = active(2);
    let (frame, hs) = handshake_text(ID_A);
    b.inbound(&mut reg, frame, hs);
    let (frame, hs) = handshake_text(ID_B);
    b.inbound(&mut reg, frame, hs);
    let step = b.inbound(&mut reg, Envelope::Close(Some(1000), Some("bye".to_string())), None);
    assert_eq!(step, InboundStep::Stop);
    assert_eq!(b.state(), SessionState::Closed);
    assert_eq!(reg.lookup(&ID_A.to_string()), None);
    assert_eq!(reg.lookup(&ID_B.to_string()), None);
    for id in [ID_A, ID_B] {
        let e = addressed(id, b"late");
        assert_eq!(deliver(&a, &reg, &e), OutboundStep::Skip);
    }
}

#[test]
fn bare_close_removes_identifiers() {
    let mut reg = ConnectionRegistry::new();
    let mut b = active(2);
    let (frame, hs) = handshake_text(ID_A);
    b.inbound(&mut reg, frame, hs);
    assert_eq!(b.inbound(&mut reg, Envelope::Close(None, None), None), InboundStep::Stop);
    assert_eq!(reg.lookup(&ID_A.to_string()), None);
}

#[test]
fn close_keeps_other_owners() {
    let mut reg = ConnectionRegistry::new();
    let mut a = active(1);
    let mut b = active(2);
    let (frame, hs) = handshake_text(ID_A);
    a.inbound(&mut reg, frame, hs);
    let (frame, hs) = handshake_text(ID_B);
    b.inbound(&mut reg, frame, hs);
    b.inbound(&mut reg, Envelope::Close(None, None), None);
    assert_eq!(reg.lookup(&ID_A.to_string()), Some(ConnectionHandle::new(1)));
}

#[test]
fn later_registrant_takes_identifier() {
    let mut reg = ConnectionRegistry::new();
    let mut a = active(1);
    let mut b = active(2);
    let (frame, hs) = handshake_text(ID_A);
    a.inbound(&mut reg, frame, hs);
    let (frame, hs) = handshake_text(ID_A);
    b.inbound(&mut reg, frame, hs);
    let e = addressed(ID_A, b"z");
    assert_eq!(deliver(&b, &reg, &e), OutboundStep::Send(Envelope::Binary(b"z".to_vec())));
    assert_eq!(deliver(&a, &reg, &e), OutboundStep::Skip);
}

#[test]
fn ping_and_pong_from_peer_are_ignored() {
    let mut reg = ConnectionRegistry::new();
    let mut a = active(1);
    assert_eq!(a.inbound(&mut reg, Envelope::Ping(vec![9]), None), InboundStep::Ignore);
    assert_eq!(a.inbound(&mut reg, Envelope::Pong(vec![9]), None), InboundStep::Ignore);
    assert_eq!(a.state(), SessionState::Active);
}

#[test]
fn ping_pong_from_hub_are_forwarded() {
    let reg = ConnectionRegistry::new();
    let a = active(1);
    assert_eq!(
        deliver(&a, &reg, &Envelope::Ping(vec![7])),
        OutboundStep::Send(Envelope::Ping(vec![7]))
    );
    assert_eq!(
        deliver(&a, &reg, &Envelope::Pong(vec![8])),
        OutboundStep::Send(Envelope::Pong(vec![8]))
    );
    assert_eq!(deliver(&a, &reg, &Envelope::Close(None, None)), OutboundStep::Skip);
}

#[test]
fn inactive_session_stops() {
    let mut reg = ConnectionRegistry::new();
    let mut s = Session::new(ConnectionHandle::new(3));
    let (frame, hs) = handshake_text(ID_A);
    assert_eq!(s.inbound(&mut reg, frame.clone(), hs), InboundStep::Stop);
    assert_eq!(reg.lookup(&ID_A.to_string()), None);
    assert_eq!(deliver(&s, &reg, &frame), OutboundStep::Stop);
    let mut t = active(4);
    t.finish();
    assert_eq!(t.state(), SessionState::Closed);
    assert_eq!(deliver(&t, &reg, &frame), OutboundStep::Stop);
}

#[test]
fn hub_receipts_decide_outbound_loop() {
    let mut reg = ConnectionRegistry::new();
    let mut b = active(2);
    let (frame, hs) = handshake_text(ID_A);
    b.inbound(&mut reg, frame, hs);
    assert_eq!(
        b.on_hub(&reg, HubReceipt::Delivered(addressed(ID_A, b"hello"))),
        OutboundStep::Send(Envelope::Binary(b"hello".to_vec()))
    );
    assert_eq!(
        b.on_hub(&reg, HubReceipt::Delivered(Envelope::Text("t".to_string()))),
        OutboundStep::Send(Envelope::Text("t".to_string()))
    );
    assert_eq!(b.on_hub(&reg, HubReceipt::Lagged), OutboundStep::Skip);
    assert_eq!(b.state(), SessionState::Active);
    assert_eq!(b.on_hub(&reg, HubReceipt::Closed), OutboundStep::Stop);
}

#[test]
fn failed_send_closes_session() {
    let reg = ConnectionRegistry::new();
    let mut a = active(1);
    assert!(a.sent_to_peer(true));
    assert_eq!(a.state(), SessionState::Active);
    assert!(!a.sent_to_peer(false));
    assert_eq!(a.state(), SessionState::Closed);
    assert_eq!(a.on_hub(&reg, HubReceipt::Lagged), OutboundStep::Stop);
}
