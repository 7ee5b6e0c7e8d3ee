use vstd::prelude::*;

use crate::envelope::{ConnectionHandle, Envelope, EnvelopeView, Handshake};
use crate::registry::{without_owner, ConnectionRegistry};
use crate::registry::owner_of;
use crate::router::{
    addressed_payload, lemma_latest_registrant_receives, lemma_register_keeps_other_routes,
    lemma_removed_owner_unreachable, route_binary, routed_body,
};
use vstd::utf8::encode_utf8;

verus! {

/// Where a connection stands: `Connecting` until the liveness probe has
/// been sent, `Active` while its loops run, `Closed` for good afterwards.
#[derive(PartialEq, Eq, Structural, Clone, Copy, Debug)]
pub enum SessionState {
    Connecting,
    Active,
    Closed,
}

/// What the inbound loop does after a frame from the peer.
#[derive(Debug, PartialEq, Eq)]
pub enum InboundStep {
    /// Hand this envelope to the hub and keep reading.
    Publish(Envelope),
    /// Keep reading; the frame has no effect.
    Ignore,
    /// End the inbound loop.
    Stop,
}

/// The mathematical content of an [`InboundStep`].
pub enum InboundStepView {
    Publish(EnvelopeView),
    Ignore,
    Stop,
}

impl View for InboundStep {
    type V = InboundStepView;

    open spec fn view(&self) -> InboundStepView {
        match self {
            InboundStep::Publish(e) => InboundStepView::Publish(e@),
            InboundStep::Ignore => InboundStepView::Ignore,
            InboundStep::Stop => InboundStepView::Stop,
        }
    }
}

/// What the outbound loop does with an envelope taken from the hub.
#[derive(Debug, PartialEq, Eq)]
pub enum OutboundStep {
    /// Send this envelope to the peer.
    Send(Envelope),
    /// Send nothing and take the next envelope.
    Skip,
    /// End the outbound loop.
    Stop,
}

/// What the outbound loop took from its hub subscription.
pub enum HubReceipt {
    /// The next envelope published on the hub.
    Delivered(Envelope),
    /// The subscription fell behind and missed envelopes.
    Lagged,
    /// The hub is gone; nothing more will arrive.
    Closed,
}

/// The mathematical content of an [`OutboundStep`].
pub enum OutboundStepView {
    Send(EnvelopeView),
    Skip,
    Stop,
}

impl View for OutboundStep {
    type V = OutboundStepView;

    open spec fn view(&self) -> OutboundStepView {
        match self {
            OutboundStep::Send(e) => OutboundStepView::Send(e@),
            OutboundStep::Skip => OutboundStepView::Skip,
            OutboundStep::Stop => OutboundStepView::Stop,
        }
    }
}

/// The identifier a decoded handshake claims, if one was decoded.
pub open spec fn claimed_id(handshake: Option<Handshake>) -> Option<Seq<char>> {
    match handshake {
        Some(h) => Some(h.hash@),
        None => None,
    }
}

/// The registry after an active session owned by `me` takes in `frame`,
/// where `claim` is the identifier its handshake decoded to, if any. A
/// handshake retires every identifier `me` held before and registers the
/// claimed one; a close frame retires them all.
pub open spec fn inbound_registry(
    reg: Map<Seq<char>, ConnectionHandle>,
    frame: EnvelopeView,
    claim: Option<Seq<char>>,
    me: ConnectionHandle,
) -> Map<Seq<char>, ConnectionHandle> {
    match frame {
        EnvelopeView::Text(_) => match claim {
            Some(id) => without_owner(reg, me).insert(id, me),
            None => reg,
        },
        EnvelopeView::Close(_, _) => without_owner(reg, me),
        _ => reg,
    }
}

/// The step an active session takes on a frame from its peer: text and
/// binary frames go to the hub unchanged, a close frame ends the loop, and
/// pings and pongs have no effect.
pub open spec fn inbound_step(frame: EnvelopeView) -> InboundStepView {
    match frame {
        EnvelopeView::Text(_) => InboundStepView::Publish(frame),
        EnvelopeView::Binary(_) => InboundStepView::Publish(frame),
        EnvelopeView::Close(_, _) => InboundStepView::Stop,
        _ => InboundStepView::Ignore,
    }
}

/// The step an active session owned by `me` takes on an envelope from the
/// hub: text, ping and pong go to the peer verbatim, a binary payload only
/// as its routed body, and a close envelope never.
pub open spec fn outbound_step(
    reg: Map<Seq<char>, ConnectionHandle>,
    envelope: EnvelopeView,
    me: ConnectionHandle,
) -> OutboundStepView {
    match envelope {
        EnvelopeView::Binary(p) => match routed_body(reg, p, me) {
            Some(body) => OutboundStepView::Send(EnvelopeView::Binary(body)),
            None => OutboundStepView::Skip,
        },
        EnvelopeView::Close(_, _) => OutboundStepView::Skip,
        _ => OutboundStepView::Send(envelope),
    }
}

/// The per-connection state machine that ties a peer to the registry and
/// the hub.
#[derive(Debug)]
pub struct Session {
    handle: ConnectionHandle,
    state: SessionState,
}

impl Session {
    pub closed spec fn spec_handle(&self) -> ConnectionHandle {
        self.handle
    }

    pub closed spec fn spec_state(&self) -> SessionState {
        self.state
    }

    /// A session for a connection that has just been accepted.
    pub fn new(handle: ConnectionHandle) -> (s: Session)
        ensures
            s.spec_handle() == handle,
            s.spec_state() == SessionState::Connecting,
    {
        Session { handle, state: SessionState::Connecting }
    }

    pub fn handle(&self) -> (h: ConnectionHandle)
        ensures
            h == self.spec_handle(),
    {
        self.handle
    }

    pub fn state(&self) -> (st: SessionState)
        ensures
            st == self.spec_state(),
    {
        self.state
    }

    /// The liveness probe sent to the peer before the session commits.
    pub fn liveness_probe() -> (e: Envelope)
        ensures
            e@ == EnvelopeView::Ping(seq![1u8, 2u8, 3u8]),
    {
        let e = Envelope::Ping(vec![1u8, 2u8, 3u8]);
        assert(e@ == EnvelopeView::Ping(seq![1u8, 2u8, 3u8])) by {
            if let Envelope::Ping(v) = e {
                assert(v@ =~= seq![1u8, 2u8, 3u8]);
            }
        }
        e
    }

    /// Records whether the liveness probe reached the peer. A connecting
    /// session becomes active when it did and closed when it did not; the
    /// result says whether to subscribe to the hub and start the loops.
    pub fn probe_sent(&mut self, sent: bool) -> (start: bool)
        ensures
            final(self).spec_handle() == old(self).spec_handle(),
            old(self).spec_state() == SessionState::Connecting ==> {
                &&& start == sent
                &&& final(self).spec_state() == if sent {
                    SessionState::Active
                } else {
                    SessionState::Closed
                }
            },
            old(self).spec_state() != SessionState::Connecting ==> {
                &&& !start
                &&& final(self).spec_state() == old(self).spec_state()
            },
    {
        match self.state {
            SessionState::Connecting => {
                self.state = if sent {
                    SessionState::Active
                } else {
                    SessionState::Closed
                };
                sent
            },
            _ => false,
        }
    }

    /// Takes in one frame from the peer, with the handshake that a text
    /// frame decoded to, if any (it is ignored for other frames).
    ///
    /// A decoded handshake moves this connection's registration to the
    /// identifier it claims, retiring any it held before; a close frame
    /// removes every identifier this connection owns and closes the session. A session that is not active only answers `Stop`.
    pub fn inbound(
        &mut self,
        registry: &mut ConnectionRegistry,
        frame: Envelope,
        handshake: Option<Handshake>,
    ) -> (step: InboundStep)
        requires
            old(registry).wf(),
        ensures
            final(registry).wf(),
            final(self).spec_handle() == old(self).spec_handle(),
            old(self).spec_state() == SessionState::Active ==> {
                &&& final(registry)@ == inbound_registry(
                    old(registry)@,
                    frame@,
                    claimed_id(handshake),
                    old(self).spec_handle(),
                )
                &&& step@ == inbound_step(frame@)
                &&& final(self).spec_state() == if frame@ is Close {
                    SessionState::Closed
                } else {
                    SessionState::Active
                }
            },
            old(self).spec_state() != SessionState::Active ==> {
                &&& final(registry)@ == old(registry)@
                &&& step@ == InboundStepView::Stop
                &&& final(self).spec_state() == old(self).spec_state()
            },
    {
        if self.state != SessionState::Active {
            return InboundStep::Stop;
        }
        match frame {
            Envelope::Text(t) => {
                if let Some(h) = handshake {
                    registry.remove_all(self.handle);
                    registry.register(h.hash, self.handle);
                }
                InboundStep::Publish(Envelope::Text(t))
            },
            Envelope::Binary(d) => InboundStep::Publish(Envelope::Binary(d)),
            Envelope::Close(_, _) => {
                registry.remove_all(self.handle);
                self.state = SessionState::Closed;
                InboundStep::Stop
            },
            Envelope::Ping(_) => InboundStep::Ignore,
            Envelope::Pong(_) => InboundStep::Ignore,
        }
    }

    /// Decides what to send to the peer for one envelope taken from the hub.
    /// A session that is not active only answers `Stop`.
    pub fn outbound(&self, registry: &ConnectionRegistry, envelope: Envelope) -> (step:
        OutboundStep)
        requires
            registry.wf(),
        ensures
            self.spec_state() == SessionState::Active ==> step@ == outbound_step(
                registry@,
                envelope@,
                self.spec_handle(),
            ),
            self.spec_state() != SessionState::Active ==> step@ == OutboundStepView::Stop,
    {
        if self.state != SessionState::Active {
            return OutboundStep::Stop;
        }
        match envelope {
            Envelope::Binary(p) => match route_binary(registry, p.as_slice(), self.handle) {
                Some(body) => OutboundStep::Send(Envelope::Binary(body)),
                None => OutboundStep::Skip,
            },
            Envelope::Close(_, _) => OutboundStep::Skip,
            other => OutboundStep::Send(other),
        }
    }

    /// Decides what the outbound loop does with what its hub subscription
    /// handed it. A lagging subscription only skips what it missed and
    /// stays connected; a closed hub ends the loop.
    pub fn on_hub(&self, registry: &ConnectionRegistry, receipt: HubReceipt) -> (step:
        OutboundStep)
        requires
            registry.wf(),
        ensures
            self.spec_state() == SessionState::Active ==> match receipt {
                HubReceipt::Delivered(e) => step@ == outbound_step(
                    registry@,
                    e@,
                    self.spec_handle(),
                ),
                HubReceipt::Lagged => step@ == OutboundStepView::Skip,
                HubReceipt::Closed => step@ == OutboundStepView::Stop,
            },
            self.spec_state() != SessionState::Active ==> step@ == OutboundStepView::Stop,
    {
        if self.state != SessionState::Active {
            return OutboundStep::Stop;
        }
        match receipt {
            HubReceipt::Delivered(e) => self.outbound(registry, e),
            HubReceipt::Lagged => OutboundStep::Skip,
            HubReceipt::Closed => OutboundStep::Stop,
        }
    }

    /// Records whether a frame reached the peer. A failed send closes the
    /// session; the result says whether the loop that sent it goes on.
    pub fn sent_to_peer(&mut self, ok: bool) -> (go_on: bool)
        ensures
            final(self).spec_handle() == old(self).spec_handle(),
            go_on == (ok && old(self).spec_state() == SessionState::Active),
            final(self).spec_state() == if ok {
                old(self).spec_state()
            } else {
                SessionState::Closed
            },
    {
        if !ok {
            self.state = SessionState::Closed;
        }
        ok && self.state == SessionState::Active
    }

    /// Closes the session once either of its loops has ended.
    pub fn finish(&mut self)
        ensures
            final(self).spec_handle() == old(self).spec_handle(),
            final(self).spec_state() == SessionState::Closed,
    {
        self.state = SessionState::Closed;
    }
}

/// A text frame from any active peer is published unchanged, whether or not
/// it held a handshake, and every active subscriber, its sender included,
/// sends it on verbatim whatever the registry holds.
pub proof fn lemma_text_reaches_every_subscriber(
    reg: Map<Seq<char>, ConnectionHandle>,
    text: Seq<char>,
    claim: Option<Seq<char>>,
    sender: ConnectionHandle,
    me: ConnectionHandle,
)
    ensures
        inbound_step(EnvelopeView::Text(text)) == InboundStepView::Publish(EnvelopeView::Text(text)),
        outbound_step(
            inbound_registry(reg, EnvelopeView::Text(text), claim, sender),
            EnvelopeView::Text(text),
            me,
        ) == OutboundStepView::Send(EnvelopeView::Text(text)),
{
}

/// After `owner` has sent a handshake claiming `id`, a binary frame
/// addressed to `id` is published unchanged, and among all subscribers only
/// `owner` sends it on, as its body alone.
pub proof fn lemma_addressed_binary_reaches_owner_only(
    reg: Map<Seq<char>, ConnectionHandle>,
    text: Seq<char>,
    id: Seq<char>,
    owner: ConnectionHandle,
    body: Seq<u8>,
    me: ConnectionHandle,
)
    requires
        encode_utf8(id).len() == crate::router::HEADER_LEN,
        body.len() > 0,
    ensures
        inbound_step(EnvelopeView::Binary(addressed_payload(id, body))) == InboundStepView::Publish(
            EnvelopeView::Binary(addressed_payload(id, body)),
        ),
        outbound_step(
            inbound_registry(reg, EnvelopeView::Text(text), Some(id), owner),
            EnvelopeView::Binary(addressed_payload(id, body)),
            me,
        ) == if me == owner {
            OutboundStepView::Send(EnvelopeView::Binary(body))
        } else {
            OutboundStepView::Skip
        },
{
    lemma_latest_registrant_receives(without_owner(reg, owner), id, owner, body, me);
}

/// Once `peer` sends a handshake claiming `fresh`, a binary frame addressed
/// to an identifier `stale` that `peer` owned before is sent on by no
/// subscriber, while one addressed to `fresh` is sent on by `peer` alone.
pub proof fn lemma_reregistration_retires_old_identifier(
    reg: Map<Seq<char>, ConnectionHandle>,
    text: Seq<char>,
    peer: ConnectionHandle,
    stale: Seq<char>,
    fresh: Seq<char>,
    body: Seq<u8>,
    me: ConnectionHandle,
)
    requires
        encode_utf8(stale).len() == crate::router::HEADER_LEN,
        encode_utf8(fresh).len() == crate::router::HEADER_LEN,
        body.len() > 0,
        owner_of(reg, stale) == Some(peer),
        stale != fresh,
    ensures
        outbound_step(
            inbound_registry(reg, EnvelopeView::Text(text), Some(fresh), peer),
            EnvelopeView::Binary(addressed_payload(stale, body)),
            me,
        ) == OutboundStepView::Skip,
        outbound_step(
            inbound_registry(reg, EnvelopeView::Text(text), Some(fresh), peer),
            EnvelopeView::Binary(addressed_payload(fresh, body)),
            me,
        ) == if me == peer {
            OutboundStepView::Send(EnvelopeView::Binary(body))
        } else {
            OutboundStepView::Skip
        },
{
    lemma_removed_owner_unreachable(reg, peer, stale, body, body, me);
    lemma_register_keeps_other_routes(without_owner(reg, peer), fresh, peer, stale, body, me);
    lemma_latest_registrant_receives(without_owner(reg, peer), fresh, peer, body, me);
}

/// Once `peer` sends a close frame, of any form, a binary frame addressed to
/// an identifier `peer` owned is sent on by no subscriber, and `peer` sends
/// on no binary frame at all.
pub proof fn lemma_close_cuts_off_peer(
    reg: Map<Seq<char>, ConnectionHandle>,
    code: Option<u16>,
    reason: Option<Seq<char>>,
    claim: Option<Seq<char>>,
    peer: ConnectionHandle,
    id: Seq<char>,
    body: Seq<u8>,
    payload: Seq<u8>,
    me: ConnectionHandle,
)
    requires
        encode_utf8(id).len() == crate::router::HEADER_LEN,
        body.len() > 0,
        owner_of(reg, id) == Some(peer),
    ensures
        outbound_step(
            inbound_registry(reg, EnvelopeView::Close(code, reason), claim, peer),
            EnvelopeView::Binary(addressed_payload(id, body)),
            me,
        ) == OutboundStepView::Skip,
        outbound_step(
            inbound_registry(reg, EnvelopeView::Close(code, reason), claim, peer),
            EnvelopeView::Binary(payload),
            peer,
        ) == OutboundStepView::Skip,
{
    lemma_removed_owner_unreachable(reg, peer, id, body, payload, me);
}

} // verus!
