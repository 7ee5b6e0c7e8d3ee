use vstd::prelude::*;

verus! {

/// Opaque identity of one live connection, compared only for equality.
#[derive(PartialEq, Eq, Structural, Clone, Copy, Debug, Hash)]
pub struct ConnectionHandle {
    pub id: u64,
}

impl ConnectionHandle {
    pub fn new(id: u64) -> (h: ConnectionHandle)
        ensures
            h.id == id,
    {
        ConnectionHandle { id }
    }
}

/// One typed unit of data exchanged with a peer or carried by the hub.
#[derive(Clone, Debug, PartialEq, Eq)]
pub enum Envelope {
    Text(String),
    Binary(Vec<u8>),
    Ping(Vec<u8>),
    Pong(Vec<u8>),
    Close(Option<u16>, Option<String>),
}

/// The mathematical content of an [`Envelope`].
pub enum EnvelopeView {
    Text(Seq<char>),
    Binary(Seq<u8>),
    Ping(Seq<u8>),
    Pong(Seq<u8>),
    Close(Option<u16>, Option<Seq<char>>),
}

impl View for Envelope {
    type V = EnvelopeView;

    open spec fn view(&self) -> EnvelopeView {
        match self {
            Envelope::Text(t) => EnvelopeView::Text(t@),
            Envelope::Binary(b) => EnvelopeView::Binary(b@),
            Envelope::Ping(b) => EnvelopeView::Ping(b@),
            Envelope::Pong(b) => EnvelopeView::Pong(b@),
            Envelope::Close(code, reason) => EnvelopeView::Close(
                *code,
                match reason {
                    Some(r) => Some(r@),
                    None => None,
                },
            ),
        }
    }
}

/// The handshake record a peer sends inside a text envelope:
/// `{ "connected": <bool>, "hash": "<identifier>" }`.
#[derive(Clone, Debug, PartialEq, Eq)]
pub struct Handshake {
    pub connected: bool,
    pub hash: String,
}

impl Handshake {
    pub fn new(connected: bool, hash: String) -> (h: Handshake)
        ensures
            h.connected == connected,
            h.hash@ == hash@,
    {
        Handshake { connected, hash }
    }
}

} // verus!
