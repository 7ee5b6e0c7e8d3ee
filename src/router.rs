use vstd::prelude::*;
use vstd::slice::slice_to_vec;
use vstd::utf8::{decode_utf8, encode_utf8, valid_utf8};

use crate::envelope::ConnectionHandle;
use crate::registry::{owner_of, without_owner, ConnectionRegistry};

verus! {

broadcast use vstd::utf8::group_utf8_lib;

/// Length in bytes of the identifier header at the front of a routed binary payload.
pub const HEADER_LEN: usize = 22;

/// The identifier a binary payload is addressed to: its first `HEADER_LEN`
/// bytes read as UTF-8, present only when a body follows them.
pub open spec fn addressed_id(payload: Seq<u8>) -> Option<Seq<char>> {
    if payload.len() > HEADER_LEN && valid_utf8(payload.subrange(0, HEADER_LEN as int)) {
        Some(decode_utf8(payload.subrange(0, HEADER_LEN as int)))
    } else {
        None
    }
}

/// What the subscriber `me` forwards of a published binary payload, given
/// the registry's content `reg`: the body after the header, when `me` owns
/// the identifier the header names, and nothing otherwise.
pub open spec fn routed_body(
    reg: Map<Seq<char>, ConnectionHandle>,
    payload: Seq<u8>,
    me: ConnectionHandle,
) -> Option<Seq<u8>> {
    match addressed_id(payload) {
        Some(id) => if owner_of(reg, id) == Some(me) {
            Some(payload.subrange(HEADER_LEN as int, payload.len() as int))
        } else {
            None
        },
        None => None,
    }
}

/// A payload addressed to `id`: its encoding followed by `body`.
pub open spec fn addressed_payload(id: Seq<char>, body: Seq<u8>) -> Seq<u8> {
    encode_utf8(id) + body
}

/// The bytes an optional buffer holds.
pub open spec fn bytes_view(o: Option<Vec<u8>>) -> Option<Seq<u8>> {
    match o {
        Some(b) => Some(b@),
        None => None,
    }
}

/// The characters an optional string holds.
pub open spec fn string_view(o: Option<String>) -> Option<Seq<char>> {
    match o {
        Some(s) => Some(s@),
        None => None,
    }
}

/// Relies on String::from_utf8: it succeeds exactly on well-formed UTF-8,
/// and then holds the characters the bytes encode.
#[verifier::external_body]
fn decode_identifier(bytes: &[u8]) -> (r: Option<String>)
    ensures
        r.is_some() == valid_utf8(bytes@),
        r matches Some(s) ==> s@ == decode_utf8(bytes@),
{
    String::from_utf8(bytes.to_vec()).ok()
}

/// The identifier a binary payload is addressed to, if it has one.
pub fn header_identifier(payload: &[u8]) -> (r: Option<String>)
    ensures
        string_view(r) == addressed_id(payload@),
{
    if payload.len() <= HEADER_LEN {
        return None;
    }
    let (header, _) = payload.split_at(HEADER_LEN);
    decode_identifier(header)
}

/// Decides, for the subscriber `me`, whether a published binary payload is
/// forwarded, and returns the body to send when it is.
///
/// Only the current owner of the header's identifier forwards; a payload of
/// `HEADER_LEN` bytes or fewer, or with a header that is not UTF-8, reaches
/// nobody.
pub fn route_binary(registry: &ConnectionRegistry, payload: &[u8], me: ConnectionHandle) -> (r:
    Option<Vec<u8>>)
    requires
        registry.wf(),
    ensures
        bytes_view(r) == routed_body(registry@, payload@, me),
{
    if payload.len() <= HEADER_LEN {
        return None;
    }
    let (header, body) = payload.split_at(HEADER_LEN);
    match decode_identifier(header) {
        Some(id) => {
            if registry.lookup(&id) == Some(me) {
                Some(slice_to_vec(body))
            } else {
                None
            }
        },
        None => None,
    }
}

proof fn lemma_addressed_payload_id(id: Seq<char>, body: Seq<u8>)
    requires
        encode_utf8(id).len() == HEADER_LEN,
        body.len() > 0,
    ensures
        addressed_id(addressed_payload(id, body)) == Some(id),
        addressed_payload(id, body).subrange(
            HEADER_LEN as int,
            addressed_payload(id, body).len() as int,
        ) == body,
{
    let p = addressed_payload(id, body);
    assert(p.subrange(0, HEADER_LEN as int) =~= encode_utf8(id));
    assert(p.subrange(HEADER_LEN as int, p.len() as int) =~= body);
}

/// A binary payload of at most `HEADER_LEN` bytes is forwarded by no
/// subscriber, whatever the registry holds.
pub proof fn lemma_short_payload_reaches_nobody(
    reg: Map<Seq<char>, ConnectionHandle>,
    payload: Seq<u8>,
    me: ConnectionHandle,
)
    requires
        payload.len() <= HEADER_LEN,
    ensures
        routed_body(reg, payload, me) is None,
{
}

/// Once `owner` registers `id`, a payload addressed to `id` is forwarded by
/// `owner` alone, whoever held `id` before: the latest registration wins.
pub proof fn lemma_latest_registrant_receives(
    reg: Map<Seq<char>, ConnectionHandle>,
    id: Seq<char>,
    owner: ConnectionHandle,
    body: Seq<u8>,
    me: ConnectionHandle,
)
    requires
        encode_utf8(id).len() == HEADER_LEN,
        body.len() > 0,
    ensures
        routed_body(reg.insert(id, owner), addressed_payload(id, body), me) == if me == owner {
            Some(body)
        } else {
            None
        },
{
    lemma_addressed_payload_id(id, body);
}

/// Registering one identifier leaves the routing of payloads addressed to
/// any other identifier as it was.
pub proof fn lemma_register_keeps_other_routes(
    reg: Map<Seq<char>, ConnectionHandle>,
    id: Seq<char>,
    owner: ConnectionHandle,
    other: Seq<char>,
    body: Seq<u8>,
    me: ConnectionHandle,
)
    requires
        encode_utf8(other).len() == HEADER_LEN,
        body.len() > 0,
        other != id,
    ensures
        routed_body(reg.insert(id, owner), addressed_payload(other, body), me) == routed_body(
            reg,
            addressed_payload(other, body),
            me,
        ),
{
    lemma_addressed_payload_id(other, body);
}

/// After the identifiers of `gone` are removed, a payload addressed to any
/// identifier `gone` owned is forwarded by no subscriber, and `gone`
/// forwards no payload at all.
pub proof fn lemma_removed_owner_unreachable(
    reg: Map<Seq<char>, ConnectionHandle>,
    gone: ConnectionHandle,
    id: Seq<char>,
    body: Seq<u8>,
    payload: Seq<u8>,
    me: ConnectionHandle,
)
    requires
        encode_utf8(id).len() == HEADER_LEN,
        body.len() > 0,
        owner_of(reg, id) == Some(gone),
    ensures
        routed_body(without_owner(reg, gone), addressed_payload(id, body), me) is None,
        routed_body(without_owner(reg, gone), payload, gone) is None,
{
    lemma_addressed_payload_id(id, body);
}

} // verus!
