//! The client side: the decisions of one call, from opening a stream to
//! decoding the response.
use rmp_serde::decode::Error as DecodeError;
use rmp_serde::encode::Error as EncodeError;
use vstd::pervasive::unreached;
use vstd::prelude::*;

use crate::server::{
    conn_step, lemma_conn_reads_request_frame, lemma_conn_writes_response_frame, ConnAction,
    ConnEvent, ConnPhase,
};
use crate::wire::{
    be_u32_bytes, be_u64_bytes, be_value, lemma_u64_round_trip, request_frame, response_frame,
    u32_to_be, u64_from_be, u64_to_be, CodingKey, MAX_PAYLOAD_LEN,
};

verus! {

/// The endpoint of a call: a context id and a port.
#[derive(Debug, Clone, Copy, PartialEq, Eq, Structural)]
pub struct ConnectionDetails {
    /// The context id of the peer.
    pub cid: u32,
    /// The port of the peer.
    pub port: u32,
}

impl ConnectionDetails {
    /// The endpoint `(cid, port)`.
    pub fn new(cid: u32, port: u32) -> (r: Self)
        ensures
            r.cid == cid,
            r.port == port,
    {
        ConnectionDetails { cid, port }
    }
}

/// What can go wrong in a call.
#[derive(Debug)]
pub enum Error {
    /// Opening the stream failed.
    Connection(std::io::Error),
    /// Encoding the request failed.
    Encoding(rmp_serde::encode::Error),
    /// Decoding the response failed.
    Decoding(rmp_serde::decode::Error),
    /// Writing a frame field failed.
    Writing(CodingKey, std::io::Error),
    /// Reading a frame field failed.
    Reading(CodingKey, std::io::Error),
    /// The response announced a payload longer than a peer accepts.
    PayloadTooLarge(u64),
}

/// Where a call stands.
pub enum CallPhase {
    /// Opening the stream; `route_hash` is sent once it is open.
    Connecting { route_hash: u32 },
    /// Writing the route hash.
    SendingHash,
    /// Encoding the request.
    Encoding,
    /// Writing the length of `payload`.
    SendingLength { payload: Vec<u8> },
    /// Writing the request payload.
    SendingPayload,
    /// Reading the response length.
    ReceivingLength,
    /// Reading the `len` bytes of the response payload.
    ReceivingPayload { len: usize },
    /// Decoding the response.
    Decoding,
    /// The call is over.
    Finished,
}

/// What the call's driver reports back after carrying out an action.
pub enum CallEvent<T> {
    /// The stream is open.
    Connected,
    /// A write completed.
    Written,
    /// A read returned exactly the bytes asked for.
    Received(Vec<u8>),
    /// Opening, reading or writing failed.
    Failed(std::io::Error),
    /// The request was encoded to these bytes.
    Encoded(Vec<u8>),
    /// The request could not be encoded.
    EncodeFailed(EncodeError),
    /// The response payload was decoded to this value.
    Decoded(T),
    /// The response payload could not be decoded.
    DecodeFailed(DecodeError),
}

/// What the call's driver does next.
pub enum CallAction<T> {
    /// Open a stream to the endpoint.
    Connect { cid: u32, port: u32 },
    /// Write all of `bytes`, which belong to the frame field `key`.
    Write { bytes: Vec<u8>, key: CodingKey },
    /// Encode the request.
    Encode,
    /// Read exactly `len` bytes of the frame field `key`.
    Read { len: usize, key: CodingKey },
    /// Decode these response bytes.
    Decode(Vec<u8>),
    /// The call is over, with this outcome; the stream is then dropped.
    Finish(Result<T, Error>),
}

/// The transition table of a call: in phase `p`, the event `ev` leads to
/// phase `next` and action `act`.
pub open spec fn call_step<T>(p: CallPhase, ev: CallEvent<T>, next: CallPhase, act: CallAction<T>) -> bool {
    match p {
        CallPhase::Connecting { route_hash } => match ev {
            CallEvent::Connected => {
                &&& next == CallPhase::SendingHash
                &&& act matches CallAction::Write { bytes, key }
                &&& bytes@ == be_u32_bytes(route_hash)
                &&& key == CodingKey::Length
            },
            CallEvent::Failed(e) => {
                &&& next == CallPhase::Finished
                &&& act == CallAction::<T>::Finish(Err(Error::Connection(e)))
            },
            _ => false,
        },
        CallPhase::SendingHash => match ev {
            CallEvent::Written => next == CallPhase::Encoding && act == CallAction::<T>::Encode,
            CallEvent::Failed(e) => {
                &&& next == CallPhase::Finished
                &&& act == CallAction::<T>::Finish(Err(Error::Writing(CodingKey::Length, e)))
            },
            _ => false,
        },
        CallPhase::Encoding => match ev {
            CallEvent::Encoded(b) => {
                &&& next matches CallPhase::SendingLength { payload }
                &&& payload@ == b@
                &&& act matches CallAction::Write { bytes, key }
                &&& bytes@ == be_u64_bytes(b@.len() as u64)
                &&& key == CodingKey::Length
            },
            CallEvent::EncodeFailed(e) => {
                &&& next == CallPhase::Finished
                &&& act == CallAction::<T>::Finish(Err(Error::Encoding(e)))
            },
            _ => false,
        },
        CallPhase::SendingLength { payload } => match ev {
            CallEvent::Written => {
                &&& next == CallPhase::SendingPayload
                &&& act matches CallAction::Write { bytes, key }
                &&& bytes@ == payload@
                &&& key == CodingKey::Payload
            },
            CallEvent::Failed(e) => {
                &&& next == CallPhase::Finished
                &&& act == CallAction::<T>::Finish(Err(Error::Writing(CodingKey::Length, e)))
            },
            _ => false,
        },
        CallPhase::SendingPayload => match ev {
            CallEvent::Written => {
                &&& next == CallPhase::ReceivingLength
                &&& act == CallAction::<T>::Read { len: 8, key: CodingKey::Length }
            },
            CallEvent::Failed(e) => {
                &&& next == CallPhase::Finished
                &&& act == CallAction::<T>::Finish(Err(Error::Writing(CodingKey::Payload, e)))
            },
            _ => false,
        },
        CallPhase::ReceivingLength => match ev {
            CallEvent::Received(b) => {
                let n = be_value(b@);
                if n > MAX_PAYLOAD_LEN {
                    &&& next == CallPhase::Finished
                    &&& act == CallAction::<T>::Finish(Err(Error::PayloadTooLarge(n as u64)))
                } else {
                    &&& next == CallPhase::ReceivingPayload { len: n as usize }
                    &&& act == CallAction::<T>::Read { len: n as usize, key: CodingKey::Payload }
                }
            },
            CallEvent::Failed(e) => {
                &&& next == CallPhase::Finished
                &&& act == CallAction::<T>::Finish(Err(Error::Reading(CodingKey::Length, e)))
            },
            _ => false,
        },
        CallPhase::ReceivingPayload { .. } => match ev {
            CallEvent::Received(b) => {
                &&& next == CallPhase::Decoding
                &&& act matches CallAction::Decode(d)
                &&& d@ == b@
            },
            CallEvent::Failed(e) => {
                &&& next == CallPhase::Finished
                &&& act == CallAction::<T>::Finish(Err(Error::Reading(CodingKey::Payload, e)))
            },
            _ => false,
        },
        CallPhase::Decoding => match ev {
            CallEvent::Decoded(t) => next == CallPhase::Finished && act == CallAction::Finish(Ok(t)),
            CallEvent::DecodeFailed(e) => {
                &&& next == CallPhase::Finished
                &&& act == CallAction::<T>::Finish(Err(Error::Decoding(e)))
            },
            _ => false,
        },
        CallPhase::Finished => false,
    }
}

impl CallPhase {
    /// An upper bound on the steps left before the call finishes.
    pub open spec fn steps_left(&self) -> nat {
        match *self {
            CallPhase::Connecting { .. } => 8,
            CallPhase::SendingHash => 7,
            CallPhase::Encoding => 6,
            CallPhase::SendingLength { .. } => 5,
            CallPhase::SendingPayload => 4,
            CallPhase::ReceivingLength => 3,
            CallPhase::ReceivingPayload { .. } => 2,
            CallPhase::Decoding => 1,
            CallPhase::Finished => 0,
        }
    }

    /// Whether `ev` can answer the action issued on entering this phase.
    pub open spec fn spec_expects<T>(&self, ev: CallEvent<T>) -> bool {
        match *self {
            CallPhase::Connecting { .. } => ev is Connected || ev is Failed,
            CallPhase::SendingHash | CallPhase::SendingLength { .. } | CallPhase::SendingPayload =>
                ev is Written || ev is Failed,
            CallPhase::Encoding => ev is Encoded || ev is EncodeFailed,
            CallPhase::ReceivingLength => ev is Failed || (ev matches CallEvent::Received(b)
                && b@.len() == 8),
            CallPhase::ReceivingPayload { len } => ev is Failed || (ev matches CallEvent::Received(b)
                && b@.len() == len),
            CallPhase::Decoding => ev is Decoded || ev is DecodeFailed,
            CallPhase::Finished => false,
        }
    }

    /// The first phase of a call of the route `route_hash` to `endpoint`, and
    /// its first action: open the stream.
    pub fn start<T>(endpoint: ConnectionDetails, route_hash: u32) -> (r: (CallPhase, CallAction<T>))
        ensures
            r.0 == (CallPhase::Connecting { route_hash }),
            r.1 == (CallAction::<T>::Connect { cid: endpoint.cid, port: endpoint.port }),
    {
        (CallPhase::Connecting { route_hash }, CallAction::Connect { cid: endpoint.cid, port: endpoint.port })
    }

    /// See `spec_expects`.
    pub fn expects<T>(&self, ev: &CallEvent<T>) -> (r: bool)
        ensures
            r == self.spec_expects(*ev),
    {
        match self {
            CallPhase::Connecting { .. } => match ev {
                CallEvent::Connected | CallEvent::Failed(_) => true,
                _ => false,
            },
            CallPhase::SendingHash | CallPhase::SendingLength { .. } | CallPhase::SendingPayload =>
                match ev {
                CallEvent::Written | CallEvent::Failed(_) => true,
                _ => false,
            },
            CallPhase::Encoding => match ev {
                CallEvent::Encoded(_) | CallEvent::EncodeFailed(_) => true,
                _ => false,
            },
            CallPhase::ReceivingLength => match ev {
                CallEvent::Received(b) => b.len() == 8,
                CallEvent::Failed(_) => true,
                _ => false,
            },
            CallPhase::ReceivingPayload { len } => match ev {
                CallEvent::Received(b) => b.len() == *len,
                CallEvent::Failed(_) => true,
                _ => false,
            },
            CallPhase::Decoding => match ev {
                CallEvent::Decoded(_) | CallEvent::DecodeFailed(_) => true,
                _ => false,
            },
            CallPhase::Finished => false,
        }
    }

    /// Takes the call one step: from this phase and the outcome of the last
    /// action to the next phase and the next action.
    ///
    /// The order is fixed: connect, write the route hash, encode, write the
    /// length, write the payload, read the length, read the payload, decode.
    /// Each failure ends the call with the error of its step. Every step
    /// brings the call closer to its end, and the action is `Finish` exactly
    /// when the call is then finished.
    pub fn advance<T>(self, ev: CallEvent<T>) -> (r: (CallPhase, CallAction<T>))
        requires
            self.spec_expects(ev),
        ensures
            call_step(self, ev, r.0, r.1),
            r.0.steps_left() < self.steps_left(),
            (r.1 is Finish) == (r.0 is Finished),
    {
        match self {
            CallPhase::Connecting { route_hash } => match ev {
                CallEvent::Failed(e) => (CallPhase::Finished, CallAction::Finish(Err(Error::Connection(e)))),
                _ => (
                    CallPhase::SendingHash,
                    CallAction::Write { bytes: u32_to_be(route_hash), key: CodingKey::Length },
                ),
            },
            CallPhase::SendingHash => match ev {
                CallEvent::Failed(e) => (
                    CallPhase::Finished,
                    CallAction::Finish(Err(Error::Writing(CodingKey::Length, e))),
                ),
                _ => (CallPhase::Encoding, CallAction::Encode),
            },
            CallPhase::Encoding => match ev {
                CallEvent::Encoded(b) => {
                    let header = u64_to_be(b.len() as u64);
                    (
                        CallPhase::SendingLength { payload: b },
                        CallAction::Write { bytes: header, key: CodingKey::Length },
                    )
                },
                CallEvent::EncodeFailed(e) => (
                    CallPhase::Finished,
                    CallAction::Finish(Err(Error::Encoding(e))),
                ),
                _ => unreached(),
            },
            CallPhase::SendingLength { payload } => match ev {
                CallEvent::Failed(e) => (
                    CallPhase::Finished,
                    CallAction::Finish(Err(Error::Writing(CodingKey::Length, e))),
                ),
                _ => (
                    CallPhase::SendingPayload,
                    CallAction::Write { bytes: payload, key: CodingKey::Payload },
                ),
            },
            CallPhase::SendingPayload => match ev {
                CallEvent::Failed(e) => (
                    CallPhase::Finished,
                    CallAction::Finish(Err(Error::Writing(CodingKey::Payload, e))),
                ),
                _ => (CallPhase::ReceivingLength, CallAction::Read { len: 8, key: CodingKey::Length }),
            },
            CallPhase::ReceivingLength => match ev {
                CallEvent::Received(b) => {
                    let n = u64_from_be(b.as_slice());
                    if n > MAX_PAYLOAD_LEN {
                        (CallPhase::Finished, CallAction::Finish(Err(Error::PayloadTooLarge(n))))
                    } else {
                        (
                            CallPhase::ReceivingPayload { len: n as usize },
                            CallAction::Read { len: n as usize, key: CodingKey::Payload },
                        )
                    }
                },
                CallEvent::Failed(e) => (
                    CallPhase::Finished,
                    CallAction::Finish(Err(Error::Reading(CodingKey::Length, e))),
                ),
                _ => unreached(),
            },
            CallPhase::ReceivingPayload { .. } => match ev {
                CallEvent::Received(b) => (CallPhase::Decoding, CallAction::Decode(b)),
                CallEvent::Failed(e) => (
                    CallPhase::Finished,
                    CallAction::Finish(Err(Error::Reading(CodingKey::Payload, e))),
                ),
                _ => unreached(),
            },
            CallPhase::Decoding => match ev {
                CallEvent::Decoded(t) => (CallPhase::Finished, CallAction::Finish(Ok(t))),
                CallEvent::DecodeFailed(e) => (
                    CallPhase::Finished,
                    CallAction::Finish(Err(Error::Decoding(e))),
                ),
                _ => unreached(),
            },
            CallPhase::Finished => unreached(),
        }
    }
}

/// A call whose stream opens and whose writes complete writes exactly the
/// request frame of its route hash and encoded request, in three writes, and
/// then reads the eight bytes of the response length.
pub proof fn lemma_call_writes_request_frame<T>(
    route_hash: u32,
    payload: Vec<u8>,
    n1: CallPhase,
    a1: CallAction<T>,
    n2: CallPhase,
    a2: CallAction<T>,
    n3: CallPhase,
    a3: CallAction<T>,
    n4: CallPhase,
    a4: CallAction<T>,
    n5: CallPhase,
    a5: CallAction<T>,
)
    requires
        call_step((CallPhase::Connecting { route_hash }), CallEvent::<T>::Connected, n1, a1),
        call_step(n1, CallEvent::<T>::Written, n2, a2),
        call_step(n2, CallEvent::<T>::Encoded(payload), n3, a3),
        call_step(n3, CallEvent::<T>::Written, n4, a4),
        call_step(n4, CallEvent::<T>::Written, n5, a5),
    ensures
        a2 == CallAction::<T>::Encode,
        a1 matches CallAction::Write { bytes: w1, .. } && a3 matches CallAction::Write {
            bytes: w2,
            ..
        } && a4 matches CallAction::Write { bytes: w3, .. } && w1@ + w2@ + w3@ == request_frame(
            route_hash,
            payload@,
        ),
        a5 == (CallAction::<T>::Read { len: 8, key: CodingKey::Length }),
{
    assert(a1 matches CallAction::Write { bytes: w1, .. } && a3 matches CallAction::Write {
        bytes: w2,
        ..
    } && a4 matches CallAction::Write { bytes: w3, .. } && w1@ + w2@ + w3@ =~= request_frame(
        route_hash,
        payload@,
    ));
}

/// A call reading a response frame, from a stream that holds the frame and
/// then anything else, decodes exactly the framed payload, and by then has
/// read exactly the frame's bytes.
pub proof fn lemma_call_reads_response_frame<T>(
    payload: Seq<u8>,
    rest: Seq<u8>,
    b1: Vec<u8>,
    n1: CallPhase,
    a1: CallAction<T>,
    b2: Vec<u8>,
    n2: CallPhase,
    a2: CallAction<T>,
)
    requires
        payload.len() <= MAX_PAYLOAD_LEN,
        b1@.len() + b2@.len() <= response_frame(payload).len() + rest.len(),
        b1@ + b2@ == (response_frame(payload) + rest).subrange(0, (b1@.len() + b2@.len()) as int),
        CallPhase::ReceivingLength.spec_expects(CallEvent::<T>::Received(b1)),
        call_step(CallPhase::ReceivingLength, CallEvent::<T>::Received(b1), n1, a1),
        n1.spec_expects(CallEvent::<T>::Received(b2)),
        call_step(n1, CallEvent::<T>::Received(b2), n2, a2),
    ensures
        a2 matches CallAction::Decode(d) && d@ == payload,
        b1@ + b2@ == response_frame(payload),
{
    let stream = response_frame(payload) + rest;
    let all = b1@ + b2@;
    let total = all.len() as int;
    lemma_u64_round_trip(payload.len() as u64);
    assert(b1@.len() == 8);
    assert forall|i: int| 0 <= i < total implies all[i] == stream[i] by {
        assert(all[i] == stream.subrange(0, total)[i]);
    }
    assert(b1@ =~= be_u64_bytes(payload.len() as u64)) by {
        assert forall|i: int| 0 <= i < 8 implies b1@[i] == be_u64_bytes(payload.len() as u64)[i] by {
            assert(b1@[i] == all[i]);
            assert(stream[i] == response_frame(payload)[i]);
        }
    }
    assert(n1 == CallPhase::ReceivingPayload { len: payload.len() as usize });
    assert(b2@.len() == payload.len());
    assert(b2@ =~= payload) by {
        assert forall|i: int| 0 <= i < payload.len() implies b2@[i] == payload[i] by {
            assert(b2@[i] == all[8 + i]);
            assert(stream[8 + i] == response_frame(payload)[8 + i]);
        }
    }
    assert(all =~= response_frame(payload));
}

/// What a client writes reaches the handler: a server reading the request
/// frame that a call wrote, for a registered route, hands its handler exactly
/// the call's route hash and encoded request.
pub proof fn lemma_request_delivered<T>(
    ids: Map<u32, Seq<char>>,
    route_hash: u32,
    payload: Vec<u8>,
    w1: Vec<u8>,
    w2: Vec<u8>,
    w3: Vec<u8>,
    b1: Vec<u8>,
    s1: ConnPhase,
    c1: ConnAction,
    b2: Vec<u8>,
    s2: ConnPhase,
    c2: ConnAction,
    b3: Vec<u8>,
    s3: ConnPhase,
    c3: ConnAction,
)
    requires
        ids.contains_key(route_hash),
        payload@.len() <= MAX_PAYLOAD_LEN,
        w1@ + w2@ + w3@ == request_frame(route_hash, payload@),
        b1@.len() + b2@.len() + b3@.len() <= (w1@ + w2@ + w3@).len(),
        b1@ + b2@ + b3@ == (w1@ + w2@ + w3@).subrange(0, (b1@.len() + b2@.len() + b3@.len()) as int),
        ConnPhase::Hash.spec_expects(ConnEvent::Received(b1)),
        conn_step(ConnPhase::Hash, ids, ConnEvent::Received(b1), s1, c1),
        s1.spec_expects(ConnEvent::Received(b2)),
        conn_step(s1, ids, ConnEvent::Received(b2), s2, c2),
        s2.spec_expects(ConnEvent::Received(b3)),
        conn_step(s2, ids, ConnEvent::Received(b3), s3, c3),
    ensures
        c3 matches ConnAction::Handle { route_hash: h, payload: p } && h == route_hash && p@
            == payload@,
{
    let frame = request_frame(route_hash, payload@);
    assert(frame + Seq::<u8>::empty() =~= frame);
    lemma_conn_reads_request_frame(
        ids,
        route_hash,
        payload@,
        Seq::<u8>::empty(),
        b1,
        s1,
        c1,
        b2,
        s2,
        c2,
        b3,
        s3,
        c3,
    );
}

/// What a handler returns reaches the client: a call reading the two writes
/// of a connection whose handler responded with `response` decodes exactly
/// `response`, and a decoded value ends the call with that value.
pub proof fn lemma_response_delivered<T>(
    ids: Map<u32, Seq<char>>,
    response: Vec<u8>,
    s1: ConnPhase,
    c1: ConnAction,
    s2: ConnPhase,
    c2: ConnAction,
    s3: ConnPhase,
    c3: ConnAction,
    b1: Vec<u8>,
    n1: CallPhase,
    a1: CallAction<T>,
    b2: Vec<u8>,
    n2: CallPhase,
    a2: CallAction<T>,
    value: T,
    n3: CallPhase,
    a3: CallAction<T>,
)
    requires
        response@.len() <= MAX_PAYLOAD_LEN,
        conn_step(ConnPhase::Handling, ids, ConnEvent::Responded(response), s1, c1),
        conn_step(s1, ids, ConnEvent::Written, s2, c2),
        conn_step(s2, ids, ConnEvent::Written, s3, c3),
        c1 matches ConnAction::Write { bytes: w1, .. } && c2 matches ConnAction::Write {
            bytes: w2,
            ..
        } && b1@.len() + b2@.len() <= w1@.len() + w2@.len() && b1@ + b2@ == (w1@ + w2@).subrange(
            0,
            (b1@.len() + b2@.len()) as int,
        ),
        CallPhase::ReceivingLength.spec_expects(CallEvent::<T>::Received(b1)),
        call_step(CallPhase::ReceivingLength, CallEvent::<T>::Received(b1), n1, a1),
        n1.spec_expects(CallEvent::<T>::Received(b2)),
        call_step(n1, CallEvent::<T>::Received(b2), n2, a2),
        call_step(n2, CallEvent::Decoded(value), n3, a3),
    ensures
        a2 matches CallAction::Decode(d) && d@ == response@,
        a3 == CallAction::<T>::Finish(Ok(value)),
{
    lemma_conn_writes_response_frame(ids, response, s1, c1, s2, c2, s3, c3);
    let frame = response_frame(response@);
    assert(frame + Seq::<u8>::empty() =~= frame);
    lemma_call_reads_response_frame(response@, Seq::<u8>::empty(), b1, n1, a1, b2, n2, a2);
}

/// One whole exchange, as far as bytes go: when a call's stream opens and
/// its writes complete, a server reading those writes for a registered route
/// runs its handler on exactly the call's encoded request; when that handler
/// responds and the server's writes complete, the call reading them decodes
/// exactly the handler's encoded response, and a decoded value is what the
/// call returns.
pub proof fn lemma_exchange<T>(
    ids: Map<u32, Seq<char>>,
    route_hash: u32,
    request: Vec<u8>,
    response: Vec<u8>,
    value: T,
    calls: Seq<(CallPhase, CallAction<T>)>,
    reads: Seq<(ConnPhase, ConnAction)>,
    received: Seq<Vec<u8>>,
    replies: Seq<(ConnPhase, ConnAction)>,
    answers: Seq<(CallPhase, CallAction<T>)>,
    answered: Seq<Vec<u8>>,
    last: (CallPhase, CallAction<T>),
)
    requires
        ids.contains_key(route_hash),
        request@.len() <= MAX_PAYLOAD_LEN,
        response@.len() <= MAX_PAYLOAD_LEN,
        calls.len() == 5,
        call_step((CallPhase::Connecting { route_hash }), CallEvent::<T>::Connected, calls[0].0, calls[0].1),
        call_step(calls[0].0, CallEvent::<T>::Written, calls[1].0, calls[1].1),
        call_step(calls[1].0, CallEvent::<T>::Encoded(request), calls[2].0, calls[2].1),
        call_step(calls[2].0, CallEvent::<T>::Written, calls[3].0, calls[3].1),
        call_step(calls[3].0, CallEvent::<T>::Written, calls[4].0, calls[4].1),
        reads.len() == 3,
        received.len() == 3,
        calls[0].1 matches CallAction::Write { bytes: w1, .. } && calls[2].1 matches CallAction::Write {
            bytes: w2,
            ..
        } && calls[3].1 matches CallAction::Write { bytes: w3, .. } && received[0]@.len()
            + received[1]@.len() + received[2]@.len() <= (w1@ + w2@ + w3@).len() && received[0]@
            + received[1]@ + received[2]@ == (w1@ + w2@ + w3@).subrange(
            0,
            (received[0]@.len() + received[1]@.len() + received[2]@.len()) as int,
        ),
        ConnPhase::Hash.spec_expects(ConnEvent::Received(received[0])),
        conn_step(ConnPhase::Hash, ids, ConnEvent::Received(received[0]), reads[0].0, reads[0].1),
        reads[0].0.spec_expects(ConnEvent::Received(received[1])),
        conn_step(reads[0].0, ids, ConnEvent::Received(received[1]), reads[1].0, reads[1].1),
        reads[1].0.spec_expects(ConnEvent::Received(received[2])),
        conn_step(reads[1].0, ids, ConnEvent::Received(received[2]), reads[2].0, reads[2].1),
        replies.len() == 3,
        conn_step(reads[2].0, ids, ConnEvent::Responded(response), replies[0].0, replies[0].1),
        conn_step(replies[0].0, ids, ConnEvent::Written, replies[1].0, replies[1].1),
        conn_step(replies[1].0, ids, ConnEvent::Written, replies[2].0, replies[2].1),
        answers.len() == 2,
        answered.len() == 2,
        replies[0].1 matches ConnAction::Write { bytes: v1, .. } && replies[1].1 matches ConnAction::Write {
            bytes: v2,
            ..
        } && answered[0]@.len() + answered[1]@.len() <= v1@.len() + v2@.len() && answered[0]@
            + answered[1]@ == (v1@ + v2@).subrange(0, (answered[0]@.len() + answered[1]@.len()) as int),
        calls[4].0.spec_expects(CallEvent::<T>::Received(answered[0])),
        call_step(calls[4].0, CallEvent::<T>::Received(answered[0]), answers[0].0, answers[0].1),
        answers[0].0.spec_expects(CallEvent::<T>::Received(answered[1])),
        call_step(answers[0].0, CallEvent::<T>::Received(answered[1]), answers[1].0, answers[1].1),
        call_step(answers[1].0, CallEvent::Decoded(value), last.0, last.1),
    ensures
        reads[2].1 matches ConnAction::Handle { route_hash: h, payload: p } && h == route_hash
            && p@ == request@,
        answers[1].1 matches CallAction::Decode(d) && d@ == response@,
        last.1 == CallAction::<T>::Finish(Ok(value)),
        replies[2].1 == ConnAction::Finish(Ok(())),
{
    lemma_call_writes_request_frame(
        route_hash,
        request,
        calls[0].0,
        calls[0].1,
        calls[1].0,
        calls[1].1,
        calls[2].0,
        calls[2].1,
        calls[3].0,
        calls[3].1,
        calls[4].0,
        calls[4].1,
    );
    assert(calls[4].0 == CallPhase::ReceivingLength);
    let w1 = calls[0].1->Write_bytes;
    let w2 = calls[2].1->Write_bytes;
    let w3 = calls[3].1->Write_bytes;
    lemma_request_delivered::<T>(
        ids,
        route_hash,
        request,
        w1,
        w2,
        w3,
        received[0],
        reads[0].0,
        reads[0].1,
        received[1],
        reads[1].0,
        reads[1].1,
        received[2],
        reads[2].0,
        reads[2].1,
    );
    assert(reads[2].0 == ConnPhase::Handling);
    lemma_response_delivered(
        ids,
        response,
        replies[0].0,
        replies[0].1,
        replies[1].0,
        replies[1].1,
        replies[2].0,
        replies[2].1,
        answered[0],
        answers[0].0,
        answers[0].1,
        answered[1],
        answers[1].0,
        answers[1].1,
        value,
        last.0,
        last.1,
    );
}

} // verus!
