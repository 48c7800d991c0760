//! The server side: a registry of handlers keyed by route hash, and the
//! decisions taken on each accepted connection.
use std::collections::HashMap;
use std::sync::Arc;
use vstd::pervasive::unreached;
use vstd::prelude::*;

use crate::route::{route_hash, route_hash_of, Request};
use crate::wire::{
    be_u32_bytes, be_u64_bytes, be_value, lemma_u32_round_trip, lemma_u64_round_trip, request_frame,
    response_frame, u32_from_be, u64_from_be, u64_to_be, CodingKey, MAX_PAYLOAD_LEN,
};
use rmp_serde::decode::Error as DecodeError;
use rmp_serde::encode::Error as EncodeError;

verus! {

broadcast use vstd::std_specs::hash::group_hash_axioms;

/// The context id a server binds to: any local context.
pub const VMADDR_CID_ANY: u32 = 0xFFFF_FFFF;

/// What can go wrong while registering routes or serving.
#[derive(Debug)]
pub enum Error {
    /// Binding the listening socket failed.
    Bind(std::io::Error),
    /// Accepting a connection failed; this ends `serve`.
    Accept(std::io::Error),
    /// The secure-module hook run before accepting failed.
    NsmConnect(std::io::Error),
    /// Encoding a response failed.
    Encoding(rmp_serde::encode::Error),
    /// Decoding a request failed.
    Decoding(rmp_serde::decode::Error),
    /// Writing a frame field failed.
    Writing(CodingKey, std::io::Error),
    /// Reading a frame field failed.
    Reading(CodingKey, std::io::Error),
    /// No handler is registered for this route hash.
    UnknownRequest(u32),
    /// A handler is already registered for this route id.
    DuplicateRoute(u32),
    /// A handler for another route id with the same hash is registered.
    RouteCollision(u32),
    /// A request announced a payload longer than the server accepts.
    PayloadTooLarge(u64),
}

/// One registered route: the route id it was registered under, and its handler.
struct Route<H> {
    route_id: String,
    handler: H,
}

/// A registry of handlers keyed by route hash, with the application state
/// that every handler receives.
///
/// At most one handler is registered per route hash, and each is stored under
/// the hash of the route id it was registered with.
pub struct Router<S, H> {
    routes: HashMap<u32, Route<H>>,
    state: Arc<S>,
}

impl<S, H> Router<S, H> {
    /// Each registered hash mapped to the route id registered under it.
    pub closed spec fn route_ids(&self) -> Map<u32, Seq<char>> {
        Map::new(|k: u32| self.routes@.contains_key(k), |k: u32| self.routes@[k].route_id@)
    }

    /// Each registered hash mapped to its handler.
    pub closed spec fn handlers(&self) -> Map<u32, H> {
        Map::new(|k: u32| self.routes@.contains_key(k), |k: u32| self.routes@[k].handler)
    }

    /// The shared application state.
    pub closed spec fn spec_state(&self) -> S {
        *self.state
    }

    /// Every route is stored under the hash of its own route id.
    #[verifier::type_invariant]
    spec fn wf(self) -> bool {
        forall|k: u32| #[trigger]
            self.routes@.contains_key(k) ==> route_hash_of(self.routes@[k].route_id@) == k
    }

    /// A router with no routes, holding `state` for its handlers.
    pub fn with_state(state: S) -> (r: Self)
        ensures
            r.route_ids() == Map::<u32, Seq<char>>::empty(),
            r.handlers() == Map::<u32, H>::empty(),
            r.spec_state() == state,
    {
        let r = Router { routes: HashMap::new(), state: Arc::new(state) };
        assert(r.route_ids() =~= Map::<u32, Seq<char>>::empty());
        assert(r.handlers() =~= Map::<u32, H>::empty());
        r
    }

    /// Registers `handler` under `route_id`.
    ///
    /// Registration is refused when the route hash of `route_id` is taken:
    /// with `DuplicateRoute` when it was taken by the same route id, with
    /// `RouteCollision` when by another one. A refused registration leaves no
    /// router behind; routes are registered before serving.
    pub fn register(self, route_id: &str, handler: H) -> (r: Result<Self, Error>)
        ensures
            ({
                let k = route_hash_of(route_id@);
                match r {
                    Ok(router) => {
                        &&& !self.route_ids().contains_key(k)
                        &&& router.route_ids() == self.route_ids().insert(k, route_id@)
                        &&& router.handlers() == self.handlers().insert(k, handler)
                        &&& router.spec_state() == self.spec_state()
                    },
                    Err(Error::DuplicateRoute(h)) => {
                        &&& h == k
                        &&& self.route_ids().contains_key(k)
                        &&& self.route_ids()[k] == route_id@
                    },
                    Err(Error::RouteCollision(h)) => {
                        &&& h == k
                        &&& self.route_ids().contains_key(k)
                        &&& self.route_ids()[k] != route_id@
                    },
                    Err(_) => false,
                }
            }),
    {
        proof {
            use_type_invariant(&self);
        }
        let k = route_hash(route_id);
        let id = route_id.to_owned();
        let Router { mut routes, state } = self;
        match routes.get(&k) {
            Some(existing) => {
                if existing.route_id == id {
                    return Err(Error::DuplicateRoute(k));
                } else {
                    return Err(Error::RouteCollision(k));
                }
            },
            None => {},
        }
        routes.insert(k, Route { route_id: id, handler });
        let router = Router { routes, state };
        assert(router.route_ids() =~= self.route_ids().insert(k, route_id@));
        assert(router.handlers() =~= self.handlers().insert(k, handler));
        Ok(router)
    }

    /// Registers `handler` for the request type `R`, under its route id; see
    /// `register`.
    pub fn route<R: Request>(self, handler: H) -> (r: Result<Self, Error>)
        ensures
            ({
                let k = route_hash_of(R::spec_route_id());
                match r {
                    Ok(router) => {
                        &&& !self.route_ids().contains_key(k)
                        &&& router.route_ids() == self.route_ids().insert(k, R::spec_route_id())
                        &&& router.handlers() == self.handlers().insert(k, handler)
                        &&& router.spec_state() == self.spec_state()
                    },
                    Err(Error::DuplicateRoute(h)) => {
                        &&& h == k
                        &&& self.route_ids().contains_key(k)
                        &&& self.route_ids()[k] == R::spec_route_id()
                    },
                    Err(Error::RouteCollision(h)) => {
                        &&& h == k
                        &&& self.route_ids().contains_key(k)
                        &&& self.route_ids()[k] != R::spec_route_id()
                    },
                    Err(_) => false,
                }
            }),
    {
        self.register(R::route_id(), handler)
    }

    /// Whether a handler is registered for `route_hash`.
    pub fn contains(&self, route_hash: u32) -> (r: bool)
        ensures
            r == self.route_ids().contains_key(route_hash),
    {
        self.routes.contains_key(&route_hash)
    }

    /// The handler registered for `route_hash`, or `UnknownRequest` when there
    /// is none.
    pub fn handler(&self, route_hash: u32) -> (r: Result<&H, Error>)
        ensures
            match r {
                Ok(h) => self.handlers().contains_key(route_hash) && *h == self.handlers()[route_hash],
                Err(e) => !self.handlers().contains_key(route_hash) && e == Error::UnknownRequest(
                    route_hash,
                ),
            },
    {
        match self.routes.get(&route_hash) {
            Some(route) => Ok(&route.handler),
            None => Err(Error::UnknownRequest(route_hash)),
        }
    }

    /// The shared state handle; every connection gets a clone of this handle,
    /// never a copy of the state.
    pub fn state(&self) -> (r: &Arc<S>)
        ensures
            **r == self.spec_state(),
    {
        &self.state
    }
}

impl<H> Default for Router<(), H> {
    /// A router with no routes and the unit state.
    fn default() -> (r: Self)
        ensures
            r.route_ids() == Map::<u32, Seq<char>>::empty(),
            r.handlers() == Map::<u32, H>::empty(),
    {
        Router::new()
    }
}

impl<H> Router<(), H> {
    /// A router with no routes and the unit state.
    pub fn new() -> (r: Self)
        ensures
            r.route_ids() == Map::<u32, Seq<char>>::empty(),
            r.handlers() == Map::<u32, H>::empty(),
    {
        Router::with_state(())
    }
}

/// Where a connection stands in reading its one request and answering it.
pub enum ConnPhase {
    /// Waiting for the four bytes of the route hash.
    Hash,
    /// Waiting for the eight bytes of the request length.
    Length { route_hash: u32 },
    /// Waiting for the `len` bytes of the request payload.
    Payload { route_hash: u32, len: usize },
    /// The handler is decoding, running and encoding.
    Handling,
    /// Writing the length of `response`.
    ResponseLength { response: Vec<u8> },
    /// Writing the response payload.
    ResponsePayload,
    /// Nothing more happens on this connection.
    Finished,
}

/// What the connection's driver reports back after carrying out an action.
pub enum ConnEvent {
    /// A read returned exactly the bytes asked for.
    Received(Vec<u8>),
    /// A write completed.
    Written,
    /// A read or write failed.
    Failed(std::io::Error),
    /// The handler produced these encoded response bytes.
    Responded(Vec<u8>),
    /// The request payload could not be decoded.
    DecodeFailed(DecodeError),
    /// The response could not be encoded.
    EncodeFailed(EncodeError),
}

/// What the connection's driver does next.
pub enum ConnAction {
    /// Read exactly `len` bytes of the frame field `key`.
    Read { len: usize, key: CodingKey },
    /// Write all of `bytes`, which belong to the frame field `key`.
    Write { bytes: Vec<u8>, key: CodingKey },
    /// Run the handler registered for `route_hash` on `payload`.
    Handle { route_hash: u32, payload: Vec<u8> },
    /// The connection is done, with this outcome; the stream is then dropped.
    Finish(Result<(), Error>),
}

/// The transition table of a server connection: in phase `p`, with routes
/// `ids`, the event `ev` leads to phase `next` and action `act`.
pub open spec fn conn_step(
    p: ConnPhase,
    ids: Map<u32, Seq<char>>,
    ev: ConnEvent,
    next: ConnPhase,
    act: ConnAction,
) -> bool {
    match p {
        ConnPhase::Hash => match ev {
            ConnEvent::Received(b) => {
                let h = be_value(b@) as u32;
                if ids.contains_key(h) {
                    &&& next == ConnPhase::Length { route_hash: h }
                    &&& act == ConnAction::Read { len: 8, key: CodingKey::Length }
                } else {
                    &&& next == ConnPhase::Finished
                    &&& act == ConnAction::Finish(Err(Error::UnknownRequest(h)))
                }
            },
            ConnEvent::Failed(e) => {
                &&& next == ConnPhase::Finished
                &&& act == ConnAction::Finish(Err(Error::Reading(CodingKey::Length, e)))
            },
            _ => false,
        },
        ConnPhase::Length { route_hash } => match ev {
            ConnEvent::Received(b) => {
                let n = be_value(b@);
                if n > MAX_PAYLOAD_LEN {
                    &&& next == ConnPhase::Finished
                    &&& act == ConnAction::Finish(Err(Error::PayloadTooLarge(n as u64)))
                } else {
                    &&& next == ConnPhase::Payload { route_hash, len: n as usize }
                    &&& act == ConnAction::Read { len: n as usize, key: CodingKey::Payload }
                }
            },
            ConnEvent::Failed(e) => {
                &&& next == ConnPhase::Finished
                &&& act == ConnAction::Finish(Err(Error::Reading(CodingKey::Length, e)))
            },
            _ => false,
        },
        ConnPhase::Payload { route_hash, len } => match ev {
            ConnEvent::Received(b) => {
                &&& next == ConnPhase::Handling
                &&& act matches ConnAction::Handle { route_hash: h, payload }
                &&& h == route_hash
                &&& payload@ == b@
            },
            ConnEvent::Failed(e) => {
                &&& next == ConnPhase::Finished
                &&& act == ConnAction::Finish(Err(Error::Reading(CodingKey::Payload, e)))
            },
            _ => false,
        },
        ConnPhase::Handling => match ev {
            ConnEvent::Responded(r) => {
                &&& next matches ConnPhase::ResponseLength { response }
                &&& response@ == r@
                &&& act matches ConnAction::Write { bytes, key }
                &&& bytes@ == be_u64_bytes(r@.len() as u64)
                &&& key == CodingKey::Length
            },
            ConnEvent::DecodeFailed(e) => {
                &&& next == ConnPhase::Finished
                &&& act == ConnAction::Finish(Err(Error::Decoding(e)))
            },
            ConnEvent::EncodeFailed(e) => {
                &&& next == ConnPhase::Finished
                &&& act == ConnAction::Finish(Err(Error::Encoding(e)))
            },
            _ => false,
        },
        ConnPhase::ResponseLength { response } => match ev {
            ConnEvent::Written => {
                &&& next == ConnPhase::ResponsePayload
                &&& act matches ConnAction::Write { bytes, key }
                &&& bytes@ == response@
                &&& key == CodingKey::Payload
            },
            ConnEvent::Failed(e) => {
                &&& next == ConnPhase::Finished
                &&& act == ConnAction::Finish(Err(Error::Writing(CodingKey::Length, e)))
            },
            _ => false,
        },
        ConnPhase::ResponsePayload => match ev {
            ConnEvent::Written => {
                &&& next == ConnPhase::Finished
                &&& act == ConnAction::Finish(Ok(()))
            },
            ConnEvent::Failed(e) => {
                &&& next == ConnPhase::Finished
                &&& act == ConnAction::Finish(Err(Error::Writing(CodingKey::Payload, e)))
            },
            _ => false,
        },
        ConnPhase::Finished => false,
    }
}

impl ConnPhase {
    /// An upper bound on the steps left before the connection finishes.
    pub open spec fn steps_left(&self) -> nat {
        match *self {
            ConnPhase::Hash => 6,
            ConnPhase::Length { .. } => 5,
            ConnPhase::Payload { .. } => 4,
            ConnPhase::Handling => 3,
            ConnPhase::ResponseLength { .. } => 2,
            ConnPhase::ResponsePayload => 1,
            ConnPhase::Finished => 0,
        }
    }

    /// Whether `ev` can answer the action issued on entering this phase: a
    /// read answered with exactly the bytes asked for or a failure, a write
    /// with completion or a failure, the handler with its outcome.
    pub open spec fn spec_expects(&self, ev: ConnEvent) -> bool {
        match *self {
            ConnPhase::Hash => ev is Failed || (ev matches ConnEvent::Received(b) && b@.len() == 4),
            ConnPhase::Length { .. } => ev is Failed || (ev matches ConnEvent::Received(b)
                && b@.len() == 8),
            ConnPhase::Payload { len, .. } => ev is Failed || (ev matches ConnEvent::Received(b)
                && b@.len() == len),
            ConnPhase::Handling => ev is Responded || ev is DecodeFailed || ev is EncodeFailed,
            ConnPhase::ResponseLength { .. } | ConnPhase::ResponsePayload => ev is Written
                || ev is Failed,
            ConnPhase::Finished => false,
        }
    }

    /// The first phase of a freshly accepted connection, and its first action:
    /// read the route hash.
    pub fn start() -> (r: (ConnPhase, ConnAction))
        ensures
            r.0 == ConnPhase::Hash,
            r.1 == (ConnAction::Read { len: 4, key: CodingKey::Length }),
    {
        (ConnPhase::Hash, ConnAction::Read { len: 4, key: CodingKey::Length })
    }

    /// See `spec_expects`.
    pub fn expects(&self, ev: &ConnEvent) -> (r: bool)
        ensures
            r == self.spec_expects(*ev),
    {
        match self {
            ConnPhase::Hash => match ev {
                ConnEvent::Received(b) => b.len() == 4,
                ConnEvent::Failed(_) => true,
                _ => false,
            },
            ConnPhase::Length { .. } => match ev {
                ConnEvent::Received(b) => b.len() == 8,
                ConnEvent::Failed(_) => true,
                _ => false,
            },
            ConnPhase::Payload { len, .. } => match ev {
                ConnEvent::Received(b) => b.len() == *len,
                ConnEvent::Failed(_) => true,
                _ => false,
            },
            ConnPhase::Handling => match ev {
                ConnEvent::Responded(_) | ConnEvent::DecodeFailed(_) | ConnEvent::EncodeFailed(
                    _,
                ) => true,
                _ => false,
            },
            ConnPhase::ResponseLength { .. } | ConnPhase::ResponsePayload => match ev {
                ConnEvent::Written | ConnEvent::Failed(_) => true,
                _ => false,
            },
            ConnPhase::Finished => false,
        }
    }

    /// Takes the connection one step: from this phase and the outcome of the
    /// last action to the next phase and the next action. Every step brings
    /// the connection closer to its end, and the action is `Finish` exactly
    /// when the connection is then finished.
    ///
    /// Reads map their failures to `Reading`, writes to `Writing`, with the
    /// frame field. An unregistered route hash ends the connection with
    /// `UnknownRequest` and no reply; a length over `MAX_PAYLOAD_LEN` ends it
    /// with `PayloadTooLarge` before anything is allocated.
    pub fn advance<S, H>(self, router: &Router<S, H>, ev: ConnEvent) -> (r: (ConnPhase, ConnAction))
        requires
            self.spec_expects(ev),
        ensures
            conn_step(self, router.route_ids(), ev, r.0, r.1),
            r.0.steps_left() < self.steps_left(),
            (r.1 is Finish) == (r.0 is Finished),
    {
        match self {
            ConnPhase::Hash => match ev {
                ConnEvent::Received(b) => {
                    let h = u32_from_be(b.as_slice());
                    if router.contains(h) {
                        (ConnPhase::Length { route_hash: h }, ConnAction::Read { len: 8, key: CodingKey::Length })
                    } else {
                        (ConnPhase::Finished, ConnAction::Finish(Err(Error::UnknownRequest(h))))
                    }
                },
                ConnEvent::Failed(e) => (
                    ConnPhase::Finished,
                    ConnAction::Finish(Err(Error::Reading(CodingKey::Length, e))),
                ),
                _ => unreached(),
            },
            ConnPhase::Length { route_hash } => match ev {
                ConnEvent::Received(b) => {
                    let n = u64_from_be(b.as_slice());
                    if n > MAX_PAYLOAD_LEN {
                        (ConnPhase::Finished, ConnAction::Finish(Err(Error::PayloadTooLarge(n))))
                    } else {
                        (
                            ConnPhase::Payload { route_hash, len: n as usize },
                            ConnAction::Read { len: n as usize, key: CodingKey::Payload },
                        )
                    }
                },
                ConnEvent::Failed(e) => (
                    ConnPhase::Finished,
                    ConnAction::Finish(Err(Error::Reading(CodingKey::Length, e))),
                ),
                _ => unreached(),
            },
            ConnPhase::Payload { route_hash, .. } => match ev {
                ConnEvent::Received(b) => (
                    ConnPhase::Handling,
                    ConnAction::Handle { route_hash, payload: b },
                ),
                ConnEvent::Failed(e) => (
                    ConnPhase::Finished,
                    ConnAction::Finish(Err(Error::Reading(CodingKey::Payload, e))),
                ),
                _ => unreached(),
            },
            ConnPhase::Handling => match ev {
                ConnEvent::Responded(r) => {
                    let header = u64_to_be(r.len() as u64);
                    (
                        ConnPhase::ResponseLength { response: r },
                        ConnAction::Write { bytes: header, key: CodingKey::Length },
                    )
                },
                ConnEvent::DecodeFailed(e) => (
                    ConnPhase::Finished,
                    ConnAction::Finish(Err(Error::Decoding(e))),
                ),
                ConnEvent::EncodeFailed(e) => (
                    ConnPhase::Finished,
                    ConnAction::Finish(Err(Error::Encoding(e))),
                ),
                _ => unreached(),
            },
            ConnPhase::ResponseLength { response } => match ev {
                ConnEvent::Written => (
                    ConnPhase::ResponsePayload,
                    ConnAction::Write { bytes: response, key: CodingKey::Payload },
                ),
                ConnEvent::Failed(e) => (
                    ConnPhase::Finished,
                    ConnAction::Finish(Err(Error::Writing(CodingKey::Length, e))),
                ),
                _ => unreached(),
            },
            ConnPhase::ResponsePayload => match ev {
                ConnEvent::Written => (ConnPhase::Finished, ConnAction::Finish(Ok(()))),
                ConnEvent::Failed(e) => (
                    ConnPhase::Finished,
                    ConnAction::Finish(Err(Error::Writing(CodingKey::Payload, e))),
                ),
                _ => unreached(),
            },
            ConnPhase::Finished => unreached(),
        }
    }
}

/// A connection reading a request frame for a registered route, from a stream
/// that holds the frame and then anything else, hands its handler exactly the
/// framed route hash and payload, and by then has read exactly the frame's
/// bytes: none of what follows.
pub proof fn lemma_conn_reads_request_frame(
    ids: Map<u32, Seq<char>>,
    route_hash: u32,
    payload: Seq<u8>,
    rest: Seq<u8>,
    b1: Vec<u8>,
    n1: ConnPhase,
    a1: ConnAction,
    b2: Vec<u8>,
    n2: ConnPhase,
    a2: ConnAction,
    b3: Vec<u8>,
    n3: ConnPhase,
    a3: ConnAction,
)
    requires
        ids.contains_key(route_hash),
        payload.len() <= MAX_PAYLOAD_LEN,
        b1@.len() + b2@.len() + b3@.len() <= request_frame(route_hash, payload).len() + rest.len(),
        b1@ + b2@ + b3@ == (request_frame(route_hash, payload) + rest).subrange(
            0,
            (b1@.len() + b2@.len() + b3@.len()) as int,
        ),
        ConnPhase::Hash.spec_expects(ConnEvent::Received(b1)),
        conn_step(ConnPhase::Hash, ids, ConnEvent::Received(b1), n1, a1),
        n1.spec_expects(ConnEvent::Received(b2)),
        conn_step(n1, ids, ConnEvent::Received(b2), n2, a2),
        n2.spec_expects(ConnEvent::Received(b3)),
        conn_step(n2, ids, ConnEvent::Received(b3), n3, a3),
    ensures
        a3 matches ConnAction::Handle { route_hash: h, payload: p } && h == route_hash && p@
            == payload,
        b1@ + b2@ + b3@ == request_frame(route_hash, payload),
{
    let stream = request_frame(route_hash, payload) + rest;
    let all = b1@ + b2@ + b3@;
    let total = all.len() as int;
    lemma_u32_round_trip(route_hash);
    lemma_u64_round_trip(payload.len() as u64);
    assert(b1@.len() == 4);
    assert forall|i: int| 0 <= i < total implies all[i] == stream[i] by {
        assert(all[i] == stream.subrange(0, total)[i]);
    }
    assert(b1@ =~= be_u32_bytes(route_hash)) by {
        assert forall|i: int| 0 <= i < 4 implies b1@[i] == be_u32_bytes(route_hash)[i] by {
            assert(b1@[i] == all[i]);
            assert(stream[i] == request_frame(route_hash, payload)[i]);
            assert((be_u32_bytes(route_hash) + be_u64_bytes(payload.len() as u64))[i]
                == be_u32_bytes(route_hash)[i]);
        }
    }
    assert(n1 == ConnPhase::Length { route_hash });
    assert(b2@.len() == 8);
    assert(b2@ =~= be_u64_bytes(payload.len() as u64)) by {
        assert forall|i: int| 0 <= i < 8 implies b2@[i] == be_u64_bytes(payload.len() as u64)[i] by {
            assert(b2@[i] == all[4 + i]);
            assert(stream[4 + i] == request_frame(route_hash, payload)[4 + i]);
            assert((be_u32_bytes(route_hash) + be_u64_bytes(payload.len() as u64))[4
                + i] == be_u64_bytes(payload.len() as u64)[i]);
        }
    }
    assert(n2 == ConnPhase::Payload { route_hash, len: payload.len() as usize });
    assert(b3@.len() == payload.len());
    assert(b3@ =~= payload) by {
        assert forall|i: int| 0 <= i < payload.len() implies b3@[i] == payload[i] by {
            assert(b3@[i] == all[12 + i]);
            assert(stream[12 + i] == request_frame(route_hash, payload)[12 + i]);
        }
    }
    assert(all =~= request_frame(route_hash, payload));
}

/// Once its handler has responded, a connection whose writes complete writes
/// exactly the response frame, in two writes, and then finishes successfully.
pub proof fn lemma_conn_writes_response_frame(
    ids: Map<u32, Seq<char>>,
    response: Vec<u8>,
    n1: ConnPhase,
    a1: ConnAction,
    n2: ConnPhase,
    a2: ConnAction,
    n3: ConnPhase,
    a3: ConnAction,
)
    requires
        response@.len() <= u64::MAX,
        conn_step(ConnPhase::Handling, ids, ConnEvent::Responded(response), n1, a1),
        conn_step(n1, ids, ConnEvent::Written, n2, a2),
        conn_step(n2, ids, ConnEvent::Written, n3, a3),
    ensures
        a1 matches ConnAction::Write { bytes: w1, .. } && a2 matches ConnAction::Write {
            bytes: w2,
            ..
        } && w1@ + w2@ == response_frame(response@),
        a3 == ConnAction::Finish(Ok(())),
        n3 == ConnPhase::Finished,
{
}

/// Where the serve loop stands.
pub enum ServePhase {
    /// Binding the listener on the wildcard context id.
    Binding,
    /// Running the init hook, once, before the first accept.
    Initialising,
    /// Accepting connections.
    Accepting,
    /// The loop is over.
    Finished,
}

/// What the serve loop's driver reports back after carrying out an action.
///
/// A connection task's outcome is no event here: whatever happens inside a
/// connection, the loop goes on accepting.
pub enum ServeEvent {
    /// The listener is bound.
    Bound,
    /// Binding failed.
    BindFailed(std::io::Error),
    /// The init hook succeeded.
    Initialised,
    /// The init hook failed.
    InitFailed(std::io::Error),
    /// A connection was accepted.
    Accepted,
    /// Accepting failed.
    AcceptFailed(std::io::Error),
}

/// What the serve loop's driver does next.
pub enum ServeAction {
    /// Bind a listener on `(cid, port)`.
    Bind { cid: u32, port: u32 },
    /// Run the init hook.
    RunInit,
    /// Accept the next connection.
    Accept,
    /// Spawn a task for the connection just accepted, without waiting for it,
    /// and accept the next one.
    SpawnAndAccept,
    /// `serve` returns this error.
    Finish(Error),
}

/// The transition table of the serve loop: in phase `p`, for a server that
/// has an init hook when `has_init`, the event `ev` leads to phase `next` and
/// action `act`.
pub open spec fn serve_step(
    p: ServePhase,
    has_init: bool,
    ev: ServeEvent,
    next: ServePhase,
    act: ServeAction,
) -> bool {
    match p {
        ServePhase::Binding => match ev {
            ServeEvent::Bound => if has_init {
                next == ServePhase::Initialising && act == ServeAction::RunInit
            } else {
                next == ServePhase::Accepting && act == ServeAction::Accept
            },
            ServeEvent::BindFailed(e) => {
                &&& next == ServePhase::Finished
                &&& act == ServeAction::Finish(Error::Bind(e))
            },
            _ => false,
        },
        ServePhase::Initialising => match ev {
            ServeEvent::Initialised => next == ServePhase::Accepting && act == ServeAction::Accept,
            ServeEvent::InitFailed(e) => {
                &&& next == ServePhase::Finished
                &&& act == ServeAction::Finish(Error::NsmConnect(e))
            },
            _ => false,
        },
        ServePhase::Accepting => match ev {
            ServeEvent::Accepted => {
                &&& next == ServePhase::Accepting
                &&& act == ServeAction::SpawnAndAccept
            },
            ServeEvent::AcceptFailed(e) => {
                &&& next == ServePhase::Finished
                &&& act == ServeAction::Finish(Error::Accept(e))
            },
            _ => false,
        },
        ServePhase::Finished => false,
    }
}

impl ServePhase {
    /// Whether `ev` can answer the action issued on entering this phase.
    pub open spec fn spec_expects(&self, ev: ServeEvent) -> bool {
        match *self {
            ServePhase::Binding => ev is Bound || ev is BindFailed,
            ServePhase::Initialising => ev is Initialised || ev is InitFailed,
            ServePhase::Accepting => ev is Accepted || ev is AcceptFailed,
            ServePhase::Finished => false,
        }
    }

    /// The first phase of `serve` on `port`, and its first action: bind on
    /// the wildcard context id.
    pub fn start(port: u32) -> (r: (ServePhase, ServeAction))
        ensures
            r.0 == ServePhase::Binding,
            r.1 == (ServeAction::Bind { cid: VMADDR_CID_ANY, port }),
    {
        (ServePhase::Binding, ServeAction::Bind { cid: VMADDR_CID_ANY, port })
    }

    /// See `spec_expects`.
    pub fn expects(&self, ev: &ServeEvent) -> (r: bool)
        ensures
            r == self.spec_expects(*ev),
    {
        match self {
            ServePhase::Binding => match ev {
                ServeEvent::Bound | ServeEvent::BindFailed(_) => true,
                _ => false,
            },
            ServePhase::Initialising => match ev {
                ServeEvent::Initialised | ServeEvent::InitFailed(_) => true,
                _ => false,
            },
            ServePhase::Accepting => match ev {
                ServeEvent::Accepted | ServeEvent::AcceptFailed(_) => true,
                _ => false,
            },
            ServePhase::Finished => false,
        }
    }

    /// Takes the serve loop one step. A bind, init or accept failure ends it
    /// with `Bind`, `NsmConnect` or `Accept`; an accepted connection is handed
    /// to its own task and the loop accepts again.
    pub fn advance(self, has_init: bool, ev: ServeEvent) -> (r: (ServePhase, ServeAction))
        requires
            self.spec_expects(ev),
        ensures
            serve_step(self, has_init, ev, r.0, r.1),
            (r.1 is Finish) == (r.0 is Finished),
    {
        match self {
            ServePhase::Binding => match ev {
                ServeEvent::BindFailed(e) => (ServePhase::Finished, ServeAction::Finish(Error::Bind(e))),
                _ => if has_init {
                    (ServePhase::Initialising, ServeAction::RunInit)
                } else {
                    (ServePhase::Accepting, ServeAction::Accept)
                },
            },
            ServePhase::Initialising => match ev {
                ServeEvent::InitFailed(e) => (
                    ServePhase::Finished,
                    ServeAction::Finish(Error::NsmConnect(e)),
                ),
                _ => (ServePhase::Accepting, ServeAction::Accept),
            },
            ServePhase::Accepting => match ev {
                ServeEvent::AcceptFailed(e) => (
                    ServePhase::Finished,
                    ServeAction::Finish(Error::Accept(e)),
                ),
                _ => (ServePhase::Accepting, ServeAction::SpawnAndAccept),
            },
            ServePhase::Finished => unreached(),
        }
    }
}

/// `serve` returns only on a failure to bind, to initialise or to accept:
/// whatever step ends the loop, its error is one of these three.
pub proof fn lemma_serve_ends_only_on_listener_failure(
    p: ServePhase,
    has_init: bool,
    ev: ServeEvent,
    next: ServePhase,
    act: ServeAction,
)
    requires
        serve_step(p, has_init, ev, next, act),
    ensures
        act matches ServeAction::Finish(e) ==> (e is Bind || e is NsmConnect || e is Accept),
        act is Finish <==> next is Finished,
{
}

/// The init hook runs at most once, and only before the first accept: once
/// the loop accepts, no step runs the hook again, and the loop keeps
/// accepting until an accept fails.
pub proof fn lemma_serve_init_at_most_once(
    has_init: bool,
    ev: ServeEvent,
    next: ServePhase,
    act: ServeAction,
)
    requires
        serve_step(ServePhase::Accepting, has_init, ev, next, act),
    ensures
        act != ServeAction::RunInit,
        next is Accepting || (next is Finished && ev is AcceptFailed),
{
}

} // verus!
