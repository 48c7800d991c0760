//! The on-wire layout of request and response frames.
//!
//! A request frame is `u32 route_hash | u64 payload_len | payload`, a response
//! frame is `u64 payload_len | payload`. Every integer field is big-endian: the
//! most significant byte comes first.
use vstd::prelude::*;

verus! {

/// The largest payload a peer accepts, in bytes. A length field announcing more
/// is refused before any buffer is allocated.
pub const MAX_PAYLOAD_LEN: u64 = 0x400_0000;

/// The frame field that was being read or written when a stream failed.
#[derive(Debug, Clone, Copy, PartialEq, Eq, Structural)]
pub enum CodingKey {
    /// A route-hash or length field.
    Length,
    /// The payload bytes.
    Payload,
}

/// The lower-case name of a frame field, as error messages print it.
pub open spec fn coding_key_name(key: CodingKey) -> Seq<char> {
    match key {
        CodingKey::Length => "length"@,
        CodingKey::Payload => "payload"@,
    }
}

impl CodingKey {
    /// The lower-case name of this field: `"length"` or `"payload"`.
    pub fn as_str(&self) -> (r: &'static str)
        ensures
            r@ == coding_key_name(*self),
    {
        match self {
            CodingKey::Length => {
                proof {
                    reveal_strlit("length");
                }
                "length"
            },
            CodingKey::Payload => {
                proof {
                    reveal_strlit("payload");
                }
                "payload"
            },
        }
    }
}

/// The value of a big-endian byte string: the first byte is the most significant.
pub open spec fn be_value(b: Seq<u8>) -> nat
    decreases b.len(),
{
    if b.len() == 0 {
        0
    } else {
        be_value(b.drop_last()) * 256 + b.last() as nat
    }
}

/// The four big-endian bytes of `x`.
pub open spec fn be_u32_bytes(x: u32) -> Seq<u8> {
    seq![
        (x / 0x100_0000) as u8,
        (x / 0x1_0000 % 0x100) as u8,
        (x / 0x100 % 0x100) as u8,
        (x % 0x100) as u8,
    ]
}

/// The eight big-endian bytes of `x`.
pub open spec fn be_u64_bytes(x: u64) -> Seq<u8> {
    seq![
        (x / 0x100_0000_0000_0000) as u8,
        (x / 0x1_0000_0000_0000 % 0x100) as u8,
        (x / 0x100_0000_0000 % 0x100) as u8,
        (x / 0x1_0000_0000 % 0x100) as u8,
        (x / 0x100_0000 % 0x100) as u8,
        (x / 0x1_0000 % 0x100) as u8,
        (x / 0x100 % 0x100) as u8,
        (x % 0x100) as u8,
    ]
}

/// The bytes of a request frame carrying `payload` to the route `route_hash`.
pub open spec fn request_frame(route_hash: u32, payload: Seq<u8>) -> Seq<u8> {
    be_u32_bytes(route_hash) + be_u64_bytes(payload.len() as u64) + payload
}

/// The bytes of a response frame carrying `payload`.
pub open spec fn response_frame(payload: Seq<u8>) -> Seq<u8> {
    be_u64_bytes(payload.len() as u64) + payload
}

/// What a reader takes from the front of `bytes` when it expects a request
/// frame: the route hash, the payload and the number of bytes consumed, or
/// `None` when `bytes` ends before the frame does.
pub open spec fn parse_request(bytes: Seq<u8>) -> Option<(u32, Seq<u8>, nat)> {
    if bytes.len() < 12 {
        None
    } else {
        let len = be_value(bytes.subrange(4, 12));
        if bytes.len() < 12 + len {
            None
        } else {
            Some(
                (
                    be_value(bytes.subrange(0, 4)) as u32,
                    bytes.subrange(12, 12 + len as int),
                    (12 + len) as nat,
                ),
            )
        }
    }
}

/// What a reader takes from the front of `bytes` when it expects a response
/// frame: the payload and the number of bytes consumed.
pub open spec fn parse_response(bytes: Seq<u8>) -> Option<(Seq<u8>, nat)> {
    if bytes.len() < 8 {
        None
    } else {
        let len = be_value(bytes.subrange(0, 8));
        if bytes.len() < 8 + len {
            None
        } else {
            Some((bytes.subrange(8, 8 + len as int), (8 + len) as nat))
        }
    }
}

proof fn lemma_be_value_4(b: Seq<u8>)
    requires
        b.len() == 4,
    ensures
        be_value(b) == b[0] as nat * 0x100_0000 + b[1] as nat * 0x1_0000 + b[2] as nat * 0x100
            + b[3] as nat,
{
    reveal_with_fuel(be_value, 5);
    assert(b.drop_last().drop_last().drop_last().drop_last() =~= Seq::<u8>::empty());
}

proof fn lemma_be_value_8(b: Seq<u8>)
    requires
        b.len() == 8,
    ensures
        be_value(b) == b[0] as nat * 0x100_0000_0000_0000 + b[1] as nat * 0x1_0000_0000_0000
            + b[2] as nat * 0x100_0000_0000 + b[3] as nat * 0x1_0000_0000 + b[4] as nat
            * 0x100_0000 + b[5] as nat * 0x1_0000 + b[6] as nat * 0x100 + b[7] as nat,
{
    let b4 = b.subrange(0, 4);
    lemma_be_value_4(b4);
    reveal_with_fuel(be_value, 5);
    assert(b.drop_last().drop_last().drop_last().drop_last() =~= b4);
}

/// Big-endian encoding of a `u32` is undone by reading the four bytes back.
pub proof fn lemma_u32_round_trip(x: u32)
    ensures
        be_u32_bytes(x).len() == 4,
        be_value(be_u32_bytes(x)) == x,
{
    lemma_be_value_4(be_u32_bytes(x));
    assert(x == (x / 0x100_0000) * 0x100_0000 + (x / 0x1_0000 % 0x100) * 0x1_0000 + (x / 0x100
        % 0x100) * 0x100 + x % 0x100) by (bit_vector);
}

/// Any four bytes are the big-endian encoding of the `u32` they spell.
pub proof fn lemma_u32_bytes_of_value(b: Seq<u8>)
    requires
        b.len() == 4,
    ensures
        be_value(b) < 0x1_0000_0000,
        be_u32_bytes(be_value(b) as u32) == b,
{
    lemma_be_value_4(b);
    let b0: u32 = b[0] as u32;
    let b1: u32 = b[1] as u32;
    let b2: u32 = b[2] as u32;
    let b3: u32 = b[3] as u32;
    let x: u32 = (b0 * 0x100_0000 + b1 * 0x1_0000 + b2 * 0x100 + b3) as u32;
    assert(x / 0x100_0000 == b0 && x / 0x1_0000 % 0x100 == b1 && x / 0x100 % 0x100 == b2 && x
        % 0x100 == b3) by (bit_vector)
        requires
            b0 < 0x100,
            b1 < 0x100,
            b2 < 0x100,
            b3 < 0x100,
            x == b0 * 0x100_0000 + b1 * 0x1_0000 + b2 * 0x100 + b3,
    ;
    assert(be_u32_bytes(x) =~= b);
}

/// Big-endian encoding of a `u64` is undone by reading the eight bytes back.
pub proof fn lemma_u64_round_trip(x: u64)
    ensures
        be_u64_bytes(x).len() == 8,
        be_value(be_u64_bytes(x)) == x,
{
    lemma_be_value_8(be_u64_bytes(x));
    assert(x == (x / 0x100_0000_0000_0000) * 0x100_0000_0000_0000 + (x / 0x1_0000_0000_0000
        % 0x100) * 0x1_0000_0000_0000 + (x / 0x100_0000_0000 % 0x100) * 0x100_0000_0000 + (x
        / 0x1_0000_0000 % 0x100) * 0x1_0000_0000 + (x / 0x100_0000 % 0x100) * 0x100_0000 + (x
        / 0x1_0000 % 0x100) * 0x1_0000 + (x / 0x100 % 0x100) * 0x100 + x % 0x100) by (bit_vector);
}

/// Any eight bytes are the big-endian encoding of the `u64` they spell.
pub proof fn lemma_u64_bytes_of_value(b: Seq<u8>)
    requires
        b.len() == 8,
    ensures
        be_value(b) < 0x1_0000_0000_0000_0000,
        be_u64_bytes(be_value(b) as u64) == b,
{
    lemma_be_value_8(b);
    let b0: u64 = b[0] as u64;
    let b1: u64 = b[1] as u64;
    let b2: u64 = b[2] as u64;
    let b3: u64 = b[3] as u64;
    let b4: u64 = b[4] as u64;
    let b5: u64 = b[5] as u64;
    let b6: u64 = b[6] as u64;
    let b7: u64 = b[7] as u64;
    let x: u64 = (b0 * 0x100_0000_0000_0000 + b1 * 0x1_0000_0000_0000 + b2 * 0x100_0000_0000 + b3
        * 0x1_0000_0000 + b4 * 0x100_0000 + b5 * 0x1_0000 + b6 * 0x100 + b7) as u64;
    assert(x / 0x100_0000_0000_0000 == b0 && x / 0x1_0000_0000_0000 % 0x100 == b1 && x
        / 0x100_0000_0000 % 0x100 == b2 && x / 0x1_0000_0000 % 0x100 == b3 && x / 0x100_0000
        % 0x100 == b4 && x / 0x1_0000 % 0x100 == b5 && x / 0x100 % 0x100 == b6 && x % 0x100 == b7)
        by (bit_vector)
        requires
            b0 < 0x100,
            b1 < 0x100,
            b2 < 0x100,
            b3 < 0x100,
            b4 < 0x100,
            b5 < 0x100,
            b6 < 0x100,
            b7 < 0x100,
            x == b0 * 0x100_0000_0000_0000 + b1 * 0x1_0000_0000_0000 + b2 * 0x100_0000_0000 + b3
                * 0x1_0000_0000 + b4 * 0x100_0000 + b5 * 0x1_0000 + b6 * 0x100 + b7,
    ;
    assert(be_u64_bytes(x) =~= b);
}

/// A reader that expects a request frame takes back exactly the route hash and
/// payload that were framed, and consumes exactly the frame's bytes, whatever
/// follows it on the stream.
pub proof fn lemma_request_frame_exact(route_hash: u32, payload: Seq<u8>, rest: Seq<u8>)
    requires
        payload.len() <= u64::MAX,
    ensures
        parse_request(request_frame(route_hash, payload) + rest) == Some(
            (route_hash, payload, (12 + payload.len()) as nat),
        ),
        request_frame(route_hash, payload).len() == 12 + payload.len(),
{
    let bytes = request_frame(route_hash, payload) + rest;
    lemma_u32_round_trip(route_hash);
    lemma_u64_round_trip(payload.len() as u64);
    assert(bytes.subrange(0, 4) =~= be_u32_bytes(route_hash));
    assert(bytes.subrange(4, 12) =~= be_u64_bytes(payload.len() as u64));
    assert(bytes.subrange(12, 12 + payload.len() as int) =~= payload);
}

/// A reader that expects a response frame takes back exactly the payload that
/// was framed, and consumes exactly the frame's bytes.
pub proof fn lemma_response_frame_exact(payload: Seq<u8>, rest: Seq<u8>)
    requires
        payload.len() <= u64::MAX,
    ensures
        parse_response(response_frame(payload) + rest) == Some(
            (payload, (8 + payload.len()) as nat),
        ),
        response_frame(payload).len() == 8 + payload.len(),
{
    let bytes = response_frame(payload) + rest;
    lemma_u64_round_trip(payload.len() as u64);
    assert(bytes.subrange(0, 8) =~= be_u64_bytes(payload.len() as u64));
    assert(bytes.subrange(8, 8 + payload.len() as int) =~= payload);
}

/// The big-endian bytes of `x`, most significant first.
pub fn u32_to_be(x: u32) -> (r: Vec<u8>)
    ensures
        r@ == be_u32_bytes(x),
{
    let mut v: Vec<u8> = Vec::new();
    v.push((x / 0x100_0000) as u8);
    v.push((x / 0x1_0000 % 0x100) as u8);
    v.push((x / 0x100 % 0x100) as u8);
    v.push((x % 0x100) as u8);
    assert(v@ =~= be_u32_bytes(x));
    v
}

/// The big-endian bytes of `x`, most significant first.
pub fn u64_to_be(x: u64) -> (r: Vec<u8>)
    ensures
        r@ == be_u64_bytes(x),
{
    let mut v: Vec<u8> = Vec::new();
    v.push((x / 0x100_0000_0000_0000) as u8);
    v.push((x / 0x1_0000_0000_0000 % 0x100) as u8);
    v.push((x / 0x100_0000_0000 % 0x100) as u8);
    v.push((x / 0x1_0000_0000 % 0x100) as u8);
    v.push((x / 0x100_0000 % 0x100) as u8);
    v.push((x / 0x1_0000 % 0x100) as u8);
    v.push((x / 0x100 % 0x100) as u8);
    v.push((x % 0x100) as u8);
    assert(v@ =~= be_u64_bytes(x));
    v
}

/// The `u32` spelled by four big-endian bytes.
pub fn u32_from_be(b: &[u8]) -> (r: u32)
    requires
        b@.len() == 4,
    ensures
        r == be_value(b@),
{
    proof {
        lemma_be_value_4(b@);
    }
    (b[0] as u32) * 0x100_0000 + (b[1] as u32) * 0x1_0000 + (b[2] as u32) * 0x100 + (b[3] as u32)
}

/// The `u64` spelled by eight big-endian bytes.
pub fn u64_from_be(b: &[u8]) -> (r: u64)
    requires
        b@.len() == 8,
    ensures
        r == be_value(b@),
{
    proof {
        lemma_be_value_8(b@);
    }
    (b[0] as u64) * 0x100_0000_0000_0000 + (b[1] as u64) * 0x1_0000_0000_0000 + (b[2] as u64)
        * 0x100_0000_0000 + (b[3] as u64) * 0x1_0000_0000 + (b[4] as u64) * 0x100_0000 + (b[5] as u64)
        * 0x1_0000 + (b[6] as u64) * 0x100 + (b[7] as u64)
}

} // verus!
