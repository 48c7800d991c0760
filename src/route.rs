//! Request descriptors: a stable textual route id per request type, and the
//! 32-bit FNV-1a hash of it that travels on the wire.
use vstd::prelude::*;
use vstd::string::StringSliceAdditionalSpecFns;
use vstd::utf8::encode_utf8;

verus! {

/// The FNV-1a offset basis for 32-bit hashes.
pub const FNV_OFFSET_BASIS: u32 = 0x811c_9dc5;

/// The FNV-1a prime for 32-bit hashes.
pub const FNV_PRIME: u32 = 0x0100_0193;

/// 32-bit FNV-1a over `bytes`: start from the offset basis and, for each byte,
/// xor it in and multiply by the prime modulo 2^32.
pub open spec fn fnv1a32(bytes: Seq<u8>) -> u32
    decreases bytes.len(),
{
    if bytes.len() == 0 {
        FNV_OFFSET_BASIS
    } else {
        let h = fnv1a32(bytes.drop_last()) ^ (bytes.last() as u32);
        ((h as int * FNV_PRIME as int) % 0x1_0000_0000) as u32
    }
}

/// The wire identifier of a route id: FNV-1a over its UTF-8 bytes.
pub open spec fn route_hash_of(route_id: Seq<char>) -> u32 {
    fnv1a32(encode_utf8(route_id))
}

/// Relies on `const_fnv1a_hash::fnv1a_hash_str_32`, which runs 32-bit FNV-1a
/// (offset basis 0x811c9dc5, prime 0x01000193, wrapping multiplication) over
/// `s.as_bytes()`.
#[verifier::external_body]
fn fnv1a_hash_str_32(s: &str) -> (r: u32)
    ensures
        r == route_hash_of(s@),
{
    const_fnv1a_hash::fnv1a_hash_str_32(s)
}

/// The route hash of `route_id`, as client and server both compute it.
pub fn route_hash(route_id: &str) -> (r: u32)
    ensures
        r == route_hash_of(route_id@),
{
    fnv1a_hash_str_32(route_id)
}

/// Two parties that hash the same route id obtain the same wire identifier:
/// the hash depends on the characters of the id and on nothing else.
pub proof fn lemma_route_hash_deterministic(a: &str, b: &str)
    requires
        a@ == b@,
    ensures
        route_hash_of(a@) == route_hash_of(b@),
        route_hash_of(a@) == fnv1a32(a.spec_bytes()),
{
}

/// A request type that can travel through the runtime: it names its route and
/// the type of the response it expects.
pub trait Request {
    /// The response a handler of this request returns.
    type Response;

    /// The route id, as a sequence of characters.
    spec fn spec_route_id() -> Seq<char>;

    /// The route id: stable across versions, by convention `"<operation>_v<n>"`.
    fn route_id() -> (r: &'static str)
        ensures
            r@ == Self::spec_route_id(),
    ;

    /// The route hash that identifies this request type on the wire.
    fn type_id() -> (r: u32)
        ensures
            r == route_hash_of(Self::spec_route_id()),
    {
        route_hash(Self::route_id())
    }
}

} // verus!
