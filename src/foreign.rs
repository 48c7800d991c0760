//! Error types of std and of the wire codec that the runtime carries through
//! unchanged. Their contents are never inspected here.
use rmp_serde::decode::Error as DecodeError;
use rmp_serde::encode::Error as EncodeError;
use vstd::prelude::*;

verus! {

/// `std::io::Error`, carried inside the errors of a failed read, write or
/// connect.
#[verifier::external_type_specification]
#[verifier::external_body]
pub struct ExIoError(std::io::Error);

/// `rmp_serde::encode::Error`, carried inside the error of a failed encode.
#[verifier::external_type_specification]
#[verifier::external_body]
pub struct ExEncodeError(EncodeError);

/// `rmp_serde::decode::Error`, carried inside the error of a failed decode.
#[verifier::external_type_specification]
#[verifier::external_body]
pub struct ExDecodeError(DecodeError);

} // verus!
