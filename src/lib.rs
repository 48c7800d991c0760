//! A small request/response runtime between an enclave and its host over a
//! point-to-point socket.
//!
//! Each request type names a stable route id; its FNV-1a hash travels on the
//! wire ahead of a length-prefixed payload. A client call and a server
//! connection are state machines: they decide what to read and write next, and
//! their driver carries it out.
pub mod client;
pub mod demo;
pub mod foreign;
pub mod kms;
pub mod route;
pub mod server;
pub mod wire;

pub use client::ConnectionDetails;
pub use route::Request;
pub use server::Router;
pub use wire::CodingKey;
