//! The client side of a DTLS 1.2 connection: its persistent state, and the
//! flight with which the client ends the handshake.
//!
//! The library does no input or output.  Where a step needs work done
//! elsewhere (a lookup in the handshake cache, a signature, a callback of the
//! application), the step returns a request and goes on when it is handed the
//! reply.

pub mod alert;
pub mod bytes;
pub mod cipher_suite;
pub mod config;
pub mod curve;
pub mod error;
pub mod extension;
pub mod flight;
pub mod handshake;
pub mod prf;
pub mod record_layer;
pub mod serialized_state;
pub mod signature_hash_algorithm;
pub mod state;
