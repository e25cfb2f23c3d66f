//! A typed client library for the Porkbun DNS registrar API.
//!
//! The library covers the wire protocol itself: the JSON bodies the
//! registrar sends and receives, the decoder that tells a success
//! envelope from a failure envelope, the string-to-integer coercions of
//! the record schema, and the mapping from vendor error messages to a
//! closed error taxonomy.  The HTTP transport is abstracted behind a
//! single trait so that embedding programs supply the real client.

pub mod client;
pub mod envelope;
pub mod common_types;
pub mod config;
pub mod constants;
pub mod json;
pub mod ping;
pub mod porkbun;
pub mod retrieve;
pub mod text;
pub mod wire;
