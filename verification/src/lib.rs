//! Client-side codec for the Minecraft Server List Ping protocol: the varint
//! encoding used for lengths and identifiers, the packet framing built on top
//! of it, and the normalization of the server's JSON status payload into a
//! structured record.

use vstd::prelude::*;

pub mod json;
pub mod packet;
pub mod status;
pub mod varint;

verus! {

/// The ways a status fetch can fail, from the transport up to the JSON schema.
#[derive(Clone, Copy, Debug, PartialEq, Eq, Structural)]
pub enum SlpError {
    /// The transport could not establish the connection.
    ConnectionFailed,
    /// A length prefix declared more bytes than the stream supplied.
    TruncatedStream,
    /// A varint ran past the five bytes that can carry a 32-bit value.
    MalformedVarint,
    /// The response body is not valid UTF-8 text.
    InvalidUtf8,
    /// The response body is not syntactically valid JSON.
    MalformedJson,
    /// The response JSON lacks a required field or holds one of the wrong type.
    SchemaMismatch,
}

} // verus!
