use vstd::prelude::*;

verus! {

/// Error vocabulary shared by every codec operation.
///
/// `ParseError` reports a byte source that ended early, bytes that are not
/// valid UTF-8, or a variable byte integer that would need a fifth byte.
/// `GenerateError` reports a value that cannot be put on the wire (an
/// oversized payload or variable byte integer) or a numeric code outside a
/// closed enumeration's domain. `MalformdedPacket` reports bytes that decode
/// structurally but break a rule of the protocol.
#[derive(Debug, PartialEq, Eq, Structural, Clone, Copy)]
pub enum Error {
    ParseError,
    GenerateError,
    MalformdedPacket,
}

} // verus!
