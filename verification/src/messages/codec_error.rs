use vstd::prelude::*;

verus! {

/// Why a submessage element could not be decoded from its byte form.
#[derive(Clone, Copy, Debug, PartialEq, Eq, Structural)]
pub enum CodecError {
    /// The input ended before the element was complete.
    UnexpectedEndOfInput,
    /// The two-byte representation identifier matches no known encoding.
    UnknownRepresentationIdentifier,
}

} // verus!
