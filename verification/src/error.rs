//! What can go wrong while encoding or decoding, and where.

use vstd::prelude::*;

verus! {

/// The part of a frame in which an error arose.
#[derive(Clone, Copy, Debug, PartialEq, Eq, Structural)]
pub enum Layer {
    /// Scalars, short strings, path segments and the service byte.
    Primitive,
    /// The message-router request and response envelopes.
    MessageRouter,
    /// The encapsulation header and the command-specific data.
    Encapsulation,
    /// A whole frame: the cross-layer length fields.
    Assembly,
}

/// The way in which encoding or decoding failed.
#[derive(Clone, Copy, Debug, PartialEq, Eq, Structural)]
pub enum ErrorKind {
    /// The buffer ended before a field was complete.
    ShortRead,
    /// A value read from the buffer contradicts a rule of the format.
    InvariantViolation,
    /// A size does not fit the length field that has to carry it.
    SerializationOverflow,
}

/// A fatal encoding or decoding error.
#[derive(Clone, Copy, Debug, PartialEq, Eq, Structural)]
pub struct CodecError {
    pub kind: ErrorKind,
    pub layer: Layer,
}

impl CodecError {
    /// The buffer ended inside `layer`.
    pub open spec fn short(layer: Layer) -> CodecError {
        CodecError { kind: ErrorKind::ShortRead, layer }
    }

    /// A rule of `layer` is broken.
    pub open spec fn violation(layer: Layer) -> CodecError {
        CodecError { kind: ErrorKind::InvariantViolation, layer }
    }

    /// A size of `layer` does not fit its length field.
    pub open spec fn overflow(layer: Layer) -> CodecError {
        CodecError { kind: ErrorKind::SerializationOverflow, layer }
    }

    /// An error of kind [`ErrorKind::ShortRead`] in `layer`.
    pub fn short_read(layer: Layer) -> (e: CodecError)
        ensures
            e == CodecError::short(layer),
    {
        CodecError { kind: ErrorKind::ShortRead, layer }
    }

    /// An error of kind [`ErrorKind::InvariantViolation`] in `layer`.
    pub fn invariant_violation(layer: Layer) -> (e: CodecError)
        ensures
            e == CodecError::violation(layer),
    {
        CodecError { kind: ErrorKind::InvariantViolation, layer }
    }

    /// An error of kind [`ErrorKind::SerializationOverflow`] in `layer`.
    pub fn serialization_overflow(layer: Layer) -> (e: CodecError)
        ensures
            e == CodecError::overflow(layer),
    {
        CodecError { kind: ErrorKind::SerializationOverflow, layer }
    }
}

} // verus!
