//! Bit-exact encoding and decoding of EtherNet/IP encapsulation frames and the CIP
//! messages they carry: path segments, message-router envelopes, the encapsulation
//! header with its command-specific data, and the assemblies that join them into
//! whole request and response frames.
//!
//! The executable functions are verified against a specification over byte
//! sequences, and the round-trip and length laws of the format are proof
//! functions. One call is taken on trust: the lossy conversion of bytes into
//! text that the standard library does for [`cip::types::CipShortString`].

pub mod error;
pub mod codec;
pub mod scalar;
pub mod cip;
pub mod eip;
pub mod object_assembly;
