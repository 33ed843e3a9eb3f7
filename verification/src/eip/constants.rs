//! Fixed numbers of the encapsulation.

use vstd::prelude::*;

verus! {

/// The TCP port on which a device listens for explicit messages.
pub const ETHERNET_IP_PORT: u16 = 0xAF12;

/// The number of bytes of the sender context in an encapsulation header.
pub const SENDER_CONTEXT_SIZE: usize = 8;

/// The number of bytes of an encapsulation header.
pub const HEADER_SIZE: usize = 24;

/// The number of bytes of the body of a session registration.
pub const REGISTER_DATA_SIZE: usize = 4;

/// The number of bytes of an item descriptor: type and length.
pub const DESCRIPTOR_SIZE: usize = 4;

/// The number of bytes in front of the message in the body of a request or
/// reply: the interface handle, the timeout, the item count and two descriptors.
pub const RR_DATA_SIZE: usize = 16;

/// The number of items in the body of a request or reply.
pub const RR_ITEM_COUNT: u16 = 2;

/// The protocol version that a session registration asks for.
pub const PROTOCOL_VERSION: u16 = 1;

} // verus!
