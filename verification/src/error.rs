use vstd::prelude::*;

verus! {

/// The library's error taxonomy. Only conditions the bus core itself can
/// detect are represented; transport-level failures stay at the I/O boundary.
#[derive(Clone, Copy, PartialEq, Eq, Structural, Debug)]
pub enum Error {
    /// An inbound event has no representation in the router's wire format.
    IrcMessageUnsupportedByRouter,
    /// A channel was closed (bus shutdown); no further traffic is accepted.
    ChannelClosed,
    /// A frame's dimensions describe a byte buffer too large to allocate.
    InvalidSDIByteBufferCapacity,
    /// A numeric conversion between integer widths lost the value.
    TypeConversionError,
}

} // verus!
