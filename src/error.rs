use vstd::prelude::*;

verus! {

/// The key of one probe attempt: the target address and the sequence number.
#[derive(Clone, Copy, Debug, PartialEq, Eq, Structural)]
pub struct TargetParams {
    /// IPv4 address, as the big-endian integer of its four octets.
    pub addr: u32,
    pub seq: u16,
}

/// What can go wrong in one probe attempt.
#[derive(Debug)]
pub enum Error {
    /// Invalid target parameters.
    ConfigError(String),
    /// A buffer whose layers are not where the fixed layout puts them.
    ProtocolError,
    /// The socket failed to send or receive.
    IoError(String),
    /// No matching reply came within the deadline.
    Timeout(TargetParams),
    /// A request with the same key is already waiting for its reply.
    DuplicateKey(TargetParams),
}

} // verus!
