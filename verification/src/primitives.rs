//! Plain value types shared by the network state, the request fetcher and the
//! body download queue.

use vstd::prelude::*;

verus! {

/// A 256-bit block hash, held as two 128-bit halves.
#[derive(Clone, Copy, Debug, PartialEq, Eq, Structural, Hash)]
pub struct H256 {
    pub hi: u128,
    pub lo: u128,
}

/// A 512-bit peer identifier, held as four 128-bit words.
#[derive(Clone, Copy, Debug, PartialEq, Eq, Structural, Hash)]
pub struct PeerId {
    pub a: u128,
    pub b: u128,
    pub c: u128,
    pub d: u128,
}

/// Fork identifier a peer advertises for chain compatibility checks.
#[derive(Clone, Copy, Debug, PartialEq, Eq, Structural, Hash)]
pub struct ForkId {
    /// Checksum over the genesis hash and the passed fork blocks.
    pub hash: u32,
    /// Block number of the next upcoming fork, or zero.
    pub next: u64,
}

/// An IP address as a plain number.
#[derive(Clone, Copy, Debug, PartialEq, Eq, Structural, Hash)]
pub enum IpAddr {
    V4(u32),
    V6(u128),
}

/// An IP address together with a port.
#[derive(Clone, Copy, Debug, PartialEq, Eq, Structural, Hash)]
pub struct SocketAddr {
    pub ip: IpAddr,
    pub port: u16,
}

/// Wire code of the reason given for a disconnect.
#[derive(Clone, Copy, Debug, PartialEq, Eq, Structural, Hash)]
pub struct DisconnectReason {
    pub code: u8,
}

/// How a peer is treated by the peer set.
#[derive(Clone, Copy, Debug, PartialEq, Eq, Structural, Hash)]
pub enum PeerKind {
    Basic,
    Trusted,
}

/// The penalty by which a peer's reputation is lowered, by its cause.
#[derive(Clone, Copy, Debug, PartialEq, Eq, Structural, Hash)]
pub enum ReputationChangeKind {
    /// The peer sent a response that is not valid.
    BadMessage,
    /// The peer does not speak the protocol it negotiated.
    BadProtocol,
    /// The peer did not answer in time.
    Timeout,
}

/// Negotiated capability set of a session, as a bit mask.
#[derive(Clone, Copy, Debug, PartialEq, Eq, Structural, Hash)]
pub struct Capabilities {
    pub bits: u64,
}

/// What a peer announced about itself when the session was established.
#[derive(Clone, Copy, Debug, PartialEq, Eq, Structural, Hash)]
pub struct Status {
    /// Hash of the peer's chain head.
    pub blockhash: H256,
}

/// A block hash with the number of its block.
#[derive(Clone, Copy, Debug, PartialEq, Eq, Structural, Hash)]
pub struct BlockHashNumber {
    pub hash: H256,
    pub number: u64,
}

/// A freshly produced block to be announced: its hash and its number. The
/// block itself stays with the caller, who finds it again by the hash.
#[derive(Clone, Copy, Debug, PartialEq, Eq, Structural, Hash)]
pub struct NewBlockMessage {
    pub hash: H256,
    pub number: u64,
}

/// Start of a header range.
#[derive(Clone, Copy, Debug, PartialEq, Eq, Structural, Hash)]
pub enum BlockHashOrNumber {
    Hash(H256),
    Number(u64),
}

/// Direction in which a header range is walked.
#[derive(Clone, Copy, Debug, PartialEq, Eq, Structural, Hash)]
pub enum HeadersDirection {
    Rising,
    Falling,
}

/// A request for a range of headers.
#[derive(Clone, Copy, Debug, PartialEq, Eq, Structural, Hash)]
pub struct HeadersRequest {
    pub start: BlockHashOrNumber,
    pub limit: u64,
    pub direction: HeadersDirection,
}

/// A request that is sent to the session of a peer.
#[derive(Clone, Debug, PartialEq, Eq, Hash)]
pub enum BlockRequest {
    GetBlockHeaders(HeadersRequest),
    GetBlockBodies(Vec<H256>),
}

/// Why a request did not yield a response.
#[derive(Clone, Copy, Debug, PartialEq, Eq, Structural, Hash)]
pub enum RequestError {
    /// The channel to the session closed before a response was sent.
    ChannelClosed,
    /// The session went away while the request was in flight.
    ConnectionDropped,
    /// The peer does not support the request.
    UnsupportedCapability,
    /// The peer did not answer in time.
    Timeout,
    /// The peer answered with something that is not a valid response.
    BadResponse,
}

impl RequestError {
    /// Whether the error says that the channel to the session is closed.
    pub open spec fn spec_is_channel_closed(self) -> bool {
        self == RequestError::ChannelClosed
    }

    /// Whether the error says that the channel to the session is closed.
    pub fn is_channel_closed(&self) -> (b: bool)
        ensures
            b == self.spec_is_channel_closed(),
    {
        match self {
            RequestError::ChannelClosed => true,
            _ => false,
        }
    }
}

} // verus!
