//! The events that the network state takes in and the actions and commands
//! that it gives out.

use crate::fetch::{Delivery, HeadersSummary};
use crate::primitives::{
    BlockHashNumber, BlockRequest, DisconnectReason, ForkId, IpAddr, NewBlockMessage, PeerId, PeerKind,
    ReputationChangeKind, RequestError, SocketAddr,
};
use vstd::prelude::*;

verus! {

/// An instruction to the layer that owns the sessions.
#[allow(inconsistent_fields)]
#[derive(Clone, Copy, Debug, PartialEq, Eq, Structural, Hash)]
pub enum StateAction {
    /// Send the full block to the peer.
    NewBlock { peer_id: PeerId, block: NewBlockMessage },
    /// Send the announcement of the block's hash to the peer.
    NewBlockHashes { peer_id: PeerId, hashes: BlockHashNumber },
    /// Open a connection to the node.
    Connect { remote_addr: SocketAddr, peer_id: PeerId },
    /// Close the connection to the peer.
    Disconnect { peer_id: PeerId, reason: Option<DisconnectReason> },
    /// The peer reported its fork id.
    DiscoveredEnrForkId { peer_id: PeerId, fork_id: ForkId },
    /// A node was discovered, possibly with its fork id.
    DiscoveredNode { peer_id: PeerId, socket_addr: SocketAddr, fork_id: Option<ForkId> },
    /// A peer was added to the peer set.
    PeerAdded(PeerId),
    /// A peer was removed from the peer set.
    PeerRemoved(PeerId),
}

/// What the discovery service reports.
#[derive(Clone, Copy, Debug, PartialEq, Eq, Structural, Hash)]
pub enum DiscoveryEvent {
    Discovered { peer_id: PeerId, socket_addr: SocketAddr, fork_id: Option<ForkId> },
    EnrForkId(PeerId, ForkId),
}

/// What the manager of the peer set asks for.
#[derive(Clone, Copy, Debug, PartialEq, Eq, Structural, Hash)]
pub enum PeerAction {
    Connect { peer_id: PeerId, remote_addr: SocketAddr },
    Disconnect { peer_id: PeerId, reason: Option<DisconnectReason> },
    DisconnectBannedIncoming { peer_id: PeerId },
    DiscoveryBanPeerId { peer_id: PeerId, ip_addr: IpAddr },
    DiscoveryBanIp { ip_addr: IpAddr },
    PeerAdded(PeerId),
    PeerRemoved(PeerId),
    BanPeer { peer_id: PeerId },
    UnBanPeer { peer_id: PeerId },
}

/// A call that the discovery service is owed at once.
#[derive(Clone, Copy, Debug, PartialEq, Eq, Structural, Hash)]
pub enum DiscoveryCommand {
    BanIp(IpAddr),
    Ban(PeerId, IpAddr),
    UpdateForkId(ForkId),
}

/// A call that the manager of the peer set is owed at once.
#[derive(Clone, Copy, Debug, PartialEq, Eq, Structural, Hash)]
pub enum PeersCommand {
    AddPeerKind(PeerId, PeerKind, SocketAddr),
    RemovePeer(PeerId),
    RemovePeerFromTrustedSet(PeerId),
    ApplyReputationChange(PeerId, ReputationChangeKind),
}

/// The kind of response that is awaited from a peer.
#[derive(Clone, Copy, Debug, PartialEq, Eq, Structural, Hash)]
pub enum PeerResponse {
    BlockHeaders,
    BlockBodies,
}

/// What came back from the session of a peer.
#[derive(Clone, Copy, Debug, PartialEq, Eq, Hash)]
pub enum PeerResponseResult {
    /// The headers that came, or the error.
    BlockHeaders(Result<HeadersSummary, RequestError>),
    /// The number of bodies that came, or the error.
    BlockBodies(Result<u64, RequestError>),
    /// A response of another kind, with its error if it is one.
    Other(Option<RequestError>),
}

/// A request to be handed to the session of a peer.
#[derive(Debug)]
pub struct SessionRequest {
    pub peer_id: PeerId,
    pub request: BlockRequest,
}

/// What is to be done right after a response was taken in.
#[derive(Debug)]
pub enum FollowUp {
    /// Nothing.
    Nothing,
    /// Hand the request to the session of the peer.
    Send(SessionRequest),
    /// Make this call to the manager of the peer set.
    Peers(PeersCommand),
}

/// What came of a response: what the one who asked gets to see, and what
/// is to be done next.
#[derive(Debug)]
pub struct ResponseEffects {
    pub delivery: Option<Delivery>,
    pub follow_up: FollowUp,
}

/// What came of one step of a pass over the responses that have come.
#[derive(Debug)]
pub enum PassEffect {
    /// The session of the peer was closed; where a request was in flight
    /// with it, the one who asked is owed the error.
    Closed { peer: PeerId, dropped: Option<Delivery> },
    /// The response of the peer was taken in.
    Responded { peer: PeerId, effects: ResponseEffects },
}

/// What came of asking the fetcher for a request to send.
#[derive(Debug)]
pub enum FetchStep {
    /// No request can be sent now.
    Done,
    /// The request is to be handed to the session of the peer.
    Sent(SessionRequest),
    /// A request was taken from the fetcher for a peer without a session.
    Skipped,
}

/// What a response that was awaited from a peer turned out to be.
#[derive(Clone, Copy, Debug, PartialEq, Eq, Structural, Hash)]
pub enum Resolved {
    /// No response was awaited from the peer.
    Unexpected,
    /// The session is gone: the peer is to be closed.
    SessionClosed,
    /// A response to be taken in.
    Response,
}

impl PeerResponseResult {
    /// The error of the response, if it is one.
    pub open spec fn spec_err(self) -> Option<RequestError> {
        match self {
            PeerResponseResult::BlockHeaders(Err(e)) => Some(e),
            PeerResponseResult::BlockBodies(Err(e)) => Some(e),
            PeerResponseResult::Other(e) => e,
            _ => None,
        }
    }

    /// The error of the response, if it is one.
    pub fn err(&self) -> (error: Option<RequestError>)
        ensures
            error == self.spec_err(),
    {
        match self {
            PeerResponseResult::BlockHeaders(Err(e)) => Some(*e),
            PeerResponseResult::BlockBodies(Err(e)) => Some(*e),
            PeerResponseResult::Other(e) => *e,
            _ => None,
        }
    }

    /// Whether the response says that the session is gone: its error is a
    /// closed channel.
    pub open spec fn session_closed(self) -> bool {
        self.spec_err() == Some(RequestError::ChannelClosed)
    }
}

} // verus!
