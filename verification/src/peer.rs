//! A peer with an active session, and the table of such peers as a plain
//! value.

use crate::cache::{extended, LruCache};
use crate::fetch::{FetchPeer, PeerState};
use crate::message::PeerResponse;
use crate::primitives::{BlockHashNumber, BlockRequest, Capabilities, PeerId, Status, H256};
use vstd::prelude::*;

verus! {

/// The number of block hashes that are remembered of a single peer.
pub const PEER_BLOCK_CACHE_LIMIT: usize = 512;

/// A peer with an active session.
#[derive(Debug)]
pub struct ActivePeer {
    /// The peer's id.
    pub id: PeerId,
    /// The best block of the peer.
    pub best_hash: H256,
    /// The capabilities of the peer.
    pub capabilities: Capabilities,
    /// The response that is awaited from the peer.
    pub pending_response: Option<PeerResponse>,
    /// The blocks that the peer is known to have.
    pub blocks: LruCache,
}

/// An active peer as a plain value.
pub struct ActivePeerView {
    pub id: PeerId,
    pub best_hash: H256,
    pub capabilities: Capabilities,
    pub pending_response: Option<PeerResponse>,
    /// The blocks that the peer is known to have, oldest first.
    pub blocks: Seq<H256>,
}

impl ActivePeer {
    pub open spec fn view(&self) -> ActivePeerView {
        ActivePeerView {
            id: self.id,
            best_hash: self.best_hash,
            capabilities: self.capabilities,
            pending_response: self.pending_response,
            blocks: self.blocks@,
        }
    }

    /// The cache of known blocks is sound and has the limit of every peer.
    pub open spec fn wf(&self) -> bool {
        self.blocks.wf() && self.blocks.spec_limit() == PEER_BLOCK_CACHE_LIMIT
    }
}

/// The peers of a table as plain values, in its order.
pub open spec fn views(peers: Seq<ActivePeer>) -> Seq<ActivePeerView> {
    Seq::new(peers.len(), |k: int| peers[k]@)
}

/// The peer with this id stands at `at` in the table.
pub open spec fn active_at(peers: Seq<ActivePeerView>, id: PeerId, at: int) -> bool {
    0 <= at < peers.len() && peers[at].id == id
}

/// Whether the peer with this id is in the table.
pub open spec fn is_active(peers: Seq<ActivePeerView>, id: PeerId) -> bool {
    exists|at: int| active_at(peers, id, at)
}

/// Where the peer with this id stands in the table.
pub open spec fn active_index(peers: Seq<ActivePeerView>, id: PeerId) -> Option<int> {
    if is_active(peers, id) {
        Some(choose|at: int| active_at(peers, id, at))
    } else {
        None
    }
}

/// No peer is in the table twice.
pub open spec fn distinct_peers(peers: Seq<ActivePeerView>) -> bool {
    forall|i: int, j: int|
        0 <= i < j < peers.len() ==> (#[trigger] peers[i]).id != (#[trigger] peers[j]).id
}

/// Every peer's known blocks are within the limit, none of them twice.
pub open spec fn bounded_caches(peers: Seq<ActivePeerView>) -> bool {
    forall|k: int|
        0 <= k < peers.len() ==> (#[trigger] peers[k]).blocks.len() <= PEER_BLOCK_CACHE_LIMIT
            && peers[k].blocks.no_duplicates()
}

/// The table without the peer with this id.
pub open spec fn without(peers: Seq<ActivePeerView>, id: PeerId) -> Seq<ActivePeerView> {
    match active_index(peers, id) {
        Some(at) => peers.remove(at),
        None => peers,
    }
}

/// The peer as it is when its session starts.
pub open spec fn fresh_peer(id: PeerId, capabilities: Capabilities, status: Status)
    -> ActivePeerView {
    ActivePeerView {
        id,
        best_hash: status.blockhash,
        capabilities,
        pending_response: None,
        blocks: Seq::empty(),
    }
}

/// What the fetcher tracks of a peer when its session starts. The number of
/// its head block is zero where it could not be looked up.
pub open spec fn fresh_fetch_peer(
    id: PeerId,
    status: Status,
    block_number: Option<u64>,
    timeout: u64,
) -> FetchPeer {
    FetchPeer {
        id,
        best_hash: status.blockhash,
        best_number: match block_number {
            Some(number) => number,
            None => 0,
        },
        state: PeerState::Idle,
        timeout,
        last_response_likely_bad: false,
        inflight: None,
    }
}

/// Whether the peer is known to have the block.
pub open spec fn knows(peer: ActivePeerView, hash: H256) -> bool {
    peer.blocks.contains(hash)
}

/// The kind of response that answers the request.
pub open spec fn response_for(request: BlockRequest) -> PeerResponse {
    match request {
        BlockRequest::GetBlockHeaders(_) => PeerResponse::BlockHeaders,
        BlockRequest::GetBlockBodies(_) => PeerResponse::BlockBodies,
    }
}

/// The table after a request went out to the peer with this id: its
/// response is awaited in place of any that was awaited before.
pub open spec fn peers_after_request(peers: Seq<ActivePeerView>, id: PeerId, request: BlockRequest)
    -> Seq<ActivePeerView> {
    match active_index(peers, id) {
        Some(at) => peers.update(
            at,
            ActivePeerView { pending_response: Some(response_for(request)), ..peers[at] },
        ),
        None => peers,
    }
}

/// The table after a block was reported as the best one of the peer with
/// this id.
pub open spec fn peers_with_best(peers: Seq<ActivePeerView>, id: PeerId, hash: H256) -> Seq<
    ActivePeerView,
> {
    match active_index(peers, id) {
        Some(at) => peers.update(at, ActivePeerView { best_hash: hash, ..peers[at] }),
        None => peers,
    }
}

/// The table after the peer with this id was seen to have the blocks.
pub open spec fn peers_with_blocks(peers: Seq<ActivePeerView>, id: PeerId, hashes: Seq<H256>)
    -> Seq<ActivePeerView> {
    match active_index(peers, id) {
        Some(at) => peers.update(
            at,
            ActivePeerView {
                blocks: extended(
                    peers[at].blocks,
                    PEER_BLOCK_CACHE_LIMIT as nat,
                    hashes,
                    hashes.len(),
                ),
                ..peers[at]
            },
        ),
        None => peers,
    }
}

/// The table after the response that was awaited from the peer with this id
/// was taken.
pub open spec fn peers_after_take(peers: Seq<ActivePeerView>, id: PeerId) -> Seq<ActivePeerView> {
    match active_index(peers, id) {
        Some(at) => peers.update(at, ActivePeerView { pending_response: None, ..peers[at] }),
        None => peers,
    }
}

/// The hashes of the announced blocks, in their order.
pub open spec fn hashes_of(announced: Seq<BlockHashNumber>) -> Seq<H256> {
    Seq::new(announced.len(), |k: int| announced[k].hash)
}

} // verus!
