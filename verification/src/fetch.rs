//! The request fetcher: what each peer is known to have, which request is in
//! flight with it, and which requests wait for a peer.

use crate::primitives::{
    BlockHashOrNumber, BlockRequest, H256, HeadersRequest, PeerId, ReputationChangeKind,
    RequestError,
};
use vstd::prelude::*;

verus! {

/// What a peer is busy with.
#[derive(Clone, Copy, Debug, PartialEq, Eq, Structural, Hash)]
pub enum PeerState {
    /// Ready for a request.
    Idle,
    /// A headers request is in flight.
    GetBlockHeaders,
    /// A bodies request is in flight.
    GetBlockBodies,
    /// The session is about to be closed: no further request is sent.
    Closing,
}

impl PeerState {
    /// The state after a request came back: a closing peer stays closing,
    /// any other is idle again.
    pub open spec fn finished(self) -> PeerState {
        if self == PeerState::Closing {
            PeerState::Closing
        } else {
            PeerState::Idle
        }
    }
}

/// The request in flight with a peer: the ticket of the one who asked, and
/// the range where headers were asked for.
#[derive(Clone, Copy, Debug, PartialEq, Eq, Structural, Hash)]
pub struct Inflight {
    pub ticket: u64,
    pub headers: Option<HeadersRequest>,
}

/// What the fetcher tracks of one peer.
#[derive(Clone, Copy, Debug, PartialEq, Eq, Structural, Hash)]
pub struct FetchPeer {
    pub id: PeerId,
    pub best_hash: H256,
    pub best_number: u64,
    pub state: PeerState,
    /// The time that the peer is given to answer a request, in milliseconds,
    /// as it was last reported.
    pub timeout: u64,
    pub last_response_likely_bad: bool,
    pub inflight: Option<Inflight>,
}

/// A request that waits for a peer, under the ticket of the one who asked.
#[derive(Debug)]
pub struct DownloadRequest {
    pub ticket: u64,
    pub request: BlockRequest,
}

/// A request to be sent to the session of a peer.
#[derive(Debug)]
pub enum FetchAction {
    BlockRequest { peer_id: PeerId, request: BlockRequest },
}

/// What asking the fetcher for work gave.
#[derive(Debug)]
pub enum PollAction {
    Ready(FetchAction),
    NoRequests,
    NoPeersAvailable,
}

/// What follows from a response.
#[derive(Debug)]
pub enum BlockResponseOutcome {
    /// Send the peer this request next.
    Request(PeerId, BlockRequest),
    /// Lower the peer's reputation.
    BadResponse(PeerId, ReputationChangeKind),
}

/// What the one who asked under `ticket` gets to see: the response itself,
/// or the error.
#[derive(Clone, Copy, Debug, PartialEq, Eq, Structural, Hash)]
pub struct Delivery {
    pub ticket: u64,
    pub error: Option<RequestError>,
}

/// The outcome of a response: what is handed to the one who asked, and what
/// follows for the peer.
#[derive(Debug)]
pub struct ResponseOutcome {
    pub delivery: Option<Delivery>,
    pub outcome: Option<BlockResponseOutcome>,
}

/// The headers of a response as far as the fetcher reads them.
#[derive(Clone, Copy, Debug, PartialEq, Eq, Structural, Hash)]
pub struct HeadersSummary {
    /// How many headers came.
    pub count: u64,
    /// The block number of the first of them.
    pub first_number: Option<u64>,
}

/// The peer with this id stands at `at`.
pub open spec fn peer_at(peers: Seq<FetchPeer>, id: PeerId, at: int) -> bool {
    0 <= at < peers.len() && peers[at].id == id
}

/// Where the peer with this id stands, if it is tracked.
pub open spec fn index_of(peers: Seq<FetchPeer>, id: PeerId) -> Option<int> {
    if exists|at: int| peer_at(peers, id, at) {
        Some(choose|at: int| peer_at(peers, id, at))
    } else {
        None
    }
}

/// No two peers have the same id.
pub open spec fn distinct_ids(peers: Seq<FetchPeer>) -> bool {
    forall|i: int, j: int|
        0 <= i < j < peers.len() ==> (#[trigger] peers[i]).id != (#[trigger] peers[j]).id
}

/// The peers after one was registered: it takes the place of the one with
/// its id, or comes last.
pub open spec fn registered(peers: Seq<FetchPeer>, peer: FetchPeer) -> Seq<FetchPeer> {
    match index_of(peers, peer.id) {
        Some(at) => peers.update(at, peer),
        None => peers.push(peer),
    }
}

/// The peers without the one with this id.
pub open spec fn deregistered(peers: Seq<FetchPeer>, id: PeerId) -> Seq<FetchPeer> {
    match index_of(peers, id) {
        Some(at) => peers.remove(at),
        None => peers,
    }
}

/// The request in flight with the peer with this id.
pub open spec fn inflight_of(peers: Seq<FetchPeer>, id: PeerId) -> Option<Inflight> {
    match index_of(peers, id) {
        Some(at) => peers[at].inflight,
        None => None,
    }
}

/// The block is above the best one that is known of the peer with this id.
pub open spec fn advances(peers: Seq<FetchPeer>, id: PeerId, number: u64) -> bool {
    exists|at: int| peer_at(peers, id, at) && number > peers[at].best_number
}

/// A peer after a block was seen with it: its best block where the number
/// is above the one known so far.
pub open spec fn peer_with_block(peer: FetchPeer, id: PeerId, hash: H256, number: u64)
    -> FetchPeer {
    if peer.id == id && number > peer.best_number {
        FetchPeer { best_hash: hash, best_number: number, ..peer }
    } else {
        peer
    }
}

/// The peers after a block was seen with the peer with this id.
pub open spec fn with_block(peers: Seq<FetchPeer>, id: PeerId, hash: H256, number: u64) -> Seq<
    FetchPeer,
> {
    Seq::new(peers.len(), |k: int| peer_with_block(peers[k], id, hash, number))
}

/// The peers after the one with this id was given another time to answer.
pub open spec fn with_timeout(peers: Seq<FetchPeer>, id: PeerId, timeout: u64) -> Seq<FetchPeer> {
    Seq::new(
        peers.len(),
        |k: int|
            if peers[k].id == id {
                FetchPeer { timeout, ..peers[k] }
            } else {
                peers[k]
            },
    )
}

/// The peers after the one with this id was marked as closing.
pub open spec fn with_closing(peers: Seq<FetchPeer>, id: PeerId) -> Seq<FetchPeer> {
    Seq::new(
        peers.len(),
        |k: int|
            if peers[k].id == id {
                FetchPeer { state: PeerState::Closing, ..peers[k] }
            } else {
                peers[k]
            },
    )
}

/// The peer that gets the next request, among the first `n`: an idle one.
/// The first idle peer is given up for a later one whose last response was
/// not likely bad, where its own was likely bad or the later one is given
/// less time to answer.
pub open spec fn preferred(peers: Seq<FetchPeer>, n: nat) -> Option<int>
    decreases n,
{
    if n == 0 {
        None
    } else {
        let before = preferred(peers, (n - 1) as nat);
        let k = n - 1;
        if peers[k].state != PeerState::Idle {
            before
        } else {
            match before {
                None => Some(k),
                Some(best) => if !peers[k].last_response_likely_bad && (
                peers[best].last_response_likely_bad || peers[k].timeout < peers[best].timeout) {
                    Some(k)
                } else {
                    before
                },
            }
        }
    }
}

/// The state of a peer while the request is in flight with it.
pub open spec fn state_for(request: BlockRequest) -> PeerState {
    match request {
        BlockRequest::GetBlockHeaders(_) => PeerState::GetBlockHeaders,
        BlockRequest::GetBlockBodies(_) => PeerState::GetBlockBodies,
    }
}

/// What is remembered of a request while it is in flight.
pub open spec fn inflight_for(request: DownloadRequest) -> Inflight {
    Inflight {
        ticket: request.ticket,
        headers: match request.request {
            BlockRequest::GetBlockHeaders(range) => Some(range),
            BlockRequest::GetBlockBodies(_) => None,
        },
    }
}

/// A peer after the request was handed to it.
pub open spec fn engaged(peer: FetchPeer, request: DownloadRequest) -> FetchPeer {
    FetchPeer {
        state: state_for(request.request),
        inflight: Some(inflight_for(request)),
        ..peer
    }
}

/// The request in flight with the peer that a response of the given kind
/// answers: a headers response answers a headers request, a bodies response
/// a bodies request.
pub open spec fn answered(peer: FetchPeer, headers: bool) -> Option<Inflight> {
    match peer.inflight {
        Some(inflight) => if inflight.headers.is_some() == headers {
            Some(inflight)
        } else {
            None
        },
        None => None,
    }
}

/// A peer after a response of the given kind came back from it.
pub open spec fn settled(peer: FetchPeer, likely_bad: bool, headers: bool) -> FetchPeer {
    FetchPeer {
        last_response_likely_bad: likely_bad,
        inflight: if answered(peer, headers).is_some() {
            None
        } else {
            peer.inflight
        },
        state: peer.state.finished(),
        ..peer
    }
}

/// What the one who asked gets to see of a response of the given kind.
pub open spec fn delivery_of(peer: FetchPeer, headers: bool, error: Option<RequestError>)
    -> Option<Delivery> {
    match answered(peer, headers) {
        Some(inflight) => Some(Delivery { ticket: inflight.ticket, error }),
        None => None,
    }
}

/// The report of a penalty against a peer, if there is a penalty.
pub open spec fn bad_response(id: PeerId, penalty: Option<ReputationChangeKind>) -> Option<
    BlockResponseOutcome,
> {
    match penalty {
        Some(kind) => Some(BlockResponseOutcome::BadResponse(id, kind)),
        None => None,
    }
}

/// What follows from a response from the peer with this id: a further
/// request for the peer where it takes one and one waits; nothing where it
/// would take one and none waits; else the penalty, if there is one.
pub open spec fn outcome_of(
    peers: Seq<FetchPeer>,
    queued: Seq<DownloadRequest>,
    id: PeerId,
    error: Option<RequestError>,
    likely_bad: bool,
    penalty: Option<ReputationChangeKind>,
) -> Option<BlockResponseOutcome> {
    match index_of(peers, id) {
        None => bad_response(id, penalty),
        Some(at) => if follows_up(peers[at], queued, error, likely_bad) {
            Some(BlockResponseOutcome::Request(id, queued[0].request))
        } else if accepts_follow_up(peers[at], error, likely_bad) {
            None
        } else {
            bad_response(id, penalty)
        },
    }
}

/// What the fetcher tracks after a response from the peer with this id: a
/// peer that is not closing is idle again, and where the response was good
/// and a request waits, that request is in flight with it at once.
pub open spec fn peers_after_response(
    peers: Seq<FetchPeer>,
    queued: Seq<DownloadRequest>,
    id: PeerId,
    headers: bool,
    error: Option<RequestError>,
    likely_bad: bool,
) -> Seq<FetchPeer> {
    match index_of(peers, id) {
        None => peers,
        Some(at) => if follows_up(peers[at], queued, error, likely_bad) {
            peers.update(at, engaged(settled(peers[at], likely_bad, headers), queued[0]))
        } else {
            peers.update(at, settled(peers[at], likely_bad, headers))
        },
    }
}

/// The requests that wait after a response from the peer with this id: the
/// oldest has left where it went to the peer at once.
pub open spec fn queued_after_response(
    peers: Seq<FetchPeer>,
    queued: Seq<DownloadRequest>,
    id: PeerId,
    error: Option<RequestError>,
    likely_bad: bool,
) -> Seq<DownloadRequest> {
    match index_of(peers, id) {
        None => queued,
        Some(at) => if follows_up(peers[at], queued, error, likely_bad) {
            queued.drop_first()
        } else {
            queued
        },
    }
}

/// What the one who asked gets to see of a response from the peer with
/// this id.
pub open spec fn delivery_after_response(
    peers: Seq<FetchPeer>,
    id: PeerId,
    headers: bool,
    error: Option<RequestError>,
) -> Option<Delivery> {
    match index_of(peers, id) {
        None => None,
        Some(at) => delivery_of(peers[at], headers, error),
    }
}

/// How a response from the peer with this id changes the fetcher, and what
/// comes of it.
pub open spec fn response_handled(
    peers: Seq<FetchPeer>,
    queued: Seq<DownloadRequest>,
    peers_after: Seq<FetchPeer>,
    queued_after: Seq<DownloadRequest>,
    id: PeerId,
    headers: bool,
    error: Option<RequestError>,
    likely_bad: bool,
    penalty: Option<ReputationChangeKind>,
    handled: ResponseOutcome,
) -> bool {
    &&& peers_after == peers_after_response(peers, queued, id, headers, error, likely_bad)
    &&& queued_after == queued_after_response(peers, queued, id, error, likely_bad)
    &&& handled.delivery == delivery_after_response(peers, id, headers, error)
    &&& handled.outcome == outcome_of(peers, queued, id, error, likely_bad, penalty)
}

/// Whether the headers response is likely bad for the request that is in
/// flight with the peer with this id; not so where no headers request is.
pub open spec fn likely_bad_for(
    peers: Seq<FetchPeer>,
    id: PeerId,
    response: Result<HeadersSummary, RequestError>,
) -> bool {
    match inflight_of(peers, id) {
        Some(inflight) => match inflight.headers {
            Some(request) => likely_bad_headers(response, request),
            None => false,
        },
        None => false,
    }
}

/// The penalty that an error carries.
pub open spec fn penalty_of(error: Option<RequestError>) -> Option<ReputationChangeKind> {
    match error {
        Some(RequestError::Timeout) => Some(ReputationChangeKind::Timeout),
        Some(RequestError::UnsupportedCapability) => Some(ReputationChangeKind::BadProtocol),
        Some(RequestError::BadResponse) => Some(ReputationChangeKind::BadMessage),
        _ => None,
    }
}

/// Whether a headers response is likely not what was asked for: an error;
/// at most one header where another number was asked for; or a first header
/// that is not the one the range starts at by number.
pub open spec fn likely_bad_headers(
    response: Result<HeadersSummary, RequestError>,
    request: HeadersRequest,
) -> bool {
    match response {
        Err(_) => true,
        Ok(headers) => {
            if headers.count <= 1 && request.limit != headers.count {
                true
            } else {
                match (request.start, headers.first_number) {
                    (BlockHashOrNumber::Number(start), Some(first)) => start != first,
                    _ => false,
                }
            }
        },
    }
}

/// Whether a bodies response is likely bad: an error, or no body at all.
pub open spec fn likely_bad_bodies(response: Result<u64, RequestError>) -> bool {
    match response {
        Err(_) => true,
        Ok(count) => count == 0,
    }
}

/// The error of a response, if it is one.
pub open spec fn error_of<T>(response: Result<T, RequestError>) -> Option<RequestError> {
    match response {
        Err(e) => Some(e),
        Ok(_) => None,
    }
}

/// Whether a further request is sent to the peer right after its response.
pub open spec fn follows_up(
    peer: FetchPeer,
    queued: Seq<DownloadRequest>,
    error: Option<RequestError>,
    likely_bad: bool,
) -> bool {
    peer.state != PeerState::Closing && error.is_none() && !likely_bad && queued.len() > 0
}

/// Whether the peer would get a further request were one waiting; where it
/// would, no penalty is reported.
pub open spec fn accepts_follow_up(peer: FetchPeer, error: Option<RequestError>, likely_bad: bool)
    -> bool {
    peer.state != PeerState::Closing && error.is_none() && !likely_bad
}

/// Whether a headers response is likely not what was asked for.
pub fn is_likely_bad_headers_response(
    response: &Result<HeadersSummary, RequestError>,
    request: &HeadersRequest,
) -> (bad: bool)
    ensures
        bad == likely_bad_headers(*response, *request),
{
    match response {
        Err(_) => true,
        Ok(headers) => {
            if headers.count <= 1 && request.limit != headers.count {
                true
            } else {
                match (request.start, headers.first_number) {
                    (BlockHashOrNumber::Number(start), Some(first)) => start != first,
                    _ => false,
                }
            }
        },
    }
}

/// The per-peer request pipeline.
#[derive(Debug)]
pub struct StateFetcher {
    peers: Vec<FetchPeer>,
    queued_requests: Vec<DownloadRequest>,
}

impl StateFetcher {
    /// The peers tracked, in the order in which they were registered.
    pub closed spec fn peers(&self) -> Seq<FetchPeer> {
        self.peers@
    }

    /// The requests that wait for a peer, oldest first.
    pub closed spec fn queued(&self) -> Seq<DownloadRequest> {
        self.queued_requests@
    }

    /// No peer is tracked twice.
    pub open spec fn wf(&self) -> bool {
        distinct_ids(self.peers())
    }

    /// A fetcher that tracks no peer and holds no request.
    pub fn new() -> (fetcher: Self)
        ensures
            fetcher.wf(),
            fetcher.peers() == Seq::<FetchPeer>::empty(),
            fetcher.queued() == Seq::<DownloadRequest>::empty(),
    {
        StateFetcher { peers: Vec::new(), queued_requests: Vec::new() }
    }

    /// Where the peer with this id stands.
    fn find(&self, id: &PeerId) -> (found: Option<usize>)
        requires
            self.wf(),
        ensures
            match found {
                Some(at) => index_of(self.peers(), *id) == Some(at as int) && peer_at(
                    self.peers(),
                    *id,
                    at as int,
                ),
                None => index_of(self.peers(), *id).is_none() && forall|k: int|
                    0 <= k < self.peers().len() ==> (#[trigger] self.peers()[k]).id != *id,
            },
    {
        let mut i: usize = 0;
        while i < self.peers.len()
            invariant
                self.wf(),
                i <= self.peers@.len(),
                forall|k: int| 0 <= k < i ==> !peer_at(self.peers@, *id, k),
            decreases self.peers@.len() - i,
        {
            if self.peers[i].id == *id {
                proof {
                    assert(peer_at(self.peers@, *id, i as int));
                    let chosen = choose|at: int| peer_at(self.peers@, *id, at);
                    assert(peer_at(self.peers@, *id, chosen));
                    if chosen < i {
                        assert(self.peers@[chosen].id != self.peers@[i as int].id);
                    }
                    if chosen > i {
                        assert(self.peers@[i as int].id != self.peers@[chosen].id);
                    }
                }
                return Some(i);
            }
            i += 1;
        }
        assert forall|k: int| 0 <= k < self.peers().len() implies (#[trigger] self.peers()[k]).id
            != *id by {
            assert(!peer_at(self.peers@, *id, k));
        }
        None
    }

    /// The number of peers tracked.
    pub fn num_peers(&self) -> (n: usize)
        ensures
            n == self.peers().len(),
    {
        self.peers.len()
    }

    /// The number of requests that wait for a peer.
    pub fn num_queued(&self) -> (n: usize)
        ensures
            n == self.queued().len(),
    {
        self.queued_requests.len()
    }

    /// What is tracked of the peer with this id.
    pub fn peer(&self, id: &PeerId) -> (peer: Option<FetchPeer>)
        requires
            self.wf(),
        ensures
            peer == match index_of(self.peers(), *id) {
                Some(at) => Some(self.peers()[at]),
                None => None,
            },
    {
        match self.find(id) {
            Some(at) => Some(self.peers[at]),
            None => None,
        }
    }

    /// Starts to track a peer with its best block and the time it is given to
    /// answer; it is idle. A peer that is tracked under the same id already
    /// is replaced.
    pub fn new_active_peer(
        &mut self,
        peer_id: PeerId,
        best_hash: H256,
        best_number: u64,
        timeout: u64,
    )
        requires
            old(self).wf(),
        ensures
            final(self).wf(),
            final(self).queued() == old(self).queued(),
            final(self).peers() == registered(
                old(self).peers(),
                FetchPeer {
                    id: peer_id,
                    best_hash,
                    best_number,
                    state: PeerState::Idle,
                    timeout,
                    last_response_likely_bad: false,
                    inflight: None,
                },
            ),
    {
        let peer = FetchPeer {
            id: peer_id,
            best_hash,
            best_number,
            state: PeerState::Idle,
            timeout,
            last_response_likely_bad: false,
            inflight: None,
        };
        match self.find(&peer_id) {
            Some(at) => {
                self.peers[at] = peer;
            },
            None => {
                self.peers.push(peer);
            },
        }
    }

    /// Stops tracking the peer with this id. Where a request was in flight
    /// with it, the one who asked is owed a connection-dropped error, which
    /// is handed back.
    pub fn on_session_closed(&mut self, peer_id: &PeerId) -> (dropped: Option<Delivery>)
        requires
            old(self).wf(),
        ensures
            final(self).wf(),
            final(self).queued() == old(self).queued(),
            final(self).peers() == deregistered(old(self).peers(), *peer_id),
            dropped == match inflight_of(old(self).peers(), *peer_id) {
                Some(inflight) => Some(
                    Delivery {
                        ticket: inflight.ticket,
                        error: Some(RequestError::ConnectionDropped),
                    },
                ),
                None => None,
            },
            index_of(final(self).peers(), *peer_id).is_none(),
    {
        match self.find(peer_id) {
            Some(at) => {
                let ghost before = self.peers@;
                let peer = self.peers.remove(at);
                proof {
                    assert forall|i: int, j: int| 0 <= i < j < self.peers@.len() implies (
                    #[trigger] self.peers@[i]).id != (#[trigger] self.peers@[j]).id by {
                        assert(self.peers@[i] == before[if i < at { i } else { i + 1 }]);
                        assert(self.peers@[j] == before[if j < at { j } else { j + 1 }]);
                    }
                    assert forall|k: int| !peer_at(self.peers@, *peer_id, k) by {
                        if 0 <= k < self.peers@.len() {
                            assert(self.peers@[k] == before[if k < at { k } else { k + 1 }]);
                            if k < at {
                                assert(before[k].id != before[at as int].id);
                            } else {
                                assert(before[at as int].id != before[k + 1].id);
                            }
                        }
                    }
                }
                match peer.inflight {
                    Some(inflight) => Some(
                        Delivery {
                            ticket: inflight.ticket,
                            error: Some(RequestError::ConnectionDropped),
                        },
                    ),
                    None => None,
                }
            },
            None => {
                proof {
                    assert forall|k: int| !peer_at(self.peers@, *peer_id, k) by {
                        if 0 <= k < self.peers@.len() {
                            assert(self.peers()[k].id != *peer_id);
                        }
                    }
                }
                None
            },
        }
    }

    /// Notes a block seen with the peer. Returns whether the peer is tracked
    /// and the block is above its best one so far, in which case the block
    /// becomes its best.
    pub fn update_peer_block(&mut self, peer_id: &PeerId, hash: H256, number: u64) -> (advanced:
        bool)
        requires
            old(self).wf(),
        ensures
            final(self).wf(),
            final(self).queued() == old(self).queued(),
            advanced == advances(old(self).peers(), *peer_id, number),
            final(self).peers() == with_block(old(self).peers(), *peer_id, hash, number),
    {
        let found = self.find(peer_id);
        let ghost before = self.peers@;
        let mut advanced = false;
        match found {
            Some(at) => {
                if number > self.peers[at].best_number {
                    self.peers[at].best_hash = hash;
                    self.peers[at].best_number = number;
                    advanced = true;
                    assert(peer_at(before, *peer_id, at as int));
                } else {
                    assert forall|k: int| peer_at(before, *peer_id, k) implies !(number
                        > before[k].best_number) by {
                        if k < at {
                            assert(before[k].id != before[at as int].id);
                        }
                        if k > at {
                            assert(before[at as int].id != before[k].id);
                        }
                    }
                }
                assert forall|k: int| 0 <= k < before.len() implies self.peers@[k]
                    == peer_with_block(before[k], *peer_id, hash, number) by {
                    if k < at {
                        assert(before[k].id != before[at as int].id);
                    }
                    if k > at {
                        assert(before[at as int].id != before[k].id);
                    }
                }
            },
            None => {
                assert forall|k: int| 0 <= k < before.len() implies self.peers@[k]
                    == peer_with_block(before[k], *peer_id, hash, number) by {
                    assert(self.peers()[k].id != *peer_id);
                }
            },
        }
        assert(self.peers@ =~= with_block(before, *peer_id, hash, number));
        assert forall|i: int, j: int| 0 <= i < j < self.peers@.len() implies (
        #[trigger] self.peers@[i]).id != (#[trigger] self.peers@[j]).id by {
            assert(before[i].id != before[j].id);
        }
        advanced
    }

    /// Takes in a request that waits for a peer, behind those that wait
    /// already.
    pub fn queue_request(&mut self, request: DownloadRequest)
        requires
            old(self).wf(),
        ensures
            final(self).wf(),
            final(self).peers() == old(self).peers(),
            final(self).queued() == old(self).queued().push(request),
    {
        self.queued_requests.push(request);
    }

    /// The peer that gets the next request.
    fn next_peer(&self) -> (best: Option<usize>)
        ensures
            match best {
                Some(at) => preferred(self.peers(), self.peers().len()) == Some(at as int),
                None => preferred(self.peers(), self.peers().len()).is_none(),
            },
            best.is_some() ==> best.unwrap() < self.peers().len(),
    {
        let mut best: Option<usize> = None;
        let mut k: usize = 0;
        while k < self.peers.len()
            invariant
                k <= self.peers@.len(),
                match best {
                    Some(at) => preferred(self.peers@, k as nat) == Some(at as int) && at < k,
                    None => preferred(self.peers@, k as nat).is_none(),
                },
            decreases self.peers@.len() - k,
        {
            if self.peers[k].state == PeerState::Idle {
                match best {
                    None => {
                        best = Some(k);
                    },
                    Some(at) => {
                        if !self.peers[k].last_response_likely_bad && (
                        self.peers[at].last_response_likely_bad || self.peers[k].timeout
                            < self.peers[at].timeout) {
                            best = Some(k);
                        }
                    },
                }
            }
            k += 1;
        }
        best
    }

    /// Hands the oldest waiting request to the peer at `at`.
    fn prepare_block_request(&mut self, at: usize) -> (request: BlockRequest)
        requires
            old(self).wf(),
            at < old(self).peers().len(),
            old(self).queued().len() > 0,
        ensures
            final(self).wf(),
            final(self).queued() == old(self).queued().drop_first(),
            final(self).peers() == old(self).peers().update(
                at as int,
                engaged(old(self).peers()[at as int], old(self).queued()[0]),
            ),
            request == old(self).queued()[0].request,
    {
        let ghost before = self.peers@;
        let waiting = self.queued_requests.remove(0);
        assert(self.queued_requests@ == old(self).queued().drop_first());
        let DownloadRequest { ticket, request } = waiting;
        let (state, headers) = match &request {
            BlockRequest::GetBlockHeaders(range) => (PeerState::GetBlockHeaders, Some(*range)),
            BlockRequest::GetBlockBodies(_) => (PeerState::GetBlockBodies, None),
        };
        self.peers[at].state = state;
        self.peers[at].inflight = Some(Inflight { ticket, headers });
        assert(self.peers@ =~= before.update(at as int, engaged(before[at as int], waiting)));
        assert forall|i: int, j: int| 0 <= i < j < self.peers@.len() implies (
        #[trigger] self.peers@[i]).id != (#[trigger] self.peers@[j]).id by {
            assert(before[i].id != before[j].id);
        }
        request
    }

    /// Asks for the next request to send. Where a request waits and a peer
    /// is idle, the oldest request goes to the preferred idle peer.
    pub fn poll_action(&mut self) -> (action: PollAction)
        requires
            old(self).wf(),
        ensures
            final(self).wf(),
            if old(self).queued().len() == 0 {
                &&& action == PollAction::NoRequests
                &&& final(self).peers() == old(self).peers()
                &&& final(self).queued() == old(self).queued()
            } else {
                match preferred(old(self).peers(), old(self).peers().len()) {
                    None => {
                        &&& action == PollAction::NoPeersAvailable
                        &&& final(self).peers() == old(self).peers()
                        &&& final(self).queued() == old(self).queued()
                    },
                    Some(at) => {
                        &&& 0 <= at < old(self).peers().len()
                        &&& action == PollAction::Ready(
                            FetchAction::BlockRequest {
                                peer_id: old(self).peers()[at].id,
                                request: old(self).queued()[0].request,
                            },
                        )
                        &&& final(self).queued() == old(self).queued().drop_first()
                        &&& final(self).peers() == old(self).peers().update(
                            at,
                            engaged(old(self).peers()[at], old(self).queued()[0]),
                        )
                    },
                }
            },
    {
        if self.queued_requests.len() == 0 {
            return PollAction::NoRequests;
        }
        match self.next_peer() {
            None => PollAction::NoPeersAvailable,
            Some(at) => {
                let peer_id = self.peers[at].id;
                let request = self.prepare_block_request(at);
                PollAction::Ready(FetchAction::BlockRequest { peer_id, request })
            },
        }
    }

    /// Settles the peer after a response and decides what follows.
    fn finish(
        &mut self,
        peer_id: PeerId,
        headers: bool,
        error: Option<RequestError>,
        likely_bad: bool,
        penalty: Option<ReputationChangeKind>,
    ) -> (handled: ResponseOutcome)
        requires
            old(self).wf(),
        ensures
            final(self).wf(),
            response_handled(
                old(self).peers(),
                old(self).queued(),
                final(self).peers(),
                final(self).queued(),
                peer_id,
                headers,
                error,
                likely_bad,
                penalty,
                handled,
            ),
    {
        let report = match penalty {
            Some(kind) => Some(BlockResponseOutcome::BadResponse(peer_id, kind)),
            None => None,
        };
        let at = match self.find(&peer_id) {
            Some(at) => at,
            None => {
                return ResponseOutcome { delivery: None, outcome: report };
            },
        };
        let ghost before = self.peers@;
        let peer = self.peers[at];
        let delivery = match peer.inflight {
            Some(inflight) => {
                if inflight.headers.is_some() == headers {
                    self.peers[at].inflight = None;
                    Some(Delivery { ticket: inflight.ticket, error })
                } else {
                    None
                }
            },
            None => None,
        };
        self.peers[at].last_response_likely_bad = likely_bad;
        let open = peer.state != PeerState::Closing;
        if open {
            self.peers[at].state = PeerState::Idle;
        }
        assert(self.peers@ =~= before.update(at as int, settled(peer, likely_bad, headers)));
        assert forall|i: int, j: int| 0 <= i < j < self.peers@.len() implies (
        #[trigger] self.peers@[i]).id != (#[trigger] self.peers@[j]).id by {
            assert(before[i].id != before[j].id);
        }
        if open && error.is_none() && !likely_bad {
            if self.queued_requests.len() > 0 {
                let request = self.prepare_block_request(at);
                assert(self.peers@ =~= before.update(
                    at as int,
                    engaged(settled(peer, likely_bad, headers), old(self).queued()[0]),
                ));
                return ResponseOutcome {
                    delivery,
                    outcome: Some(BlockResponseOutcome::Request(peer_id, request)),
                };
            }
            return ResponseOutcome { delivery, outcome: None };
        }
        ResponseOutcome { delivery, outcome: report }
    }

    /// Takes in the response to a headers request from the peer.
    pub fn on_block_headers_response(
        &mut self,
        peer_id: PeerId,
        response: Result<HeadersSummary, RequestError>,
    ) -> (handled: ResponseOutcome)
        requires
            old(self).wf(),
        ensures
            final(self).wf(),
            response_handled(
                old(self).peers(),
                old(self).queued(),
                final(self).peers(),
                final(self).queued(),
                peer_id,
                true,
                error_of(response),
                likely_bad_for(old(self).peers(), peer_id, response),
                penalty_of(error_of(response)),
                handled,
            ),
    {
        let error = match response {
            Err(e) => Some(e),
            Ok(_) => None,
        };
        let penalty = match error {
            Some(RequestError::Timeout) => Some(ReputationChangeKind::Timeout),
            Some(RequestError::UnsupportedCapability) => Some(ReputationChangeKind::BadProtocol),
            Some(RequestError::BadResponse) => Some(ReputationChangeKind::BadMessage),
            _ => None,
        };
        let request = match self.peer(&peer_id) {
            Some(peer) => match peer.inflight {
                Some(inflight) => inflight.headers,
                None => None,
            },
            None => None,
        };
        let likely_bad = match request {
            Some(request) => is_likely_bad_headers_response(&response, &request),
            None => false,
        };
        self.finish(peer_id, true, error, likely_bad, penalty)
    }

    /// Takes in the response to a bodies request from the peer: the number
    /// of bodies that came, or the error. No penalty follows from it.
    pub fn on_block_bodies_response(&mut self, peer_id: PeerId, response: Result<u64, RequestError>)
        -> (handled: ResponseOutcome)
        requires
            old(self).wf(),
        ensures
            final(self).wf(),
            response_handled(
                old(self).peers(),
                old(self).queued(),
                final(self).peers(),
                final(self).queued(),
                peer_id,
                false,
                error_of(response),
                likely_bad_bodies(response),
                None,
                handled,
            ),
    {
        let (error, likely_bad) = match response {
            Err(e) => (Some(e), true),
            Ok(count) => (None, count == 0),
        };
        self.finish(peer_id, false, error, likely_bad, None)
    }

    /// Notes the time that the peer is given to answer from now on.
    pub fn update_peer_timeout(&mut self, peer_id: &PeerId, timeout: u64)
        requires
            old(self).wf(),
        ensures
            final(self).wf(),
            final(self).queued() == old(self).queued(),
            final(self).peers() == with_timeout(old(self).peers(), *peer_id, timeout),
    {
        let found = self.find(peer_id);
        let ghost before = self.peers@;
        match found {
            Some(at) => {
                self.peers[at].timeout = timeout;
                assert forall|k: int| 0 <= k < before.len() && k != at implies before[k].id
                    != *peer_id by {
                    if k < at {
                        assert(before[k].id != before[at as int].id);
                    }
                    if k > at {
                        assert(before[at as int].id != before[k].id);
                    }
                }
            },
            None => {
                assert forall|k: int| 0 <= k < before.len() implies before[k].id != *peer_id by {
                    assert(self.peers()[k].id != *peer_id);
                }
            },
        }
        assert(self.peers@ =~= with_timeout(before, *peer_id, timeout));
        assert forall|i: int, j: int| 0 <= i < j < self.peers@.len() implies (
        #[trigger] self.peers@[i]).id != (#[trigger] self.peers@[j]).id by {
            assert(before[i].id != before[j].id);
        }
    }

    /// Marks the peer as closing: it gets no further request.
    pub fn on_pending_disconnect(&mut self, peer_id: &PeerId)
        requires
            old(self).wf(),
        ensures
            final(self).wf(),
            final(self).queued() == old(self).queued(),
            final(self).peers() == with_closing(old(self).peers(), *peer_id),
    {
        let found = self.find(peer_id);
        let ghost before = self.peers@;
        match found {
            Some(at) => {
                self.peers[at].state = PeerState::Closing;
                assert forall|k: int| 0 <= k < before.len() && k != at implies before[k].id
                    != *peer_id by {
                    if k < at {
                        assert(before[k].id != before[at as int].id);
                    }
                    if k > at {
                        assert(before[at as int].id != before[k].id);
                    }
                }
            },
            None => {
                assert forall|k: int| 0 <= k < before.len() implies before[k].id != *peer_id by {
                    assert(self.peers()[k].id != *peer_id);
                }
            },
        }
        assert(self.peers@ =~= with_closing(before, *peer_id));
        assert forall|i: int, j: int| 0 <= i < j < self.peers@.len() implies (
        #[trigger] self.peers@[i]).id != (#[trigger] self.peers@[j]).id by {
            assert(before[i].id != before[j].id);
        }
    }
}

} // verus!
