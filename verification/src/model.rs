//! The network state as a plain value, and how each event changes it.

use crate::fetch::{
    delivery_after_response, deregistered, engaged, error_of, inflight_of, likely_bad_bodies,
    likely_bad_for, outcome_of, penalty_of, peers_after_response, preferred,
    queued_after_response, registered, with_block, with_closing, BlockResponseOutcome, Delivery,
    DownloadRequest, FetchPeer,
};
use crate::gossip::{announcements, fetch_after_gossip, peers_after_gossip};
use crate::message::{
    DiscoveryCommand, DiscoveryEvent, FetchStep, FollowUp, PassEffect, PeerAction,
    PeerResponseResult, PeersCommand, Resolved, ResponseEffects, SessionRequest, StateAction,
};
use crate::peer::{
    active_at, active_index, distinct_peers, fresh_fetch_peer, fresh_peer, is_active,
    peers_after_request, peers_after_take, peers_with_best, peers_with_blocks, without,
    ActivePeerView,
};
use crate::primitives::{
    BlockRequest, Capabilities, NewBlockMessage, PeerId, ReputationChangeKind, RequestError,
    Status, H256,
};
use vstd::prelude::*;

verus! {

/// The network state as a plain value.
pub struct StateView {
    /// The table of active peers.
    pub peers: Seq<ActivePeerView>,
    /// What the fetcher tracks of the peers.
    pub fetched: Seq<FetchPeer>,
    /// The requests that wait for a peer.
    pub waiting: Seq<DownloadRequest>,
    /// The actions that wait to be handed out.
    pub queued: Seq<StateAction>,
    /// The genesis hash of the network.
    pub genesis_hash: H256,
}

/// What is to be done about what follows from a response, given the table.
pub open spec fn follow_up_for(peers: Seq<ActivePeerView>, outcome: Option<BlockResponseOutcome>)
    -> FollowUp {
    match outcome {
        None => FollowUp::Nothing,
        Some(BlockResponseOutcome::BadResponse(id, kind)) => FollowUp::Peers(
            PeersCommand::ApplyReputationChange(id, kind),
        ),
        Some(BlockResponseOutcome::Request(id, request)) => if is_active(peers, id) {
            FollowUp::Send(SessionRequest { peer_id: id, request })
        } else {
            FollowUp::Nothing
        },
    }
}

/// The table after what follows from a response was done.
pub open spec fn peers_after_outcome(
    peers: Seq<ActivePeerView>,
    outcome: Option<BlockResponseOutcome>,
) -> Seq<ActivePeerView> {
    match outcome {
        Some(BlockResponseOutcome::Request(id, request)) => peers_after_request(
            peers,
            id,
            request,
        ),
        _ => peers,
    }
}

/// The action that reports what the discovery service found.
pub open spec fn action_for_discovery(event: DiscoveryEvent) -> StateAction {
    match event {
        DiscoveryEvent::Discovered { peer_id, socket_addr, fork_id } => StateAction::DiscoveredNode {
            peer_id,
            socket_addr,
            fork_id,
        },
        DiscoveryEvent::EnrForkId(peer_id, fork_id) => StateAction::DiscoveredEnrForkId {
            peer_id,
            fork_id,
        },
    }
}

/// The action that the manager of the peer set asks for, if it asks for
/// one.
pub open spec fn action_for_peers(action: PeerAction) -> Option<StateAction> {
    match action {
        PeerAction::Connect { peer_id, remote_addr } => Some(
            StateAction::Connect { peer_id, remote_addr },
        ),
        PeerAction::Disconnect { peer_id, reason } => Some(
            StateAction::Disconnect { peer_id, reason },
        ),
        PeerAction::DisconnectBannedIncoming { peer_id } => Some(
            StateAction::Disconnect { peer_id, reason: None },
        ),
        PeerAction::PeerAdded(peer_id) => Some(StateAction::PeerAdded(peer_id)),
        PeerAction::PeerRemoved(peer_id) => Some(StateAction::PeerRemoved(peer_id)),
        _ => None,
    }
}

/// The ban that the manager of the peer set asks of the discovery service,
/// if it asks for one.
pub open spec fn ban_for_peers(action: PeerAction) -> Option<DiscoveryCommand> {
    match action {
        PeerAction::DiscoveryBanPeerId { peer_id, ip_addr } => Some(
            DiscoveryCommand::Ban(peer_id, ip_addr),
        ),
        PeerAction::DiscoveryBanIp { ip_addr } => Some(DiscoveryCommand::BanIp(ip_addr)),
        _ => None,
    }
}

/// The peer whose session is about to be closed by what the manager of the
/// peer set asks for.
pub open spec fn closing_for_peers(action: PeerAction) -> Option<PeerId> {
    match action {
        PeerAction::Disconnect { peer_id, reason } => Some(peer_id),
        PeerAction::DisconnectBannedIncoming { peer_id } => Some(peer_id),
        _ => None,
    }
}

/// The queue of actions with one more at its end, if there is one.
pub open spec fn with_action(queued: Seq<StateAction>, action: Option<StateAction>) -> Seq<
    StateAction,
> {
    match action {
        Some(action) => queued.push(action),
        None => queued,
    }
}

/// The state after the response that was awaited from the peer was taken.
pub open spec fn taken(v: StateView, peer: PeerId) -> StateView {
    StateView { peers: peers_after_take(v.peers, peer), ..v }
}

/// What a response that has come from the peer is: unexpected where none
/// was awaited from it, the end of the session where its error is a closed
/// channel, else a response to be taken in.
pub open spec fn resolved_of(v: StateView, peer: PeerId, resp: PeerResponseResult) -> Resolved {
    match active_index(v.peers, peer) {
        Some(at) => if v.peers[at].pending_response.is_none() {
            Resolved::Unexpected
        } else if resp.session_closed() {
            Resolved::SessionClosed
        } else {
            Resolved::Response
        },
        None => Resolved::Unexpected,
    }
}

/// The state after the session of the peer ended.
pub open spec fn closed(v: StateView, peer: PeerId) -> StateView {
    StateView { peers: without(v.peers, peer), fetched: deregistered(v.fetched, peer), ..v }
}

/// What the one whose request was in flight with the peer gets to see when
/// the session of the peer ends: a connection-dropped error.
pub open spec fn dropped_of(v: StateView, peer: PeerId) -> Option<Delivery> {
    match inflight_of(v.fetched, peer) {
        Some(inflight) => Some(
            Delivery { ticket: inflight.ticket, error: Some(RequestError::ConnectionDropped) },
        ),
        None => None,
    }
}

/// When the session of a peer ends while a request is in flight with it, the
/// one who asked gets to see a connection-dropped error, and the peer is in
/// the table no more.
pub proof fn lemma_closed_session_drops_request(v: StateView, peer: PeerId)
    requires
        distinct_peers(v.peers),
    ensures
        !is_active(closed(v, peer).peers, peer),
        match inflight_of(v.fetched, peer) {
            Some(inflight) => dropped_of(v, peer) == Some(
                Delivery { ticket: inflight.ticket, error: Some(RequestError::ConnectionDropped) },
            ),
            None => dropped_of(v, peer).is_none(),
        },
{
    let after = closed(v, peer).peers;
    match active_index(v.peers, peer) {
        Some(at) => {
            assert(active_at(v.peers, peer, at));
            assert forall|k: int| !active_at(after, peer, k) by {
                if 0 <= k < after.len() {
                    assert(after[k] == v.peers[if k < at { k } else { k + 1 }]);
                    if k < at {
                        assert(v.peers[k].id != v.peers[at].id);
                    } else {
                        assert(v.peers[at].id != v.peers[k + 1].id);
                    }
                }
            }
        },
        None => {},
    }
}

/// The state after a response of the given kind from the peer was taken in.
pub open spec fn after_response(
    v: StateView,
    peer: PeerId,
    headers: bool,
    error: Option<RequestError>,
    likely_bad: bool,
    penalty: Option<ReputationChangeKind>,
) -> StateView {
    let outcome = outcome_of(v.fetched, v.waiting, peer, error, likely_bad, penalty);
    StateView {
        peers: peers_after_outcome(v.peers, outcome),
        fetched: peers_after_response(v.fetched, v.waiting, peer, headers, error, likely_bad),
        waiting: queued_after_response(v.fetched, v.waiting, peer, error, likely_bad),
        ..v
    }
}

/// What comes of a response of the given kind from the peer.
pub open spec fn effects_after_response(
    v: StateView,
    peer: PeerId,
    headers: bool,
    error: Option<RequestError>,
    likely_bad: bool,
    penalty: Option<ReputationChangeKind>,
) -> ResponseEffects {
    ResponseEffects {
        delivery: delivery_after_response(v.fetched, peer, headers, error),
        follow_up: follow_up_for(
            v.peers,
            outcome_of(v.fetched, v.waiting, peer, error, likely_bad, penalty),
        ),
    }
}

/// The state after a response from the peer was taken in: the fetcher
/// settles the peer and decides what follows, and what follows is done. A
/// response that is neither headers nor bodies changes nothing.
pub open spec fn responded(v: StateView, peer: PeerId, resp: PeerResponseResult) -> StateView {
    match resp {
        PeerResponseResult::BlockHeaders(res) => after_response(
            v,
            peer,
            true,
            error_of(res),
            likely_bad_for(v.fetched, peer, res),
            penalty_of(error_of(res)),
        ),
        PeerResponseResult::BlockBodies(res) => after_response(
            v,
            peer,
            false,
            error_of(res),
            likely_bad_bodies(res),
            None,
        ),
        PeerResponseResult::Other(_) => v,
    }
}

/// What comes of a response from the peer: what the one who asked gets to
/// see, and what is to be done next.
pub open spec fn effects_of_response(v: StateView, peer: PeerId, resp: PeerResponseResult)
    -> ResponseEffects {
    match resp {
        PeerResponseResult::BlockHeaders(res) => effects_after_response(
            v,
            peer,
            true,
            error_of(res),
            likely_bad_for(v.fetched, peer, res),
            penalty_of(error_of(res)),
        ),
        PeerResponseResult::BlockBodies(res) => effects_after_response(
            v,
            peer,
            false,
            error_of(res),
            likely_bad_bodies(res),
            None,
        ),
        PeerResponseResult::Other(_) => ResponseEffects {
            delivery: None,
            follow_up: FollowUp::Nothing,
        },
    }
}

/// The responses that have come, sorted out: the state after each was taken
/// from its peer, the peers whose session is gone, and the responses to be
/// taken in, each in the order in which they came.
pub struct Collected {
    pub view: StateView,
    pub closed: Seq<PeerId>,
    pub received: Seq<(PeerId, PeerResponseResult)>,
}

/// The first `n` of the responses that have come, sorted out.
pub open spec fn collected(v: StateView, ready: Seq<(PeerId, PeerResponseResult)>, n: nat)
    -> Collected
    decreases n,
{
    if n == 0 {
        Collected { view: v, closed: Seq::empty(), received: Seq::empty() }
    } else {
        let before = collected(v, ready, (n - 1) as nat);
        let peer = ready[n - 1].0;
        let resp = ready[n - 1].1;
        let view = taken(before.view, peer);
        match resolved_of(before.view, peer, resp) {
            Resolved::SessionClosed => Collected {
                view,
                closed: before.closed.push(peer),
                received: before.received,
            },
            Resolved::Response => Collected {
                view,
                closed: before.closed,
                received: before.received.push((peer, resp)),
            },
            Resolved::Unexpected => Collected {
                view,
                closed: before.closed,
                received: before.received,
            },
        }
    }
}

/// A state with what came of the steps that led to it.
pub struct Applied {
    pub view: StateView,
    pub effects: Seq<PassEffect>,
}

/// The state after the sessions of the first `n` of the peers ended, one
/// after the other, with what came of each.
pub open spec fn closures_applied(start: Applied, gone: Seq<PeerId>, n: nat) -> Applied
    decreases n,
{
    if n == 0 {
        start
    } else {
        let before = closures_applied(start, gone, (n - 1) as nat);
        let peer = gone[n - 1];
        Applied {
            view: closed(before.view, peer),
            effects: before.effects.push(
                PassEffect::Closed { peer, dropped: dropped_of(before.view, peer) },
            ),
        }
    }
}

/// The state after the first `n` of the responses were taken in, one after
/// the other, with what came of each.
pub open spec fn responses_applied(
    start: Applied,
    received: Seq<(PeerId, PeerResponseResult)>,
    n: nat,
) -> Applied
    decreases n,
{
    if n == 0 {
        start
    } else {
        let before = responses_applied(start, received, (n - 1) as nat);
        let peer = received[n - 1].0;
        let resp = received[n - 1].1;
        Applied {
            view: responded(before.view, peer, resp),
            effects: before.effects.push(
                PassEffect::Responded {
                    peer,
                    effects: effects_of_response(before.view, peer, resp),
                },
            ),
        }
    }
}

/// The state after a pass over the responses that have come, with what came
/// of it. The responses are sorted out first; then the sessions that are
/// gone are closed; then the responses are taken in.
pub open spec fn responses_processed(v: StateView, ready: Seq<(PeerId, PeerResponseResult)>)
    -> Applied {
    let sorted = collected(v, ready, ready.len());
    let after_closures = closures_applied(
        Applied { view: sorted.view, effects: Seq::empty() },
        sorted.closed,
        sorted.closed.len(),
    );
    responses_applied(after_closures, sorted.received, sorted.received.len())
}

/// The place of the peer that the fetcher hands its oldest waiting request
/// to, if a request waits and a peer is idle.
pub open spec fn next_request(fetched: Seq<FetchPeer>, waiting: Seq<DownloadRequest>) -> Option<
    int,
> {
    if waiting.len() == 0 {
        None
    } else {
        preferred(fetched, fetched.len())
    }
}

/// The state after the session of a peer started: the peer comes last in the
/// table, and the fetcher tracks it.
pub open spec fn activated(
    v: StateView,
    peer: PeerId,
    capabilities: Capabilities,
    status: Status,
    block_number: Option<u64>,
    timeout: u64,
) -> StateView {
    StateView {
        peers: v.peers.push(fresh_peer(peer, capabilities, status)),
        fetched: registered(v.fetched, fresh_fetch_peer(peer, status, block_number, timeout)),
        ..v
    }
}

/// The state after a block was gossiped with the given budget, in full or
/// by its hash: the peers that are told count as knowing it, the fetcher has
/// it as the best block of those that it found below it, and the actions
/// that tell them wait at the end of the queue.
pub open spec fn gossiped(v: StateView, msg: NewBlockMessage, budget: nat, full: bool)
    -> StateView {
    StateView {
        peers: peers_after_gossip(v.peers, v.fetched, msg, budget),
        fetched: fetch_after_gossip(v.peers, v.fetched, msg, budget, v.peers.len()),
        queued: v.queued + announcements(v.peers, msg, budget, full, v.peers.len()),
        ..v
    }
}

/// The state after a block was reported as the best one of a peer: the
/// table takes it as it is, the fetcher only where it is above the best so
/// far.
pub open spec fn block_reported(v: StateView, id: PeerId, hash: H256, number: u64) -> StateView {
    StateView {
        peers: peers_with_best(v.peers, id, hash),
        fetched: with_block(v.fetched, id, hash, number),
        ..v
    }
}

/// The state after a peer was seen to have the blocks.
pub open spec fn blocks_seen(v: StateView, id: PeerId, hashes: Seq<H256>) -> StateView {
    StateView { peers: peers_with_blocks(v.peers, id, hashes), ..v }
}

/// The state after the discovery service found something: the action that
/// reports it waits at the end of the queue.
pub open spec fn discovered(v: StateView, event: DiscoveryEvent) -> StateView {
    StateView { queued: v.queued.push(action_for_discovery(event)), ..v }
}

/// The state after the manager of the peer set asked for something: the
/// action that it asks for, if any, waits at the end of the queue, and a
/// peer that is to be disconnected is marked as closing with the fetcher.
pub open spec fn peers_asked(v: StateView, action: PeerAction) -> StateView {
    StateView {
        queued: with_action(v.queued, action_for_peers(action)),
        fetched: match closing_for_peers(action) {
            Some(peer_id) => with_closing(v.fetched, peer_id),
            None => v.fetched,
        },
        ..v
    }
}

/// The state after a request for a peer was decided on.
pub open spec fn requested(v: StateView, peer: PeerId, request: BlockRequest) -> StateView {
    StateView { peers: peers_after_request(v.peers, peer, request), ..v }
}

/// The request that is to be sent to the session of the peer, where the
/// peer is in the table.
pub open spec fn sent_for(v: StateView, peer: PeerId, request: BlockRequest) -> Option<
    SessionRequest,
> {
    if is_active(v.peers, peer) {
        Some(SessionRequest { peer_id: peer, request })
    } else {
        None
    }
}

/// The state after what follows from a response was done.
pub open spec fn outcome_done(v: StateView, outcome: BlockResponseOutcome) -> StateView {
    StateView { peers: peers_after_outcome(v.peers, Some(outcome)), ..v }
}

/// The state after a request was taken in to wait for a peer.
pub open spec fn request_queued(v: StateView, request: DownloadRequest) -> StateView {
    StateView { waiting: v.waiting.push(request), ..v }
}

/// The oldest action that waits, if one does.
pub open spec fn oldest_action(v: StateView) -> Option<StateAction> {
    if v.queued.len() > 0 {
        Some(v.queued[0])
    } else {
        None
    }
}

/// The state after the oldest action that waits was handed out.
pub open spec fn action_taken(v: StateView) -> StateView {
    if v.queued.len() > 0 {
        StateView { queued: v.queued.drop_first(), ..v }
    } else {
        v
    }
}

/// The state after the fetcher was asked for a request to send: where a
/// request waits and a peer is idle, the oldest request is in flight with
/// the preferred peer, and its response is awaited from that peer if it is
/// in the table.
pub open spec fn fetcher_polled(v: StateView) -> StateView {
    match next_request(v.fetched, v.waiting) {
        None => v,
        Some(at) => StateView {
            peers: peers_after_request(v.peers, v.fetched[at].id, v.waiting[0].request),
            fetched: v.fetched.update(at, engaged(v.fetched[at], v.waiting[0])),
            waiting: v.waiting.drop_first(),
            ..v
        },
    }
}

/// What came of asking the fetcher for a request to send.
pub open spec fn fetch_step_of(v: StateView) -> FetchStep {
    match next_request(v.fetched, v.waiting) {
        None => FetchStep::Done,
        Some(at) => if is_active(v.peers, v.fetched[at].id) {
            FetchStep::Sent(
                SessionRequest { peer_id: v.fetched[at].id, request: v.waiting[0].request },
            )
        } else {
            FetchStep::Skipped
        },
    }
}

} // verus!
