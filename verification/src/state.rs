//! The state of all peers in the network: who is connected, what each peer
//! is known to have, which response is awaited from it, and the actions that
//! wait to be handed out.

use crate::cache::{extended, inserted, lemma_insert_keeps_limit, LruCache};
use crate::fanout::{fan_out, fan_out_spec};
use crate::fetch::{
    advances, with_timeout, BlockResponseOutcome, Delivery, DownloadRequest, FetchAction,
    FetchPeer, PollAction, ResponseOutcome, StateFetcher,
};
use crate::gossip::{
    announcements, fetch_after_gossip, is_told, lemma_announcements_len, lemma_budget_spent,
    lemma_not_told_before, lemma_unbounded_budget, lemma_unknowing_grows, peers_after_gossip,
    unknowing,
};
use crate::message::{
    DiscoveryCommand, DiscoveryEvent, FetchStep, FollowUp, PassEffect, PeerAction, PeerResponse,
    PeerResponseResult, PeersCommand, Resolved, ResponseEffects, SessionRequest, StateAction,
};
use crate::model::{
    action_taken, activated, ban_for_peers, block_reported, blocks_seen, closed,
    closures_applied, collected, discovered, dropped_of, effects_of_response, fetch_step_of,
    fetcher_polled, follow_up_for, gossiped, oldest_action, outcome_done, peers_asked,
    request_queued, requested, resolved_of, responded, responses_applied, responses_processed,
    sent_for, taken, Applied, Collected, StateView,
};
use crate::peer::{
    active_at, active_index, bounded_caches, distinct_peers, fresh_peer, hashes_of, is_active,
    knows, views, ActivePeer, ActivePeerView, PEER_BLOCK_CACHE_LIMIT,
};
use crate::primitives::{
    BlockHashNumber, BlockRequest, Capabilities, ForkId, IpAddr, NewBlockMessage, PeerId,
    PeerKind, SocketAddr, Status, H256,
};
use std::collections::VecDeque;
use vstd::prelude::*;

verus! {

/// The state of all peers in the network.
#[derive(Debug)]
pub struct NetworkState {
    /// The active peers, in the order in which their sessions started.
    active_peers: Vec<ActivePeer>,
    /// The actions that wait to be handed out, oldest first.
    queued_messages: VecDeque<StateAction>,
    /// The genesis hash of the network.
    genesis_hash: H256,
    /// The request pipeline of the peers.
    state_fetcher: StateFetcher,
}

impl NetworkState {
    /// The table of active peers, in the order in which their sessions
    /// started.
    pub closed spec fn peers(&self) -> Seq<ActivePeerView> {
        views(self.active_peers@)
    }

    /// The actions that wait to be handed out, oldest first.
    pub closed spec fn queued(&self) -> Seq<StateAction> {
        self.queued_messages@
    }

    /// The request pipeline of the peers.
    pub closed spec fn fetcher(&self) -> StateFetcher {
        self.state_fetcher
    }

    /// The genesis hash of the network.
    pub closed spec fn spec_genesis_hash(&self) -> H256 {
        self.genesis_hash
    }

    /// No peer is in the table twice, every cache of known blocks is sound
    /// and has the limit of every peer, and the fetcher is sound.
    pub closed spec fn wf(&self) -> bool {
        &&& distinct_peers(views(self.active_peers@))
        &&& forall|k: int|
            0 <= k < self.active_peers@.len() ==> (#[trigger] self.active_peers@[k]).wf()
        &&& self.state_fetcher.wf()
    }

    /// In a sound state no peer is in the table twice, no peer is known to
    /// have more blocks than the limit, and the fetcher tracks no peer twice.
    pub proof fn lemma_wf(&self)
        requires
            self.wf(),
        ensures
            distinct_peers(self.peers()),
            bounded_caches(self.peers()),
            self.fetcher().wf(),
    {
        assert forall|k: int| 0 <= k < self.peers().len() implies (
        #[trigger] self.peers()[k]).blocks.len() <= PEER_BLOCK_CACHE_LIMIT
            && self.peers()[k].blocks.no_duplicates() by {
            assert(self.active_peers@[k].wf());
        }
    }

    /// A state without peers and without actions.
    pub fn new(genesis_hash: H256) -> (state: Self)
        ensures
            state.wf(),
            state.peers() == Seq::<ActivePeerView>::empty(),
            state.queued() == Seq::<StateAction>::empty(),
            state.fetcher().peers() == Seq::<FetchPeer>::empty(),
            state.fetcher().queued().len() == 0,
            state.spec_genesis_hash() == genesis_hash,
    {
        let state = NetworkState {
            active_peers: Vec::new(),
            queued_messages: VecDeque::new(),
            genesis_hash,
            state_fetcher: StateFetcher::new(),
        };
        assert(state.peers() =~= Seq::<ActivePeerView>::empty());
        state
    }

    /// The genesis hash of the network.
    pub fn genesis_hash(&self) -> (hash: H256)
        ensures
            hash == self.spec_genesis_hash(),
    {
        self.genesis_hash
    }

    /// The number of peers with an active session.
    pub fn num_active_peers(&self) -> (n: usize)
        ensures
            n == self.peers().len(),
    {
        self.active_peers.len()
    }

    /// The number of actions that wait to be handed out.
    pub fn num_queued(&self) -> (n: usize)
        ensures
            n == self.queued().len(),
    {
        self.queued_messages.len()
    }

    /// The request pipeline of the peers.
    pub fn state_fetcher(&self) -> (fetcher: &StateFetcher)
        ensures
            *fetcher == self.fetcher(),
    {
        &self.state_fetcher
    }

    /// Where the peer with this id stands in the table.
    fn find(&self, id: &PeerId) -> (found: Option<usize>)
        requires
            self.wf(),
        ensures
            match found {
                Some(at) => active_index(self.peers(), *id) == Some(at as int) && active_at(
                    self.peers(),
                    *id,
                    at as int,
                ) && at < self.active_peers@.len(),
                None => active_index(self.peers(), *id).is_none() && !is_active(
                    self.peers(),
                    *id,
                ),
            },
    {
        let ghost table = self.peers();
        let mut i: usize = 0;
        while i < self.active_peers.len()
            invariant
                self.wf(),
                table == self.peers(),
                i <= self.active_peers@.len(),
                forall|k: int| 0 <= k < i ==> !active_at(table, *id, k),
            decreases self.active_peers@.len() - i,
        {
            if self.active_peers[i].id == *id {
                proof {
                    assert(active_at(table, *id, i as int));
                    let chosen = choose|at: int| active_at(table, *id, at);
                    assert(active_at(table, *id, chosen));
                    if chosen < i {
                        assert(table[chosen].id != table[i as int].id);
                    }
                    if chosen > i {
                        assert(table[i as int].id != table[chosen].id);
                    }
                }
                return Some(i);
            }
            i += 1;
        }
        None
    }

    /// Whether the peer with this id has an active session.
    pub fn is_active_peer(&self, id: &PeerId) -> (active: bool)
        requires
            self.wf(),
        ensures
            active == is_active(self.peers(), *id),
    {
        self.find(id).is_some()
    }

    /// The best block that is known of the peer with this id.
    pub fn best_hash(&self, id: &PeerId) -> (hash: Option<H256>)
        requires
            self.wf(),
        ensures
            hash == match active_index(self.peers(), *id) {
                Some(at) => Some(self.peers()[at].best_hash),
                None => None,
            },
    {
        match self.find(id) {
            Some(at) => Some(self.active_peers[at].best_hash),
            None => None,
        }
    }

    /// The response that is awaited from the peer with this id.
    pub fn pending_response(&self, id: &PeerId) -> (pending: Option<PeerResponse>)
        requires
            self.wf(),
        ensures
            pending == match active_index(self.peers(), *id) {
                Some(at) => self.peers()[at].pending_response,
                None => None,
            },
    {
        match self.find(id) {
            Some(at) => self.active_peers[at].pending_response,
            None => None,
        }
    }

    /// Whether the peer with this id is active and known to have the block.
    pub fn peer_knows_block(&self, id: &PeerId, hash: &H256) -> (known: bool)
        requires
            self.wf(),
        ensures
            known == match active_index(self.peers(), *id) {
                Some(at) => knows(self.peers()[at], *hash),
                None => false,
            },
    {
        match self.find(id) {
            Some(at) => self.active_peers[at].blocks.contains(hash),
            None => false,
        }
    }

    /// Takes in a peer whose session has started. The peer must not be in
    /// the table yet. It comes last in the table, with its head block as
    /// its best one, no block known and no response awaited, and the fetcher
    /// tracks it from now on under the number of its head block, or under
    /// zero where that number could not be looked up, with the time that it
    /// is given to answer.
    pub fn on_session_activated(
        &mut self,
        peer: PeerId,
        capabilities: Capabilities,
        status: Status,
        block_number: Option<u64>,
        timeout: u64,
    )
        requires
            old(self).wf(),
            !is_active(old(self).peers(), peer),
        ensures
            final(self).wf(),
            final(self)@ == activated(
                old(self)@,
                peer,
                capabilities,
                status,
                block_number,
                timeout,
            ),
    {
        let number: u64 = match block_number {
            Some(number) => number,
            None => 0,
        };
        self.state_fetcher.new_active_peer(peer, status.blockhash, number, timeout);
        let ghost table = self.peers();
        self.active_peers.push(
            ActivePeer {
                id: peer,
                best_hash: status.blockhash,
                capabilities,
                pending_response: None,
                blocks: LruCache::new(PEER_BLOCK_CACHE_LIMIT),
            },
        );
        proof {
            assert(self.peers() =~= table.push(fresh_peer(peer, capabilities, status)));
            assert forall|i: int, j: int| 0 <= i < j < self.peers().len() implies (
            #[trigger] self.peers()[i]).id != (#[trigger] self.peers()[j]).id by {
                if j < table.len() {
                    assert(table[i].id != table[j].id);
                } else {
                    assert(!active_at(table, peer, i));
                }
            }
        }
    }

    /// Takes in a peer whose session has started, unless it is in the table
    /// already: then nothing changes and `false` is returned.
    pub fn try_on_session_activated(
        &mut self,
        peer: PeerId,
        capabilities: Capabilities,
        status: Status,
        block_number: Option<u64>,
        timeout: u64,
    ) -> (accepted: bool)
        requires
            old(self).wf(),
        ensures
            final(self).wf(),
            accepted == !is_active(old(self)@.peers, peer),
            final(self)@ == if accepted {
                activated(old(self)@, peer, capabilities, status, block_number, timeout)
            } else {
                old(self)@
            },
    {
        if self.is_active_peer(&peer) {
            return false;
        }
        self.on_session_activated(peer, capabilities, status, block_number, timeout);
        true
    }

    /// Takes in the end of a peer's session. The peer leaves the table, if
    /// it is in it, and the fetcher stops tracking it. Where a request was
    /// in flight with it, the one who asked is owed a connection-dropped
    /// error, which is handed back.
    pub fn on_session_closed(&mut self, peer: PeerId) -> (dropped: Option<Delivery>)
        requires
            old(self).wf(),
        ensures
            final(self).wf(),
            final(self)@ == closed(old(self)@, peer),
            dropped == dropped_of(old(self)@, peer),
            !is_active(final(self).peers(), peer),
    {
        let ghost table = self.peers();
        match self.find(&peer) {
            Some(at) => {
                let ghost before = self.active_peers@;
                self.active_peers.remove(at);
                proof {
                    assert(self.peers() =~= table.remove(at as int));
                    assert forall|k: int| 0 <= k < self.active_peers@.len() implies (
                    #[trigger] self.active_peers@[k]).wf() by {
                        assert(self.active_peers@[k] == before[if k < at { k } else { k + 1 }]);
                    }
                    assert forall|i: int, j: int| 0 <= i < j < self.peers().len() implies (
                    #[trigger] self.peers()[i]).id != (#[trigger] self.peers()[j]).id by {
                        assert(self.peers()[i] == table[if i < at { i } else { i + 1 }]);
                        assert(self.peers()[j] == table[if j < at { j } else { j + 1 }]);
                    }
                    assert forall|k: int| !active_at(self.peers(), peer, k) by {
                        if 0 <= k < self.peers().len() {
                            assert(self.peers()[k] == table[if k < at { k } else { k + 1 }]);
                            if k < at {
                                assert(table[k].id != table[at as int].id);
                            } else {
                                assert(table[at as int].id != table[k + 1].id);
                            }
                        }
                    }
                }
            },
            None => {},
        }
        self.state_fetcher.on_session_closed(&peer)
    }

    /// Tells the peers of the table of a block, in the order of the table,
    /// until `budget` peers were told: every peer that is not known to have
    /// the block is told, as long as the budget lasts.
    fn gossip(&mut self, msg: NewBlockMessage, budget: usize, full: bool)
        requires
            old(self).wf(),
        ensures
            final(self).wf(),
            final(self)@ == gossiped(old(self)@, msg, budget as nat, full),
    {
        let n = self.active_peers.len();
        let ghost table = self.peers();
        let ghost fetched = self.state_fetcher.peers();
        let ghost waiting = self.queued_messages@;
        let ghost goal = peers_after_gossip(table, fetched, msg, budget as nat);
        let mut i: usize = 0;
        let mut count: usize = 0;
        proof {
            assert(self.state_fetcher.peers() =~= fetch_after_gossip(
                table,
                fetched,
                msg,
                budget as nat,
                0,
            ));
            assert(self.queued_messages@ =~= waiting + announcements(
                table,
                msg,
                budget as nat,
                full,
                0,
            ));
        }
        while i < n && count < budget
            invariant
                i <= n,
                n == self.active_peers@.len(),
                n == table.len(),
                table == old(self).peers(),
                fetched == old(self).fetcher().peers(),
                waiting == old(self).queued(),
                goal == peers_after_gossip(table, fetched, msg, budget as nat),
                distinct_peers(table),
                count == unknowing(table, msg.hash, i as nat),
                count <= budget,
                forall|k: int| 0 <= k < n ==> (#[trigger] self.active_peers@[k]).wf(),
                forall|k: int| 0 <= k < i ==> (#[trigger] self.active_peers@[k])@ == goal[k],
                forall|k: int| i <= k < n ==> (#[trigger] self.active_peers@[k])@ == table[k],
                self.state_fetcher.wf(),
                self.state_fetcher.queued() == old(self).fetcher().queued(),
                self.state_fetcher.peers() == fetch_after_gossip(
                    table,
                    fetched,
                    msg,
                    budget as nat,
                    i as nat,
                ),
                self.queued_messages@ == waiting + announcements(
                    table,
                    msg,
                    budget as nat,
                    full,
                    i as nat,
                ),
                self.genesis_hash == old(self).genesis_hash,
            decreases n - i,
        {
            let known = self.active_peers[i].blocks.contains(&msg.hash);
            let ghost reached = self.state_fetcher.peers();
            if !known {
                let peer_id = self.active_peers[i].id;
                let action = if full {
                    StateAction::NewBlock { peer_id, block: msg }
                } else {
                    StateAction::NewBlockHashes {
                        peer_id,
                        hashes: BlockHashNumber { hash: msg.hash, number: msg.number },
                    }
                };
                self.queued_messages.push_back(action);
                let advanced = self.state_fetcher.update_peer_block(&peer_id, msg.hash, msg.number);
                proof {
                    assert(is_told(table, msg.hash, budget as nat, i as int));
                    lemma_not_told_before(table, msg.hash, budget as nat, i as nat, i as int);
                    if advances(reached, peer_id, msg.number) {
                        let at = choose|at: int|
                            crate::fetch::peer_at(reached, peer_id, at) && msg.number
                                > reached[at].best_number;
                        assert(crate::fetch::peer_at(fetched, peer_id, at) && msg.number
                            > fetched[at].best_number);
                    }
                    if advances(fetched, peer_id, msg.number) {
                        let at = choose|at: int|
                            crate::fetch::peer_at(fetched, peer_id, at) && msg.number
                                > fetched[at].best_number;
                        assert(crate::fetch::peer_at(reached, peer_id, at) && msg.number
                            > reached[at].best_number);
                    }
                    assert(advanced == advances(fetched, peer_id, msg.number));
                }
                if advanced {
                    self.active_peers[i].best_hash = msg.hash;
                }
                self.active_peers[i].blocks.insert(msg.hash);
                count += 1;
                proof {
                    assert(self.active_peers@[i as int]@ == goal[i as int]);
                }
            } else {
                proof {
                    assert(!is_told(table, msg.hash, budget as nat, i as int));
                    assert(self.active_peers@[i as int]@ == goal[i as int]);
                }
            }
            proof {
                assert(self.state_fetcher.peers() =~= fetch_after_gossip(
                    table,
                    fetched,
                    msg,
                    budget as nat,
                    (i + 1) as nat,
                ));
                assert(self.queued_messages@ =~= waiting + announcements(
                    table,
                    msg,
                    budget as nat,
                    full,
                    (i + 1) as nat,
                ));
            }
            i += 1;
        }
        proof {
            if i < n {
                lemma_budget_spent(table, msg, budget as nat, full, i as nat, n as nat);
                assert forall|k: int| i <= k < n implies !is_told(
                    table,
                    msg.hash,
                    budget as nat,
                    k,
                ) by {
                    lemma_unknowing_grows(table, msg.hash, i as nat, k as nat);
                }
            }
            assert(self.state_fetcher.peers() =~= fetch_after_gossip(
                table,
                fetched,
                msg,
                budget as nat,
                n as nat,
            ));
            assert(self.peers() =~= goal);
            assert forall|a: int, b: int| 0 <= a < b < self.peers().len() implies (
            #[trigger] self.peers()[a]).id != (#[trigger] self.peers()[b]).id by {
                assert(table[a].id != table[b].id);
            }
        }
    }
}

impl NetworkState {
    /// The state as a plain value.
    pub open spec fn view(&self) -> StateView {
        StateView {
            peers: self.peers(),
            fetched: self.fetcher().peers(),
            waiting: self.fetcher().queued(),
            queued: self.queued(),
            genesis_hash: self.spec_genesis_hash(),
        }
    }

    /// Starts to spread a block: the full block goes to the first peers of
    /// the table that are not known to have it, as many as the square root
    /// of the number of peers, rounded down, and one more. Each of them then
    /// counts as knowing the block, and the block is its best one where the
    /// fetcher finds it above the best so far.
    pub fn announce_new_block(&mut self, msg: NewBlockMessage)
        requires
            old(self).wf(),
        ensures
            final(self).wf(),
            final(self)@ == gossiped(old(self)@, msg, fan_out_spec(old(self)@.peers.len()), true),
            final(self)@.queued.len() <= old(self)@.queued.len() + fan_out_spec(
                old(self)@.peers.len(),
            ),
    {
        let num_propagate = fan_out(self.active_peers.len());
        proof {
            lemma_announcements_len(
                self.peers(),
                msg,
                num_propagate as nat,
                true,
                self.peers().len(),
            );
        }
        self.gossip(msg, num_propagate, true);
    }

    /// Completes the spreading of a block: the announcement of its hash goes
    /// to every peer that is not known to have it. Afterwards every peer
    /// counts as knowing the block.
    pub fn announce_new_block_hash(&mut self, msg: NewBlockMessage)
        requires
            old(self).wf(),
        ensures
            final(self).wf(),
            final(self)@ == gossiped(old(self)@, msg, old(self)@.peers.len(), false),
            forall|k: int|
                0 <= k < old(self)@.peers.len() ==> is_told(
                    old(self)@.peers,
                    msg.hash,
                    old(self)@.peers.len(),
                    k,
                ) == !knows(#[trigger] old(self)@.peers[k], msg.hash),
            forall|k: int|
                0 <= k < final(self)@.peers.len() ==> knows(
                    #[trigger] final(self)@.peers[k],
                    msg.hash,
                ),
            final(self)@.queued.len() == old(self)@.queued.len() + unknowing(
                old(self)@.peers,
                msg.hash,
                old(self)@.peers.len(),
            ),
    {
        let n = self.active_peers.len();
        let ghost table = self.peers();
        self.gossip(msg, n, false);
        proof {
            lemma_announcements_len(table, msg, n as nat, false, n as nat);
            lemma_unknowing_grows(table, msg.hash, n as nat, n as nat);
            assert forall|k: int| 0 <= k < n implies is_told(table, msg.hash, n as nat, k)
                == !knows(#[trigger] table[k], msg.hash) by {
                lemma_unbounded_budget(table, msg.hash, n as nat, k);
            }
            assert forall|k: int| 0 <= k < self.peers().len() implies knows(
                #[trigger] self.peers()[k],
                msg.hash,
            ) by {
                lemma_unbounded_budget(table, msg.hash, n as nat, k);
                old(self).lemma_wf();
                lemma_insert_keeps_limit(table[k].blocks, PEER_BLOCK_CACHE_LIMIT as nat, msg.hash);
            }
        }
    }

    /// Notes a block as the best one of the peer, in the table and with the
    /// fetcher; the fetcher takes it only where it is above the best so far.
    pub fn update_peer_block(&mut self, peer_id: &PeerId, hash: H256, number: u64)
        requires
            old(self).wf(),
        ensures
            final(self).wf(),
            final(self)@ == block_reported(old(self)@, *peer_id, hash, number),
    {
        let ghost table = self.peers();
        match self.find(peer_id) {
            Some(at) => {
                self.active_peers[at].best_hash = hash;
                proof {
                    self.lemma_same_ids(
                        table,
                        at as int,
                        ActivePeerView { best_hash: hash, ..table[at as int] },
                    );
                }
            },
            None => {},
        }
        self.state_fetcher.update_peer_block(peer_id, hash, number);
    }

    /// After the peer at `at` changed but kept its id, the table is the old
    /// one with that peer replaced, and still holds no peer twice.
    proof fn lemma_same_ids(&self, table: Seq<ActivePeerView>, at: int, peer: ActivePeerView)
        requires
            distinct_peers(table),
            0 <= at < table.len(),
            self.active_peers@.len() == table.len(),
            peer.id == table[at].id,
            self.active_peers@[at]@ == peer,
            forall|k: int|
                0 <= k < table.len() && k != at ==> (#[trigger] self.active_peers@[k])@
                    == table[k],
        ensures
            self.peers() == table.update(at, peer),
            distinct_peers(self.peers()),
    {
        assert(self.peers() =~= table.update(at, peer));
        assert forall|i: int, j: int| 0 <= i < j < self.peers().len() implies (
        #[trigger] self.peers()[i]).id != (#[trigger] self.peers()[j]).id by {
            assert(table[i].id != table[j].id);
        }
    }

    /// Notes the time that the peer is given to answer from now on.
    pub fn update_peer_timeout(&mut self, peer_id: &PeerId, timeout: u64)
        requires
            old(self).wf(),
        ensures
            final(self).wf(),
            final(self)@ == (StateView {
                fetched: with_timeout(old(self)@.fetched, *peer_id, timeout),
                ..old(self)@
            }),
    {
        self.state_fetcher.update_peer_timeout(peer_id, timeout);
    }

    /// The call that tells the discovery service of a new fork id.
    pub fn update_fork_id(&self, fork_id: ForkId) -> (command: DiscoveryCommand)
        ensures
            command == DiscoveryCommand::UpdateForkId(fork_id),
    {
        DiscoveryCommand::UpdateForkId(fork_id)
    }

    /// Notes that the peer sent the block: it counts as known to the peer.
    pub fn on_new_block(&mut self, peer_id: PeerId, hash: H256)
        requires
            old(self).wf(),
        ensures
            final(self).wf(),
            final(self)@ == blocks_seen(old(self)@, peer_id, seq![hash]),
    {
        let ghost table = self.peers();
        match self.find(&peer_id) {
            Some(at) => {
                self.active_peers[at].blocks.insert(hash);
                proof {
                    let hashes = seq![hash];
                    let limit = PEER_BLOCK_CACHE_LIMIT as nat;
                    assert(extended(table[at as int].blocks, limit, hashes, 0)
                        == table[at as int].blocks);
                    assert(extended(table[at as int].blocks, limit, hashes, 1) == inserted(
                        table[at as int].blocks,
                        limit,
                        hash,
                    ));
                    self.lemma_same_ids(
                        table,
                        at as int,
                        ActivePeerView {
                            blocks: inserted(table[at as int].blocks, limit, hash),
                            ..table[at as int]
                        },
                    );
                }
            },
            None => {},
        }
    }

    /// Notes that the peer announced the blocks: they count as known to the
    /// peer, in the order of the announcement.
    pub fn on_new_block_hashes(&mut self, peer_id: PeerId, hashes: Vec<BlockHashNumber>)
        requires
            old(self).wf(),
        ensures
            final(self).wf(),
            final(self)@ == blocks_seen(old(self)@, peer_id, hashes_of(hashes@)),
    {
        let ghost table = self.peers();
        let ghost seen = hashes_of(hashes@);
        let ghost limit = PEER_BLOCK_CACHE_LIMIT as nat;
        match self.find(&peer_id) {
            Some(at) => {
                let mut i: usize = 0;
                while i < hashes.len()
                    invariant
                        i <= hashes@.len(),
                        at < self.active_peers@.len(),
                        self.active_peers@.len() == table.len(),
                        seen == hashes_of(hashes@),
                        limit == PEER_BLOCK_CACHE_LIMIT as nat,
                        forall|k: int|
                            0 <= k < table.len() ==> (#[trigger] self.active_peers@[k]).wf(),
                        forall|k: int|
                            0 <= k < table.len() && k != at ==> (
                            #[trigger] self.active_peers@[k])@ == table[k],
                        self.active_peers@[at as int]@ == (ActivePeerView {
                            blocks: extended(table[at as int].blocks, limit, seen, i as nat),
                            ..table[at as int]
                        }),
                        self.state_fetcher == old(self).state_fetcher,
                        self.queued_messages == old(self).queued_messages,
                        self.genesis_hash == old(self).genesis_hash,
                    decreases hashes@.len() - i,
                {
                    self.active_peers[at].blocks.insert(hashes[i].hash);
                    i += 1;
                }
                proof {
                    self.lemma_same_ids(
                        table,
                        at as int,
                        ActivePeerView {
                            blocks: extended(table[at as int].blocks, limit, seen, seen.len()),
                            ..table[at as int]
                        },
                    );
                }
            },
            None => {},
        }
    }

    /// The call that bans the address with the discovery service.
    pub fn ban_ip_discovery(&self, ip: IpAddr) -> (command: DiscoveryCommand)
        ensures
            command == DiscoveryCommand::BanIp(ip),
    {
        DiscoveryCommand::BanIp(ip)
    }

    /// The call that bans the peer and its address with the discovery
    /// service.
    pub fn ban_discovery(&self, peer_id: PeerId, ip: IpAddr) -> (command: DiscoveryCommand)
        ensures
            command == DiscoveryCommand::Ban(peer_id, ip),
    {
        DiscoveryCommand::Ban(peer_id, ip)
    }

    /// The call that adds the peer with its address to the peer set.
    pub fn add_peer_kind(&self, peer_id: PeerId, kind: PeerKind, addr: SocketAddr) -> (command:
        PeersCommand)
        ensures
            command == PeersCommand::AddPeerKind(peer_id, kind, addr),
    {
        PeersCommand::AddPeerKind(peer_id, kind, addr)
    }

    /// The call that removes the peer from the peer set: from the trusted
    /// set where it is of that kind.
    pub fn remove_peer(&self, peer_id: PeerId, kind: PeerKind) -> (command: PeersCommand)
        ensures
            command == match kind {
                PeerKind::Basic => PeersCommand::RemovePeer(peer_id),
                PeerKind::Trusted => PeersCommand::RemovePeerFromTrustedSet(peer_id),
            },
    {
        match kind {
            PeerKind::Basic => PeersCommand::RemovePeer(peer_id),
            PeerKind::Trusted => PeersCommand::RemovePeerFromTrustedSet(peer_id),
        }
    }

    /// Takes in what the discovery service found: the action that reports
    /// it joins the queue.
    pub fn on_discovery_event(&mut self, event: DiscoveryEvent)
        requires
            old(self).wf(),
        ensures
            final(self).wf(),
            final(self)@ == discovered(old(self)@, event),
    {
        let action = match event {
            DiscoveryEvent::Discovered { peer_id, socket_addr, fork_id } => {
                StateAction::DiscoveredNode { peer_id, socket_addr, fork_id }
            },
            DiscoveryEvent::EnrForkId(peer_id, fork_id) => {
                StateAction::DiscoveredEnrForkId { peer_id, fork_id }
            },
        };
        self.queued_messages.push_back(action);
    }

    /// Takes in what the manager of the peer set asks for. A connect, a
    /// disconnect and a change of the peer set join the queue as actions; a
    /// peer that is to be disconnected gets no further request. A ban is
    /// handed back, to be made with the discovery service at once.
    pub fn on_peer_action(&mut self, action: PeerAction) -> (ban: Option<DiscoveryCommand>)
        requires
            old(self).wf(),
        ensures
            final(self).wf(),
            final(self)@ == peers_asked(old(self)@, action),
            ban == ban_for_peers(action),
    {
        match action {
            PeerAction::Connect { peer_id, remote_addr } => {
                self.queued_messages.push_back(StateAction::Connect { peer_id, remote_addr });
                None
            },
            PeerAction::Disconnect { peer_id, reason } => {
                self.state_fetcher.on_pending_disconnect(&peer_id);
                self.queued_messages.push_back(StateAction::Disconnect { peer_id, reason });
                None
            },
            PeerAction::DisconnectBannedIncoming { peer_id } => {
                self.state_fetcher.on_pending_disconnect(&peer_id);
                self.queued_messages.push_back(StateAction::Disconnect { peer_id, reason: None });
                None
            },
            PeerAction::DiscoveryBanPeerId { peer_id, ip_addr } => Some(
                self.ban_discovery(peer_id, ip_addr),
            ),
            PeerAction::DiscoveryBanIp { ip_addr } => Some(self.ban_ip_discovery(ip_addr)),
            PeerAction::PeerAdded(peer_id) => {
                self.queued_messages.push_back(StateAction::PeerAdded(peer_id));
                None
            },
            PeerAction::PeerRemoved(peer_id) => {
                self.queued_messages.push_back(StateAction::PeerRemoved(peer_id));
                None
            },
            PeerAction::BanPeer { .. } => None,
            PeerAction::UnBanPeer { .. } => None,
        }
    }

    /// Decides on a request for a peer. Where the peer is in the table, the
    /// request is handed back to be sent to its session, and its response is
    /// awaited from now on, in place of any that was awaited before.
    /// Where it is not, nothing happens.
    pub fn handle_block_request(&mut self, peer: PeerId, request: BlockRequest) -> (sent: Option<
        SessionRequest,
    >)
        requires
            old(self).wf(),
        ensures
            final(self).wf(),
            final(self)@ == requested(old(self)@, peer, request),
            sent == sent_for(old(self)@, peer, request),
    {
        let ghost table = self.peers();
        match self.find(&peer) {
            Some(at) => {
                let response = match &request {
                    BlockRequest::GetBlockHeaders(_) => PeerResponse::BlockHeaders,
                    BlockRequest::GetBlockBodies(_) => PeerResponse::BlockBodies,
                };
                self.active_peers[at].pending_response = Some(response);
                proof {
                    self.lemma_same_ids(
                        table,
                        at as int,
                        ActivePeerView { pending_response: Some(response), ..table[at as int] },
                    );
                }
                Some(SessionRequest { peer_id: peer, request })
            },
            None => None,
        }
    }

    /// Does what follows from a response: a further request is decided on
    /// as any request is, a penalty is handed back as the call to the
    /// manager of the peer set.
    pub fn on_block_response_outcome(&mut self, outcome: BlockResponseOutcome) -> (follow_up:
        FollowUp)
        requires
            old(self).wf(),
        ensures
            final(self).wf(),
            final(self)@ == outcome_done(old(self)@, outcome),
            follow_up == follow_up_for(old(self)@.peers, Some(outcome)),
    {
        match outcome {
            BlockResponseOutcome::Request(peer, request) => {
                match self.handle_block_request(peer, request) {
                    Some(sent) => FollowUp::Send(sent),
                    None => FollowUp::Nothing,
                }
            },
            BlockResponseOutcome::BadResponse(peer, reputation_change) => FollowUp::Peers(
                PeersCommand::ApplyReputationChange(peer, reputation_change),
            ),
        }
    }

    /// Takes in a response from a peer. The fetcher finds the one who asked
    /// and decides what follows: a further request for the peer, which is
    /// decided on at once, or a penalty. A response of another kind changes
    /// nothing.
    pub fn on_eth_response(&mut self, peer: PeerId, resp: PeerResponseResult) -> (effects:
        ResponseEffects)
        requires
            old(self).wf(),
        ensures
            final(self).wf(),
            final(self)@ == responded(old(self)@, peer, resp),
            effects == effects_of_response(old(self)@, peer, resp),
    {
        let handled = match resp {
            PeerResponseResult::BlockHeaders(res) => self.state_fetcher.on_block_headers_response(
                peer,
                res,
            ),
            PeerResponseResult::BlockBodies(res) => self.state_fetcher.on_block_bodies_response(
                peer,
                res,
            ),
            PeerResponseResult::Other(_) => {
                return ResponseEffects { delivery: None, follow_up: FollowUp::Nothing };
            },
        };
        let ResponseOutcome { delivery, outcome } = handled;
        let follow_up = match outcome {
            Some(outcome) => self.on_block_response_outcome(outcome),
            None => FollowUp::Nothing,
        };
        ResponseEffects { delivery, follow_up }
    }

    /// Takes in a request that waits for a peer.
    pub fn queue_request(&mut self, request: DownloadRequest)
        requires
            old(self).wf(),
        ensures
            final(self).wf(),
            final(self)@ == request_queued(old(self)@, request),
    {
        self.state_fetcher.queue_request(request);
    }

    /// Hands out the oldest action that waits, if one does.
    pub fn poll_queued(&mut self) -> (action: Option<StateAction>)
        requires
            old(self).wf(),
        ensures
            final(self).wf(),
            final(self)@ == action_taken(old(self)@),
            action == oldest_action(old(self)@),
    {
        self.queued_messages.pop_front()
    }

    /// Asks the fetcher for the next request to send and decides on it as
    /// on any request.
    pub fn poll_fetcher(&mut self) -> (step: FetchStep)
        requires
            old(self).wf(),
        ensures
            final(self).wf(),
            final(self)@ == fetcher_polled(old(self)@),
            step == fetch_step_of(old(self)@),
    {
        match self.state_fetcher.poll_action() {
            PollAction::Ready(FetchAction::BlockRequest { peer_id, request }) => {
                match self.handle_block_request(peer_id, request) {
                    Some(sent) => FetchStep::Sent(sent),
                    None => FetchStep::Skipped,
                }
            },
            PollAction::NoRequests => FetchStep::Done,
            PollAction::NoPeersAvailable => FetchStep::Done,
        }
    }

    /// Makes one pass over the responses that have come from the sessions,
    /// each with the peer that it came from. First every response is taken
    /// from its peer and sorted out, with the table otherwise untouched.
    /// Then the sessions that turned out to be gone are closed, and after
    /// that the responses are taken in, each in the order in which it came.
    /// What came of each step is handed back in that order.
    pub fn process_responses(&mut self, ready: Vec<(PeerId, PeerResponseResult)>) -> (effects: Vec<
        PassEffect,
    >)
        requires
            old(self).wf(),
        ensures
            final(self).wf(),
            final(self)@ == responses_processed(old(self)@, ready@).view,
            effects@ == responses_processed(old(self)@, ready@).effects,
    {
        let ghost start = self@;
        let mut closed_sessions: Vec<PeerId> = Vec::new();
        let mut received_responses: Vec<(PeerId, PeerResponseResult)> = Vec::new();
        let mut i: usize = 0;
        while i < ready.len()
            invariant
                i <= ready@.len(),
                self.wf(),
                collected(start, ready@, i as nat) == (Collected {
                    view: self@,
                    closed: closed_sessions@,
                    received: received_responses@,
                }),
            decreases ready@.len() - i,
        {
            let peer = ready[i].0;
            let resp = ready[i].1;
            match self.take_response(peer, &resp) {
                Resolved::SessionClosed => {
                    closed_sessions.push(peer);
                },
                Resolved::Response => {
                    received_responses.push((peer, resp));
                },
                Resolved::Unexpected => {},
            }
            i += 1;
        }
        let ghost sorted = collected(start, ready@, ready@.len());
        let ghost unapplied = Applied { view: sorted.view, effects: Seq::empty() };
        let mut effects: Vec<PassEffect> = Vec::new();
        let mut j: usize = 0;
        while j < closed_sessions.len()
            invariant
                j <= closed_sessions@.len(),
                self.wf(),
                closures_applied(unapplied, closed_sessions@, j as nat) == (Applied {
                    view: self@,
                    effects: effects@,
                }),
            decreases closed_sessions@.len() - j,
        {
            let peer = closed_sessions[j];
            let dropped = self.on_session_closed(peer);
            effects.push(PassEffect::Closed { peer, dropped });
            j += 1;
        }
        let ghost after_closures = closures_applied(
            unapplied,
            closed_sessions@,
            closed_sessions@.len(),
        );
        let mut k: usize = 0;
        while k < received_responses.len()
            invariant
                k <= received_responses@.len(),
                self.wf(),
                responses_applied(after_closures, received_responses@, k as nat) == (Applied {
                    view: self@,
                    effects: effects@,
                }),
            decreases received_responses@.len() - k,
        {
            let peer = received_responses[k].0;
            let resp = received_responses[k].1;
            let came = self.on_eth_response(peer, resp);
            effects.push(PassEffect::Responded { peer, effects: came });
            k += 1;
        }
        effects
    }

    /// Takes the response that is awaited from the peer, now that it has
    /// come, and says what it is: the end of the session, where its error is
    /// a closed channel, or a response to be taken in. Where none is awaited
    /// from the peer, nothing changes.
    pub fn take_response(&mut self, peer: PeerId, resp: &PeerResponseResult) -> (resolved: Resolved)
        requires
            old(self).wf(),
        ensures
            final(self).wf(),
            final(self)@ == taken(old(self)@, peer),
            resolved == resolved_of(old(self)@, peer, *resp),
    {
        let ghost table = self.peers();
        match self.find(&peer) {
            Some(at) => {
                if self.active_peers[at].pending_response.is_none() {
                    proof {
                        assert(table.update(at as int, table[at as int]) =~= table);
                        assert((ActivePeerView { pending_response: None, ..table[at as int] })
                            == table[at as int]);
                    }
                    return Resolved::Unexpected;
                }
                self.active_peers[at].pending_response = None;
                proof {
                    self.lemma_same_ids(
                        table,
                        at as int,
                        ActivePeerView { pending_response: None, ..table[at as int] },
                    );
                }
                let closed = match resp.err() {
                    Some(error) => error.is_channel_closed(),
                    None => false,
                };
                if closed {
                    Resolved::SessionClosed
                } else {
                    Resolved::Response
                }
            },
            None => Resolved::Unexpected,
        }
    }
}

} // verus!
