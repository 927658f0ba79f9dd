//! Who is told of a new block: the peers of the table that are not known to
//! have it, in the order of the table, as long as the budget lasts.

use crate::cache::{inserted, lemma_inserted_is_held};
use crate::fanout::{fan_out_spec, is_floor_sqrt, lemma_sqrt_floor, sqrt_floor};
use crate::fetch::{advances, peer_with_block, FetchPeer};
use crate::message::StateAction;
use crate::peer::{distinct_peers, knows, ActivePeerView, PEER_BLOCK_CACHE_LIMIT};
use crate::primitives::{BlockHashNumber, NewBlockMessage, PeerId, H256};
use vstd::prelude::*;

verus! {

/// How many of the first `n` peers are not known to have the block.
pub open spec fn unknowing(peers: Seq<ActivePeerView>, hash: H256, n: nat) -> nat
    decreases n,
{
    if n == 0 {
        0
    } else {
        unknowing(peers, hash, (n - 1) as nat) + if knows(peers[n - 1], hash) {
            0nat
        } else {
            1nat
        }
    }
}

/// Whether the peer at `k` is told of the block: it is not known to have
/// it, and fewer than `budget` peers before it in the table are not.
pub open spec fn is_told(peers: Seq<ActivePeerView>, hash: H256, budget: nat, k: int) -> bool {
    !knows(peers[k], hash) && unknowing(peers, hash, k as nat) < budget
}

/// Whether one of the first `n` peers is told of the block and has this id.
pub open spec fn told_id(peers: Seq<ActivePeerView>, hash: H256, budget: nat, n: nat, id: PeerId)
    -> bool
    decreases n,
{
    if n == 0 {
        false
    } else {
        told_id(peers, hash, budget, (n - 1) as nat, id) || (is_told(peers, hash, budget, n - 1)
            && peers[n - 1].id == id)
    }
}

/// A peer after it was told of the block: the block counts as known to it,
/// and is its best one where the fetcher found it to be an advance.
pub open spec fn informed(peer: ActivePeerView, hash: H256, advanced: bool) -> ActivePeerView {
    ActivePeerView {
        best_hash: if advanced {
            hash
        } else {
            peer.best_hash
        },
        blocks: inserted(peer.blocks, PEER_BLOCK_CACHE_LIMIT as nat, hash),
        ..peer
    }
}

/// The action that tells a peer of the block: the full block, or the
/// announcement of its hash.
pub open spec fn announcement(full: bool, peer_id: PeerId, msg: NewBlockMessage) -> StateAction {
    if full {
        StateAction::NewBlock { peer_id, block: msg }
    } else {
        StateAction::NewBlockHashes {
            peer_id,
            hashes: BlockHashNumber { hash: msg.hash, number: msg.number },
        }
    }
}

/// The actions that tell those of the first `n` peers that are told, in the
/// order of the table.
pub open spec fn announcements(
    peers: Seq<ActivePeerView>,
    msg: NewBlockMessage,
    budget: nat,
    full: bool,
    n: nat,
) -> Seq<StateAction>
    decreases n,
{
    if n == 0 {
        Seq::empty()
    } else {
        let before = announcements(peers, msg, budget, full, (n - 1) as nat);
        if is_told(peers, msg.hash, budget, n - 1) {
            before.push(announcement(full, peers[n - 1].id, msg))
        } else {
            before
        }
    }
}

/// The table after a block was gossiped with the given budget.
pub open spec fn peers_after_gossip(
    peers: Seq<ActivePeerView>,
    fetched: Seq<FetchPeer>,
    msg: NewBlockMessage,
    budget: nat,
) -> Seq<ActivePeerView> {
    Seq::new(
        peers.len(),
        |k: int|
            if is_told(peers, msg.hash, budget, k) {
                informed(peers[k], msg.hash, advances(fetched, peers[k].id, msg.number))
            } else {
                peers[k]
            },
    )
}

/// What the fetcher tracks after a block was gossiped with the given
/// budget: the block is the best one of each peer that was told and was
/// below it.
pub open spec fn fetch_after_gossip(
    peers: Seq<ActivePeerView>,
    fetched: Seq<FetchPeer>,
    msg: NewBlockMessage,
    budget: nat,
    n: nat,
) -> Seq<FetchPeer> {
    Seq::new(
        fetched.len(),
        |j: int|
            if told_id(peers, msg.hash, budget, n, fetched[j].id) {
                peer_with_block(fetched[j], fetched[j].id, msg.hash, msg.number)
            } else {
                fetched[j]
            },
    )
}

/// The number of peers not known to have the block does not fall as the
/// table is walked.
pub proof fn lemma_unknowing_grows(peers: Seq<ActivePeerView>, hash: H256, a: nat, b: nat)
    requires
        a <= b,
    ensures
        unknowing(peers, hash, a) <= unknowing(peers, hash, b),
        unknowing(peers, hash, b) <= b,
    decreases b,
{
    if b > 0 {
        if a < b {
            lemma_unknowing_grows(peers, hash, a, (b - 1) as nat);
        } else {
            lemma_unknowing_grows(peers, hash, (b - 1) as nat, (b - 1) as nat);
        }
    }
}

/// Once the budget is spent, no peer further down the table is told.
pub proof fn lemma_budget_spent(
    peers: Seq<ActivePeerView>,
    msg: NewBlockMessage,
    budget: nat,
    full: bool,
    from: nat,
    n: nat,
)
    requires
        from <= n,
        unknowing(peers, msg.hash, from) >= budget,
    ensures
        announcements(peers, msg, budget, full, n) == announcements(peers, msg, budget, full, from),
        forall|id: PeerId|
            told_id(peers, msg.hash, budget, n, id) == told_id(peers, msg.hash, budget, from, id),
    decreases n,
{
    if from < n {
        lemma_budget_spent(peers, msg, budget, full, from, (n - 1) as nat);
        lemma_unknowing_grows(peers, msg.hash, from, (n - 1) as nat);
    }
}

/// A full block goes to no more peers than the budget allows, and the number
/// of peers told is the number of those not known to have the block where
/// that is within the budget.
pub proof fn lemma_announcements_len(
    peers: Seq<ActivePeerView>,
    msg: NewBlockMessage,
    budget: nat,
    full: bool,
    n: nat,
)
    ensures
        announcements(peers, msg, budget, full, n).len() == if unknowing(peers, msg.hash, n)
            <= budget {
            unknowing(peers, msg.hash, n)
        } else {
            budget
        },
        announcements(peers, msg, budget, full, n).len() <= budget,
    decreases n,
{
    if n > 0 {
        lemma_announcements_len(peers, msg, budget, full, (n - 1) as nat);
    }
}

/// No peer in the table is told of a block that it is known to have: every
/// action of a gossip goes to a peer of the table that was not known to have
/// the block.
pub proof fn lemma_announcements_targets(
    peers: Seq<ActivePeerView>,
    msg: NewBlockMessage,
    budget: nat,
    full: bool,
    n: nat,
)
    requires
        n <= peers.len(),
    ensures
        forall|a: int|
            0 <= a < announcements(peers, msg, budget, full, n).len() ==> exists|k: int|
                0 <= k < n && !knows(peers[k], msg.hash) && #[trigger] announcements(
                    peers,
                    msg,
                    budget,
                    full,
                    n,
                )[a] == announcement(full, peers[k].id, msg),
    decreases n,
{
    if n > 0 {
        lemma_announcements_targets(peers, msg, budget, full, (n - 1) as nat);
        let before = announcements(peers, msg, budget, full, (n - 1) as nat);
        let all = announcements(peers, msg, budget, full, n);
        assert forall|a: int| 0 <= a < all.len() implies exists|k: int|
            0 <= k < n && !knows(peers[k], msg.hash) && #[trigger] all[a] == announcement(
                full,
                peers[k].id,
                msg,
            ) by {
            if a < before.len() {
                assert(all[a] == before[a]);
                let k = choose|k: int|
                    0 <= k < n - 1 && !knows(peers[k], msg.hash) && before[a] == announcement(
                        full,
                        peers[k].id,
                        msg,
                    );
                assert(0 <= k < n && !knows(peers[k], msg.hash) && all[a] == announcement(
                    full,
                    peers[k].id,
                    msg,
                ));
            } else {
                let k = n - 1;
                assert(0 <= k < n && !knows(peers[k], msg.hash) && all[a] == announcement(
                    full,
                    peers[k].id,
                    msg,
                ));
            }
        }
    }
}

/// With a budget above the number of peers, every peer that is not known to
/// have the block is told.
pub proof fn lemma_unbounded_budget(peers: Seq<ActivePeerView>, hash: H256, budget: nat, k: int)
    requires
        0 <= k < budget,
    ensures
        is_told(peers, hash, budget, k) == !knows(peers[k], hash),
{
    lemma_unknowing_grows(peers, hash, k as nat, k as nat);
}

/// In a table without a peer twice, no peer before `k` that is told has the
/// id of the peer at `k`.
pub proof fn lemma_not_told_before(
    peers: Seq<ActivePeerView>,
    hash: H256,
    budget: nat,
    n: nat,
    k: int,
)
    requires
        distinct_peers(peers),
        n <= k < peers.len(),
    ensures
        !told_id(peers, hash, budget, n, peers[k].id),
    decreases n,
{
    if n > 0 {
        lemma_not_told_before(peers, hash, budget, (n - 1) as nat, k);
        assert(peers[n - 1].id != peers[k].id);
    }
}

/// Among `n` active peers the full block goes to at most the square root of
/// `n`, rounded down, and one more, and to none that is known to have it.
pub proof fn lemma_full_block_fan_out(peers: Seq<ActivePeerView>, msg: NewBlockMessage)
    ensures
        announcements(peers, msg, fan_out_spec(peers.len()), true, peers.len()).len()
            <= sqrt_floor(peers.len()) + 1,
        is_floor_sqrt(peers.len(), sqrt_floor(peers.len())),
        forall|k: int|
            0 <= k < peers.len() && knows(#[trigger] peers[k], msg.hash) ==> !is_told(
                peers,
                msg.hash,
                fan_out_spec(peers.len()),
                k,
            ),
{
    lemma_announcements_len(peers, msg, fan_out_spec(peers.len()), true, peers.len());
    lemma_sqrt_floor(peers.len());
}

/// After the full block went to some of the peers, with whatever budget, and
/// its hash then went to all of the table, every peer counts as knowing the
/// block, whatever the fetcher held at either time.
pub proof fn lemma_gossip_reaches_everyone(
    peers: Seq<ActivePeerView>,
    fetched_first: Seq<FetchPeer>,
    fetched_second: Seq<FetchPeer>,
    msg: NewBlockMessage,
    budget: nat,
)
    ensures
        ({
            let first = peers_after_gossip(peers, fetched_first, msg, budget);
            let second = peers_after_gossip(first, fetched_second, msg, first.len());
            &&& second.len() == peers.len()
            &&& forall|k: int| 0 <= k < second.len() ==> knows(#[trigger] second[k], msg.hash)
        }),
{
    let first = peers_after_gossip(peers, fetched_first, msg, budget);
    let second = peers_after_gossip(first, fetched_second, msg, first.len());
    assert forall|k: int| 0 <= k < second.len() implies knows(#[trigger] second[k], msg.hash) by {
        lemma_unbounded_budget(first, msg.hash, first.len(), k);
        lemma_inserted_is_held(first[k].blocks, PEER_BLOCK_CACHE_LIMIT as nat, msg.hash);
    }
}

} // verus!
