use net_state::fetch::{Delivery, DownloadRequest, HeadersSummary, PeerState};
use net_state::message::{
    DiscoveryCommand, DiscoveryEvent, FetchStep, FollowUp, PassEffect, PeerAction, PeerResponse,
    PeerResponseResult, PeersCommand, Resolved, StateAction,
};
use net_state::primitives::{
    BlockHashNumber, BlockHashOrNumber, BlockRequest, Capabilities, DisconnectReason, ForkId,
    HeadersDirection, HeadersRequest, IpAddr, NewBlockMessage, PeerId, PeerKind,
    ReputationChangeKind, RequestError, SocketAddr, Status, H256,
};
use net_state::peer::PEER_BLOCK_CACHE_LIMIT;
use net_state::state::NetworkState;

fn peer(n: u128) -> PeerId {
    PeerId { a: 0, b: 0, c: 0, d: n }
}

fn hash(n: u128) -> H256 {
    H256 { hi: 7, lo: n }
}

fn caps() -> Capabilities {
    Capabilities { bits: 67 }
}

fn state_with_peers(n: u128) -> NetworkState {
    let mut state = NetworkState::new(hash(0));
    for k in 1..=n {
        state.on_session_activated(peer(k), caps(), Status { blockhash: hash(0) }, Some(0), 20_000);
    }
    state
}

fn drain(state: &mut NetworkState) -> Vec<StateAction> {
    let mut actions = Vec::new();
    while let Some(action) = state.poll_queued() {
        actions.push(action);
    }
    actions
}

fn addr(port: u16) -> SocketAddr {
    SocketAddr { ip: IpAddr::V4(0x7f00_0001), port }
}

#[test]
fn new_state_is_empty() {
    let mut state = NetworkState::new(hash(42));
    assert_eq!(state.genesis_hash(), hash(42));
    assert_eq!(state.num_active_peers(), 0);
    assert_eq!(state.num_queued(), 0);
    assert_eq!(state.poll_queued(), None);
    assert_eq!(PEER_BLOCK_CACHE_LIMIT, 512);
}

#[test]
fn activated_session_is_tracked() {
    let mut state = NetworkState::new(hash(0));
    state.on_session_activated(peer(1), caps(), Status { blockhash: hash(5) }, Some(33), 20_000);
    assert_eq!(state.num_active_peers(), 1);
    assert!(state.is_active_peer(&peer(1)));
    assert!(!state.is_active_peer(&peer(2)));
    assert_eq!(state.best_hash(&peer(1)), Some(hash(5)));
    assert_eq!(state.pending_response(&peer(1)), None);
    assert!(!state.peer_knows_block(&peer(1), &hash(5)));
    let known = state.state_fetcher().peer(&peer(1)).unwrap();
    assert_eq!(known.best_hash, hash(5));
    assert_eq!(known.best_number, 33);
    assert_eq!(known.state, PeerState::Idle);
    assert_eq!(state.num_queued(), 0);
}

#[test]
fn failed_lookup_of_the_head_counts_as_block_zero() {
    let mut state = NetworkState::new(hash(0));
    state.on_session_activated(peer(1), caps(), Status { blockhash: hash(5) }, None, 20_000);
    assert_eq!(state.state_fetcher().peer(&peer(1)).unwrap().best_number, 0);
}

#[test]
fn registering_a_peer_twice_is_rejected() {
    let mut state = NetworkState::new(hash(0));
    let first = Status { blockhash: hash(5) };
    let second = Status { blockhash: hash(6) };
    assert!(state.try_on_session_activated(peer(1), caps(), first, Some(3), 20_000));
    assert!(!state.try_on_session_activated(peer(1), caps(), second, Some(9), 10_000));
    assert_eq!(state.num_active_peers(), 1);
    assert_eq!(state.best_hash(&peer(1)), Some(hash(5)));
    assert_eq!(state.state_fetcher().peer(&peer(1)).unwrap().best_number, 3);
    assert_eq!(state.state_fetcher().num_peers(), 1);
}

#[test]
fn full_block_goes_to_the_square_root_of_the_peers_and_one() {
    let mut state = state_with_peers(16);
    let msg = NewBlockMessage { hash: hash(100), number: 1 };
    state.announce_new_block(msg);
    let actions = drain(&mut state);
    assert_eq!(actions.len(), 5);
    for (k, action) in actions.iter().enumerate() {
        assert_eq!(*action, StateAction::NewBlock { peer_id: peer(k as u128 + 1), block: msg });
    }
    for k in 1..=16u128 {
        assert_eq!(state.peer_knows_block(&peer(k), &hash(100)), k <= 5);
        assert_eq!(state.best_hash(&peer(k)), Some(if k <= 5 { hash(100) } else { hash(0) }));
    }
}

#[test]
fn full_block_skips_peers_that_know_it() {
    let mut state = state_with_peers(4);
    state.on_new_block(peer(1), hash(100));
    state.on_new_block(peer(3), hash(100));
    let msg = NewBlockMessage { hash: hash(100), number: 1 };
    state.announce_new_block(msg);
    let actions = drain(&mut state);
    assert_eq!(
        actions,
        vec![
            StateAction::NewBlock { peer_id: peer(2), block: msg },
            StateAction::NewBlock { peer_id: peer(4), block: msg },
        ]
    );
    state.announce_new_block(msg);
    assert_eq!(state.num_queued(), 0);
}

#[test]
fn full_block_budget_for_small_tables() {
    for n in 0..=10u128 {
        let mut state = state_with_peers(n);
        state.announce_new_block(NewBlockMessage { hash: hash(100), number: 1 });
        let budget = (n as f64).sqrt() as usize + 1;
        let expected = if (n as usize) < budget { n as usize } else { budget };
        assert_eq!(state.num_queued(), expected);
    }
}

#[test]
fn best_hash_follows_only_an_advance() {
    let mut state = NetworkState::new(hash(0));
    state.on_session_activated(peer(1), caps(), Status { blockhash: hash(5) }, Some(10), 20_000);
    state.on_session_activated(peer(2), caps(), Status { blockhash: hash(6) }, Some(3), 20_000);
    state.announce_new_block(NewBlockMessage { hash: hash(100), number: 7 });
    assert_eq!(state.best_hash(&peer(1)), Some(hash(5)));
    assert_eq!(state.best_hash(&peer(2)), Some(hash(100)));
    assert!(state.peer_knows_block(&peer(1), &hash(100)));
    assert!(state.peer_knows_block(&peer(2), &hash(100)));
    assert_eq!(state.state_fetcher().peer(&peer(1)).unwrap().best_number, 10);
    assert_eq!(state.state_fetcher().peer(&peer(2)).unwrap().best_number, 7);
    assert_eq!(state.state_fetcher().peer(&peer(2)).unwrap().best_hash, hash(100));
}

#[test]
fn hash_goes_to_every_peer_that_does_not_know_it() {
    let mut state = state_with_peers(16);
    let msg = NewBlockMessage { hash: hash(100), number: 1 };
    state.announce_new_block(msg);
    drain(&mut state);
    state.announce_new_block_hash(msg);
    let actions = drain(&mut state);
    assert_eq!(actions.len(), 11);
    for (k, action) in actions.iter().enumerate() {
        assert_eq!(
            *action,
            StateAction::NewBlockHashes {
                peer_id: peer(k as u128 + 6),
                hashes: BlockHashNumber { hash: hash(100), number: 1 },
            }
        );
    }
    for k in 1..=16u128 {
        assert!(state.peer_knows_block(&peer(k), &hash(100)));
        assert_eq!(state.best_hash(&peer(k)), Some(hash(100)));
    }
    state.announce_new_block_hash(msg);
    assert_eq!(state.num_queued(), 0);
}

#[test]
fn hash_alone_reaches_all_peers() {
    let mut state = state_with_peers(9);
    state.announce_new_block_hash(NewBlockMessage { hash: hash(100), number: 1 });
    assert_eq!(state.num_queued(), 9);
}

#[test]
fn known_blocks_of_a_peer_are_bounded() {
    let mut state = state_with_peers(1);
    for n in 0..513u128 {
        state.on_new_block(peer(1), hash(1000 + n));
    }
    assert!(!state.peer_knows_block(&peer(1), &hash(1000)));
    for n in 1..513u128 {
        assert!(state.peer_knows_block(&peer(1), &hash(1000 + n)));
    }
}

#[test]
fn announced_hashes_count_as_known() {
    let mut state = state_with_peers(2);
    state.on_new_block_hashes(
        peer(2),
        vec![
            BlockHashNumber { hash: hash(1), number: 1 },
            BlockHashNumber { hash: hash(2), number: 2 },
        ],
    );
    assert!(state.peer_knows_block(&peer(2), &hash(1)));
    assert!(state.peer_knows_block(&peer(2), &hash(2)));
    assert!(!state.peer_knows_block(&peer(1), &hash(1)));
    state.on_new_block_hashes(peer(9), vec![BlockHashNumber { hash: hash(1), number: 1 }]);
    state.on_new_block(peer(9), hash(1));
    assert_eq!(state.num_active_peers(), 2);
    assert_eq!(state.best_hash(&peer(2)), Some(hash(0)));
}

#[test]
fn update_peer_block_sets_the_best_hash() {
    let mut state = NetworkState::new(hash(0));
    state.on_session_activated(peer(1), caps(), Status { blockhash: hash(5) }, Some(10), 20_000);
    state.update_peer_block(&peer(1), hash(6), 4);
    assert_eq!(state.best_hash(&peer(1)), Some(hash(6)));
    assert_eq!(state.state_fetcher().peer(&peer(1)).unwrap().best_hash, hash(5));
    state.update_peer_block(&peer(1), hash(7), 11);
    assert_eq!(state.best_hash(&peer(1)), Some(hash(7)));
    assert_eq!(state.state_fetcher().peer(&peer(1)).unwrap().best_hash, hash(7));
    state.update_peer_block(&peer(2), hash(7), 11);
    assert_eq!(state.num_active_peers(), 1);
}

#[test]
fn commands_for_discovery_and_peer_set() {
    let state = NetworkState::new(hash(0));
    let fork = ForkId { hash: 0xfc64ec04, next: 1150000 };
    assert_eq!(state.update_fork_id(fork), DiscoveryCommand::UpdateForkId(fork));
    assert_eq!(state.ban_ip_discovery(IpAddr::V4(9)), DiscoveryCommand::BanIp(IpAddr::V4(9)));
    assert_eq!(
        state.ban_discovery(peer(3), IpAddr::V6(9)),
        DiscoveryCommand::Ban(peer(3), IpAddr::V6(9))
    );
    assert_eq!(
        state.add_peer_kind(peer(3), PeerKind::Trusted, addr(30303)),
        PeersCommand::AddPeerKind(peer(3), PeerKind::Trusted, addr(30303))
    );
    assert_eq!(state.remove_peer(peer(3), PeerKind::Basic), PeersCommand::RemovePeer(peer(3)));
    assert_eq!(
        state.remove_peer(peer(3), PeerKind::Trusted),
        PeersCommand::RemovePeerFromTrustedSet(peer(3))
    );
}

#[test]
fn discovery_events_become_actions() {
    let mut state = NetworkState::new(hash(0));
    let fork = ForkId { hash: 1, next: 2 };
    state.on_discovery_event(DiscoveryEvent::Discovered {
        peer_id: peer(1),
        socket_addr: addr(1),
        fork_id: Some(fork),
    });
    state.on_discovery_event(DiscoveryEvent::EnrForkId(peer(2), fork));
    assert_eq!(
        drain(&mut state),
        vec![
            StateAction::DiscoveredNode {
                peer_id: peer(1),
                socket_addr: addr(1),
                fork_id: Some(fork)
            },
            StateAction::DiscoveredEnrForkId { peer_id: peer(2), fork_id: fork },
        ]
    );
}

#[test]
fn peer_actions_become_actions_or_bans() {
    let mut state = state_with_peers(2);
    let reason = Some(DisconnectReason { code: 4 });
    assert_eq!(
        state.on_peer_action(PeerAction::Connect { peer_id: peer(7), remote_addr: addr(7) }),
        None
    );
    assert_eq!(state.on_peer_action(PeerAction::Disconnect { peer_id: peer(1), reason }), None);
    assert_eq!(
        state.on_peer_action(PeerAction::DisconnectBannedIncoming { peer_id: peer(2) }),
        None
    );
    assert_eq!(
        state.on_peer_action(PeerAction::DiscoveryBanPeerId {
            peer_id: peer(3),
            ip_addr: IpAddr::V4(3)
        }),
        Some(DiscoveryCommand::Ban(peer(3), IpAddr::V4(3)))
    );
    assert_eq!(
        state.on_peer_action(PeerAction::DiscoveryBanIp { ip_addr: IpAddr::V4(4) }),
        Some(DiscoveryCommand::BanIp(IpAddr::V4(4)))
    );
    assert_eq!(state.on_peer_action(PeerAction::PeerAdded(peer(5))), None);
    assert_eq!(state.on_peer_action(PeerAction::PeerRemoved(peer(6))), None);
    assert_eq!(state.on_peer_action(PeerAction::BanPeer { peer_id: peer(8) }), None);
    assert_eq!(state.on_peer_action(PeerAction::UnBanPeer { peer_id: peer(8) }), None);
    assert_eq!(state.state_fetcher().peer(&peer(1)).unwrap().state, PeerState::Closing);
    assert_eq!(state.state_fetcher().peer(&peer(2)).unwrap().state, PeerState::Closing);
    assert_eq!(
        drain(&mut state),
        vec![
            StateAction::Connect { remote_addr: addr(7), peer_id: peer(7) },
            StateAction::Disconnect { peer_id: peer(1), reason },
            StateAction::Disconnect { peer_id: peer(2), reason: None },
            StateAction::PeerAdded(peer(5)),
            StateAction::PeerRemoved(peer(6)),
        ]
    );
}

#[test]
fn actions_leave_in_the_order_of_their_events() {
    let mut state = state_with_peers(1);
    state.on_peer_action(PeerAction::PeerAdded(peer(5)));
    state.announce_new_block_hash(NewBlockMessage { hash: hash(3), number: 3 });
    state.on_discovery_event(DiscoveryEvent::EnrForkId(peer(2), ForkId { hash: 1, next: 2 }));
    assert_eq!(state.poll_queued(), Some(StateAction::PeerAdded(peer(5))));
    assert!(matches!(state.poll_queued(), Some(StateAction::NewBlockHashes { .. })));
    assert!(matches!(state.poll_queued(), Some(StateAction::DiscoveredEnrForkId { .. })));
    assert_eq!(state.poll_queued(), None);
}

#[test]
fn request_for_a_peer_overwrites_the_awaited_response() {
    let mut state = state_with_peers(1);
    let range = HeadersRequest {
        start: BlockHashOrNumber::Number(1),
        limit: 2,
        direction: HeadersDirection::Rising,
    };
    let sent = state.handle_block_request(peer(1), BlockRequest::GetBlockHeaders(range)).unwrap();
    assert_eq!(sent.peer_id, peer(1));
    assert_eq!(sent.request, BlockRequest::GetBlockHeaders(range));
    assert_eq!(state.pending_response(&peer(1)), Some(PeerResponse::BlockHeaders));
    let sent = state.handle_block_request(peer(1), BlockRequest::GetBlockBodies(vec![hash(1)]));
    assert!(sent.is_some());
    assert_eq!(state.pending_response(&peer(1)), Some(PeerResponse::BlockBodies));
    assert!(state
        .handle_block_request(peer(2), BlockRequest::GetBlockBodies(vec![hash(1)]))
        .is_none());
    assert_eq!(state.num_queued(), 0);
}

#[test]
fn response_of_another_kind_changes_nothing() {
    let mut state = state_with_peers(1);
    let effects = state.on_eth_response(peer(1), PeerResponseResult::Other(None));
    assert_eq!(effects.delivery, None);
    assert!(matches!(effects.follow_up, FollowUp::Nothing));
}

#[test]
fn response_from_an_unknown_peer_yields_no_action() {
    let mut state = state_with_peers(1);
    let effects = state.on_eth_response(peer(9), PeerResponseResult::BlockBodies(Ok(1)));
    assert_eq!(effects.delivery, None);
    assert!(matches!(effects.follow_up, FollowUp::Nothing));
    assert_eq!(state.num_queued(), 0);
}

#[test]
fn timed_out_headers_request_is_penalised() {
    let mut state = state_with_peers(1);
    state.queue_request(DownloadRequest {
        ticket: 5,
        request: BlockRequest::GetBlockHeaders(HeadersRequest {
            start: BlockHashOrNumber::Number(1),
            limit: 2,
            direction: HeadersDirection::Rising,
        }),
    });
    assert!(matches!(state.poll_fetcher(), FetchStep::Sent(_)));
    let resp = PeerResponseResult::BlockHeaders(Err(RequestError::Timeout));
    assert_eq!(state.take_response(peer(1), &resp), Resolved::Response);
    let effects = state.on_eth_response(peer(1), resp);
    assert_eq!(effects.delivery, Some(Delivery { ticket: 5, error: Some(RequestError::Timeout) }));
    match effects.follow_up {
        FollowUp::Peers(command) => assert_eq!(
            command,
            PeersCommand::ApplyReputationChange(peer(1), ReputationChangeKind::Timeout)
        ),
        _ => panic!("a penalty was due"),
    }
    assert_eq!(state.num_active_peers(), 1);
    assert_eq!(state.num_queued(), 0);
}

#[test]
fn good_response_is_followed_by_the_next_request() {
    let mut state = state_with_peers(1);
    state.queue_request(DownloadRequest {
        ticket: 1,
        request: BlockRequest::GetBlockBodies(vec![hash(1)]),
    });
    assert!(matches!(state.poll_fetcher(), FetchStep::Sent(_)));
    assert!(matches!(state.poll_fetcher(), FetchStep::Done));
    state.queue_request(DownloadRequest {
        ticket: 2,
        request: BlockRequest::GetBlockHeaders(HeadersRequest {
            start: BlockHashOrNumber::Hash(hash(1)),
            limit: 1,
            direction: HeadersDirection::Falling,
        }),
    });
    assert!(matches!(state.poll_fetcher(), FetchStep::Done));
    let resp = PeerResponseResult::BlockBodies(Ok(1));
    assert_eq!(state.take_response(peer(1), &resp), Resolved::Response);
    assert_eq!(state.pending_response(&peer(1)), None);
    let effects = state.on_eth_response(peer(1), resp);
    assert_eq!(effects.delivery, Some(Delivery { ticket: 1, error: None }));
    match effects.follow_up {
        FollowUp::Send(sent) => {
            assert_eq!(sent.peer_id, peer(1));
            assert!(matches!(sent.request, BlockRequest::GetBlockHeaders(_)));
        }
        _ => panic!("a further request was due"),
    }
    assert_eq!(state.pending_response(&peer(1)), Some(PeerResponse::BlockHeaders));
    let resp = PeerResponseResult::BlockHeaders(Ok(HeadersSummary {
        count: 1,
        first_number: Some(1),
    }));
    assert_eq!(state.take_response(peer(1), &resp), Resolved::Response);
    let effects = state.on_eth_response(peer(1), resp);
    assert_eq!(effects.delivery, Some(Delivery { ticket: 2, error: None }));
    assert!(matches!(effects.follow_up, FollowUp::Nothing));
}

#[test]
fn request_for_a_peer_without_a_session_is_skipped() {
    let mut state = NetworkState::new(hash(0));
    state.on_session_activated(peer(1), caps(), Status { blockhash: hash(5) }, Some(1), 20_000);
    state.queue_request(DownloadRequest {
        ticket: 1,
        request: BlockRequest::GetBlockBodies(vec![hash(1)]),
    });
    assert!(matches!(state.poll_fetcher(), FetchStep::Sent(_)));
    assert!(matches!(state.poll_fetcher(), FetchStep::Done));
}

#[test]
fn response_that_was_not_awaited_is_unexpected() {
    let mut state = state_with_peers(1);
    let resp = PeerResponseResult::BlockBodies(Ok(1));
    assert_eq!(state.take_response(peer(1), &resp), Resolved::Unexpected);
    assert_eq!(state.take_response(peer(2), &resp), Resolved::Unexpected);
}

#[test]
fn closing_a_session_removes_the_peer() {
    let mut state = state_with_peers(3);
    assert_eq!(state.on_session_closed(peer(2)), None);
    assert_eq!(state.num_active_peers(), 2);
    assert!(!state.is_active_peer(&peer(2)));
    assert!(state.is_active_peer(&peer(1)));
    assert!(state.is_active_peer(&peer(3)));
    assert!(state.state_fetcher().peer(&peer(2)).is_none());
    assert_eq!(state.on_session_closed(peer(2)), None);
    assert_eq!(state.num_active_peers(), 2);
    let status = Status { blockhash: hash(1) };
    assert!(state.try_on_session_activated(peer(2), caps(), status, None, 20_000));
}

#[test]
fn test_dropped_active_session() {
    let mut state = NetworkState::new(hash(0));
    let peer_id = peer(77);
    state.on_session_activated(peer_id, caps(), Status { blockhash: hash(0) }, None, 20_000);
    assert!(state.is_active_peer(&peer_id));

    // the first request is answered by the session with one body
    state.queue_request(DownloadRequest {
        ticket: 1,
        request: BlockRequest::GetBlockBodies(vec![hash(21)]),
    });
    match state.poll_fetcher() {
        FetchStep::Sent(sent) => {
            assert_eq!(sent.peer_id, peer_id);
            assert_eq!(sent.request, BlockRequest::GetBlockBodies(vec![hash(21)]));
        }
        _ => panic!("the request was due to be sent"),
    }
    assert_eq!(state.pending_response(&peer_id), Some(PeerResponse::BlockBodies));
    let resp = PeerResponseResult::BlockBodies(Ok(1));
    assert_eq!(state.take_response(peer_id, &resp), Resolved::Response);
    let effects = state.on_eth_response(peer_id, resp);
    assert_eq!(effects.delivery, Some(Delivery { ticket: 1, error: None }));
    assert_eq!(state.pending_response(&peer_id), None);

    // the second request is dropped by the session without a response
    state.queue_request(DownloadRequest {
        ticket: 2,
        request: BlockRequest::GetBlockBodies(vec![hash(22)]),
    });
    assert!(matches!(state.poll_fetcher(), FetchStep::Sent(_)));
    let resp = PeerResponseResult::BlockBodies(Err(RequestError::ChannelClosed));
    assert_eq!(state.take_response(peer_id, &resp), Resolved::SessionClosed);
    let dropped = state.on_session_closed(peer_id);
    assert!(dropped.is_some());
    assert_eq!(
        dropped.unwrap(),
        Delivery { ticket: 2, error: Some(RequestError::ConnectionDropped) }
    );
    assert!(!state.is_active_peer(&peer_id));
    assert_eq!(state.num_active_peers(), 0);
}

fn bodies_request(ticket: u64) -> DownloadRequest {
    DownloadRequest { ticket, request: BlockRequest::GetBlockBodies(vec![hash(ticket as u128)]) }
}

#[test]
fn pass_closes_sessions_before_it_takes_responses_in() {
    let mut state = state_with_peers(3);
    state.queue_request(bodies_request(1));
    state.queue_request(bodies_request(2));
    state.queue_request(bodies_request(3));
    for _ in 0..3 {
        assert!(matches!(state.poll_fetcher(), FetchStep::Sent(_)));
    }
    let effects = state.process_responses(vec![
        (peer(1), PeerResponseResult::BlockBodies(Ok(1))),
        (peer(2), PeerResponseResult::BlockBodies(Err(RequestError::ChannelClosed))),
        (peer(3), PeerResponseResult::BlockBodies(Err(RequestError::Timeout))),
        (peer(9), PeerResponseResult::BlockBodies(Ok(1))),
    ]);
    assert_eq!(effects.len(), 3);
    match &effects[0] {
        PassEffect::Closed { peer: gone, dropped } => {
            assert_eq!(*gone, peer(2));
            assert_eq!(
                *dropped,
                Some(Delivery { ticket: 2, error: Some(RequestError::ConnectionDropped) })
            );
        }
        _ => panic!("the closed session comes first"),
    }
    match &effects[1] {
        PassEffect::Responded { peer: from, effects } => {
            assert_eq!(*from, peer(1));
            assert_eq!(effects.delivery, Some(Delivery { ticket: 1, error: None }));
            assert!(matches!(effects.follow_up, FollowUp::Nothing));
        }
        _ => panic!("a response was due"),
    }
    match &effects[2] {
        PassEffect::Responded { peer: from, effects } => {
            assert_eq!(*from, peer(3));
            assert_eq!(
                effects.delivery,
                Some(Delivery { ticket: 3, error: Some(RequestError::Timeout) })
            );
            assert!(matches!(effects.follow_up, FollowUp::Nothing));
        }
        _ => panic!("a response was due"),
    }
    assert_eq!(state.num_active_peers(), 2);
    assert!(!state.is_active_peer(&peer(2)));
    assert_eq!(state.pending_response(&peer(1)), None);
    assert_eq!(state.pending_response(&peer(3)), None);
    assert_eq!(state.num_queued(), 0);
}

#[test]
fn pass_over_nothing_changes_nothing() {
    let mut state = state_with_peers(2);
    assert!(state.process_responses(Vec::new()).is_empty());
    assert_eq!(state.num_active_peers(), 2);
}

#[test]
fn second_response_of_a_peer_in_one_pass_is_unexpected() {
    let mut state = state_with_peers(1);
    state.queue_request(bodies_request(1));
    assert!(matches!(state.poll_fetcher(), FetchStep::Sent(_)));
    let effects = state.process_responses(vec![
        (peer(1), PeerResponseResult::BlockBodies(Ok(1))),
        (peer(1), PeerResponseResult::BlockBodies(Ok(1))),
    ]);
    assert_eq!(effects.len(), 1);
}

#[test]
fn pass_follows_a_good_response_with_the_next_request() {
    let mut state = state_with_peers(1);
    state.queue_request(bodies_request(1));
    assert!(matches!(state.poll_fetcher(), FetchStep::Sent(_)));
    state.queue_request(bodies_request(2));
    let effects = state.process_responses(vec![(peer(1), PeerResponseResult::BlockBodies(Ok(4)))]);
    assert_eq!(effects.len(), 1);
    match &effects[0] {
        PassEffect::Responded { effects, .. } => match &effects.follow_up {
            FollowUp::Send(sent) => {
                assert_eq!(sent.peer_id, peer(1));
                assert_eq!(sent.request, BlockRequest::GetBlockBodies(vec![hash(2)]));
            }
            _ => panic!("a further request was due"),
        },
        _ => panic!("a response was due"),
    }
    assert_eq!(state.pending_response(&peer(1)), Some(PeerResponse::BlockBodies));
}

#[test]
fn time_to_answer_is_forwarded_to_the_fetcher() {
    let mut state = NetworkState::new(hash(0));
    state.on_session_activated(peer(1), caps(), Status { blockhash: hash(5) }, None, 7_000);
    assert_eq!(state.state_fetcher().peer(&peer(1)).unwrap().timeout, 7_000);
    state.update_peer_timeout(&peer(1), 3_000);
    assert_eq!(state.state_fetcher().peer(&peer(1)).unwrap().timeout, 3_000);
    assert_eq!(state.num_active_peers(), 1);
}
