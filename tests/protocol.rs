use danny_game::{
    ContractError, DannyGameContract, DannyGameMessage, DannyGameService, DannyGameState,
    LeaderboardEntry, MessageStatus, NodeId, Operation, Outbound,
};

fn node(n: u64) -> NodeId {
    NodeId { w0: n, w1: 7, w2: 0, w3: 9 }
}

fn aggregator() -> DannyGameContract {
    let mut c = DannyGameContract::load(node(1), DannyGameState::new("board".to_string()));
    let r = c.execute_operation(Operation::SetupGame {
        leaderboard_chain_id: node(1),
        player_name: "board".to_string(),
    });
    assert_eq!(r, Ok(None));
    assert!(c.state.is_leaderboard_chain);
    c
}

fn player(n: u64, name: &str) -> DannyGameContract {
    let mut c = DannyGameContract::load(node(n), DannyGameState::new(name.to_string()));
    let r = c.execute_operation(Operation::SetupGame {
        leaderboard_chain_id: node(1),
        player_name: name.to_string(),
    });
    assert_eq!(r, Ok(None));
    assert!(!c.state.is_leaderboard_chain);
    c
}

fn submit(c: &mut DannyGameContract, name: &str, score: u64, from: u64, now: u64) {
    let m = DannyGameMessage::SubmitScore {
        player_name: name.to_string(),
        score,
        player_chain_id: node(from),
    };
    assert_eq!(c.execute_message(m, MessageStatus::Delivered, now), Ok(None));
}

fn record<'a>(c: &'a DannyGameContract, name: &str) -> &'a LeaderboardEntry {
    c.state.leaderboard.iter().find(|e| e.player_name == name).unwrap()
}

fn entry(name: &str, score: u64, timestamp: u64, from: u64) -> LeaderboardEntry {
    LeaderboardEntry::new(name.to_string(), score, timestamp, node(from))
}

#[test]
fn new_state_is_empty() {
    let s = DannyGameState::new("ann".to_string());
    assert_eq!(s.value, 0);
    assert_eq!(s.best, 0);
    assert_eq!(s.player_name, "ann");
    assert!(s.leaderboard.is_empty());
    assert!(s.top_leaderboard.is_empty());
    assert_eq!(s.leaderboard_chain_id, None);
    assert!(!s.is_leaderboard_chain);
}

#[test]
fn setup_game_names_aggregator_and_player() {
    let mut c = DannyGameContract::load(node(2), DannyGameState::new("old".to_string()));
    let r = c.execute_operation(Operation::SetupGame {
        leaderboard_chain_id: node(1),
        player_name: "ann".to_string(),
    });
    assert_eq!(r, Ok(None));
    assert_eq!(c.state.leaderboard_chain_id, Some(node(1)));
    assert!(!c.state.is_leaderboard_chain);
    assert_eq!(c.state.player_name, "ann");
}

#[test]
fn node_named_as_aggregator_becomes_aggregator() {
    let c = aggregator();
    assert_eq!(c.state.leaderboard_chain_id, Some(node(1)));
}

#[test]
fn second_configuration_fails_and_keeps_first() {
    for second in [node(1), node(2), node(5)] {
        let mut c = player(2, "ann");
        let before = c.state.clone();
        let r = c.execute_operation(Operation::SetupGame {
            leaderboard_chain_id: second,
            player_name: "bob".to_string(),
        });
        assert_eq!(r, Err(ContractError::AlreadyConfigured));
        assert_eq!(c.state, before);
        let r = c.execute_operation(Operation::SetLeaderboardChain { chain_id: second });
        assert_eq!(r, Err(ContractError::AlreadyConfigured));
        assert_eq!(c.state, before);
    }
}

#[test]
fn set_leaderboard_chain_keeps_player_name() {
    let mut c = DannyGameContract::load(node(3), DannyGameState::new("cat".to_string()));
    let r = c.execute_operation(Operation::SetLeaderboardChain { chain_id: node(3) });
    assert_eq!(r, Ok(None));
    assert!(c.state.is_leaderboard_chain);
    assert_eq!(c.state.player_name, "cat");
}

#[test]
fn increment_adds_to_counter() {
    let mut c = player(2, "ann");
    assert_eq!(c.execute_operation(Operation::Increment { value: 5 }), Ok(None));
    assert_eq!(c.execute_operation(Operation::Increment { value: 7 }), Ok(None));
    assert_eq!(c.state.value, 12);
}

#[test]
fn increment_past_largest_fails() {
    let mut c = player(2, "ann");
    assert_eq!(c.execute_operation(Operation::Increment { value: u64::MAX }), Ok(None));
    let before = c.state.clone();
    let r = c.execute_operation(Operation::Increment { value: 1 });
    assert_eq!(r, Err(ContractError::CounterOverflow));
    assert_eq!(c.state, before);
}

#[test]
fn set_best_and_submit_sends_to_aggregator() {
    let mut c = player(2, "ann");
    c.execute_operation(Operation::Increment { value: 40 }).unwrap();
    let r = c.execute_operation(Operation::SetBestAndSubmit { best: 50 });
    let expected = Outbound {
        destination: node(1),
        message: DannyGameMessage::SubmitScore {
            player_name: "ann".to_string(),
            score: 50,
            player_chain_id: node(2),
        },
    };
    assert_eq!(r, Ok(Some(expected)));
    assert_eq!(c.state.best, 50);
    assert_eq!(c.state.value, 0);
}

#[test]
fn set_best_behaves_as_set_best_and_submit() {
    let mut c = player(2, "ann");
    let r = c.execute_operation(Operation::SetBest { best: 9 }).unwrap().unwrap();
    assert_eq!(r.destination, node(1));
    assert_eq!(c.state.best, 9);
}

#[test]
fn submit_without_aggregator_only_records_best() {
    let mut c = DannyGameContract::load(node(2), DannyGameState::new("ann".to_string()));
    c.execute_operation(Operation::Increment { value: 3 }).unwrap();
    let r = c.execute_operation(Operation::SetBestAndSubmit { best: 20 });
    assert_eq!(r, Ok(None));
    assert_eq!(c.state.best, 20);
    assert_eq!(c.state.value, 0);
}

#[test]
fn aggregator_does_not_submit_to_itself() {
    let mut c = aggregator();
    let r = c.execute_operation(Operation::SetBestAndSubmit { best: 20 });
    assert_eq!(r, Ok(None));
    assert_eq!(c.state.best, 20);
}

#[test]
fn set_player_name_ignores_empty() {
    let mut c = player(2, "ann");
    c.execute_operation(Operation::SetPlayerName { name: String::new() }).unwrap();
    assert_eq!(c.state.player_name, "ann");
    c.execute_operation(Operation::SetPlayerName { name: "bob".to_string() }).unwrap();
    assert_eq!(c.state.player_name, "bob");
}

#[test]
fn request_refresh_from_player() {
    let mut c = player(4, "dan");
    let r = c.execute_operation(Operation::RequestLeaderboard);
    let expected = Outbound {
        destination: node(1),
        message: DannyGameMessage::RequestLeaderboard { requester_chain_id: node(4) },
    };
    assert_eq!(r, Ok(Some(expected)));
}

#[test]
fn request_refresh_is_noop_for_aggregator_or_unconfigured() {
    let mut a = aggregator();
    assert_eq!(a.execute_operation(Operation::RequestLeaderboard), Ok(None));
    let mut c = DannyGameContract::load(node(2), DannyGameState::new("ann".to_string()));
    assert_eq!(c.execute_operation(Operation::RequestLeaderboard), Ok(None));
}

#[test]
fn instantiate_resets_node() {
    let mut c = player(2, "ann");
    c.execute_operation(Operation::Increment { value: 3 }).unwrap();
    c.instantiate("eve".to_string());
    assert_eq!(c.state.value, 0);
    assert_eq!(c.state.player_name, "eve");
    assert_eq!(c.state.leaderboard_chain_id, None);
    let s = c.store();
    assert!(!s.is_leaderboard_chain);
}

#[test]
fn first_submission_creates_record() {
    let mut a = aggregator();
    submit(&mut a, "ann", 50, 2, 1000);
    assert_eq!(a.state.leaderboard, vec![entry("ann", 50, 1000, 2)]);
    assert_eq!(a.state.top_leaderboard, vec![entry("ann", 50, 1000, 2)]);
}

#[test]
fn lower_score_is_discarded() {
    let mut a = aggregator();
    submit(&mut a, "ann", 50, 2, 1000);
    submit(&mut a, "ann", 30, 2, 2000);
    let r = record(&a, "ann");
    assert_eq!(r.score, 50);
    assert_eq!(r.timestamp, 1000);
}

#[test]
fn higher_score_replaces_record() {
    let mut a = aggregator();
    submit(&mut a, "ann", 50, 2, 1000);
    submit(&mut a, "bob", 60, 3, 1500);
    submit(&mut a, "ann", 70, 4, 2000);
    assert_eq!(
        a.state.leaderboard,
        vec![entry("ann", 70, 2000, 4), entry("bob", 60, 1500, 3)]
    );
    assert_eq!(
        a.state.top_leaderboard,
        vec![entry("ann", 70, 2000, 4), entry("bob", 60, 1500, 3)]
    );
}

#[test]
fn player_best_then_lower_keeps_first() {
    let mut p = player(2, "pat");
    let mut a = aggregator();
    for (best, now) in [(50u64, 1000u64), (30, 2000)] {
        let out = p.execute_operation(Operation::SetBestAndSubmit { best }).unwrap().unwrap();
        assert_eq!(out.destination, node(1));
        assert_eq!(a.execute_message(out.message, MessageStatus::Delivered, now), Ok(None));
    }
    let r = record(&a, "pat");
    assert_eq!(r.score, 50);
    assert_eq!(r.timestamp, 1000);
    assert_eq!(r.player_chain_id, node(2));
}

#[test]
fn same_submission_twice_is_idempotent() {
    let mut a = aggregator();
    submit(&mut a, "bob", 10, 3, 10);
    submit(&mut a, "ann", 40, 2, 100);
    let once = a.state.clone();
    submit(&mut a, "ann", 40, 2, 900);
    assert_eq!(a.state, once);
}

#[test]
fn stored_score_is_max_in_any_order() {
    let orders = [[30u64, 50, 40], [50, 30, 40], [40, 30, 50], [40, 50, 30]];
    for order in orders {
        let mut a = aggregator();
        for (k, s) in order.iter().enumerate() {
            submit(&mut a, "ann", *s, 2, 100 + k as u64);
        }
        assert_eq!(record(&a, "ann").score, 50);
        assert_eq!(a.state.leaderboard.len(), 1);
    }
}

#[test]
fn eleven_players_keep_top_ten() {
    let mut a = aggregator();
    let names = ["A", "B", "C", "D", "E", "F", "G", "H", "I", "J", "K"];
    let scores = [100u64, 90, 80, 70, 60, 50, 40, 30, 20, 15, 10];
    // submitted lowest first, so that the table order is not the ranking
    for k in (0..11).rev() {
        submit(&mut a, names[k], scores[k], 10 + k as u64, 1000 + k as u64);
    }
    let top = &a.state.top_leaderboard;
    assert_eq!(top.len(), 10);
    for k in 0..10 {
        assert_eq!(top[k].player_name, names[k]);
        assert_eq!(top[k].score, scores[k]);
    }
    assert!(top.iter().all(|e| e.player_name != "K"));
    assert_eq!(a.state.leaderboard.len(), 11);
}

#[test]
fn fewer_than_ten_players_all_ranked() {
    let mut a = aggregator();
    let subs = [("a", 5u64), ("b", 25), ("c", 15), ("d", 35), ("e", 1)];
    for (k, (n, s)) in subs.iter().enumerate() {
        submit(&mut a, n, *s, 2, k as u64);
    }
    let scores: Vec<u64> = a.state.top_leaderboard.iter().map(|e| e.score).collect();
    assert_eq!(scores, vec![35, 25, 15, 5, 1]);
}

#[test]
fn equal_scores_keep_table_order() {
    let mut a = aggregator();
    submit(&mut a, "x", 20, 2, 1);
    submit(&mut a, "y", 30, 2, 2);
    submit(&mut a, "z", 20, 2, 3);
    submit(&mut a, "w", 20, 2, 4);
    let names: Vec<&str> = a.state.top_leaderboard.iter().map(|e| e.player_name.as_str()).collect();
    assert_eq!(names, vec!["y", "x", "z", "w"]);
}

#[test]
fn submit_to_non_aggregator_is_ignored() {
    let mut p = player(2, "ann");
    let before = p.state.clone();
    submit(&mut p, "bob", 80, 3, 5);
    assert_eq!(p.state, before);
}

#[test]
fn aggregator_answers_refresh() {
    let mut a = aggregator();
    submit(&mut a, "ann", 50, 2, 1000);
    let m = DannyGameMessage::RequestLeaderboard { requester_chain_id: node(2) };
    let r = a.execute_message(m, MessageStatus::Delivered, 2000);
    let expected = Outbound {
        destination: node(2),
        message: DannyGameMessage::LeaderboardResponse {
            leaderboard: vec![entry("ann", 50, 1000, 2)],
        },
    };
    assert_eq!(r, Ok(Some(expected)));
}

#[test]
fn misrouted_refresh_request_is_ignored() {
    let mut p = player(2, "ann");
    p.state.top_leaderboard = vec![entry("zed", 3, 1, 9)];
    let before = p.state.clone();
    let m = DannyGameMessage::RequestLeaderboard { requester_chain_id: node(3) };
    assert_eq!(p.execute_message(m, MessageStatus::Delivered, 10), Ok(None));
    assert_eq!(p.state, before);
}

#[test]
fn response_replaces_cache() {
    let mut p = player(2, "ann");
    p.state.top_leaderboard = vec![entry("old", 99, 1, 8), entry("older", 98, 1, 8)];
    let out = p.execute_operation(Operation::RequestLeaderboard).unwrap().unwrap();
    let mut a = aggregator();
    submit(&mut a, "ann", 50, 2, 1000);
    submit(&mut a, "bob", 70, 3, 1100);
    let reply = a.execute_message(out.message, MessageStatus::Delivered, 1200).unwrap().unwrap();
    assert_eq!(reply.destination, node(2));
    assert_eq!(p.execute_message(reply.message, MessageStatus::Delivered, 1300), Ok(None));
    assert_eq!(
        p.state.top_leaderboard,
        vec![entry("bob", 70, 1100, 3), entry("ann", 50, 1000, 2)]
    );
}

#[test]
fn empty_response_clears_cache() {
    let mut p = player(2, "ann");
    p.state.top_leaderboard = vec![entry("old", 99, 1, 8)];
    let m = DannyGameMessage::LeaderboardResponse { leaderboard: Vec::new() };
    assert_eq!(p.execute_message(m, MessageStatus::Delivered, 1), Ok(None));
    assert!(p.state.top_leaderboard.is_empty());
}

#[test]
fn bounced_messages_change_nothing() {
    let mut a = aggregator();
    submit(&mut a, "ann", 50, 2, 1000);
    let before = a.state.clone();
    let msgs = vec![
        DannyGameMessage::SubmitScore {
            player_name: "ann".to_string(),
            score: 500,
            player_chain_id: node(2),
        },
        DannyGameMessage::RequestLeaderboard { requester_chain_id: node(2) },
        DannyGameMessage::LeaderboardResponse { leaderboard: Vec::new() },
    ];
    for m in msgs {
        assert_eq!(a.execute_message(m, MessageStatus::Bounced, 2000), Ok(None));
        assert_eq!(a.state, before);
    }
}

#[test]
fn unknown_delivery_status_is_fatal() {
    let mut a = aggregator();
    let before = a.state.clone();
    let m = DannyGameMessage::SubmitScore {
        player_name: "ann".to_string(),
        score: 5,
        player_chain_id: node(2),
    };
    assert_eq!(
        a.execute_message(m, MessageStatus::Unknown, 1),
        Err(ContractError::UnknownDeliveryStatus)
    );
    assert_eq!(a.state, before);
}

#[test]
fn queries_report_state() {
    let mut p = player(2, "ann");
    p.execute_operation(Operation::Increment { value: 4 }).unwrap();
    p.state.best = 17;
    p.state.top_leaderboard = vec![entry("bob", 70, 1, 3), entry("ann", 50, 1, 2)];
    let q = DannyGameService::new(p.store()).query_root();
    assert_eq!(q.value(), 4);
    assert_eq!(q.best(), 17);
    assert_eq!(q.player_name(), "ann");
    assert_eq!(q.leaderboard().len(), 2);
    assert!(!q.is_leaderboard_chain());
    assert_eq!(q.leaderboard_chain_id(), Some(node(1)));
    assert_eq!(q.my_rank(), Some(2));
}

#[test]
fn my_rank_absent_when_not_listed() {
    let mut p = player(2, "ann");
    p.state.top_leaderboard = vec![entry("bob", 70, 1, 3)];
    let q = DannyGameService::new(p.store()).query_root();
    assert_eq!(q.my_rank(), None);
}
