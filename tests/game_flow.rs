use linera_roulette::{
    bet_payout, draw_pocket, pocket_from_digest, seed, to_le8, Bet, BetRejection, BetType,
    ChainContext, Effect, InstantiationArgument, Message, Operation, Player, RouletteContract,
    RouletteEvent, RouletteState, SpinResult,
};
use linera_roulette::decimal_string;
use sha2::{Digest, Sha256};

fn ctx(chain: &str, micros: u64) -> ChainContext {
    ChainContext { chain_id: chain.to_string(), block_height: 7, now_micros: micros }
}

fn host() -> RouletteContract {
    RouletteContract::instantiate(InstantiationArgument { host_chain_id: None })
}

fn player_chain(host_id: &str) -> RouletteContract {
    RouletteContract::instantiate(InstantiationArgument { host_chain_id: Some(host_id.to_string()) })
}

fn register(h: &mut RouletteContract, id: &str, balance: u64) {
    h.execute_operation(
        &ctx("host", 1),
        Operation::RegisterPlayer {
            player_id: id.to_string(),
            name: format!("name-{}", id),
            initial_balance: balance,
        },
    );
}

fn bet(h: &mut RouletteContract, id: &str, bet_type: BetType, numbers: Vec<u8>, amount: u64) {
    h.execute_operation(
        &ctx("host", 2),
        Operation::PlaceBet { player_id: id.to_string(), bet_type, numbers, amount },
    );
}

fn make_bet(id: &str, bet_type: BetType, numbers: Vec<u8>, amount: u64) -> Bet {
    Bet {
        player_chain_id: id.to_string(),
        player_name: "p".to_string(),
        bet_type,
        numbers,
        amount,
    }
}

#[test]
fn straight_bet_of_100_on_17_pays_3600() {
    assert_eq!(bet_payout(&make_bet("a", BetType::Straight, vec![17], 100), 17), 3600);
    assert_eq!(bet_payout(&make_bet("a", BetType::Straight, vec![17], 100), 18), 0);
}

#[test]
fn red_bet_of_100_on_1_pays_200() {
    assert_eq!(bet_payout(&make_bet("a", BetType::Red, vec![], 100), 1), 200);
    assert_eq!(bet_payout(&make_bet("a", BetType::Red, vec![], 100), 2), 0);
}

#[test]
fn first_dozen_bet_of_100_on_5_pays_300() {
    assert_eq!(bet_payout(&make_bet("a", BetType::FirstDozen, vec![], 100), 5), 300);
    assert_eq!(bet_payout(&make_bet("a", BetType::FirstDozen, vec![], 100), 13), 0);
}

#[test]
fn payout_saturates_at_the_largest_amount() {
    assert_eq!(bet_payout(&make_bet("a", BetType::Straight, vec![3], u64::MAX / 2), 3), u64::MAX);
}

#[test]
fn settled_straight_win_credits_the_payout() {
    let mut h = host();
    register(&mut h, "a", 1000);
    bet(&mut h, "a", BetType::Straight, vec![17], 100);
    assert_eq!(h.state.player_balance(&"a".to_string()), 900);
    let effects = h.execute_operation(&ctx("host", 5), Operation::SettleBets { result: 17 });
    assert_eq!(h.state.player_balance(&"a".to_string()), 900 + 3600);
    match &effects[0] {
        Effect::Send { to, message: Message::SpinResultBroadcast { player_payout, new_balance, won, result } } => {
            assert_eq!(to, "a");
            assert_eq!(*player_payout, 3600);
            assert_eq!(*new_balance, 4500);
            assert!(*won);
            assert_eq!(result.number, 17);
            assert_eq!(result.winners.len(), 1);
            assert_eq!(result.winners[0].payout, 3600);
        }
        _ => panic!("expected a broadcast"),
    }
    assert_eq!(effects.len(), 3);
}

#[test]
fn settled_losing_bets_pay_nothing_and_keep_the_wager() {
    let mut h = host();
    register(&mut h, "a", 1000);
    bet(&mut h, "a", BetType::Straight, vec![17], 100);
    bet(&mut h, "a", BetType::Red, vec![], 100);
    bet(&mut h, "a", BetType::FirstDozen, vec![], 100);
    assert_eq!(h.state.total_pot(), 300);
    let effects = h.execute_operation(&ctx("host", 5), Operation::SettleBets { result: 0 });
    assert_eq!(h.state.player_balance(&"a".to_string()), 700);
    assert_eq!(effects.len(), 3);
    match &effects[0] {
        Effect::Send { message: Message::SpinResultBroadcast { player_payout, won, .. }, .. } => {
            assert_eq!(*player_payout, 0);
            assert!(!*won);
        }
        _ => panic!("expected a broadcast"),
    }
}

#[test]
fn one_broadcast_per_chain_with_aggregated_payout() {
    let mut h = host();
    register(&mut h, "a", 1000);
    register(&mut h, "b", 1000);
    bet(&mut h, "a", BetType::Red, vec![], 100);
    bet(&mut h, "b", BetType::Black, vec![], 50);
    bet(&mut h, "a", BetType::FirstDozen, vec![], 100);
    let effects = h.execute_operation(&ctx("host", 5), Operation::SettleBets { result: 1 });
    assert_eq!(effects.len(), 4);
    match &effects[0] {
        Effect::Send { to, message: Message::SpinResultBroadcast { player_payout, new_balance, won, .. } } => {
            assert_eq!(to, "a");
            assert_eq!(*player_payout, 500);
            assert_eq!(*new_balance, 1300);
            assert!(*won);
        }
        _ => panic!("expected a broadcast"),
    }
    match &effects[1] {
        Effect::Send { to, message: Message::SpinResultBroadcast { player_payout, new_balance, won, .. } } => {
            assert_eq!(to, "b");
            assert_eq!(*player_payout, 0);
            assert_eq!(*new_balance, 950);
            assert!(!*won);
        }
        _ => panic!("expected a broadcast"),
    }
    assert!(matches!(&effects[2], Effect::Emit { event: RouletteEvent::WheelSpun { .. } }));
    assert!(matches!(&effects[3], Effect::Emit { event: RouletteEvent::BetsSettled { .. } }));
}

#[test]
fn deducted_amounts_equal_the_wagers() {
    let mut h = host();
    register(&mut h, "a", 500);
    register(&mut h, "b", 500);
    bet(&mut h, "a", BetType::Red, vec![], 120);
    bet(&mut h, "b", BetType::Odd, vec![], 30);
    bet(&mut h, "a", BetType::Low, vec![], 80);
    assert_eq!(h.state.player_balance(&"a".to_string()), 300);
    assert_eq!(h.state.player_balance(&"b".to_string()), 470);
    assert_eq!(h.state.game.current_bets.len(), 3);
    assert_eq!(h.state.total_pot(), 230);
}

#[test]
fn bet_larger_than_balance_changes_nothing() {
    let mut h = host();
    register(&mut h, "a", 50);
    let effects = h.execute_operation(
        &ctx("host", 2),
        Operation::PlaceBet { player_id: "a".to_string(), bet_type: BetType::Red, numbers: vec![], amount: 51 },
    );
    assert!(effects.is_empty());
    assert_eq!(h.state.player_balance(&"a".to_string()), 50);
    assert!(h.state.game.current_bets.is_empty());
}

#[test]
fn bet_while_spinning_is_rejected() {
    let mut s = RouletteState::new_host();
    s.register_player(Player { chain_id: "a".to_string(), name: "n".to_string(), balance: 100 });
    assert_eq!(s.accept_bet(make_bet("a", BetType::Red, vec![], 10)), Ok(90));
    assert!(s.begin_spin());
    assert!(!s.begin_spin());
    assert_eq!(s.accept_bet(make_bet("a", BetType::Red, vec![], 10)), Err(BetRejection::WheelSpinning));
    assert_eq!(s.player_balance(&"a".to_string()), 90);
    assert_eq!(s.game.current_bets.len(), 1);
}

#[test]
fn bet_from_unknown_player_is_rejected() {
    let mut s = RouletteState::new_host();
    assert_eq!(s.accept_bet(make_bet("x", BetType::Red, vec![], 0)), Err(BetRejection::NotRegistered));
    s.register_player(Player { chain_id: "x".to_string(), name: "n".to_string(), balance: 5 });
    assert_eq!(s.accept_bet(make_bet("x", BetType::Red, vec![], 6)), Err(BetRejection::InsufficientBalance));
    assert_eq!(s.accept_bet(make_bet("x", BetType::Red, vec![], 5)), Ok(0));
}

#[test]
fn spin_without_bets_does_nothing() {
    let mut h = host();
    let effects = h.execute_operation(&ctx("host", 3), Operation::SpinWheel);
    assert!(effects.is_empty());
    assert!(h.state.game.history.is_empty());
    assert!(h.state.game.last_result.is_none());
}

#[test]
fn spin_settles_and_clears_the_round() {
    let mut h = host();
    register(&mut h, "a", 1000);
    h.execute_operation(&ctx("host", 1_000_000), Operation::StartRound);
    assert_eq!(h.state.game.betting_end_time, Some(1000 + 30_000));
    bet(&mut h, "a", BetType::Straight, vec![3], 10);
    let c = ctx("host", 99);
    let expected = draw_pocket(&h.state.game.current_bets, &c.chain_id, c.block_height, c.now_micros);
    h.execute_operation(&c, Operation::SpinWheel);
    assert!(!h.state.game.is_spinning);
    assert!(h.state.game.current_bets.is_empty());
    assert!(h.state.game.betting_end_time.is_none());
    assert_eq!(h.state.game.history, vec![expected]);
    let last: &SpinResult = h.state.game.last_result.as_ref().unwrap();
    assert_eq!(last.number, expected);
    assert_eq!(last.timestamp, "99");
    let won = if expected == 3 { 360 } else { 0 };
    assert_eq!(h.state.player_balance(&"a".to_string()), 990 + won);
}

#[test]
fn history_keeps_the_ten_most_recent_results() {
    let mut h = host();
    for r in 0..12u8 {
        h.execute_operation(&ctx("host", 1), Operation::SettleBets { result: r });
    }
    assert_eq!(h.state.game.history, vec![2, 3, 4, 5, 6, 7, 8, 9, 10, 11]);
    assert_eq!(h.state.game.last_result.as_ref().unwrap().number, 11);
    assert_eq!(h.state.game.last_result.as_ref().unwrap().color, "black");
}

#[test]
fn player_bet_round_trip_matches_host_balance() {
    let mut p = player_chain("host");
    let mut h = host();
    let pc = ctx("pchain", 10);
    let hc = ctx("host", 11);
    // registration through the host
    let out = p.execute_operation(
        &pc,
        Operation::RegisterPlayer { player_id: String::new(), name: "alice".to_string(), initial_balance: 500 },
    );
    assert_eq!(out.len(), 1);
    let (to, req) = match out.into_iter().next().unwrap() {
        Effect::Send { to, message } => (to, message),
        _ => panic!("expected a request"),
    };
    assert_eq!(to, "host");
    let replies = h.execute_message(&hc, "pchain".to_string(), req);
    let confirm = match replies.into_iter().last().unwrap() {
        Effect::Send { to, message } => {
            assert_eq!(to, "pchain");
            message
        }
        _ => panic!("expected a confirmation"),
    };
    p.execute_message(&pc, "host".to_string(), confirm);
    assert_eq!(p.state.player_balance(&"pchain".to_string()), 500);
    assert_eq!(p.state.my_player.as_ref().unwrap().name, "alice");
    // a bet relayed to the host
    let out = p.execute_operation(
        &pc,
        Operation::PlaceBet { player_id: String::new(), bet_type: BetType::Even, numbers: vec![], amount: 120 },
    );
    assert_eq!(p.state.player_balance(&"pchain".to_string()), 500);
    let req = match out.into_iter().next().unwrap() {
        Effect::Send { message, .. } => message,
        _ => panic!("expected a request"),
    };
    match &req {
        Message::PlaceBetRequest { player_name, amount, .. } => {
            assert_eq!(player_name, "alice");
            assert_eq!(*amount, 120);
        }
        _ => panic!("expected a bet request"),
    }
    let replies = h.execute_message(&hc, "pchain".to_string(), req);
    assert_eq!(replies.len(), 2);
    let confirm = match replies.into_iter().last().unwrap() {
        Effect::Send { message, .. } => message,
        _ => panic!("expected a confirmation"),
    };
    match &confirm {
        Message::BetPlacedConfirm { success, new_balance, error_message, .. } => {
            assert!(*success);
            assert_eq!(*new_balance, 380);
            assert!(error_message.is_none());
        }
        _ => panic!("expected a bet confirmation"),
    }
    p.execute_message(&pc, "host".to_string(), confirm);
    assert_eq!(p.state.player_balance(&"pchain".to_string()), 380);
    assert_eq!(p.state.my_player.as_ref().unwrap().balance, 380);
    assert_eq!(h.state.player_balance(&"pchain".to_string()), 380);
}

#[test]
fn registering_twice_keeps_one_player() {
    let mut h = host();
    let hc = ctx("host", 1);
    let first = h.execute_message(
        &hc,
        "c1".to_string(),
        Message::RegisterPlayerRequest { name: "one".to_string(), initial_balance: 10 },
    );
    assert_eq!(first.len(), 2);
    let second = h.execute_message(
        &hc,
        "c1".to_string(),
        Message::RegisterPlayerRequest { name: "two".to_string(), initial_balance: 99 },
    );
    assert_eq!(second.len(), 1);
    match &second[0] {
        Effect::Send { to, message: Message::PlayerRegisteredConfirm { success, error_message, player } } => {
            assert_eq!(to, "c1");
            assert!(!*success);
            assert_eq!(error_message.as_deref(), Some("Already registered"));
            assert_eq!(player.balance, 0);
        }
        _ => panic!("expected a refusal"),
    }
    let all = h.state.all_players();
    assert_eq!(all.len(), 1);
    assert_eq!(all[0].name, "one");
    assert_eq!(all[0].balance, 10);
}

#[test]
fn bet_requests_get_explicit_refusals() {
    let mut h = host();
    let hc = ctx("host", 1);
    let req = |amount: u64| Message::PlaceBetRequest {
        bet_type: BetType::Odd,
        numbers: vec![],
        amount,
        player_name: "z".to_string(),
    };
    let out = h.execute_message(&hc, "z".to_string(), req(5));
    match &out[0] {
        Effect::Send { message: Message::BetPlacedConfirm { success, new_balance, error_message, .. }, .. } => {
            assert!(!*success);
            assert_eq!(*new_balance, 0);
            assert_eq!(error_message.as_deref(), Some("Not registered"));
        }
        _ => panic!("expected a refusal"),
    }
    h.execute_message(&hc, "z".to_string(), Message::RegisterPlayerRequest { name: "z".to_string(), initial_balance: 4 });
    let out = h.execute_message(&hc, "z".to_string(), req(5));
    match &out[0] {
        Effect::Send { message: Message::BetPlacedConfirm { success, new_balance, error_message, .. }, .. } => {
            assert!(!*success);
            assert_eq!(*new_balance, 4);
            assert_eq!(error_message.as_deref(), Some("Insufficient balance"));
        }
        _ => panic!("expected a refusal"),
    }
    h.state.begin_spin();
    assert!(!h.state.game.is_spinning);
    h.execute_message(&hc, "z".to_string(), req(1));
    assert!(h.state.begin_spin());
    let out = h.execute_message(&hc, "z".to_string(), req(1));
    match &out[0] {
        Effect::Send { message: Message::BetPlacedConfirm { success, new_balance, error_message, .. }, .. } => {
            assert!(!*success);
            assert_eq!(*new_balance, 3);
            assert_eq!(error_message.as_deref(), Some("Wheel spinning"));
        }
        _ => panic!("expected a refusal"),
    }
}

#[test]
fn player_chain_relays_and_ignores_host_only_operations() {
    let mut p = player_chain("h");
    let c = ctx("me", 1);
    assert!(p.execute_operation(&c, Operation::StartRound).is_empty());
    assert!(p.execute_operation(&c, Operation::SettleBets { result: 3 }).is_empty());
    let out = p.execute_operation(&c, Operation::SpinWheel);
    match &out[0] {
        Effect::Send { to, message: Message::SpinWheelRequest { player_chain_id } } => {
            assert_eq!(to, "h");
            assert_eq!(player_chain_id, "me");
        }
        _ => panic!("expected a spin request"),
    }
    assert!(p.state.game.history.is_empty());
}

#[test]
fn failed_confirmation_leaves_the_cache() {
    let mut p = player_chain("h");
    let c = ctx("me", 1);
    p.execute_message(
        &c,
        "h".to_string(),
        Message::PlayerRegisteredConfirm {
            player: Player { chain_id: "me".to_string(), name: "n".to_string(), balance: 0 },
            success: false,
            error_message: Some("Already registered".to_string()),
        },
    );
    assert!(p.state.my_player.is_none());
    assert!(p.state.player(&"me".to_string()).is_none());
    p.execute_message(
        &c,
        "h".to_string(),
        Message::PlayerRegisteredConfirm {
            player: Player { chain_id: "me".to_string(), name: "n".to_string(), balance: 40 },
            success: true,
            error_message: None,
        },
    );
    p.execute_message(&c, "h".to_string(), Message::BalanceUpdate { new_balance: 77, reason: "fix".to_string() });
    assert_eq!(p.state.player_balance(&"me".to_string()), 77);
    assert_eq!(p.state.my_player.as_ref().unwrap().balance, 77);
    p.execute_message(&c, "h".to_string(), Message::BalanceUpdate { new_balance: 5, reason: String::new() });
    let other = ctx("someone-else", 1);
    p.execute_message(&other, "h".to_string(), Message::BalanceUpdate { new_balance: 9, reason: String::new() });
    assert_eq!(p.state.my_player.as_ref().unwrap().balance, 5);
}

#[test]
fn le_bytes_and_digest_reading() {
    assert_eq!(to_le8(0x0102_0304_0506_0708), vec![8, 7, 6, 5, 4, 3, 2, 1]);
    assert_eq!(pocket_from_digest(&[37, 0, 0, 0, 0, 0, 0, 0, 9]), 0);
    assert_eq!(pocket_from_digest(&[40, 0, 0, 0, 0, 0, 0, 0]), 3);
    assert_eq!(pocket_from_digest(&[0, 1, 0, 0, 0, 0, 0, 0]), (256 % 37) as u8);
    assert_eq!(pocket_from_digest(&[255; 8]), (u64::MAX % 37) as u8);
}

#[test]
fn draw_is_sha256_of_the_committed_data() {
    let bets = vec![make_bet("chain-a", BetType::Straight, vec![1, 2], 300)];
    let input = seed(&bets, &"host".to_string(), 42, 1_700_000);
    let mut expected_input = Vec::new();
    expected_input.extend_from_slice(&1_700_000u64.to_le_bytes());
    expected_input.extend_from_slice(b"host");
    expected_input.extend_from_slice(&42u64.to_le_bytes());
    expected_input.extend_from_slice(b"chain-a");
    expected_input.extend_from_slice(&300u64.to_le_bytes());
    expected_input.extend_from_slice(&[1, 2]);
    expected_input.extend_from_slice(&1u64.to_le_bytes());
    assert_eq!(input, expected_input);
    let digest = Sha256::digest(&expected_input);
    let mut first = [0u8; 8];
    first.copy_from_slice(&digest[0..8]);
    let expected = (u64::from_le_bytes(first) % 37) as u8;
    assert_eq!(draw_pocket(&bets, &"host".to_string(), 42, 1_700_000), expected);
}

#[test]
fn draw_is_deterministic() {
    let bets = vec![
        make_bet("x", BetType::Red, vec![], 5),
        make_bet("y", BetType::Straight, vec![9], 7),
    ];
    let a = draw_pocket(&bets, &"h".to_string(), 3, 4);
    let b = draw_pocket(&bets.clone(), &"h".to_string(), 3, 4);
    assert_eq!(a, b);
    assert!(a <= 36);
}

#[test]
fn draw_is_roughly_uniform() {
    let bets = vec![make_bet("x", BetType::Red, vec![], 5)];
    let mut counts = [0u32; 37];
    let n = 10_000u64;
    for i in 0..n {
        counts[draw_pocket(&bets, &"h".to_string(), i, 1_000 + i) as usize] += 1;
    }
    let expected = n as f64 / 37.0;
    let chi2: f64 = counts.iter().map(|&c| (c as f64 - expected).powi(2) / expected).sum();
    // 36 degrees of freedom: 0.1% critical value is about 67.
    assert!(chi2 < 67.0, "chi-square {}", chi2);
    assert!(counts.iter().all(|&c| c > 0));
}

#[test]
fn registration_event_carries_decimal_timestamp() {
    let mut h = host();
    let out = h.execute_operation(
        &ctx("host", 1_234_567),
        Operation::RegisterPlayer { player_id: "a".to_string(), name: "n".to_string(), initial_balance: 1 },
    );
    match &out[0] {
        Effect::Emit { event: RouletteEvent::PlayerRegistered { timestamp, player } } => {
            assert_eq!(timestamp, "1234567");
            assert_eq!(player.balance, 1);
        }
        _ => panic!("expected an event"),
    }
    let again = h.execute_operation(
        &ctx("host", 2),
        Operation::RegisterPlayer { player_id: "a".to_string(), name: "m".to_string(), initial_balance: 9 },
    );
    assert!(again.is_empty());
}

#[test]
fn decimal_timestamps() {
    assert_eq!(decimal_string(0), "0");
    assert_eq!(decimal_string(7), "7");
    assert_eq!(decimal_string(10), "10");
    assert_eq!(decimal_string(1_234_567), "1234567");
    assert_eq!(decimal_string(u64::MAX), u64::MAX.to_string());
}

#[test]
fn accepted_bet_request_emits_event_then_confirms() {
    let mut h = host();
    let hc = ctx("host", 42);
    h.execute_message(&hc, "c".to_string(), Message::RegisterPlayerRequest { name: "n".to_string(), initial_balance: 10 });
    let out = h.execute_message(
        &hc,
        "c".to_string(),
        Message::PlaceBetRequest { bet_type: BetType::Low, numbers: vec![], amount: 4, player_name: "n".to_string() },
    );
    match &out[0] {
        Effect::Emit { event: RouletteEvent::BetPlaced { bet, timestamp } } => {
            assert_eq!(bet.amount, 4);
            assert_eq!(bet.player_chain_id, "c");
            assert_eq!(timestamp, "42");
        }
        _ => panic!("expected an event"),
    }
    assert!(matches!(&out[1], Effect::Send { message: Message::BetPlacedConfirm { success: true, new_balance: 6, .. }, .. }));
}

#[test]
fn settlement_events_carry_the_timestamp() {
    let mut h = host();
    let out = h.execute_operation(&ctx("host", 321), Operation::SettleBets { result: 4 });
    assert_eq!(out.len(), 2);
    match (&out[0], &out[1]) {
        (
            Effect::Emit { event: RouletteEvent::WheelSpun { result, timestamp } },
            Effect::Emit { event: RouletteEvent::BetsSettled { timestamp: t2 } },
        ) => {
            assert_eq!(result.number, 4);
            assert_eq!(timestamp, "321");
            assert_eq!(t2, "321");
        }
        _ => panic!("expected the two settlement events"),
    }
}

#[test]
fn player_balance_rises_by_sum_of_its_payouts() {
    let mut h = host();
    register(&mut h, "a", 1000);
    register(&mut h, "b", 1000);
    bet(&mut h, "a", BetType::Straight, vec![7], 10);
    bet(&mut h, "b", BetType::Red, vec![], 10);
    bet(&mut h, "a", BetType::Odd, vec![], 20);
    bet(&mut h, "a", BetType::Even, vec![], 30);
    h.execute_operation(&ctx("host", 1), Operation::SettleBets { result: 7 });
    // a: 940 + 360 (straight) + 40 (odd) + 0 (even)
    assert_eq!(h.state.player_balance(&"a".to_string()), 1340);
    // b: 990 + 20 (7 is red)
    assert_eq!(h.state.player_balance(&"b".to_string()), 1010);
}

#[test]
fn host_ignores_forged_confirmations() {
    let mut h = host();
    register(&mut h, "a", 100);
    bet(&mut h, "a", BetType::Red, vec![], 10);
    let hc = ctx("host", 1);
    let out = h.execute_message(
        &hc,
        "a".to_string(),
        Message::BetPlacedConfirm {
            bet: make_bet("a", BetType::Red, vec![], 10),
            success: true,
            new_balance: u64::MAX,
            error_message: None,
        },
    );
    assert!(out.is_empty());
    h.execute_message(&hc, "host".to_string(), Message::BalanceUpdate { new_balance: 5_000, reason: String::new() });
    h.execute_message(
        &hc,
        "a".to_string(),
        Message::PlayerRegisteredConfirm {
            player: Player { chain_id: "a".to_string(), name: "x".to_string(), balance: 9_999 },
            success: true,
            error_message: None,
        },
    );
    assert_eq!(h.state.player_balance(&"a".to_string()), 90);
    assert_eq!(h.state.player(&"a".to_string()).unwrap().name, "name-a");
    assert!(h.state.my_player.is_none());
    assert!(h.state.begin_spin());
    h.execute_message(
        &hc,
        "a".to_string(),
        Message::SpinResultBroadcast {
            result: SpinResult { number: 3, color: "red".to_string(), timestamp: "0".to_string(), winners: vec![] },
            player_payout: 0,
            new_balance: 1,
            won: false,
        },
    );
    assert!(h.state.game.is_spinning);
    assert!(h.state.game.last_result.is_none());
    assert_eq!(h.state.game.current_bets.len(), 1);
}

#[test]
fn settle_with_a_number_off_the_wheel_does_nothing() {
    let mut h = host();
    register(&mut h, "a", 100);
    bet(&mut h, "a", BetType::Black, vec![], 10);
    let out = h.execute_operation(&ctx("host", 1), Operation::SettleBets { result: 37 });
    assert!(out.is_empty());
    assert!(h.state.game.history.is_empty());
    assert!(h.state.game.last_result.is_none());
    assert_eq!(h.state.game.current_bets.len(), 1);
    let out = h.execute_operation(&ctx("host", 1), Operation::SettleBets { result: 36 });
    assert_eq!(out.len(), 3);
    assert_eq!(h.state.game.history, vec![36]);
}
