use blackjack::player::{get_hand_value, Player, PlayerType};
use blackjack::protocol::{PublishRequest, PublishTrigger, RequestCommand};
use blackjack::registry::Registry;
use blackjack::session::{handle_command, CommandError, TurnPhase};

fn fresh_dealer() -> Player {
    Player {
        user_name: "Dealer".to_string(),
        player_type: PlayerType::Dealer,
        hand: vec![],
        hand_value: 0,
        chips: 0,
        current_bet: 0,
    }
}

fn attached_registry(ids: &[(&str, &str)]) -> Registry {
    let mut reg = Registry::new();
    for (id, name) in ids {
        reg.register(id.to_string(), name.to_string());
        // The drain side is not under test; a closed channel never keeps
        // the coordinator from applying commands or publishing events.
        let (tx, _rx) = tokio::sync::mpsc::unbounded_channel::<PublishRequest>();
        reg.attach_sender(id, tx);
    }
    reg
}

fn snapshot_of(reg: &Registry, id: &str) -> Player {
    let i = reg.find_by_identity(id).unwrap();
    let p = &reg.clients[i].player;
    Player {
        user_name: p.user_name.clone(),
        player_type: p.player_type,
        hand: p.hand.clone(),
        hand_value: p.hand_value,
        chips: p.chips,
        current_bet: p.current_bet,
    }
}

fn active_id_of(ev: &PublishRequest) -> String {
    match &ev.trigger {
        PublishTrigger::StartTurn { active_client_id, .. } => active_client_id.clone(),
        other => panic!("expected a start-turn event, got {:?}", other),
    }
}

#[test]
fn three_players_take_turns_in_registration_order() {
    let mut reg = attached_registry(&[("id-a", "Alice"), ("id-b", "Bob"), ("id-c", "Carol")]);
    let mut dealer = fresh_dealer();

    // The host starts the round; position zero acts first.
    let (phase, events) = handle_command(
        TurnPhase::AwaitingStart,
        &mut reg,
        &mut dealer,
        "id-a",
        &RequestCommand::Start,
    )
    .unwrap();
    assert_eq!(phase, TurnPhase::PlayerActing(0));
    assert_eq!(events.len(), 1);
    assert_eq!(active_id_of(&events[0]), "id-a");
    assert_eq!(dealer.hand.len(), 2);

    // Alice ends her turn: the next start-turn event names Bob.
    let snapshot = snapshot_of(&reg, "id-a");
    let (phase, events) = handle_command(
        phase,
        &mut reg,
        &mut dealer,
        "id-a",
        &RequestCommand::EndTurn(snapshot),
    )
    .unwrap();
    assert_eq!(phase, TurnPhase::PlayerActing(1));
    assert_eq!(events.len(), 1);
    assert_eq!(active_id_of(&events[0]), "id-b");

    // Bob ends his turn: the next start-turn event names Carol.
    let snapshot = snapshot_of(&reg, "id-b");
    let (phase, events) = handle_command(
        phase,
        &mut reg,
        &mut dealer,
        "id-b",
        &RequestCommand::EndTurn(snapshot),
    )
    .unwrap();
    assert_eq!(phase, TurnPhase::PlayerActing(2));
    assert_eq!(events.len(), 1);
    assert_eq!(active_id_of(&events[0]), "id-c");

    // Carol ends her turn: no connection at position three, so the dealer
    // plays and the round finishes with one result per seat plus the dealer.
    let snapshot = snapshot_of(&reg, "id-c");
    let (phase, events) = handle_command(
        phase,
        &mut reg,
        &mut dealer,
        "id-c",
        &RequestCommand::EndTurn(snapshot),
    )
    .unwrap();
    assert_eq!(phase, TurnPhase::AwaitingStart);
    assert_eq!(events.len(), 1);
    match &events[0].trigger {
        PublishTrigger::RoundFinished(results) => {
            assert_eq!(results.len(), 4);
            assert_eq!(results[0].player.player_type, PlayerType::Dealer);
        },
        other => panic!("expected a round-finished event, got {:?}", other),
    }
    assert!(dealer.hand_value >= 17);
}

#[test]
fn bets_and_draws_apply_to_the_acting_player() {
    let mut reg = attached_registry(&[("id-a", "Alice")]);
    let mut dealer = fresh_dealer();

    let (phase, _) = handle_command(
        TurnPhase::AwaitingStart,
        &mut reg,
        &mut dealer,
        "id-a",
        &RequestCommand::Start,
    )
    .unwrap();

    let (phase, events) =
        handle_command(phase, &mut reg, &mut dealer, "id-a", &RequestCommand::Bet(100)).unwrap();
    assert!(events.is_empty());
    assert_eq!(reg.clients[0].player.current_bet, 100);

    let (phase, events) =
        handle_command(phase, &mut reg, &mut dealer, "id-a", &RequestCommand::Hit).unwrap();
    assert_eq!(events.len(), 1);
    match &events[0].trigger {
        PublishTrigger::CardsDrawn { cards } => assert_eq!(cards.len(), 1),
        other => panic!("expected a cards-drawn event, got {:?}", other),
    }
    assert_eq!(reg.clients[0].player.hand.len(), 1);

    let (_, events) =
        handle_command(phase, &mut reg, &mut dealer, "id-a", &RequestCommand::DrawCards(2))
            .unwrap();
    assert_eq!(events.len(), 1);
    assert_eq!(reg.clients[0].player.hand.len(), 3);
    assert_eq!(
        reg.clients[0].player.hand_value,
        get_hand_value(reg.clients[0].player.hand.clone())
    );
}

#[test]
fn losing_the_last_chips_finishes_the_game() {
    let mut reg = attached_registry(&[("id-a", "Alice")]);
    let mut dealer = fresh_dealer();

    let (phase, _) = handle_command(
        TurnPhase::AwaitingStart,
        &mut reg,
        &mut dealer,
        "id-a",
        &RequestCommand::Start,
    )
    .unwrap();
    let (phase, _) =
        handle_command(phase, &mut reg, &mut dealer, "id-a", &RequestCommand::Bet(500)).unwrap();

    // An empty hand scores zero: against a dealer that stands it loses the
    // whole balance and the game ends; against a dealer that busts it wins.
    let snapshot = snapshot_of(&reg, "id-a");
    let (phase, events) = handle_command(
        phase,
        &mut reg,
        &mut dealer,
        "id-a",
        &RequestCommand::EndTurn(snapshot),
    )
    .unwrap();
    if dealer.hand_value > 21 {
        assert_eq!(phase, TurnPhase::AwaitingStart);
        assert_eq!(events.len(), 1);
        assert_eq!(reg.clients[0].player.chips, 1000);
    } else {
        assert_eq!(phase, TurnPhase::GameOver);
        assert_eq!(events.len(), 2);
        assert!(matches!(events[0].trigger, PublishTrigger::RoundFinished(_)));
        assert!(matches!(events[1].trigger, PublishTrigger::GameFinished));
        assert_eq!(reg.clients[0].player.chips, 0);
    }
}

#[test]
fn no_commands_are_accepted_once_the_game_is_over() {
    let mut reg = attached_registry(&[("id-a", "Alice")]);
    let mut dealer = fresh_dealer();
    let err = handle_command(
        TurnPhase::GameOver,
        &mut reg,
        &mut dealer,
        "id-a",
        &RequestCommand::Start,
    );
    assert_eq!(err, Err(CommandError::GameAlreadyOver));
}

#[test]
fn round_resets_hands_and_bets_and_pays_out() {
    let mut reg = attached_registry(&[("id-a", "Alice")]);
    let mut dealer = fresh_dealer();

    let (phase, _) = handle_command(
        TurnPhase::AwaitingStart,
        &mut reg,
        &mut dealer,
        "id-a",
        &RequestCommand::Start,
    )
    .unwrap();
    let (phase, _) =
        handle_command(phase, &mut reg, &mut dealer, "id-a", &RequestCommand::Bet(100)).unwrap();
    let snapshot = snapshot_of(&reg, "id-a");
    let (phase, events) = handle_command(
        phase,
        &mut reg,
        &mut dealer,
        "id-a",
        &RequestCommand::EndTurn(snapshot),
    )
    .unwrap();

    // A zero-score hand loses its bet when the dealer stands and wins it
    // when the dealer busts; either way the seat is reset afterwards.
    let expected_chips = if dealer.hand_value > 21 { 600 } else { 400 };
    assert_eq!(phase, TurnPhase::AwaitingStart);
    assert_eq!(reg.clients[0].player.chips, expected_chips);
    assert!(reg.clients[0].player.hand.is_empty());
    assert_eq!(reg.clients[0].player.hand_value, 0);
    assert_eq!(reg.clients[0].player.current_bet, 0);
    match &events[0].trigger {
        PublishTrigger::RoundFinished(results) => {
            // The player's result still carries the bet the round was
            // scored on, beside the paid-out balance.
            assert_eq!(results[1].player.current_bet, 100);
            assert_eq!(results[1].player.chips, expected_chips);
        },
        other => panic!("expected a round-finished event, got {:?}", other),
    }
}

#[test]
fn unknown_identities_are_rejected() {
    let mut reg = attached_registry(&[("id-a", "Alice")]);
    let mut dealer = fresh_dealer();
    let err = handle_command(
        TurnPhase::AwaitingStart,
        &mut reg,
        &mut dealer,
        "ghost",
        &RequestCommand::Start,
    );
    assert_eq!(err, Err(CommandError::NotRegistered));
}

#[test]
fn commands_before_the_handshake_are_rejected() {
    let mut reg = Registry::new();
    reg.register("id-a".to_string(), "Alice".to_string());
    let mut dealer = fresh_dealer();
    let err = handle_command(
        TurnPhase::AwaitingStart,
        &mut reg,
        &mut dealer,
        "id-a",
        &RequestCommand::Start,
    );
    assert_eq!(err, Err(CommandError::NotReady));
}

#[test]
fn only_the_host_may_start() {
    let mut reg = attached_registry(&[("id-a", "Alice"), ("id-b", "Bob")]);
    let mut dealer = fresh_dealer();
    let err = handle_command(
        TurnPhase::AwaitingStart,
        &mut reg,
        &mut dealer,
        "id-b",
        &RequestCommand::Start,
    );
    assert_eq!(err, Err(CommandError::NotHost));
}

#[test]
fn start_needs_the_awaiting_phase() {
    let mut reg = attached_registry(&[("id-a", "Alice")]);
    let mut dealer = fresh_dealer();
    dealer.hand = blackjack::game::draw_cards(2);
    dealer.hand_value = get_hand_value(dealer.hand.clone());
    let err = handle_command(
        TurnPhase::PlayerActing(0),
        &mut reg,
        &mut dealer,
        "id-a",
        &RequestCommand::Start,
    );
    assert_eq!(err, Err(CommandError::WrongPhase));
}

#[test]
fn betting_outside_a_turn_is_rejected() {
    let mut reg = attached_registry(&[("id-a", "Alice")]);
    let mut dealer = fresh_dealer();
    let err = handle_command(
        TurnPhase::AwaitingStart,
        &mut reg,
        &mut dealer,
        "id-a",
        &RequestCommand::Bet(10),
    );
    assert_eq!(err, Err(CommandError::WrongPhase));
}

#[test]
fn out_of_turn_commands_are_rejected() {
    let mut reg = attached_registry(&[("id-a", "Alice"), ("id-b", "Bob")]);
    let mut dealer = fresh_dealer();
    let (phase, _) = handle_command(
        TurnPhase::AwaitingStart,
        &mut reg,
        &mut dealer,
        "id-a",
        &RequestCommand::Start,
    )
    .unwrap();
    let err = handle_command(phase, &mut reg, &mut dealer, "id-b", &RequestCommand::Bet(10));
    assert_eq!(err, Err(CommandError::NotYourTurn));
    let err = handle_command(phase, &mut reg, &mut dealer, "id-b", &RequestCommand::Hit);
    assert_eq!(err, Err(CommandError::NotYourTurn));
}

#[test]
fn uncovered_bets_are_rejected() {
    let mut reg = attached_registry(&[("id-a", "Alice")]);
    let mut dealer = fresh_dealer();
    let (phase, _) = handle_command(
        TurnPhase::AwaitingStart,
        &mut reg,
        &mut dealer,
        "id-a",
        &RequestCommand::Start,
    )
    .unwrap();
    let err = handle_command(phase, &mut reg, &mut dealer, "id-a", &RequestCommand::Bet(501));
    assert_eq!(err, Err(CommandError::InvalidBet));
}

#[test]
fn oversized_draws_are_rejected() {
    let mut reg = attached_registry(&[("id-a", "Alice")]);
    let mut dealer = fresh_dealer();
    let (phase, _) = handle_command(
        TurnPhase::AwaitingStart,
        &mut reg,
        &mut dealer,
        "id-a",
        &RequestCommand::Start,
    )
    .unwrap();
    let err =
        handle_command(phase, &mut reg, &mut dealer, "id-a", &RequestCommand::DrawCards(2000));
    assert_eq!(err, Err(CommandError::TooManyCards));
}

#[test]
fn malformed_snapshots_are_rejected() {
    let mut reg = attached_registry(&[("id-a", "Alice")]);
    let mut dealer = fresh_dealer();
    let (phase, _) = handle_command(
        TurnPhase::AwaitingStart,
        &mut reg,
        &mut dealer,
        "id-a",
        &RequestCommand::Start,
    )
    .unwrap();
    let mut snapshot = snapshot_of(&reg, "id-a");
    // The cached hand value contradicts the hand itself.
    snapshot.hand_value = 5;
    let err = handle_command(
        phase,
        &mut reg,
        &mut dealer,
        "id-a",
        &RequestCommand::EndTurn(snapshot),
    );
    assert_eq!(err, Err(CommandError::InvalidSnapshot));
}
