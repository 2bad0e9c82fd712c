use battleship::game_state::GameState;
use battleship::input::{handle_key_event, Key, KeyOutcome};
use battleship::types::{CellState, GamePhase, Message, PowerUp, SidePanelMode};

fn nothing() -> KeyOutcome {
    KeyOutcome { quit: false, message: None }
}

fn sends(message: Message) -> KeyOutcome {
    KeyOutcome { quit: false, message: Some(message) }
}

fn quits() -> KeyOutcome {
    KeyOutcome { quit: true, message: Some(Message::Quit) }
}

fn in_phase(phase: GamePhase) -> GameState {
    let mut state = GameState::new();
    state.phase = phase;
    state
}

fn press(state: &mut GameState, keys: &[Key]) {
    for key in keys {
        handle_key_event(state, *key);
    }
}

#[test]
fn the_cursor_stays_on_the_board_while_firing() {
    let mut state = in_phase(GamePhase::YourTurn);
    assert_eq!(handle_key_event(&mut state, Key::Up), nothing());
    assert_eq!(handle_key_event(&mut state, Key::Left), nothing());
    assert_eq!(state.cursor, (0, 0));
    for _ in 0..12 {
        press(&mut state, &[Key::Right, Key::Down]);
    }
    assert_eq!(state.cursor, (9, 9));
    press(&mut state, &[Key::Up, Key::Left, Key::Left]);
    assert_eq!(state.cursor, (7, 8));
}

#[test]
fn while_placing_the_cursor_leaves_room_for_the_ship() {
    let mut state = GameState::new();
    for _ in 0..12 {
        press(&mut state, &[Key::Right, Key::Down]);
    }
    // The carrier lies horizontally: five cells from column five.
    assert_eq!(state.cursor, (5, 9));
    press(&mut state, &[Key::Char('r')]);
    assert!(!state.placing_horizontal);
    assert_eq!(state.cursor, (5, 5));
    for _ in 0..12 {
        press(&mut state, &[Key::Right, Key::Down]);
    }
    assert_eq!(state.cursor, (9, 5));
    press(&mut state, &[Key::Char('R')]);
    assert!(state.placing_horizontal);
    assert_eq!(state.cursor, (5, 5));
}

#[test]
fn enter_places_the_ship_and_asks_for_the_next() {
    let mut state = GameState::new();
    assert_eq!(handle_key_event(&mut state, Key::Enter), nothing());
    assert_eq!(state.placing_ship_idx, 1);
    for x in 0..5 {
        assert_eq!(state.own_grid[0][x], CellState::Ship);
    }
    assert_eq!(
        &state.messages[1..],
        &["Carrier placed!".to_string(), "Place Battleship (length 4)".to_string()]
    );
    // The battleship does not fit on top of the carrier.
    assert_eq!(handle_key_event(&mut state, Key::Enter), nothing());
    assert_eq!(state.placing_ship_idx, 1);
    assert_eq!(state.messages.len(), 3);
}

#[test]
fn the_last_ship_sends_the_fleet() {
    let mut state = GameState::new();
    for row in 0..5 {
        if row > 0 {
            press(&mut state, &[Key::Down]);
        }
        let outcome = handle_key_event(&mut state, Key::Enter);
        if row < 4 {
            assert_eq!(outcome, nothing());
        } else {
            assert_eq!(outcome, sends(Message::PlaceShips(state.own_grid.clone())));
        }
    }
    assert_eq!(state.phase, GamePhase::WaitingForOpponent);
    assert_eq!(state.placing_ship_idx, 5);
    let ships = state.own_grid.iter().flatten().filter(|c| **c == CellState::Ship).count();
    assert_eq!(ships, 17);
    let n = state.messages.len();
    assert_eq!(state.messages[n - 2], "Destroyer placed!");
    assert_eq!(state.messages[n - 1], "All ships placed! Waiting for opponent...");
    assert_eq!(state.messages[n - 3], "Place Destroyer (length 2)");
}

#[test]
fn enter_fires_at_a_cell_not_fired_at() {
    let mut state = in_phase(GamePhase::YourTurn);
    press(&mut state, &[Key::Right, Key::Right, Key::Right, Key::Down, Key::Down, Key::Down, Key::Down]);
    let outcome = handle_key_event(&mut state, Key::Enter);
    assert_eq!(outcome, sends(Message::Attack { x: 3, y: 4 }));
    assert_eq!(state.phase, GamePhase::OpponentTurn);
    assert_eq!(state.messages.last().unwrap(), "Firing at E4...");
}

#[test]
fn enter_does_not_fire_twice_at_a_cell() {
    let mut state = in_phase(GamePhase::YourTurn);
    state.enemy_grid[0][0] = CellState::Miss;
    assert_eq!(handle_key_event(&mut state, Key::Enter), nothing());
    assert_eq!(state.phase, GamePhase::YourTurn);
    state.enemy_grid[0][0] = CellState::Hit;
    assert_eq!(handle_key_event(&mut state, Key::Enter), nothing());
    assert_eq!(state.messages.len(), 1);
}

#[test]
fn the_side_panel_flips() {
    for phase in [GamePhase::YourTurn, GamePhase::OpponentTurn, GamePhase::WaitingForOpponent] {
        let mut state = in_phase(phase);
        assert_eq!(handle_key_event(&mut state, Key::Char('s')), nothing());
        assert_eq!(state.side_panel_mode, SidePanelMode::Deck);
        handle_key_event(&mut state, Key::Char('S'));
        assert_eq!(state.side_panel_mode, SidePanelMode::Statistics);
        state.side_panel_mode = SidePanelMode::Hidden;
        handle_key_event(&mut state, Key::Char('s'));
        assert_eq!(state.side_panel_mode, SidePanelMode::Statistics);
    }
    let mut state = GameState::new();
    handle_key_event(&mut state, Key::Char('s'));
    assert_eq!(state.side_panel_mode, SidePanelMode::Statistics);
}

#[test]
fn digit_keys_play_cards() {
    let mut state = in_phase(GamePhase::YourTurn);
    state.add_card(PowerUp::Shield);
    state.add_card(PowerUp::Radar);
    state.add_card(PowerUp::Repair);
    assert_eq!(handle_key_event(&mut state, Key::Char('4')), nothing());
    assert_eq!(handle_key_event(&mut state, Key::Char('6')), nothing());
    assert_eq!(handle_key_event(&mut state, Key::Char('0')), nothing());
    assert_eq!(
        handle_key_event(&mut state, Key::Char('2')),
        sends(Message::CardUsed { card: PowerUp::Radar, target_x: None, target_y: None })
    );
    assert_eq!(state.current_hand, vec![PowerUp::Shield, PowerUp::Repair]);
    assert_eq!(
        handle_key_event(&mut state, Key::Char('2')),
        sends(Message::CardUsed { card: PowerUp::Repair, target_x: None, target_y: None })
    );
    assert_eq!(
        handle_key_event(&mut state, Key::Char('1')),
        sends(Message::CardUsed { card: PowerUp::Shield, target_x: None, target_y: None })
    );
    assert_eq!(handle_key_event(&mut state, Key::Char('1')), nothing());
    assert_eq!(state.phase, GamePhase::YourTurn);
}

#[test]
fn cards_are_played_only_on_the_own_turn() {
    let mut state = in_phase(GamePhase::OpponentTurn);
    state.add_card(PowerUp::Shield);
    assert_eq!(handle_key_event(&mut state, Key::Char('1')), nothing());
    assert_eq!(state.current_hand.len(), 1);
}

#[test]
fn q_quits_in_every_phase() {
    for phase in [
        GamePhase::Placing,
        GamePhase::WaitingForOpponent,
        GamePhase::YourTurn,
        GamePhase::OpponentTurn,
        GamePhase::GameOver,
        GamePhase::PlayAgainPrompt,
        GamePhase::LastStand,
    ] {
        let mut state = in_phase(phase);
        assert_eq!(handle_key_event(&mut state, Key::Char('q')), quits());
        assert_eq!(state.phase, phase);
        assert_eq!(handle_key_event(&mut state, Key::Char('Q')), nothing());
        assert_eq!(handle_key_event(&mut state, Key::Other), nothing());
    }
}

#[test]
fn the_play_again_prompt_takes_yes_and_no() {
    for (key, wants) in [('y', true), ('Y', true), ('n', false), ('N', false)] {
        let mut state = in_phase(GamePhase::PlayAgainPrompt);
        assert_eq!(
            handle_key_event(&mut state, Key::Char(key)),
            sends(Message::PlayAgainResponse { wants_to_play: wants })
        );
        assert_eq!(state.phase, GamePhase::GameOver);
        let line = if wants { "You chose to play again!" } else { "You chose not to play again." };
        assert_eq!(state.messages.last().unwrap(), line);
    }
    let mut state = in_phase(GamePhase::PlayAgainPrompt);
    assert_eq!(handle_key_event(&mut state, Key::Enter), nothing());
    assert_eq!(handle_key_event(&mut state, Key::Char('x')), nothing());
    assert_eq!(state.phase, GamePhase::PlayAgainPrompt);
}

#[test]
fn the_last_stand_is_keyed_in() {
    let mut state = in_phase(GamePhase::LastStand);
    state.trigger_last_stand();
    for key in ['.', '.', '.', '-', '-', '-', '.', '.'] {
        assert_eq!(handle_key_event(&mut state, Key::Char(key)), nothing());
    }
    assert_eq!(handle_key_event(&mut state, Key::Char('x')), nothing());
    assert_eq!(
        handle_key_event(&mut state, Key::Char('.')),
        sends(Message::LastStandResult { success: true })
    );
    assert_eq!(state.messages.last().unwrap(), "Last Stand successful! Ship restored!");
}

#[test]
fn a_wrong_last_stand_answer_is_sent_as_failure() {
    let mut state = in_phase(GamePhase::LastStand);
    state.trigger_last_stand();
    for _ in 0..8 {
        assert_eq!(handle_key_event(&mut state, Key::Char('.')), nothing());
    }
    assert_eq!(
        handle_key_event(&mut state, Key::Char('-')),
        sends(Message::LastStandResult { success: false })
    );
    assert_eq!(state.messages.last().unwrap(), "Last Stand failed! Game over!");
}

#[test]
fn once_the_game_is_over_only_q_is_heard() {
    let mut state = in_phase(GamePhase::GameOver);
    for key in [Key::Up, Key::Down, Key::Left, Key::Right, Key::Enter, Key::Char('s'), Key::Char('y')] {
        assert_eq!(handle_key_event(&mut state, key), nothing());
    }
    assert_eq!(state.cursor, (0, 0));
    assert_eq!(state.side_panel_mode, SidePanelMode::Statistics);
    assert_eq!(state.messages.len(), 1);
}
