use battleship::board::new_grid;
use battleship::relay::{RelayAction, RelayState};
use battleship::types::Message;

#[test]
fn a_new_relay_has_nobody_ready() {
    let relay = RelayState::new();
    assert!(!relay.player1_ready);
    assert!(!relay.player2_ready);
    assert!(!relay.game_started);
    assert_eq!(RelayState::greeting(), Message::WaitingForOpponent);
}

#[test]
fn every_message_goes_to_the_other_player() {
    let mut relay = RelayState::new();
    assert_eq!(
        relay.relay(0, &Message::Attack { x: 1, y: 2 }),
        vec![RelayAction::Forward { to: 1 }]
    );
    assert_eq!(relay.relay(1, &Message::GameOver { won: true }), vec![RelayAction::Forward { to: 0 }]);
    assert_eq!(relay.relay(1, &Message::Quit), vec![RelayAction::Forward { to: 0 }]);
    assert_eq!(relay, RelayState::new());
}

#[test]
fn the_second_fleet_starts_the_game_once() {
    let mut relay = RelayState::new();
    let fleet = Message::PlaceShips(new_grid());
    assert_eq!(relay.relay(1, &fleet), vec![RelayAction::Forward { to: 0 }]);
    assert!(relay.player2_ready && !relay.player1_ready && !relay.game_started);
    assert_eq!(relay.relay(1, &fleet), vec![RelayAction::Forward { to: 0 }]);
    assert_eq!(
        relay.relay(0, &fleet),
        vec![
            RelayAction::Forward { to: 1 },
            RelayAction::Send { to: 0, message: Message::GameStart },
            RelayAction::Send { to: 1, message: Message::GameStart },
            RelayAction::Send { to: 0, message: Message::YourTurn },
            RelayAction::Send { to: 1, message: Message::OpponentTurn },
        ]
    );
    assert!(relay.player1_ready && relay.player2_ready && relay.game_started);
    assert_eq!(relay.relay(0, &fleet), vec![RelayAction::Forward { to: 1 }]);
    assert_eq!(relay.relay(1, &fleet), vec![RelayAction::Forward { to: 0 }]);
}
