use battleship::ai::{has_valid_repair_target, place_fleet_randomly, place_ship_randomly, AiPlayer};
use battleship::board::{new_grid, place_ship};
use battleship::model::{SessionPhase, ShieldPolicy};
use battleship::session::Session;
use battleship::types::{CellState, Message, PowerUp};

fn ship_cells(grid: &[Vec<CellState>]) -> usize {
    grid.iter().flatten().filter(|c| **c == CellState::Ship).count()
}

/// The straight runs of ship cells that no other ship cell touches, by length.
fn runs(grid: &[Vec<CellState>]) -> Vec<usize> {
    let mut seen = vec![vec![false; 10]; 10];
    let mut lengths = Vec::new();
    for y in 0..10 {
        for x in 0..10 {
            if grid[y][x] != CellState::Ship || seen[y][x] {
                continue;
            }
            let mut stack = vec![(x, y)];
            let mut size = 0;
            seen[y][x] = true;
            while let Some((cx, cy)) = stack.pop() {
                size += 1;
                let mut next = Vec::new();
                if cx > 0 {
                    next.push((cx - 1, cy));
                }
                if cy > 0 {
                    next.push((cx, cy - 1));
                }
                if cx < 9 {
                    next.push((cx + 1, cy));
                }
                if cy < 9 {
                    next.push((cx, cy + 1));
                }
                for (nx, ny) in next {
                    if grid[ny][nx] == CellState::Ship && !seen[ny][nx] {
                        seen[ny][nx] = true;
                        stack.push((nx, ny));
                    }
                }
            }
            lengths.push(size);
        }
    }
    lengths
}

#[test]
fn a_random_fleet_has_seventeen_ship_cells() {
    for _ in 0..100 {
        let grid = place_fleet_randomly();
        assert_eq!(grid.len(), 10);
        assert!(grid.iter().all(|row| row.len() == 10));
        assert_eq!(ship_cells(&grid), 17);
        assert!(grid.iter().flatten().all(|c| *c == CellState::Ship || *c == CellState::Empty));
        assert_eq!(runs(&grid).iter().sum::<usize>(), 17);
    }
}

#[test]
fn random_fleets_differ() {
    let first = place_fleet_randomly();
    let mut differs = false;
    for _ in 0..20 {
        if place_fleet_randomly() != first {
            differs = true;
        }
    }
    assert!(differs);
}

#[test]
fn a_ship_is_placed_at_random_where_it_fits() {
    for _ in 0..50 {
        let mut grid = new_grid();
        place_ship(&mut grid, 0, 0, 5, true);
        let before = grid.clone();
        let p = place_ship_randomly(&mut grid, 4).unwrap();
        assert_eq!(ship_cells(&grid), 9);
        for i in 0..4 {
            let (x, y) = if p.horizontal { (p.x + i, p.y) } else { (p.x, p.y + i) };
            assert_eq!(before[y][x], CellState::Empty);
            assert_eq!(grid[y][x], CellState::Ship);
        }
    }
}

#[test]
fn a_ship_takes_the_only_room_there_is() {
    let mut grid = vec![vec![CellState::Miss; 10]; 10];
    grid[2][7] = CellState::Empty;
    grid[3][7] = CellState::Empty;
    grid[4][7] = CellState::Empty;
    let p = place_ship_randomly(&mut grid, 3).unwrap();
    assert_eq!((p.x, p.y, p.horizontal), (7, 2, false));
    assert_eq!(ship_cells(&grid), 3);
    assert!(place_ship_randomly(&mut grid, 2).is_none());
    assert_eq!(ship_cells(&grid), 3);
}

#[test]
fn a_repair_needs_a_damaged_ship_afloat() {
    let mut grid = new_grid();
    assert!(!has_valid_repair_target(&grid));
    place_ship(&mut grid, 1, 1, 2, true);
    assert!(!has_valid_repair_target(&grid));
    grid[1][1] = CellState::Hit;
    assert!(has_valid_repair_target(&grid));
    grid[1][2] = CellState::Hit;
    assert!(!has_valid_repair_target(&grid));
}

#[test]
fn the_opponent_starts_with_a_fleet_and_nothing_else() {
    let (ai, message) = AiPlayer::start();
    assert_eq!(ship_cells(ai.grid()), 17);
    assert!(ai.hand().is_empty());
    assert_eq!(message, Message::PlaceShips(ai.grid().clone()));
    for y in 0..10 {
        for x in 0..10 {
            assert!(!ai.has_fired_at(x, y));
        }
    }
    assert!(ai.has_fired_at(10, 0));
    assert!(ai.has_fired_at(0, 10));
}

#[test]
fn the_opponent_never_fires_twice_at_a_cell() {
    let mut ai = AiPlayer::new(new_grid());
    let mut fired = vec![vec![false; 10]; 10];
    for _ in 0..100 {
        match ai.next_shot() {
            Some(Message::Attack { x, y }) => {
                assert!(!fired[y][x]);
                fired[y][x] = true;
                assert!(ai.has_fired_at(x, y));
            }
            other => panic!("not a shot: {:?}", other),
        }
    }
    assert!(fired.iter().flatten().all(|f| *f));
    assert_eq!(ai.next_shot(), None);
}

#[test]
fn the_opponent_fires_where_it_is_told_once() {
    let mut ai = AiPlayer::new(new_grid());
    assert_eq!(ai.fire_at(3, 4), Some(Message::Attack { x: 3, y: 4 }));
    assert_eq!(ai.fire_at(3, 4), None);
    assert_eq!(ai.fire_at(10, 4), None);
    assert!(ai.has_fired_at(3, 4));
    assert!(!ai.has_fired_at(4, 3));
}

#[test]
fn the_opponent_takes_note_of_cards_and_shots() {
    let mut fleet = new_grid();
    place_ship(&mut fleet, 0, 0, 2, true);
    let mut ai = AiPlayer::new(fleet);
    ai.note(&Message::Attack { x: 0, y: 0 });
    ai.note(&Message::Attack { x: 5, y: 5 });
    ai.note(&Message::Attack { x: 10, y: 5 });
    assert_eq!(ai.grid()[0][0], CellState::Hit);
    assert_eq!(ai.grid()[5][5], CellState::Miss);
    for _ in 0..7 {
        ai.note(&Message::CardDrawn { card: PowerUp::Radar });
    }
    assert_eq!(ai.hand().len(), 5);
    ai.note(&Message::GameStart);
    assert_eq!(ai.hand().len(), 5);
}

#[test]
fn the_opponent_keeps_a_repair_it_cannot_use() {
    let mut fleet = new_grid();
    place_ship(&mut fleet, 0, 0, 2, true);
    let mut ai = AiPlayer::new(fleet);
    ai.note(&Message::CardDrawn { card: PowerUp::Repair });
    assert_eq!(ai.play_card_at(0), None);
    assert_eq!(ai.play_random_card(), None);
    assert_eq!(ai.hand(), &vec![PowerUp::Repair]);
    ai.note(&Message::Attack { x: 1, y: 0 });
    assert_eq!(
        ai.play_card_at(0),
        Some(Message::CardUsed { card: PowerUp::Repair, target_x: None, target_y: None })
    );
    assert!(ai.hand().is_empty());
    assert_eq!(ai.grid()[0][1], CellState::Ship);
    assert_eq!(ai.play_card_at(0), None);
}

#[test]
fn the_opponent_plays_the_first_card_of_the_kind_it_picked() {
    let mut ai = AiPlayer::new(new_grid());
    for card in [PowerUp::Radar, PowerUp::Shield, PowerUp::Radar] {
        ai.note(&Message::CardDrawn { card });
    }
    assert_eq!(
        ai.play_card_at(2),
        Some(Message::CardUsed { card: PowerUp::Radar, target_x: None, target_y: None })
    );
    assert_eq!(ai.hand(), &vec![PowerUp::Shield, PowerUp::Radar]);
    assert_eq!(ai.play_card_at(2), None);
}

#[test]
fn a_turn_of_the_opponent_is_a_card_at_most_and_a_shot() {
    for _ in 0..20 {
        let mut ai = AiPlayer::new(new_grid());
        let sent = ai.respond(&Message::YourTurn);
        assert_eq!(sent.len(), 1);
        assert!(matches!(sent[0], Message::Attack { .. }));
        ai.note(&Message::CardDrawn { card: PowerUp::Shield });
        let sent = ai.take_turn();
        assert_eq!(sent.len(), 2);
        assert_eq!(
            sent[0],
            Message::CardUsed { card: PowerUp::Shield, target_x: None, target_y: None }
        );
        assert!(matches!(sent[1], Message::Attack { .. }));
        assert!(ai.hand().is_empty());
    }
}

#[test]
fn the_opponent_answers_the_questions_of_the_session() {
    let mut ai = AiPlayer::new(new_grid());
    assert_eq!(
        ai.respond(&Message::LastStandTrigger),
        vec![Message::LastStandResult { success: false }]
    );
    assert_eq!(
        ai.respond(&Message::PlayAgainRequest),
        vec![Message::PlayAgainResponse { wants_to_play: true }]
    );
    assert!(ai.respond(&Message::GameStart).is_empty());
    assert!(ai.respond(&Message::OpponentTurn).is_empty());
    assert!(ai.respond(&Message::AttackResult { x: 0, y: 0, hit: true, sunk: false }).is_empty());
}

#[test]
fn a_new_game_gives_the_opponent_a_fresh_fleet() {
    let mut ai = AiPlayer::new(new_grid());
    ai.fire_at(0, 0);
    ai.note(&Message::CardDrawn { card: PowerUp::Shield });
    let sent = ai.respond(&Message::NewGameStart);
    assert_eq!(sent, vec![Message::PlaceShips(ai.grid().clone())]);
    assert_eq!(ship_cells(ai.grid()), 17);
    assert!(ai.hand().is_empty());
    assert!(!ai.has_fired_at(0, 0));
}

#[test]
fn the_opponent_plays_a_whole_game_through_the_session() {
    let mut session = Session::new(ShieldPolicy::ReportMiss);
    let (mut ai, placement) = AiPlayer::start();
    let mut human = new_grid();
    place_ship(&mut human, 0, 0, 2, true);
    let mut inbox: Vec<(usize, Message)> =
        vec![(1, placement), (0, Message::PlaceShips(human))];
    let mut human_shots = 0;
    let mut steps = 0;
    let mut game_over = false;
    while let Some((from, message)) = inbox.pop() {
        steps += 1;
        assert!(steps < 5_000);
        let out = session.handle_message(from, message, steps);
        let mut replies = Vec::new();
        for o in out {
            if o.to == 1 {
                for reply in ai.respond(&o.message) {
                    replies.push((1, reply));
                }
            } else {
                match o.message {
                    Message::YourTurn => {
                        // The human fires along the bottom rows, far from the fleet.
                        let shot = Message::Attack {
                            x: human_shots % 10,
                            y: 9 - (human_shots / 10) % 5,
                        };
                        human_shots += 1;
                        replies.push((0, shot));
                    }
                    Message::LastStandTrigger => {
                        replies.push((0, Message::LastStandResult { success: false }));
                    }
                    Message::GameOver { .. } => game_over = true,
                    _ => {}
                }
            }
        }
        replies.reverse();
        inbox.extend(replies);
        if game_over {
            break;
        }
    }
    assert!(game_over);
    assert!(matches!(
        session.phase(),
        SessionPhase::AwaitingPlayAgain | SessionPhase::AwaitingPlacement
    ));
    assert!(session.player(0).hand().len() <= 5);
    assert!(session.player(1).hand().len() <= 5);
}

#[test]
fn a_card_that_can_be_played_is_always_played() {
    for _ in 0..50 {
        let mut fleet = new_grid();
        place_ship(&mut fleet, 0, 0, 2, true);
        let mut ai = AiPlayer::new(fleet);
        for card in [PowerUp::Radar, PowerUp::Shield, PowerUp::MissileStrike] {
            ai.note(&Message::CardDrawn { card });
        }
        assert!(ai.play_random_card().is_some());
        assert_eq!(ai.hand().len(), 2);
        // With a damaged ship afloat a repair is as good as any other card.
        ai.note(&Message::CardDrawn { card: PowerUp::Repair });
        ai.note(&Message::Attack { x: 0, y: 0 });
        for left in (0..3).rev() {
            assert!(ai.play_random_card().is_some());
            assert_eq!(ai.hand().len(), left);
        }
        assert_eq!(ai.play_random_card(), None);
    }
}
