use battleship::board::{new_grid, place_ship};
use battleship::model::{Chance, PlayAgainState, SessionPhase, ShieldPolicy};
use battleship::session::{Outgoing, Session};
use battleship::types::{CellState, Message, PowerUp};

fn no_luck() -> Chance {
    Chance {
        shield_blocks: false,
        drawn: PowerUp::Radar,
        anchor: None,
        first_strike: None,
        second_strike: None,
    }
}

fn drawing(card: PowerUp) -> Chance {
    Chance { drawn: card, ..no_luck() }
}

fn to(to: usize, message: Message) -> Outgoing {
    Outgoing { to, message }
}

fn full_fleet() -> Vec<Vec<CellState>> {
    let mut grid = new_grid();
    place_ship(&mut grid, 0, 0, 5, true);
    place_ship(&mut grid, 0, 2, 4, true);
    place_ship(&mut grid, 0, 4, 3, true);
    place_ship(&mut grid, 0, 6, 3, true);
    place_ship(&mut grid, 0, 8, 2, true);
    grid
}

/// A grid with one ship of two cells at (3,4) and (4,4); the second cell is
/// hit already when `damaged` is set.
fn destroyer_only(damaged: bool) -> Vec<Vec<CellState>> {
    let mut grid = new_grid();
    place_ship(&mut grid, 3, 4, 2, true);
    if damaged {
        grid[4][4] = CellState::Hit;
    }
    grid
}

fn started(first: Vec<Vec<CellState>>, second: Vec<Vec<CellState>>) -> Session {
    let mut session = Session::new(ShieldPolicy::ReportMiss);
    session.apply_message(0, Message::PlaceShips(first), 0, no_luck());
    session.apply_message(1, Message::PlaceShips(second), 0, no_luck());
    session
}

/// Gives player `who` the cards listed, by letting the player hit a long
/// row of ship cells of the other while the other fires at nothing of value.
fn started_with_hand(who: usize, cards: &[PowerUp]) -> Session {
    let mut session = started(full_fleet(), full_fleet());
    let mut shots = 0;
    let hits = [(0, 0), (1, 0), (2, 0), (3, 0), (4, 0)];
    let misses = [(9, 9), (8, 9), (7, 9), (6, 9), (5, 9), (4, 9)];
    let mut next_miss = 0;
    if who == 1 {
        session.apply_message(0, Message::Attack { x: 9, y: 5 }, 0, no_luck());
    }
    for card in cards {
        let (x, y) = hits[shots];
        session.apply_message(who, Message::Attack { x, y }, 0, drawing(*card));
        let (mx, my) = misses[next_miss];
        session.apply_message(1 - who, Message::Attack { x: mx, y: my }, 0, no_luck());
        next_miss += 1;
        shots += 1;
    }
    if who == 1 {
        session.apply_message(0, Message::Attack { x: 9, y: 6 }, 0, no_luck());
    }
    assert_eq!(session.player(who).hand().as_slice(), cards);
    assert_eq!(session.current_turn(), who);
    session
}

#[test]
fn a_new_session_awaits_both_fleets() {
    let session = Session::new(ShieldPolicy::ReportMiss);
    assert_eq!(session.phase(), SessionPhase::AwaitingPlacement);
    assert_eq!(session.current_turn(), 0);
    assert_eq!(session.play_again_state(), PlayAgainState::Idle);
    assert_eq!(session.shield_policy(), ShieldPolicy::ReportMiss);
    assert!(!session.is_closed());
    for i in 0..2 {
        let p = session.player(i);
        assert!(p.grid().is_none());
        assert!(!p.is_ready());
        assert!(!p.last_stand_used());
        assert!(!p.shield_active());
        assert!(p.hand().is_empty());
    }
}

#[test]
fn the_first_to_place_waits_for_the_opponent() {
    let mut session = Session::new(ShieldPolicy::ReportMiss);
    let out = session.apply_message(1, Message::PlaceShips(full_fleet()), 0, no_luck());
    assert_eq!(out, vec![to(1, Message::WaitingForOpponent)]);
    assert!(session.player(1).is_ready());
    assert!(!session.player(0).is_ready());
    assert_eq!(session.player(1).grid(), Some(&full_fleet()));
    assert_eq!(session.phase(), SessionPhase::AwaitingPlacement);
}

#[test]
fn both_fleets_placed_start_the_game() {
    let mut session = Session::new(ShieldPolicy::ReportMiss);
    let out = session.apply_message(0, Message::PlaceShips(full_fleet()), 0, no_luck());
    assert_eq!(out, vec![to(0, Message::WaitingForOpponent)]);
    let out = session.apply_message(1, Message::PlaceShips(full_fleet()), 0, no_luck());
    assert_eq!(
        out,
        vec![
            to(0, Message::GameStart),
            to(1, Message::GameStart),
            to(0, Message::YourTurn),
            to(1, Message::OpponentTurn),
        ]
    );
    assert_eq!(session.phase(), SessionPhase::InProgress);
    assert_eq!(session.current_turn(), 0);
}

#[test]
fn fleets_may_come_in_either_order() {
    let mut session = Session::new(ShieldPolicy::ReportMiss);
    session.apply_message(1, Message::PlaceShips(full_fleet()), 0, no_luck());
    let out = session.apply_message(0, Message::PlaceShips(full_fleet()), 0, no_luck());
    assert_eq!(
        out,
        vec![
            to(0, Message::GameStart),
            to(1, Message::GameStart),
            to(0, Message::YourTurn),
            to(1, Message::OpponentTurn),
        ]
    );
    assert_eq!(session.current_turn(), 0);
}

#[test]
fn a_second_placement_is_not_heard() {
    let mut session = Session::new(ShieldPolicy::ReportMiss);
    session.apply_message(0, Message::PlaceShips(full_fleet()), 0, no_luck());
    let out = session.apply_message(0, Message::PlaceShips(destroyer_only(false)), 0, no_luck());
    assert!(out.is_empty());
    assert_eq!(session.player(0).grid(), Some(&full_fleet()));
    let mut session = started(full_fleet(), full_fleet());
    let out = session.apply_message(1, Message::PlaceShips(destroyer_only(false)), 0, no_luck());
    assert!(out.is_empty());
    assert_eq!(session.player(1).grid(), Some(&full_fleet()));
}

#[test]
fn a_grid_of_the_wrong_shape_is_not_taken() {
    let mut session = Session::new(ShieldPolicy::ReportMiss);
    let small = vec![vec![CellState::Empty; 3]; 3];
    let out = session.apply_message(0, Message::PlaceShips(small), 0, no_luck());
    assert!(out.is_empty());
    assert!(!session.player(0).is_ready());
    assert!(session.player(0).grid().is_none());
}

#[test]
fn a_miss_passes_the_turn() {
    let mut session = started(full_fleet(), full_fleet());
    let out = session.apply_message(0, Message::Attack { x: 9, y: 9 }, 0, no_luck());
    assert_eq!(
        out,
        vec![
            to(0, Message::AttackResult { x: 9, y: 9, hit: false, sunk: false }),
            to(1, Message::Attack { x: 9, y: 9 }),
            to(0, Message::OpponentTurn),
            to(1, Message::YourTurn),
        ]
    );
    assert_eq!(session.current_turn(), 1);
    assert_eq!(session.player(1).grid().unwrap()[9][9], CellState::Miss);
}

#[test]
fn a_hit_draws_a_card_and_passes_the_turn() {
    let mut session = started(full_fleet(), full_fleet());
    let out =
        session.apply_message(0, Message::Attack { x: 0, y: 0 }, 0, drawing(PowerUp::Repair));
    assert_eq!(
        out,
        vec![
            to(0, Message::AttackResult { x: 0, y: 0, hit: true, sunk: false }),
            to(1, Message::Attack { x: 0, y: 0 }),
            to(0, Message::CardDrawn { card: PowerUp::Repair }),
            to(0, Message::OpponentTurn),
            to(1, Message::YourTurn),
        ]
    );
    assert_eq!(session.player(0).hand(), &vec![PowerUp::Repair]);
    assert_eq!(session.player(1).grid().unwrap()[0][0], CellState::Hit);
    assert_eq!(session.current_turn(), 1);
}

#[test]
fn the_turn_alternates_shot_by_shot() {
    let mut session = started(full_fleet(), full_fleet());
    let mut turn = 0;
    for i in 0..10 {
        assert_eq!(session.current_turn(), turn);
        session.apply_message(turn, Message::Attack { x: 9, y: i }, 0, no_luck());
        turn = 1 - turn;
    }
    assert_eq!(session.current_turn(), 0);
}

#[test]
fn a_shot_out_of_turn_is_not_heard() {
    let mut session = started(full_fleet(), full_fleet());
    let out = session.apply_message(1, Message::Attack { x: 0, y: 0 }, 0, no_luck());
    assert!(out.is_empty());
    assert_eq!(session.current_turn(), 0);
    assert_eq!(session.player(0).grid().unwrap()[0][0], CellState::Ship);
}

#[test]
fn a_shot_off_the_board_is_not_heard() {
    let mut session = started(full_fleet(), full_fleet());
    assert!(session.apply_message(0, Message::Attack { x: 10, y: 0 }, 0, no_luck()).is_empty());
    assert!(session.apply_message(0, Message::Attack { x: 0, y: 10 }, 0, no_luck()).is_empty());
    assert_eq!(session.current_turn(), 0);
}

#[test]
fn a_shot_before_the_game_started_is_not_heard() {
    let mut session = Session::new(ShieldPolicy::ReportMiss);
    session.apply_message(0, Message::PlaceShips(full_fleet()), 0, no_luck());
    let out = session.apply_message(0, Message::Attack { x: 0, y: 0 }, 0, no_luck());
    assert!(out.is_empty());
}

#[test]
fn a_cell_shot_at_before_stays_as_it_is() {
    let mut session = started(full_fleet(), full_fleet());
    session.apply_message(0, Message::Attack { x: 0, y: 0 }, 0, no_luck());
    session.apply_message(1, Message::Attack { x: 9, y: 9 }, 0, no_luck());
    let out = session.apply_message(0, Message::Attack { x: 0, y: 0 }, 0, no_luck());
    assert_eq!(out[0], to(0, Message::AttackResult { x: 0, y: 0, hit: false, sunk: false }));
    assert_eq!(session.player(1).grid().unwrap()[0][0], CellState::Hit);
    assert_eq!(session.current_turn(), 1);
}

#[test]
fn sinking_the_last_cell_of_a_destroyer_reports_it_sunk() {
    // The second player keeps a second ship so that the game goes on.
    let mut second = destroyer_only(true);
    place_ship(&mut second, 0, 0, 3, false);
    let mut session = started(full_fleet(), second);
    let out = session.apply_message(0, Message::Attack { x: 3, y: 4 }, 0, no_luck());
    assert_eq!(out[0], to(0, Message::AttackResult { x: 3, y: 4, hit: true, sunk: true }));
    assert_eq!(out[1], to(1, Message::Attack { x: 3, y: 4 }));
    assert_eq!(session.phase(), SessionPhase::InProgress);
    assert_eq!(session.current_turn(), 1);
}

#[test]
fn the_last_ship_cell_opens_a_last_stand_instead_of_ending_the_game() {
    let mut session = started(full_fleet(), destroyer_only(true));
    let out = session.apply_message(0, Message::Attack { x: 3, y: 4 }, 70, no_luck());
    assert_eq!(
        out,
        vec![
            to(0, Message::AttackResult { x: 3, y: 4, hit: true, sunk: true }),
            to(1, Message::Attack { x: 3, y: 4 }),
            to(0, Message::CardDrawn { card: PowerUp::Radar }),
            to(1, Message::LastStandTrigger),
        ]
    );
    assert_eq!(
        session.phase(),
        SessionPhase::PendingLastStand { loser: 1, resume_turn: 1, opened_at: 70 }
    );
    assert!(session.player(1).last_stand_used());
    assert!(!session.player(0).last_stand_used());
    assert_eq!(session.current_turn(), 0);
}

#[test]
fn a_last_stand_that_is_won_restores_a_destroyer_and_play_goes_on() {
    let mut session = started(full_fleet(), destroyer_only(true));
    session.apply_message(0, Message::Attack { x: 3, y: 4 }, 0, no_luck());
    let chance = Chance { anchor: Some((7, 7)), ..no_luck() };
    let out = session.apply_message(1, Message::LastStandResult { success: true }, 5, chance);
    assert_eq!(out, vec![to(0, Message::OpponentTurn), to(1, Message::YourTurn)]);
    assert_eq!(session.phase(), SessionPhase::InProgress);
    assert_eq!(session.current_turn(), 1);
    let grid = session.player(1).grid().unwrap();
    assert_eq!(grid[7][7], CellState::Ship);
    assert_eq!(grid[7][8], CellState::Ship);
    assert_eq!(grid[4][3], CellState::Hit);
    let ships = grid.iter().flatten().filter(|c| **c == CellState::Ship).count();
    assert_eq!(ships, 2);
}

#[test]
fn the_rescue_ship_goes_vertical_where_it_cannot_lie_horizontal() {
    let mut session = started(full_fleet(), destroyer_only(true));
    session.apply_message(0, Message::Attack { x: 3, y: 4 }, 0, no_luck());
    let chance = Chance { anchor: Some((9, 0)), ..no_luck() };
    session.apply_message(1, Message::LastStandResult { success: true }, 5, chance);
    let grid = session.player(1).grid().unwrap();
    assert_eq!(grid[0][9], CellState::Ship);
    assert_eq!(grid[1][9], CellState::Ship);
}

#[test]
fn a_last_stand_with_no_room_for_the_ship_ends_the_game() {
    let mut session = started(full_fleet(), destroyer_only(true));
    session.apply_message(0, Message::Attack { x: 3, y: 4 }, 0, no_luck());
    // (4,4) is a hit cell: the rescue ship does not fit there.
    let chance = Chance { anchor: Some((4, 4)), ..no_luck() };
    let out = session.apply_message(1, Message::LastStandResult { success: true }, 5, chance);
    assert_eq!(
        out,
        vec![
            to(0, Message::GameOver { won: true }),
            to(1, Message::GameOver { won: false }),
            to(0, Message::PlayAgainRequest),
            to(1, Message::PlayAgainRequest),
        ]
    );
    assert_eq!(session.phase(), SessionPhase::AwaitingPlayAgain);
}

#[test]
fn a_last_stand_that_failed_ends_the_game() {
    let mut session = started(full_fleet(), destroyer_only(true));
    session.apply_message(0, Message::Attack { x: 3, y: 4 }, 0, no_luck());
    let chance = Chance { anchor: Some((7, 7)), ..no_luck() };
    let out = session.apply_message(1, Message::LastStandResult { success: false }, 900, chance);
    assert_eq!(
        out,
        vec![
            to(0, Message::GameOver { won: true }),
            to(1, Message::GameOver { won: false }),
            to(0, Message::PlayAgainRequest),
            to(1, Message::PlayAgainRequest),
        ]
    );
    assert_eq!(
        session.play_again_state(),
        PlayAgainState::WaitingForResponses {
            p1_response: None,
            p2_response: None,
            timeout_start: 900
        }
    );
}

#[test]
fn a_missed_deadline_ends_the_game_like_a_failed_last_stand() {
    let mut answered = started(full_fleet(), destroyer_only(true));
    answered.apply_message(0, Message::Attack { x: 3, y: 4 }, 1_000, no_luck());
    let mut timed_out = started(full_fleet(), destroyer_only(true));
    timed_out.apply_message(0, Message::Attack { x: 3, y: 4 }, 1_000, no_luck());

    assert!(timed_out.tick(10_999).is_empty());
    assert!(matches!(timed_out.phase(), SessionPhase::PendingLastStand { .. }));
    let late = timed_out.tick(11_000);
    let failed =
        answered.apply_message(1, Message::LastStandResult { success: false }, 11_000, no_luck());
    assert_eq!(late, failed);
    assert_eq!(timed_out.phase(), answered.phase());
    assert_eq!(timed_out.play_again_state(), answered.play_again_state());
    assert_eq!(timed_out.phase(), SessionPhase::AwaitingPlayAgain);
}

#[test]
fn during_a_last_stand_other_messages_are_not_heard() {
    let mut session = started(full_fleet(), destroyer_only(true));
    session.apply_message(0, Message::Attack { x: 3, y: 4 }, 0, no_luck());
    assert!(session.apply_message(0, Message::Attack { x: 0, y: 0 }, 1, no_luck()).is_empty());
    assert!(session.apply_message(1, Message::Attack { x: 0, y: 0 }, 1, no_luck()).is_empty());
    assert!(session
        .apply_message(0, Message::LastStandResult { success: true }, 1, no_luck())
        .is_empty());
    assert!(session
        .apply_message(1, Message::PlayAgainResponse { wants_to_play: true }, 1, no_luck())
        .is_empty());
    assert!(matches!(session.phase(), SessionPhase::PendingLastStand { loser: 1, .. }));
}

#[test]
fn a_quit_during_a_last_stand_is_heard() {
    let mut session = started(full_fleet(), destroyer_only(true));
    session.apply_message(0, Message::Attack { x: 3, y: 4 }, 0, no_luck());
    let out = session.apply_message(0, Message::Quit, 1, no_luck());
    assert_eq!(out, vec![to(1, Message::OpponentQuit)]);
    assert!(session.is_closed());
}

#[test]
fn a_player_is_challenged_once_per_life() {
    let mut session = started(full_fleet(), destroyer_only(true));
    session.apply_message(0, Message::Attack { x: 3, y: 4 }, 0, no_luck());
    let chance = Chance { anchor: Some((0, 9)), ..no_luck() };
    session.apply_message(1, Message::LastStandResult { success: true }, 5, chance);
    session.apply_message(1, Message::Attack { x: 9, y: 9 }, 6, no_luck());
    session.apply_message(0, Message::Attack { x: 0, y: 9 }, 7, no_luck());
    session.apply_message(1, Message::Attack { x: 8, y: 9 }, 8, no_luck());
    let out = session.apply_message(0, Message::Attack { x: 1, y: 9 }, 9, no_luck());
    assert!(out.iter().all(|o| o.message != Message::LastStandTrigger));
    assert!(out.contains(&to(0, Message::GameOver { won: true })));
    assert!(out.contains(&to(1, Message::GameOver { won: false })));
    assert_eq!(session.phase(), SessionPhase::AwaitingPlayAgain);
}

#[test]
fn two_yeses_start_a_new_game_with_everything_reset() {
    let mut session = started(full_fleet(), destroyer_only(true));
    session.apply_message(0, Message::Attack { x: 3, y: 4 }, 0, drawing(PowerUp::Shield));
    session.apply_message(1, Message::LastStandResult { success: false }, 5, no_luck());
    assert_eq!(session.player(0).hand().len(), 1);
    let out =
        session.apply_message(1, Message::PlayAgainResponse { wants_to_play: true }, 6, no_luck());
    assert!(out.is_empty());
    assert_eq!(
        session.play_again_state(),
        PlayAgainState::WaitingForResponses {
            p1_response: None,
            p2_response: Some(true),
            timeout_start: 5
        }
    );
    let out =
        session.apply_message(0, Message::PlayAgainResponse { wants_to_play: true }, 7, no_luck());
    assert_eq!(out, vec![to(0, Message::NewGameStart), to(1, Message::NewGameStart)]);
    assert_eq!(session.phase(), SessionPhase::AwaitingPlacement);
    assert_eq!(session.play_again_state(), PlayAgainState::Idle);
    assert_eq!(session.current_turn(), 0);
    for i in 0..2 {
        let p = session.player(i);
        assert!(p.grid().is_none());
        assert!(!p.is_ready());
        assert!(!p.last_stand_used());
        assert!(!p.shield_active());
        assert!(p.hand().is_empty());
    }
    // The new game can be played.
    session.apply_message(0, Message::PlaceShips(full_fleet()), 8, no_luck());
    let out = session.apply_message(1, Message::PlaceShips(full_fleet()), 9, no_luck());
    assert_eq!(out.len(), 4);
    assert_eq!(session.phase(), SessionPhase::InProgress);
}

#[test]
fn one_no_ends_the_session_at_once() {
    let mut session = started(full_fleet(), destroyer_only(true));
    session.apply_message(0, Message::Attack { x: 3, y: 4 }, 0, no_luck());
    session.apply_message(1, Message::LastStandResult { success: false }, 5, no_luck());
    let out =
        session.apply_message(0, Message::PlayAgainResponse { wants_to_play: false }, 6, no_luck());
    assert!(out.is_empty());
    assert!(session.is_closed());
    assert_eq!(session.play_again_state(), PlayAgainState::OneDeclined);
}

#[test]
fn a_no_after_a_yes_ends_the_session() {
    let mut session = started(full_fleet(), destroyer_only(true));
    session.apply_message(0, Message::Attack { x: 3, y: 4 }, 0, no_luck());
    session.apply_message(1, Message::LastStandResult { success: false }, 5, no_luck());
    session.apply_message(0, Message::PlayAgainResponse { wants_to_play: true }, 6, no_luck());
    session.apply_message(1, Message::PlayAgainResponse { wants_to_play: false }, 7, no_luck());
    assert!(session.is_closed());
    assert_eq!(session.play_again_state(), PlayAgainState::OneDeclined);
}

#[test]
fn only_the_first_answer_of_a_player_counts() {
    let mut session = started(full_fleet(), destroyer_only(true));
    session.apply_message(0, Message::Attack { x: 3, y: 4 }, 0, no_luck());
    session.apply_message(1, Message::LastStandResult { success: false }, 5, no_luck());
    session.apply_message(0, Message::PlayAgainResponse { wants_to_play: true }, 6, no_luck());
    session.apply_message(0, Message::PlayAgainResponse { wants_to_play: false }, 7, no_luck());
    assert_eq!(session.phase(), SessionPhase::AwaitingPlayAgain);
    assert_eq!(
        session.play_again_state(),
        PlayAgainState::WaitingForResponses {
            p1_response: Some(true),
            p2_response: None,
            timeout_start: 5
        }
    );
}

#[test]
fn the_play_again_window_closes_after_thirty_seconds() {
    let mut session = started(full_fleet(), destroyer_only(true));
    session.apply_message(0, Message::Attack { x: 3, y: 4 }, 0, no_luck());
    session.apply_message(1, Message::LastStandResult { success: false }, 1_000, no_luck());
    session.apply_message(0, Message::PlayAgainResponse { wants_to_play: true }, 2_000, no_luck());
    assert!(session.tick(31_000).is_empty());
    assert_eq!(session.phase(), SessionPhase::AwaitingPlayAgain);
    assert!(session.tick(31_001).is_empty());
    assert!(session.is_closed());
    assert_eq!(session.play_again_state(), PlayAgainState::Timeout);
}

#[test]
fn a_clock_that_runs_backwards_times_nothing_out() {
    let mut session = started(full_fleet(), destroyer_only(true));
    session.apply_message(0, Message::Attack { x: 3, y: 4 }, 50_000, no_luck());
    assert!(session.tick(0).is_empty());
    assert!(matches!(session.phase(), SessionPhase::PendingLastStand { .. }));
}

#[test]
fn a_play_again_answer_during_the_game_is_not_heard() {
    let mut session = started(full_fleet(), full_fleet());
    let out =
        session.apply_message(0, Message::PlayAgainResponse { wants_to_play: false }, 0, no_luck());
    assert!(out.is_empty());
    assert_eq!(session.phase(), SessionPhase::InProgress);
}

#[test]
fn the_negotiation_agrees_only_on_two_yeses() {
    let open = PlayAgainState::WaitingForResponses {
        p1_response: None,
        p2_response: None,
        timeout_start: 0,
    };
    assert_eq!(open.respond(0, true).respond(1, true), PlayAgainState::BothAgreed);
    assert_eq!(open.respond(1, true).respond(0, true), PlayAgainState::BothAgreed);
    assert_eq!(open.respond(0, false), PlayAgainState::OneDeclined);
    assert_eq!(open.respond(1, false), PlayAgainState::OneDeclined);
    assert_eq!(open.respond(0, true).respond(1, false), PlayAgainState::OneDeclined);
    assert_eq!(open.respond(2, true), open);
    assert_eq!(PlayAgainState::Idle.respond(0, true), PlayAgainState::Idle);
    assert_eq!(PlayAgainState::Timeout.respond(0, true), PlayAgainState::Timeout);
    assert_eq!(open.settle(), open);
    assert_eq!(open.check_timeout(30_000), open);
    assert_eq!(open.check_timeout(30_001), PlayAgainState::Timeout);
    assert_eq!(PlayAgainState::Idle.check_timeout(99_999), PlayAgainState::Idle);
}

#[test]
fn a_quit_tells_the_opponent_and_ends_the_session() {
    let mut session = started(full_fleet(), full_fleet());
    let out = session.apply_message(1, Message::Quit, 0, no_luck());
    assert_eq!(out, vec![to(0, Message::OpponentQuit)]);
    assert!(session.is_closed());
    assert!(session.apply_message(0, Message::Attack { x: 0, y: 0 }, 0, no_luck()).is_empty());
    assert!(session.apply_message(0, Message::Quit, 0, no_luck()).is_empty());
}

#[test]
fn a_quit_before_the_game_is_heard_too() {
    let mut session = Session::new(ShieldPolicy::ReportMiss);
    let out = session.apply_message(0, Message::Quit, 0, no_luck());
    assert_eq!(out, vec![to(1, Message::OpponentQuit)]);
    assert!(session.is_closed());
}

#[test]
fn a_lost_connection_ends_the_session_and_tells_nobody() {
    let mut session = started(full_fleet(), full_fleet());
    session.disconnect();
    assert!(session.is_closed());
    assert!(session.tick(1_000_000).is_empty());
}

#[test]
fn a_message_from_nobody_is_not_heard() {
    let mut session = Session::new(ShieldPolicy::ReportMiss);
    assert!(session.apply_message(2, Message::PlaceShips(full_fleet()), 0, no_luck()).is_empty());
    assert!(session.apply_message(7, Message::Quit, 0, no_luck()).is_empty());
    assert!(!session.is_closed());
}

#[test]
fn notices_of_the_session_sent_back_to_it_are_not_heard() {
    let mut session = started(full_fleet(), full_fleet());
    for message in [
        Message::GameStart,
        Message::YourTurn,
        Message::OpponentTurn,
        Message::GameOver { won: true },
        Message::AttackResult { x: 0, y: 0, hit: true, sunk: true },
        Message::LastStandTrigger,
        Message::NewGameStart,
        Message::PlayAgainRequest,
        Message::PlayAgainTimeout,
        Message::OpponentQuit,
        Message::WaitingForOpponent,
        Message::CardDrawn { card: PowerUp::Shield },
        Message::GridUpdate { grid: new_grid() },
        Message::CardEffect { effect_type: "repair".to_string(), data: String::new() },
    ] {
        assert!(session.apply_message(0, message, 0, no_luck()).is_empty());
    }
    assert_eq!(session.phase(), SessionPhase::InProgress);
    assert_eq!(session.current_turn(), 0);
}

#[test]
fn a_hand_never_holds_more_than_five_cards() {
    let mut session = started(full_fleet(), full_fleet());
    let hits = [(0, 0), (1, 0), (2, 0), (3, 0), (4, 0), (0, 2), (1, 2), (2, 2)];
    for (i, (x, y)) in hits.iter().enumerate() {
        let out = session.apply_message(
            0,
            Message::Attack { x: *x, y: *y },
            0,
            drawing(PowerUp::Shield),
        );
        let drew = out.contains(&to(0, Message::CardDrawn { card: PowerUp::Shield }));
        assert_eq!(drew, i < 5);
        session.apply_message(1, Message::Attack { x: 9, y: i }, 0, no_luck());
        assert!(session.player(0).hand().len() <= 5);
    }
    assert_eq!(session.player(0).hand().len(), 5);
}

#[test]
fn a_card_that_is_not_held_cannot_be_played() {
    let mut session = started(full_fleet(), full_fleet());
    let used = Message::CardUsed { card: PowerUp::Shield, target_x: None, target_y: None };
    assert!(session.apply_message(0, used, 0, no_luck()).is_empty());
    assert!(!session.player(0).shield_active());
}

#[test]
fn a_shield_is_raised_and_the_card_leaves_the_hand() {
    let mut session = started_with_hand(0, &[PowerUp::Radar, PowerUp::Shield]);
    let used = Message::CardUsed { card: PowerUp::Shield, target_x: None, target_y: None };
    let out = session.apply_message(0, used, 0, no_luck());
    assert_eq!(
        out,
        vec![to(
            0,
            Message::CardEffect { effect_type: "shield_activated".to_string(), data: String::new() }
        )]
    );
    assert!(session.player(0).shield_active());
    assert_eq!(session.player(0).hand(), &vec![PowerUp::Radar]);
    assert_eq!(session.current_turn(), 0);
}

#[test]
fn a_shield_that_blocks_turns_the_hit_into_a_miss_and_comes_down() {
    let mut session = started_with_hand(1, &[PowerUp::Shield]);
    let used = Message::CardUsed { card: PowerUp::Shield, target_x: None, target_y: None };
    session.apply_message(1, used, 0, no_luck());
    session.apply_message(1, Message::Attack { x: 9, y: 9 }, 0, no_luck());
    let blocked = Chance { shield_blocks: true, ..no_luck() };
    let out = session.apply_message(0, Message::Attack { x: 0, y: 2 }, 0, blocked);
    assert_eq!(out[0], to(0, Message::AttackResult { x: 0, y: 2, hit: false, sunk: false }));
    assert_eq!(out[1], to(1, Message::Attack { x: 0, y: 2 }));
    assert!(!out.iter().any(|o| matches!(o.message, Message::CardDrawn { .. })));
    assert_eq!(session.player(1).grid().unwrap()[2][0], CellState::Miss);
    assert!(!session.player(1).shield_active());
}

#[test]
fn a_shield_that_does_not_block_lets_the_hit_through_and_comes_down() {
    let mut session = started_with_hand(1, &[PowerUp::Shield]);
    let used = Message::CardUsed { card: PowerUp::Shield, target_x: None, target_y: None };
    session.apply_message(1, used, 0, no_luck());
    session.apply_message(1, Message::Attack { x: 9, y: 9 }, 0, no_luck());
    let out = session.apply_message(0, Message::Attack { x: 0, y: 2 }, 0, no_luck());
    assert_eq!(out[0], to(0, Message::AttackResult { x: 0, y: 2, hit: true, sunk: false }));
    assert_eq!(session.player(1).grid().unwrap()[2][0], CellState::Hit);
    assert!(!session.player(1).shield_active());
}

#[test]
fn without_a_shield_the_coin_does_not_matter() {
    let mut session = started(full_fleet(), full_fleet());
    let blocked = Chance { shield_blocks: true, ..no_luck() };
    let out = session.apply_message(0, Message::Attack { x: 0, y: 0 }, 0, blocked);
    assert_eq!(out[0], to(0, Message::AttackResult { x: 0, y: 0, hit: true, sunk: false }));
}

#[test]
fn under_the_silent_policy_a_blocked_shot_gets_no_result() {
    let mut session = Session::new(ShieldPolicy::Silent);
    session.apply_message(0, Message::PlaceShips(full_fleet()), 0, no_luck());
    session.apply_message(1, Message::PlaceShips(full_fleet()), 0, no_luck());
    session.apply_message(0, Message::Attack { x: 9, y: 9 }, 0, no_luck());
    session.apply_message(1, Message::Attack { x: 0, y: 0 }, 0, drawing(PowerUp::Shield));
    session.apply_message(0, Message::Attack { x: 8, y: 9 }, 0, no_luck());
    let used = Message::CardUsed { card: PowerUp::Shield, target_x: None, target_y: None };
    session.apply_message(1, used, 0, no_luck());
    session.apply_message(1, Message::Attack { x: 9, y: 9 }, 0, no_luck());
    let blocked = Chance { shield_blocks: true, ..no_luck() };
    let out = session.apply_message(0, Message::Attack { x: 0, y: 2 }, 0, blocked);
    assert_eq!(
        out,
        vec![
            to(1, Message::Attack { x: 0, y: 2 }),
            to(0, Message::OpponentTurn),
            to(1, Message::YourTurn),
        ]
    );
    // An ordinary miss is still reported.
    session.apply_message(1, Message::Attack { x: 8, y: 9 }, 0, no_luck());
    let out = session.apply_message(0, Message::Attack { x: 7, y: 9 }, 0, blocked);
    assert_eq!(out[0], to(0, Message::AttackResult { x: 7, y: 9, hit: false, sunk: false }));
}

#[test]
fn a_radar_shows_the_first_two_ship_cells_of_the_opponent() {
    let mut session = started_with_hand(0, &[PowerUp::Radar]);
    let used = Message::CardUsed { card: PowerUp::Radar, target_x: None, target_y: None };
    let out = session.apply_message(0, used, 0, no_luck());
    // (0,0) was hit on the way to the card; the next ship cells are (1,0), (2,0).
    assert_eq!(
        out,
        vec![
            to(
                0,
                Message::CardEffect {
                    effect_type: "radar_reveal".to_string(),
                    data: "1,0".to_string()
                }
            ),
            to(
                0,
                Message::CardEffect {
                    effect_type: "radar_reveal".to_string(),
                    data: "2,0".to_string()
                }
            ),
        ]
    );
    assert!(session.player(0).hand().is_empty());
}

#[test]
fn a_repair_mends_the_first_damaged_cell_of_a_ship_afloat() {
    let mut session = started_with_hand(1, &[PowerUp::Repair]);
    // The first player was hit at (0,0) on the way.
    assert_eq!(session.player(1).grid().unwrap()[5][9], CellState::Miss);
    assert_eq!(session.player(0).grid().unwrap()[0][0], CellState::Hit);
    session.apply_message(1, Message::Attack { x: 1, y: 0 }, 0, drawing(PowerUp::Repair));
    let used = Message::CardUsed { card: PowerUp::Repair, target_x: None, target_y: None };
    // The first player holds no repair card: nothing happens.
    assert!(session.apply_message(0, used.clone(), 0, no_luck()).is_empty());
    // The second player holds two, but no ship of the second player is damaged.
    let out = session.apply_message(1, used.clone(), 0, no_luck());
    assert!(out.is_empty());
    assert_eq!(session.player(1).hand(), &vec![PowerUp::Repair, PowerUp::Repair]);
    // Once a ship of the second player is damaged the repair mends it.
    session.apply_message(0, Message::Attack { x: 0, y: 0 }, 0, drawing(PowerUp::Radar));
    assert_eq!(session.player(1).grid().unwrap()[0][0], CellState::Hit);
    let out = session.apply_message(1, used, 0, no_luck());
    assert_eq!(
        out,
        vec![to(1, Message::CardEffect { effect_type: "repair".to_string(), data: String::new() })]
    );
    assert_eq!(session.player(1).grid().unwrap()[0][0], CellState::Ship);
    assert_eq!(session.player(1).hand(), &vec![PowerUp::Repair]);
}

#[test]
fn a_repair_does_not_raise_a_sunk_ship() {
    let mut second = destroyer_only(false);
    place_ship(&mut second, 0, 9, 3, true);
    let mut session = started(full_fleet(), second);
    session.apply_message(0, Message::Attack { x: 3, y: 4 }, 0, no_luck());
    session.apply_message(1, Message::Attack { x: 0, y: 0 }, 0, drawing(PowerUp::Repair));
    session.apply_message(0, Message::Attack { x: 4, y: 4 }, 0, no_luck());
    let used = Message::CardUsed { card: PowerUp::Repair, target_x: None, target_y: None };
    let out = session.apply_message(1, used, 0, no_luck());
    assert!(out.is_empty());
    assert_eq!(session.player(1).hand(), &vec![PowerUp::Repair]);
    assert_eq!(session.player(1).grid().unwrap()[4][3], CellState::Hit);
}

#[test]
fn a_missile_strike_hits_two_cells_and_shows_the_grid() {
    let mut session = started_with_hand(0, &[PowerUp::MissileStrike]);
    let used = Message::CardUsed { card: PowerUp::MissileStrike, target_x: None, target_y: None };
    let chance =
        Chance { first_strike: Some((1, 0)), second_strike: Some((5, 5)), ..no_luck() };
    let out = session.apply_message(0, used, 0, chance);
    let mut expected = full_fleet();
    expected[0][0] = CellState::Hit;
    expected[0][1] = CellState::Hit;
    expected[5][5] = CellState::Miss;
    expected[6][9] = CellState::Miss;
    assert_eq!(
        out,
        vec![
            to(
                0,
                Message::CardEffect {
                    effect_type: "missile_strike".to_string(),
                    data: "1,0,hit".to_string()
                }
            ),
            to(
                0,
                Message::CardEffect {
                    effect_type: "missile_strike".to_string(),
                    data: "5,5,miss".to_string()
                }
            ),
            to(0, Message::GridUpdate { grid: session.player(1).grid().unwrap().clone() }),
        ]
    );
    let grid = session.player(1).grid().unwrap();
    assert_eq!(grid[0][1], CellState::Hit);
    assert_eq!(grid[5][5], CellState::Miss);
    assert_eq!(session.current_turn(), 0);
    assert!(session.player(0).hand().is_empty());
}

#[test]
fn a_missile_does_not_come_down_on_a_cell_struck_before() {
    let mut session = started_with_hand(0, &[PowerUp::MissileStrike]);
    let used = Message::CardUsed { card: PowerUp::MissileStrike, target_x: None, target_y: None };
    // (0,0) is hit already; the second missile repeats the first.
    let chance =
        Chance { first_strike: Some((0, 0)), second_strike: Some((0, 0)), ..no_luck() };
    let out = session.apply_message(0, used, 0, chance);
    assert_eq!(out.len(), 1);
    assert!(matches!(out[0].message, Message::GridUpdate { .. }));
    let used = Message::CardUsed { card: PowerUp::MissileStrike, target_x: None, target_y: None };
    assert!(session.apply_message(0, used, 0, chance).is_empty());
}

#[test]
fn a_missile_that_sinks_the_fleet_opens_a_last_stand_and_keeps_the_turn() {
    let mut session = started(destroyer_only(false), destroyer_only(true));
    session.apply_message(0, Message::Attack { x: 9, y: 9 }, 0, no_luck());
    session.apply_message(1, Message::Attack { x: 3, y: 4 }, 0, drawing(PowerUp::MissileStrike));
    session.apply_message(0, Message::Attack { x: 8, y: 9 }, 0, no_luck());
    assert_eq!(session.current_turn(), 1);
    // The second player fires the missile at the last cell of the first.
    let used = Message::CardUsed { card: PowerUp::MissileStrike, target_x: None, target_y: None };
    let chance = Chance { first_strike: Some((4, 4)), ..no_luck() };
    let out = session.apply_message(1, used, 40, chance);
    assert_eq!(out.last(), Some(&to(0, Message::LastStandTrigger)));
    assert_eq!(
        session.phase(),
        SessionPhase::PendingLastStand { loser: 0, resume_turn: 1, opened_at: 40 }
    );
    let rescue = Chance { anchor: Some((0, 0)), ..no_luck() };
    let out = session.apply_message(0, Message::LastStandResult { success: true }, 41, rescue);
    assert_eq!(out, vec![to(0, Message::OpponentTurn), to(1, Message::YourTurn)]);
    assert_eq!(session.current_turn(), 1);
}

#[test]
fn handle_message_decides_chance_itself() {
    for _ in 0..20 {
        let mut session = started(full_fleet(), destroyer_only(true));
        let out = session.handle_message(0, Message::Attack { x: 3, y: 4 }, 0);
        assert_eq!(out[0], to(0, Message::AttackResult { x: 3, y: 4, hit: true, sunk: true }));
        assert!(matches!(out[2].message, Message::CardDrawn { .. }));
        assert_eq!(out[3], to(1, Message::LastStandTrigger));
        // There is room on the grid, so the rescue always succeeds.
        let out = session.handle_message(1, Message::LastStandResult { success: true }, 1);
        assert_eq!(out, vec![to(0, Message::OpponentTurn), to(1, Message::YourTurn)]);
        let grid = session.player(1).grid().unwrap();
        let ships = grid.iter().flatten().filter(|c| **c == CellState::Ship).count();
        assert_eq!(ships, 2);
    }
}

#[test]
fn a_random_missile_strike_hits_two_different_cells() {
    for _ in 0..20 {
        let mut session = started_with_hand(0, &[PowerUp::MissileStrike]);
        let before = session.player(1).grid().unwrap().clone();
        let used =
            Message::CardUsed { card: PowerUp::MissileStrike, target_x: None, target_y: None };
        let out = session.handle_message(0, used, 0);
        assert_eq!(out.len(), 3);
        let after = session.player(1).grid().unwrap();
        let mut changed = 0;
        for y in 0..10 {
            for x in 0..10 {
                if before[y][x] != after[y][x] {
                    changed += 1;
                    match before[y][x] {
                        CellState::Ship => assert_eq!(after[y][x], CellState::Hit),
                        CellState::Empty => assert_eq!(after[y][x], CellState::Miss),
                        _ => panic!("a cell struck before was struck again"),
                    }
                }
            }
        }
        assert_eq!(changed, 2);
    }
}

#[test]
fn roll_gives_a_last_stand_a_cell_where_the_ship_fits() {
    let mut session = started(full_fleet(), destroyer_only(true));
    session.apply_message(0, Message::Attack { x: 3, y: 4 }, 0, no_luck());
    for _ in 0..20 {
        let chance = session.roll(1, &Message::LastStandResult { success: true });
        let (x, y) = chance.anchor.unwrap();
        let grid = session.player(1).grid().unwrap();
        assert_eq!(grid[y][x], CellState::Empty);
        let right = x + 1 < 10 && grid[y][x + 1] == CellState::Empty;
        let below = y + 1 < 10 && grid[y + 1][x] == CellState::Empty;
        assert!(right || below);
    }
}
