//! How a client takes what the session tells it: each message of the
//! session moves the state of the client and leaves a line in its log.

use crate::board::with_cell;
use crate::game_state::{reset_state, GameState, GameStateView};
use crate::text::{coordinate_text, format_coordinate};
use crate::types::{cells, CellState, GamePhase, Message, MessageView, GRID_SIZE};
use vstd::prelude::*;
use vstd::string::StringExecFns;

verus! {

/// What an enemy shot at `(x, y)` leaves of the cell on the player's own
/// grid: a hit on a ship cell, a miss on any other.
pub open spec fn own_cell_after(cell: CellState) -> CellState {
    if cell == CellState::Ship {
        CellState::Hit
    } else {
        CellState::Miss
    }
}

/// The line that tells of an enemy shot.
pub open spec fn enemy_shot_line(x: int, y: int, hit: bool) -> Seq<char> {
    if hit {
        "Enemy hit your ship at "@ + coordinate_text(x, y) + "!"@
    } else {
        "Enemy missed at "@ + coordinate_text(x, y)
    }
}

/// The line that tells of the player's own shot.
pub open spec fn own_shot_line(x: int, y: int, hit: bool, sunk: bool) -> Seq<char> {
    if hit {
        if sunk {
            "HIT at "@ + coordinate_text(x, y) + "! Ship sunk!"@
        } else {
            "HIT at "@ + coordinate_text(x, y) + "!"@
        }
    } else {
        "Miss at "@ + coordinate_text(x, y)
    }
}

/// The state of a client after a message of the session that arrived at time
/// `now`. A shot or a result that names a cell off the board, and any message
/// that is not meant for a client, leaves the state as it is.
pub open spec fn after_message(s: GameStateView, message: MessageView, now: u64) -> GameStateView {
    match message {
        MessageView::WaitingForOpponent => s.say("Waiting for opponent to place ships..."@),
        MessageView::GameStart => s.say("Game starting!"@),
        MessageView::YourTurn => (GameStateView {
            phase: GamePhase::YourTurn,
            turn_count: (s.turn_count + 1) as usize,
            turn_start_time: Some(now),
            ..s
        }).say("Your turn!"@),
        MessageView::OpponentTurn => (GameStateView {
            phase: GamePhase::OpponentTurn,
            ..s.turn_ended(now)
        }).say("Opponent's turn..."@),
        MessageView::Attack { x, y } => if x < GRID_SIZE && y < GRID_SIZE {
            (GameStateView {
                own_grid: with_cell(
                    s.own_grid,
                    x as int,
                    y as int,
                    own_cell_after(s.own_grid[y as int][x as int]),
                ),
                ..s
            }).say(
                enemy_shot_line(x as int, y as int, s.own_grid[y as int][x as int] == CellState::Ship),
            )
        } else {
            s
        },
        MessageView::AttackResult { x, y, hit, sunk } => if x < GRID_SIZE && y < GRID_SIZE {
            (GameStateView {
                enemy_grid: with_cell(
                    s.enemy_grid,
                    x as int,
                    y as int,
                    if hit {
                        CellState::Hit
                    } else {
                        CellState::Miss
                    },
                ),
                ..s
            }).shot_recorded(hit).status_updated().say(own_shot_line(x as int, y as int, hit, sunk))
        } else {
            s
        },
        MessageView::GameOver { won } => (GameStateView {
            phase: GamePhase::GameOver,
            winner: Some(won),
            ..s
        }).say(
            if won {
                "ðŸŽ‰ YOU WIN! ðŸŽ‰"@
            } else {
                "ðŸ’€ YOU LOSE! ðŸ’€"@
            },
        ),
        MessageView::PlayAgainRequest => (GameStateView {
            phase: GamePhase::PlayAgainPrompt,
            ..s
        }).say("Do you want to play again? (Y/N)"@),
        MessageView::PlayAgainResponse { wants_to_play } => s.say(
            if wants_to_play {
                "Opponent wants to play again!"@
            } else {
                "Opponent doesn't want to play again."@
            },
        ),
        MessageView::PlayAgainTimeout => s.say("Play again timeout - ending game."@),
        MessageView::OpponentQuit => (GameStateView {
            phase: GamePhase::GameOver,
            ..s.say("Opponent has quit the game."@)
        }),
        MessageView::NewGameStart => reset_state(s).say("New game starting! Place your ships."@),
        MessageView::Quit => (GameStateView {
            phase: GamePhase::GameOver,
            ..s.say("You have quit the game."@)
        }),
        _ => s,
    }
}

/// A line made of a text, a cell and a text.
fn line_with_cell(before: &str, x: usize, y: usize, after: &str) -> (line: String)
    requires
        x < GRID_SIZE,
        y < GRID_SIZE,
    ensures
        line@ == before@ + coordinate_text(x as int, y as int) + after@,
{
    let mut line = String::from_str(before);
    let cell = format_coordinate(x, y);
    line.append(cell.as_str());
    line.append(after);
    line
}

/// A line made of a text and a cell.
fn line_to_cell(before: &str, x: usize, y: usize) -> (line: String)
    requires
        x < GRID_SIZE,
        y < GRID_SIZE,
    ensures
        line@ == before@ + coordinate_text(x as int, y as int),
{
    let mut line = String::from_str(before);
    let cell = format_coordinate(x, y);
    line.append(cell.as_str());
    line
}

/// An enemy shot came down on the player's own grid.
fn enemy_shot(state: &mut GameState, x: usize, y: usize)
    requires
        old(state).wf(),
        x < GRID_SIZE,
        y < GRID_SIZE,
    ensures
        final(state).wf(),
        final(state)@ == after_message(old(state)@, MessageView::Attack { x, y }, 0),
{
    let ghost before = cells(state.own_grid@);
    let hit = state.own_grid[y][x] == CellState::Ship;
    state.own_grid[y][x] = if hit {
        CellState::Hit
    } else {
        CellState::Miss
    };
    assert(cells(state.own_grid@) =~~= with_cell(
        before,
        x as int,
        y as int,
        own_cell_after(before[y as int][x as int]),
    ));
    if hit {
        state.say_owned(line_with_cell("Enemy hit your ship at ", x, y, "!"));
    } else {
        state.say_owned(line_to_cell("Enemy missed at ", x, y));
    }
}

/// The result of the player's own shot came in.
fn own_shot(state: &mut GameState, x: usize, y: usize, hit: bool, sunk: bool)
    requires
        old(state).wf(),
        old(state).total_shots < usize::MAX,
        old(state).total_hits < usize::MAX,
        x < GRID_SIZE,
        y < GRID_SIZE,
    ensures
        final(state).wf(),
        final(state)@ == after_message(
            old(state)@,
            MessageView::AttackResult { x, y, hit, sunk },
            0,
        ),
{
    let ghost before = cells(state.enemy_grid@);
    state.enemy_grid[y][x] = if hit {
        CellState::Hit
    } else {
        CellState::Miss
    };
    assert(cells(state.enemy_grid@) =~~= with_cell(
        before,
        x as int,
        y as int,
        if hit {
            CellState::Hit
        } else {
            CellState::Miss
        },
    ));
    state.record_shot(hit);
    state.update_ship_status();
    if hit {
        if sunk {
            state.say_owned(line_with_cell("HIT at ", x, y, "! Ship sunk!"));
        } else {
            state.say_owned(line_with_cell("HIT at ", x, y, "!"));
        }
    } else {
        state.say_owned(line_to_cell("Miss at ", x, y));
    }
}

/// The player's turn has come.
fn turn_came(state: &mut GameState, now: u64)
    requires
        old(state).turn_count < usize::MAX,
    ensures
        final(state).wf() == old(state).wf(),
        final(state)@ == after_message(old(state)@, MessageView::YourTurn, now),
{
    state.phase = GamePhase::YourTurn;
    state.turn_count += 1;
    state.start_turn(now);
    state.say("Your turn!");
}

/// The turn has passed to the opponent.
fn turn_passed(state: &mut GameState, now: u64)
    ensures
        final(state).wf() == old(state).wf(),
        final(state)@ == after_message(old(state)@, MessageView::OpponentTurn, now),
{
    state.end_turn(now);
    state.phase = GamePhase::OpponentTurn;
    state.say("Opponent's turn...");
}

/// The game is over.
fn game_ended(state: &mut GameState, won: bool)
    ensures
        final(state).wf() == old(state).wf(),
        final(state)@ == after_message(old(state)@, MessageView::GameOver { won }, 0),
{
    state.phase = GamePhase::GameOver;
    state.winner = Some(won);
    if won {
        state.say("ðŸŽ‰ YOU WIN! ðŸŽ‰");
    } else {
        state.say("ðŸ’€ YOU LOSE! ðŸ’€");
    }
}

/// The session asks whether the player plays again.
fn asked_again(state: &mut GameState)
    ensures
        final(state).wf() == old(state).wf(),
        final(state)@ == after_message(old(state)@, MessageView::PlayAgainRequest, 0),
{
    state.phase = GamePhase::PlayAgainPrompt;
    state.say("Do you want to play again? (Y/N)");
}

/// The opponent said whether to play again.
fn opponent_answered(state: &mut GameState, wants_to_play: bool)
    ensures
        final(state).wf() == old(state).wf(),
        final(state)@ == after_message(
            old(state)@,
            MessageView::PlayAgainResponse { wants_to_play },
            0,
        ),
{
    if wants_to_play {
        state.say("Opponent wants to play again!");
    } else {
        state.say("Opponent doesn't want to play again.");
    }
}

/// A player has left: the game is over for this client.
fn someone_quit(state: &mut GameState, opponent: bool)
    ensures
        final(state).wf() == old(state).wf(),
        final(state)@ == after_message(
            old(state)@,
            if opponent {
                MessageView::OpponentQuit
            } else {
                MessageView::Quit
            },
            0,
        ),
{
    if opponent {
        state.say("Opponent has quit the game.");
    } else {
        state.say("You have quit the game.");
    }
    state.phase = GamePhase::GameOver;
}

/// A new game starts.
fn new_game(state: &mut GameState)
    ensures
        final(state).wf(),
        final(state)@ == after_message(old(state)@, MessageView::NewGameStart, 0),
{
    state.reset_for_new_game();
    state.say("New game starting! Place your ships.");
}

/// Takes a message of the session that arrived at time `now`.
pub fn apply_message(state: &mut GameState, message: &Message, now: u64)
    requires
        old(state).wf(),
        old(state).total_shots < usize::MAX,
        old(state).total_hits < usize::MAX,
        old(state).turn_count < usize::MAX,
    ensures
        final(state).wf(),
        final(state)@ == after_message(old(state)@, message@, now),
{
    match message {
        Message::WaitingForOpponent => {
            state.say("Waiting for opponent to place ships...");
        },
        Message::GameStart => {
            state.say("Game starting!");
        },
        Message::YourTurn => {
            turn_came(state, now);
        },
        Message::OpponentTurn => {
            turn_passed(state, now);
        },
        Message::Attack { x, y } => {
            if *x < GRID_SIZE && *y < GRID_SIZE {
                enemy_shot(state, *x, *y);
            }
        },
        Message::AttackResult { x, y, hit, sunk } => {
            if *x < GRID_SIZE && *y < GRID_SIZE {
                own_shot(state, *x, *y, *hit, *sunk);
            }
        },
        Message::GameOver { won } => {
            game_ended(state, *won);
        },
        Message::PlayAgainRequest => {
            asked_again(state);
        },
        Message::PlayAgainResponse { wants_to_play } => {
            opponent_answered(state, *wants_to_play);
        },
        Message::PlayAgainTimeout => {
            state.say("Play again timeout - ending game.");
        },
        Message::OpponentQuit => {
            someone_quit(state, true);
        },
        Message::NewGameStart => {
            new_game(state);
        },
        Message::Quit => {
            someone_quit(state, false);
        },
        _ => {},
    }
}

} // verus!
