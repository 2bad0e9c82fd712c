//! What the screen of a client shows: how each cell looks, which grid stands
//! out, where the cursor and the preview of a ship lie, and the lines of text
//! around the grids. How it is painted is left to whoever draws.

use crate::board::{can_place, covers, well_formed};
use crate::game_state::{ship_length, ship_name, GameState, GameStateView, ShipStatus};
use crate::text::{decimal_string, decimal_text, digit_str, digit_text};
use crate::types::{CellState, GamePhase, PowerUp, GRID_SIZE, SHIPS};
use vstd::prelude::*;
use vstd::string::StringExecFns;

verus! {

/// How a cell of a grid looks on the screen.
#[derive(Debug, Clone, Copy, PartialEq, Eq, Structural)]
pub enum CellLook {
    /// Open water, or an enemy ship that is not known.
    Water,
    /// Water of the enemy that the radar marked.
    Marked,
    /// A ship of the player.
    Ship,
    /// A ship of the enemy that the radar revealed.
    RevealedShip,
    /// A hit.
    Hit,
    /// A miss.
    Miss,
}

/// How a cell looks: the player sees the own ships, and of the enemy's only
/// what the radar revealed; hits and misses are seen on both grids.
pub open spec fn look_of(cell: CellState, own: bool, revealed: bool) -> CellLook {
    match cell {
        CellState::Empty => if !own && revealed {
            CellLook::Marked
        } else {
            CellLook::Water
        },
        CellState::Ship => if own {
            CellLook::Ship
        } else if revealed {
            CellLook::RevealedShip
        } else {
            CellLook::Water
        },
        CellState::Hit => CellLook::Hit,
        CellState::Miss => CellLook::Miss,
    }
}

/// The grid that stands out: the enemy's while the player is on turn, the
/// player's own while the opponent is.
pub open spec fn stands_out(phase: GamePhase, own: bool) -> bool {
    match phase {
        GamePhase::YourTurn => !own,
        GamePhase::OpponentTurn => own,
        _ => false,
    }
}

/// The cursor is shown at `(x, y)`: on the own grid while placing, on the
/// enemy's while firing.
pub open spec fn cursor_at(s: GameStateView, x: usize, y: usize, own: bool) -> bool {
    s.cursor == (x, y) && match s.phase {
        GamePhase::Placing => own,
        GamePhase::YourTurn => !own,
        _ => false,
    }
}

/// The preview of the ship that is being placed covers `(x, y)` of the own
/// grid.
pub open spec fn previewed(s: GameStateView, x: usize, y: usize, own: bool) -> bool {
    &&& own
    &&& s.phase == GamePhase::Placing
    &&& s.placing_ship_idx < 5
    &&& covers(
        s.cursor.0 as int,
        s.cursor.1 as int,
        ship_length(s.placing_ship_idx as int) as int,
        s.placing_horizontal,
        x as int,
        y as int,
    )
}

/// The ship that is being placed fits where the cursor is.
pub open spec fn preview_fits(s: GameStateView) -> bool {
    can_place(
        s.own_grid,
        s.cursor.0 as int,
        s.cursor.1 as int,
        ship_length(s.placing_ship_idx as int) as int,
        s.placing_horizontal,
    )
}

/// The line under the title: what the player is doing.
pub open spec fn status_text(s: GameStateView) -> Seq<char> {
    if s.phase == GamePhase::Placing && s.placing_ship_idx < 5 {
        "Placing: "@ + ship_name(s.placing_ship_idx as int) + " (len "@ + digit_text(
            ship_length(s.placing_ship_idx as int) as int,
        ) + ") | Ships left: "@ + digit_text(5 - s.placing_ship_idx)
    } else if s.phase == GamePhase::PlayAgainPrompt {
        "Do you want to play again? (Y/N)"@
    } else if s.phase == GamePhase::GameOver {
        match s.winner {
            Some(won) => if won {
                "🎉 YOU WIN! 🎉"@
            } else {
                "💀 YOU LOSE! 💀"@
            },
            None => "Game Over"@,
        }
    } else {
        "Ships placed: "@ + digit_text(
            if s.placing_ship_idx < 5 {
                s.placing_ship_idx as int
            } else {
                5
            },
        ) + " / 5"@
    }
}

/// A signal on the screen: a dot as a bullet, anything else as a dash.
pub open spec fn signal_text(signal: char) -> Seq<char> {
    if signal == '.' {
        "•"@
    } else {
        "—"@
    }
}

/// The first `n` signals of a sequence with a space between two signals.
pub open spec fn signals_text(sequence: Seq<char>, n: int) -> Seq<char>
    decreases n,
{
    if n <= 0 {
        Seq::empty()
    } else if n == 1 {
        signal_text(sequence[0])
    } else {
        signals_text(sequence, n - 1) + " "@ + signal_text(sequence[n - 1])
    }
}

/// `n` blocks in a row.
pub open spec fn blocks_text(n: int) -> Seq<char>
    decreases n,
{
    if n <= 0 {
        Seq::empty()
    } else {
        blocks_text(n - 1) + "■"@
    }
}

/// The line of a ship in the fleet panel: a block for each cell, then the
/// name, struck through when the ship is sunk.
pub open spec fn ship_text(length: int, name: Seq<char>, sunk: bool) -> Seq<char> {
    if sunk {
        blocks_text(length) + "  ~~"@ + name + "~~"@
    } else {
        blocks_text(length) + "  "@ + name
    }
}

/// The two lines of a card in the deck panel: its key, pictogram and name,
/// then its rule.
pub open spec fn card_text(slot: nat, card: PowerUp) -> Seq<char> {
    decimal_text((slot + 1) as nat) + " "@ + card.emoji_text() + ": "@ + card.name_text() + "\n   "@
        + card.description_text()
}

/// How a cell looks on the screen.
pub fn cell_look(cell: CellState, own: bool, revealed: bool) -> (look: CellLook)
    ensures
        look == look_of(cell, own, revealed),
{
    match cell {
        CellState::Empty => if !own && revealed {
            CellLook::Marked
        } else {
            CellLook::Water
        },
        CellState::Ship => if own {
            CellLook::Ship
        } else if revealed {
            CellLook::RevealedShip
        } else {
            CellLook::Water
        },
        CellState::Hit => CellLook::Hit,
        CellState::Miss => CellLook::Miss,
    }
}

/// Whether the radar revealed the cell `(x, y)`.
pub fn is_revealed(state: &GameState, x: usize, y: usize) -> (revealed: bool)
    ensures
        revealed == state@.radar_reveals.contains((x, y)),
{
    let mut k: usize = 0;
    while k < state.radar_reveals.len()
        invariant
            k <= state.radar_reveals.len(),
            forall|j: int| 0 <= j < k ==> state.radar_reveals@[j] != (x, y),
        decreases state.radar_reveals.len() - k,
    {
        let cell = state.radar_reveals[k];
        if cell.0 == x && cell.1 == y {
            return true;
        }
        k += 1;
    }
    false
}

/// Whether a grid stands out: the player's own if `own`, else the enemy's.
pub fn grid_stands_out(phase: GamePhase, own: bool) -> (out: bool)
    ensures
        out == stands_out(phase, own),
{
    match phase {
        GamePhase::YourTurn => !own,
        GamePhase::OpponentTurn => own,
        _ => false,
    }
}

/// Whether the cursor is shown at `(x, y)` of a grid.
pub fn cursor_shown(state: &GameState, x: usize, y: usize, own: bool) -> (shown: bool)
    ensures
        shown == cursor_at(state@, x, y, own),
{
    state.cursor.0 == x && state.cursor.1 == y && match state.phase {
        GamePhase::Placing => own,
        GamePhase::YourTurn => !own,
        _ => false,
    }
}

/// The preview of the ship that is being placed at `(x, y)` of a grid:
/// `None` where the preview does not reach, else whether the ship fits where
/// the cursor is.
pub fn placement_preview(state: &GameState, x: usize, y: usize, own: bool) -> (preview: Option<
    bool,
>)
    requires
        state.wf(),
    ensures
        preview == (if previewed(state@, x, y, own) {
            Some(preview_fits(state@))
        } else {
            None
        }),
{
    if !own || state.phase != GamePhase::Placing || state.placing_ship_idx >= 5 {
        return None;
    }
    let length = SHIPS[state.placing_ship_idx].0;
    let (cx, cy) = state.cursor;
    let inside = if state.placing_horizontal {
        y == cy && x >= cx && x - cx < length
    } else {
        x == cx && y >= cy && y - cy < length
    };
    if inside {
        Some(state.can_place_ship(cx, cy, length, state.placing_horizontal))
    } else {
        None
    }
}

/// The line under the title.
pub fn status_line(state: &GameState) -> (line: String)
    ensures
        line@ == status_text(state@),
{
    if state.phase == GamePhase::Placing && state.placing_ship_idx < 5 {
        let (length, name) = SHIPS[state.placing_ship_idx];
        let mut line = String::from_str("Placing: ");
        line.append(name);
        line.append(" (len ");
        line.append(digit_str(length));
        line.append(") | Ships left: ");
        line.append(digit_str(5 - state.placing_ship_idx));
        line
    } else if state.phase == GamePhase::PlayAgainPrompt {
        String::from_str("Do you want to play again? (Y/N)")
    } else if state.phase == GamePhase::GameOver {
        match state.winner {
            Some(won) => if won {
                String::from_str("🎉 YOU WIN! 🎉")
            } else {
                String::from_str("💀 YOU LOSE! 💀")
            },
            None => String::from_str("Game Over"),
        }
    } else {
        let placed = if state.placing_ship_idx < 5 {
            state.placing_ship_idx
        } else {
            5
        };
        let mut line = String::from_str("Ships placed: ");
        line.append(digit_str(placed));
        line.append(" / 5");
        line
    }
}

/// A signal for the screen.
fn signal_str(signal: char) -> (text: &'static str)
    ensures
        text@ == signal_text(signal),
{
    if signal == '.' {
        "•"
    } else {
        "—"
    }
}

/// A sequence of signals for the screen: a dot as a bullet and anything else
/// as a dash, with a space between two signals.
pub fn signals_line(sequence: &Vec<char>) -> (line: String)
    ensures
        line@ == signals_text(sequence@, sequence.len() as int),
{
    if sequence.len() == 0 {
        let line = String::new();
        assert(line@ =~= signals_text(sequence@, 0));
        return line;
    }
    let mut line = String::from_str(signal_str(sequence[0]));
    let mut k: usize = 1;
    while k < sequence.len()
        invariant
            1 <= k <= sequence.len(),
            line@ == signals_text(sequence@, k as int),
        decreases sequence.len() - k,
    {
        line.append(" ");
        line.append(signal_str(sequence[k]));
        k += 1;
    }
    line
}

/// The line of a ship in the fleet panel.
pub fn ship_line(status: &ShipStatus) -> (line: String)
    ensures
        line@ == ship_text(status.length as int, status.name@, status.sunk),
{
    let mut line = String::new();
    assert(line@ =~= blocks_text(0));
    let mut k: usize = 0;
    while k < status.length
        invariant
            k <= status.length,
            line@ == blocks_text(k as int),
        decreases status.length - k,
    {
        line.append("■");
        k += 1;
    }
    if status.sunk {
        line.append("  ~~");
        line.append(status.name.as_str());
        line.append("~~");
    } else {
        line.append("  ");
        line.append(status.name.as_str());
    }
    line
}

/// The two lines of the card at a position of the hand in the deck panel.
pub fn card_line(slot: usize, card: PowerUp) -> (line: String)
    requires
        slot < usize::MAX,
    ensures
        line@ == card_text(slot as nat, card),
{
    let mut line = decimal_string(slot + 1);
    line.append(" ");
    line.append(card.emoji());
    line.append(": ");
    line.append(card.name());
    line.append("\n   ");
    line.append(card.description());
    line
}

} // verus!
