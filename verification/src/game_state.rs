//! What one player's client knows of a game: both grids as the player sees
//! them, the cursor, the message log, the statistics, the hand of cards.

use crate::board::{
    all_sunk, can_place, empty_board, new_grid, placed, sunk_at, well_formed, with_cell,
};
use crate::cards::{
    after_strike, first_repairable, in_state, is_target, restorable_at, restored_at,
};
use crate::chance::random_card;
use crate::text::coordinate_text;
use crate::types::{cells, CellState, GamePhase, PowerUp, SidePanelMode, GRID_SIZE, SHIPS};
use vstd::prelude::*;
use vstd::string::StringExecFns;

verus! {

/// How many turn durations the statistics keep.
pub const TURN_TIMES_KEPT: usize = 10;

/// The damage report of one ship of the player's fleet.
#[derive(Debug, Clone)]
pub struct ShipStatus {
    pub name: String,
    pub length: usize,
    pub hits: usize,
    pub sunk: bool,
}

/// The damage report of a ship, with its name as a sequence of characters.
pub struct ShipStatusView {
    pub name: Seq<char>,
    pub length: usize,
    pub hits: usize,
    pub sunk: bool,
}

impl View for ShipStatus {
    type V = ShipStatusView;

    open spec fn view(&self) -> ShipStatusView {
        ShipStatusView { name: self.name@, length: self.length, hits: self.hits, sunk: self.sunk }
    }
}

/// The state of one player's client. Times are milliseconds on the clock of
/// whoever drives the client.
pub struct GameState {
    pub own_grid: Vec<Vec<CellState>>,
    pub enemy_grid: Vec<Vec<CellState>>,
    pub phase: GamePhase,
    pub cursor: (usize, usize),
    pub placing_ship_idx: usize,
    pub placing_horizontal: bool,
    pub messages: Vec<String>,
    pub winner: Option<bool>,
    pub side_panel_mode: SidePanelMode,
    pub ship_status: Vec<ShipStatus>,
    pub total_shots: usize,
    pub total_hits: usize,
    pub turn_count: usize,
    pub turn_start_time: Option<u64>,
    pub turn_times: Vec<u64>,
    pub play_again_response: Option<bool>,
    pub waiting_for_play_again: bool,
    pub last_stand_used: bool,
    pub last_stand_sequence: Vec<char>,
    pub last_stand_input: Vec<char>,
    pub current_hand: Vec<PowerUp>,
    pub max_hand_size: usize,
    pub shield_active: bool,
    pub radar_reveals: Vec<(usize, usize)>,
}

/// The state of a client as mathematics: grids as sequences of rows, the
/// log as a sequence of texts.
pub struct GameStateView {
    pub own_grid: Seq<Seq<CellState>>,
    pub enemy_grid: Seq<Seq<CellState>>,
    pub phase: GamePhase,
    pub cursor: (usize, usize),
    pub placing_ship_idx: usize,
    pub placing_horizontal: bool,
    pub messages: Seq<Seq<char>>,
    pub winner: Option<bool>,
    pub side_panel_mode: SidePanelMode,
    pub ship_status: Seq<ShipStatusView>,
    pub total_shots: usize,
    pub total_hits: usize,
    pub turn_count: usize,
    pub turn_start_time: Option<u64>,
    pub turn_times: Seq<u64>,
    pub play_again_response: Option<bool>,
    pub waiting_for_play_again: bool,
    pub last_stand_used: bool,
    pub last_stand_sequence: Seq<char>,
    pub last_stand_input: Seq<char>,
    pub current_hand: Seq<PowerUp>,
    pub max_hand_size: usize,
    pub shield_active: bool,
    pub radar_reveals: Seq<(usize, usize)>,
}

/// The texts of a list of strings.
pub open spec fn texts(lines: Seq<String>) -> Seq<Seq<char>> {
    Seq::new(lines.len(), |k: int| lines[k]@)
}

/// The reports of a list of ship statuses.
pub open spec fn reports(ships: Seq<ShipStatus>) -> Seq<ShipStatusView> {
    Seq::new(ships.len(), |k: int| ships[k]@)
}

impl View for GameState {
    type V = GameStateView;

    open spec fn view(&self) -> GameStateView {
        GameStateView {
            own_grid: cells(self.own_grid@),
            enemy_grid: cells(self.enemy_grid@),
            phase: self.phase,
            cursor: self.cursor,
            placing_ship_idx: self.placing_ship_idx,
            placing_horizontal: self.placing_horizontal,
            messages: texts(self.messages@),
            winner: self.winner,
            side_panel_mode: self.side_panel_mode,
            ship_status: reports(self.ship_status@),
            total_shots: self.total_shots,
            total_hits: self.total_hits,
            turn_count: self.turn_count,
            turn_start_time: self.turn_start_time,
            turn_times: self.turn_times@,
            play_again_response: self.play_again_response,
            waiting_for_play_again: self.waiting_for_play_again,
            last_stand_used: self.last_stand_used,
            last_stand_sequence: self.last_stand_sequence@,
            last_stand_input: self.last_stand_input@,
            current_hand: self.current_hand@,
            max_hand_size: self.max_hand_size,
            shield_active: self.shield_active,
            radar_reveals: self.radar_reveals@,
        }
    }
}

/// The length of ship class `i` of the fleet, largest first.
pub open spec fn ship_length(i: int) -> usize {
    if i == 0 {
        5
    } else if i == 1 {
        4
    } else if i == 2 {
        3
    } else if i == 3 {
        3
    } else {
        2
    }
}

/// The name of ship class `i` of the fleet.
pub open spec fn ship_name(i: int) -> Seq<char> {
    if i == 0 {
        "Carrier"@
    } else if i == 1 {
        "Battleship"@
    } else if i == 2 {
        "Cruiser"@
    } else if i == 3 {
        "Submarine"@
    } else {
        "Destroyer"@
    }
}

/// The report of ship class `i` before any damage.
pub open spec fn undamaged(i: int) -> ShipStatusView {
    ShipStatusView { name: ship_name(i), length: ship_length(i), hits: 0, sunk: false }
}

/// The prompt that opens the placement of a fleet.
pub open spec fn placement_prompt() -> Seq<char> {
    "Place your ships! Use arrows, R to rotate, Enter to place"@
}

/// The challenge of a last stand: a distress call in dots and dashes.
pub open spec fn distress_call() -> Seq<char> {
    seq!['.', '.', '.', '-', '-', '-', '.', '.', '.']
}

/// The state of a client before the first game.
pub open spec fn initial_state() -> GameStateView {
    GameStateView {
        own_grid: empty_board(),
        enemy_grid: empty_board(),
        phase: GamePhase::Placing,
        cursor: (0, 0),
        placing_ship_idx: 0,
        placing_horizontal: true,
        messages: seq![placement_prompt()],
        winner: None,
        side_panel_mode: SidePanelMode::Statistics,
        ship_status: Seq::new(5, |i: int| undamaged(i)),
        total_shots: 0,
        total_hits: 0,
        turn_count: 0,
        turn_start_time: None,
        turn_times: Seq::empty(),
        play_again_response: None,
        waiting_for_play_again: false,
        last_stand_used: false,
        last_stand_sequence: Seq::empty(),
        last_stand_input: Seq::empty(),
        current_hand: Seq::empty(),
        max_hand_size: 5,
        shield_active: false,
        radar_reveals: Seq::empty(),
    }
}

/// A ship report with hits and damage wiped.
pub open spec fn repaired_report(status: ShipStatusView) -> ShipStatusView {
    ShipStatusView { hits: 0, sunk: false, ..status }
}

/// The state of a client made ready for a new game: everything as before the
/// first game, except that the side panel and the hand limit stay as they
/// are and the fleet keeps its classes.
pub open spec fn reset_state(s: GameStateView) -> GameStateView {
    GameStateView {
        side_panel_mode: s.side_panel_mode,
        max_hand_size: s.max_hand_size,
        ship_status: Seq::new(s.ship_status.len(), |i: int| repaired_report(s.ship_status[i])),
        ..initial_state()
    }
}

/// The number of hit cells among the first `n` cells of a row.
pub open spec fn hits_in_row(row: Seq<CellState>, n: int) -> nat
    decreases n,
{
    if n <= 0 {
        0
    } else {
        hits_in_row(row, n - 1) + if row[n - 1] == CellState::Hit {
            1nat
        } else {
            0nat
        }
    }
}

/// The number of hit cells in the first `m` rows of a grid.
pub open spec fn hits_in_rows(b: Seq<Seq<CellState>>, m: int) -> nat
    decreases m,
{
    if m <= 0 {
        0
    } else {
        hits_in_rows(b, m - 1) + hits_in_row(b[m - 1], b[m - 1].len() as int)
    }
}

/// The number of hit cells of a grid.
pub open spec fn hit_count(b: Seq<Seq<CellState>>) -> nat {
    hits_in_rows(b, b.len() as int)
}

/// The hits that are left for ship `i` and those after it, when `total` hits
/// are handed out to the ships in order and each ship takes as many as it
/// has cells, if that many are left, and all that are left otherwise.
pub open spec fn hits_left_for(ships: Seq<ShipStatusView>, total: nat, i: int) -> nat
    decreases i,
{
    if i <= 0 {
        total
    } else {
        let before = hits_left_for(ships, total, i - 1);
        if before >= ships[i - 1].length {
            (before - ships[i - 1].length) as nat
        } else {
            0
        }
    }
}

/// The report of a ship that is handed its share of the hits that are left:
/// sunk with all cells hit if they cover its length, damaged by what is left
/// otherwise.
pub open spec fn with_share(status: ShipStatusView, left: nat) -> ShipStatusView {
    if left >= status.length {
        ShipStatusView { hits: status.length, sunk: true, ..status }
    } else {
        ShipStatusView { hits: left as usize, sunk: false, ..status }
    }
}

/// The reports of a fleet over which `total` hits were handed out in order.
pub open spec fn damage_reports(ships: Seq<ShipStatusView>, total: nat) -> Seq<ShipStatusView> {
    Seq::new(ships.len(), |i: int| with_share(ships[i], hits_left_for(ships, total, i)))
}

/// The number of ships among the first `n` that are reported sunk.
pub open spec fn sunk_among(ships: Seq<ShipStatusView>, n: int) -> nat
    decreases n,
{
    if n <= 0 {
        0
    } else {
        sunk_among(ships, n - 1) + if ships[n - 1].sunk {
            1nat
        } else {
            0nat
        }
    }
}

/// The time a turn took: from its start to `now`, none if the clock reads
/// earlier than the start.
pub open spec fn turn_duration(start: u64, now: u64) -> u64 {
    if now >= start {
        (now - start) as u64
    } else {
        0
    }
}

/// The kept turn times with one more: the oldest goes when there are more
/// than ten.
pub open spec fn with_turn_time(times: Seq<u64>, duration: u64) -> Seq<u64> {
    if times.len() + 1 > TURN_TIMES_KEPT {
        times.push(duration).drop_first()
    } else {
        times.push(duration)
    }
}

impl GameStateView {
    /// The state with one more line in the message log.
    pub open spec fn say(self, line: Seq<char>) -> GameStateView {
        GameStateView { messages: self.messages.push(line), ..self }
    }

    /// The state after the player's turn ended at time `now`: if the turn had
    /// started, its duration joins the last ten that are kept.
    pub open spec fn turn_ended(self, now: u64) -> GameStateView {
        GameStateView {
            turn_start_time: None,
            turn_times: match self.turn_start_time {
                Some(start) => with_turn_time(self.turn_times, turn_duration(start, now)),
                None => self.turn_times,
            },
            ..self
        }
    }

    /// The state with one more shot counted, and one more hit if it was one.
    pub open spec fn shot_recorded(self, hit: bool) -> GameStateView {
        GameStateView {
            total_shots: (self.total_shots + 1) as usize,
            total_hits: if hit {
                (self.total_hits + 1) as usize
            } else {
                self.total_hits
            },
            ..self
        }
    }

    /// The state with the damage reports brought up to date from the
    /// player's own grid.
    pub open spec fn status_updated(self) -> GameStateView {
        GameStateView {
            ship_status: damage_reports(self.ship_status, hit_count(self.own_grid)),
            ..self
        }
    }
}

impl GameState {
    /// Both grids are boards and the cursor is on the board.
    pub open spec fn wf(&self) -> bool {
        &&& well_formed(self.own_grid@)
        &&& well_formed(self.enemy_grid@)
        &&& self.cursor.0 < GRID_SIZE
        &&& self.cursor.1 < GRID_SIZE
    }

    /// Whether both grids are boards and the cursor is on the board.
    pub fn is_well_formed(&self) -> (ok: bool)
        ensures
            ok == self.wf(),
    {
        crate::board::is_well_formed(&self.own_grid) && crate::board::is_well_formed(
            &self.enemy_grid,
        ) && self.cursor.0 < GRID_SIZE && self.cursor.1 < GRID_SIZE
    }

    /// Adds a line to the message log.
    pub fn say(&mut self, line: &str)
        ensures
            final(self)@ == old(self)@.say(line@),
            final(self).wf() == old(self).wf(),
            final(self).own_grid == old(self).own_grid,
            final(self).enemy_grid == old(self).enemy_grid,
    {
        self.messages.push(String::from_str(line));
        assert(texts(self.messages@) =~= texts(old(self).messages@).push(line@));
    }

    /// Adds a line that was put together to the message log.
    pub fn say_owned(&mut self, line: String)
        ensures
            final(self)@ == old(self)@.say(line@),
            final(self).wf() == old(self).wf(),
            final(self).own_grid == old(self).own_grid,
            final(self).enemy_grid == old(self).enemy_grid,
    {
        self.messages.push(line);
        assert(texts(self.messages@) =~= texts(old(self).messages@).push(line@));
    }

    /// The state of a client before the first game.
    pub fn new() -> (state: GameState)
        ensures
            state@ == initial_state(),
            state.wf(),
    {
        let mut ship_status: Vec<ShipStatus> = Vec::new();
        let mut i: usize = 0;
        while i < 5
            invariant
                i <= 5,
                ship_status.len() == i,
                forall|k: int| 0 <= k < i ==> (#[trigger] ship_status@[k])@ == undamaged(k),
            decreases 5 - i,
        {
            let (length, name) = SHIPS[i];
            ship_status.push(
                ShipStatus { name: String::from_str(name), length, hits: 0, sunk: false },
            );
            i += 1;
        }
        let mut messages: Vec<String> = Vec::new();
        messages.push(
            String::from_str("Place your ships! Use arrows, R to rotate, Enter to place"),
        );
        let state = GameState {
            own_grid: new_grid(),
            enemy_grid: new_grid(),
            phase: GamePhase::Placing,
            cursor: (0, 0),
            placing_ship_idx: 0,
            placing_horizontal: true,
            messages,
            winner: None,
            side_panel_mode: SidePanelMode::Statistics,
            ship_status,
            total_shots: 0,
            total_hits: 0,
            turn_count: 0,
            turn_start_time: None,
            turn_times: Vec::new(),
            play_again_response: None,
            waiting_for_play_again: false,
            last_stand_used: false,
            last_stand_sequence: Vec::new(),
            last_stand_input: Vec::new(),
            current_hand: Vec::new(),
            max_hand_size: 5,
            shield_active: false,
            radar_reveals: Vec::new(),
        };
        assert(state@.messages =~= seq![placement_prompt()]);
        assert(state@.ship_status =~= Seq::new(5, |i: int| undamaged(i)));
        state
    }

    /// Whether a ship may be placed on the player's own grid.
    pub fn can_place_ship(&self, x: usize, y: usize, length: usize, horizontal: bool) -> (placeable:
        bool)
        requires
            well_formed(self.own_grid@),
        ensures
            placeable == can_place(self@.own_grid, x as int, y as int, length as int, horizontal),
    {
        crate::board::can_place_ship(&self.own_grid, x, y, length, horizontal)
    }

    /// Places a ship on the player's own grid. The placement must have been
    /// validated with [`GameState::can_place_ship`].
    pub fn place_ship(&mut self, x: usize, y: usize, length: usize, horizontal: bool)
        requires
            well_formed(old(self).own_grid@),
            can_place(old(self)@.own_grid, x as int, y as int, length as int, horizontal),
        ensures
            well_formed(final(self).own_grid@),
            final(self).wf() == old(self).wf(),
            final(self)@ == (GameStateView {
                own_grid: placed(old(self)@.own_grid, x as int, y as int, length as int, horizontal),
                ..old(self)@
            }),
    {
        crate::board::place_ship(&mut self.own_grid, x, y, length, horizontal);
    }

    /// Whether the fleet on a grid is gone.
    pub fn all_ships_sunk(grid: &[Vec<CellState>]) -> (sunk: bool)
        ensures
            sunk == all_sunk(cells(grid@)),
    {
        crate::board::all_ships_sunk(grid)
    }

    /// Whether the ship through the hit cell `(x, y)` of a grid is sunk.
    pub fn is_ship_sunk_at(grid: &[Vec<CellState>], x: usize, y: usize) -> (sunk: bool)
        requires
            well_formed(grid@),
            x < GRID_SIZE,
            y < GRID_SIZE,
        ensures
            sunk == sunk_at(cells(grid@), x as int, y as int),
    {
        crate::board::is_ship_sunk_at(grid, x, y)
    }

    /// The player's turn starts at time `now`.
    pub fn start_turn(&mut self, now: u64)
        ensures
            final(self)@ == (GameStateView { turn_start_time: Some(now), ..old(self)@ }),
            final(self).wf() == old(self).wf(),
    {
        self.turn_start_time = Some(now);
    }

    /// The player's turn ends at time `now`: if it had started, its duration
    /// joins the last ten that are kept.
    pub fn end_turn(&mut self, now: u64)
        ensures
            final(self)@ == old(self)@.turn_ended(now),
            final(self).wf() == old(self).wf(),
    {
        if let Some(start) = self.turn_start_time {
            let duration = if now >= start {
                now - start
            } else {
                0
            };
            self.turn_times.push(duration);
            if self.turn_times.len() > TURN_TIMES_KEPT {
                self.turn_times.remove(0);
            }
            assert(self.turn_times@ =~= with_turn_time(
                old(self)@.turn_times,
                turn_duration(start, now),
            ));
        }
        self.turn_start_time = None;
    }

    /// Counts a shot of the player, and a hit if it was one.
    pub fn record_shot(&mut self, hit: bool)
        requires
            old(self).total_shots < usize::MAX,
            old(self).total_hits < usize::MAX,
        ensures
            final(self)@ == old(self)@.shot_recorded(hit),
            final(self).wf() == old(self).wf(),
    {
        self.total_shots += 1;
        if hit {
            self.total_hits += 1;
        }
    }

    /// The number of hit cells of the player's own grid.
    fn count_own_hits(&self) -> (count: usize)
        requires
            well_formed(self.own_grid@),
        ensures
            count == hit_count(self@.own_grid),
    {
        let ghost b = cells(self.own_grid@);
        let mut count: usize = 0;
        let mut y: usize = 0;
        while y < GRID_SIZE
            invariant
                well_formed(self.own_grid@),
                b == cells(self.own_grid@),
                y <= GRID_SIZE,
                count == hits_in_rows(b, y as int),
                count <= y * GRID_SIZE,
            decreases GRID_SIZE - y,
        {
            let mut x: usize = 0;
            let mut in_row: usize = 0;
            while x < GRID_SIZE
                invariant
                    well_formed(self.own_grid@),
                    b == cells(self.own_grid@),
                    y < GRID_SIZE,
                    x <= GRID_SIZE,
                    in_row == hits_in_row(b[y as int], x as int),
                    in_row <= x,
                decreases GRID_SIZE - x,
            {
                if self.own_grid[y][x] == CellState::Hit {
                    in_row += 1;
                }
                x += 1;
            }
            count += in_row;
            y += 1;
        }
        count
    }

    /// Brings the damage reports of the fleet up to date from the player's
    /// own grid: the hit cells are counted and handed out to the ships in
    /// order, largest ship first.
    pub fn update_ship_status(&mut self)
        requires
            well_formed(old(self).own_grid@),
        ensures
            final(self)@ == old(self)@.status_updated(),
            final(self).wf() == old(self).wf(),
    {
        let total = self.count_own_hits();
        let ghost before = reports(self.ship_status@);
        let mut remaining = total;
        let mut i: usize = 0;
        while i < self.ship_status.len()
            invariant
                i <= self.ship_status.len(),
                self.ship_status.len() == before.len(),
                remaining == hits_left_for(before, total as nat, i as int),
                forall|k: int|
                    0 <= k < i ==> (#[trigger] self.ship_status@[k])@ == with_share(
                        before[k],
                        hits_left_for(before, total as nat, k),
                    ),
                forall|k: int|
                    i <= k < before.len() ==> (#[trigger] self.ship_status@[k])@ == before[k],
                self.own_grid == old(self).own_grid,
                self.enemy_grid == old(self).enemy_grid,
                self.cursor == old(self).cursor,
                self@ == (GameStateView { ship_status: reports(self.ship_status@), ..old(self)@ }),
            decreases self.ship_status.len() - i,
        {
            let length = self.ship_status[i].length;
            if remaining >= length {
                self.ship_status[i].hits = length;
                self.ship_status[i].sunk = true;
                remaining -= length;
            } else {
                self.ship_status[i].hits = remaining;
                self.ship_status[i].sunk = false;
                remaining = 0;
            }
            i += 1;
        }
        assert(reports(self.ship_status@) =~= damage_reports(before, total as nat));
    }

    /// The number of ships of the fleet that are reported sunk.
    pub fn get_ships_sunk(&self) -> (count: usize)
        ensures
            count == sunk_among(self@.ship_status, self@.ship_status.len() as int),
    {
        let mut count: usize = 0;
        let mut i: usize = 0;
        while i < self.ship_status.len()
            invariant
                i <= self.ship_status.len(),
                count <= i,
                count == sunk_among(reports(self.ship_status@), i as int),
            decreases self.ship_status.len() - i,
        {
            if self.ship_status[i].sunk {
                count += 1;
            }
            i += 1;
        }
        count
    }

    /// The name of the cell `(x, y)` as a player reads it.
    pub fn format_coordinate(x: usize, y: usize) -> (text: String)
        requires
            x < GRID_SIZE,
            y < GRID_SIZE,
        ensures
            text@ == coordinate_text(x as int, y as int),
    {
        crate::text::format_coordinate(x, y)
    }
}

/// Whether two lists of characters are the same.
fn same_chars(a: &Vec<char>, b: &Vec<char>) -> (same: bool)
    ensures
        same == (a@ == b@),
{
    if a.len() != b.len() {
        return false;
    }
    let mut i: usize = 0;
    while i < a.len()
        invariant
            a.len() == b.len(),
            i <= a.len(),
            forall|k: int| 0 <= k < i ==> a@[k] == b@[k],
        decreases a.len() - i,
    {
        if a[i] != b[i] {
            return false;
        }
        i += 1;
    }
    assert(a@ =~= b@);
    true
}

/// The line that reports the rescue of a ship.
pub open spec fn rescue_line() -> Seq<char> {
    "Destroyer restored by Last Stand!"@
}

/// The line that tells of the shield going up.
pub open spec fn shield_on_line() -> Seq<char> {
    "🛡️ Shield activated! 50% damage reduction for 1 turn!"@
}

/// The line that tells of the shield coming down.
pub open spec fn shield_off_line() -> Seq<char> {
    "🛡️ Shield expired!"@
}

/// The line that tells of a radar scan.
pub open spec fn radar_on_line() -> Seq<char> {
    "📡 Radar scan complete! Enemy positions revealed!"@
}

/// The line that tells that the radar scan is forgotten.
pub open spec fn radar_off_line() -> Seq<char> {
    "📡 Radar scan expired!"@
}

/// The line that tells of a repair.
pub open spec fn repaired_line() -> Seq<char> {
    "🔧 Ship repaired!"@
}

/// The line that tells of a missile strike.
pub open spec fn missile_line() -> Seq<char> {
    "🚀 Missile strike launched!"@
}

/// A key of the last-stand challenge: a dot or a dash.
pub open spec fn is_signal(key: char) -> bool {
    key == '.' || key == '-'
}

impl GameState {
    /// Makes the client ready for a new game.
    pub fn reset_for_new_game(&mut self)
        ensures
            final(self)@ == reset_state(old(self)@),
            final(self).wf(),
    {
        self.own_grid = new_grid();
        self.enemy_grid = new_grid();
        self.phase = GamePhase::Placing;
        self.cursor = (0, 0);
        self.placing_ship_idx = 0;
        self.placing_horizontal = true;
        let mut messages: Vec<String> = Vec::new();
        messages.push(
            String::from_str("Place your ships! Use arrows, R to rotate, Enter to place"),
        );
        self.messages = messages;
        self.winner = None;
        self.total_shots = 0;
        self.total_hits = 0;
        self.turn_count = 0;
        self.turn_start_time = None;
        self.turn_times.clear();
        self.play_again_response = None;
        self.waiting_for_play_again = false;
        let ghost before = reports(self.ship_status@);
        assert(texts(self.messages@) =~= seq![placement_prompt()]);
        assert(self.turn_times@ =~= Seq::empty());
        let mut i: usize = 0;
        while i < self.ship_status.len()
            invariant
                i <= self.ship_status.len(),
                self.ship_status.len() == before.len(),
                forall|k: int|
                    0 <= k < i ==> (#[trigger] self.ship_status@[k])@ == repaired_report(before[k]),
                forall|k: int|
                    i <= k < before.len() ==> (#[trigger] self.ship_status@[k])@ == before[k],
                self@ == (GameStateView {
                    ship_status: reports(self.ship_status@),
                    side_panel_mode: old(self)@.side_panel_mode,
                    max_hand_size: old(self)@.max_hand_size,
                    last_stand_used: old(self)@.last_stand_used,
                    last_stand_sequence: old(self)@.last_stand_sequence,
                    last_stand_input: old(self)@.last_stand_input,
                    current_hand: old(self)@.current_hand,
                    shield_active: old(self)@.shield_active,
                    radar_reveals: old(self)@.radar_reveals,
                    ..initial_state()
                }),
                self.wf(),
            decreases self.ship_status.len() - i,
        {
            self.ship_status[i].hits = 0;
            self.ship_status[i].sunk = false;
            i += 1;
        }
        assert(reports(self.ship_status@) =~= Seq::new(
            before.len(),
            |i: int| repaired_report(before[i]),
        ));
        self.last_stand_used = false;
        self.last_stand_sequence.clear();
        self.last_stand_input.clear();
        self.current_hand.clear();
        self.shield_active = false;
        self.radar_reveals.clear();
    }

    /// Opens the last-stand challenge: the player has to key in the distress
    /// call.
    pub fn trigger_last_stand(&mut self)
        ensures
            final(self)@ == (GameStateView {
                last_stand_used: true,
                last_stand_input: Seq::empty(),
                last_stand_sequence: distress_call(),
                ..old(self)@
            }),
            final(self).wf() == old(self).wf(),
    {
        self.last_stand_used = true;
        self.last_stand_input.clear();
        let mut sequence: Vec<char> = Vec::new();
        sequence.push('.');
        sequence.push('.');
        sequence.push('.');
        sequence.push('-');
        sequence.push('-');
        sequence.push('-');
        sequence.push('.');
        sequence.push('.');
        sequence.push('.');
        assert(sequence@ =~= distress_call());
        self.last_stand_sequence = sequence;
    }

    /// Takes one key of the player's answer to the challenge. A dot or a dash
    /// joins the answer; once the answer is as long as the challenge, the
    /// result tells whether they are the same. Any other key is not heard.
    pub fn check_last_stand_input(&mut self, key: char) -> (verdict: Option<bool>)
        ensures
            final(self)@ == (GameStateView {
                last_stand_input: if is_signal(key) {
                    old(self)@.last_stand_input.push(key)
                } else {
                    old(self)@.last_stand_input
                },
                ..old(self)@
            }),
            final(self).wf() == old(self).wf(),
            verdict == (if is_signal(key) && final(self)@.last_stand_input.len()
                == final(self)@.last_stand_sequence.len() {
                Some(final(self)@.last_stand_input == final(self)@.last_stand_sequence)
            } else {
                None
            }),
    {
        if key == '.' || key == '-' {
            self.last_stand_input.push(key);
            if self.last_stand_input.len() == self.last_stand_sequence.len() {
                let success = same_chars(&self.last_stand_input, &self.last_stand_sequence);
                return Some(success);
            }
        }
        None
    }

    /// The last-stand rescue on the player's own grid; a rescue is reported in
    /// the message log.
    pub fn restore_random_ship(&mut self) -> (restored: bool)
        requires
            well_formed(old(self).own_grid@),
        ensures
            final(self).wf() == old(self).wf(),
            restored <==> exists|x: int, y: int| restorable_at(old(self)@.own_grid, x, y),
            restored ==> exists|x: int, y: int|
                restorable_at(old(self)@.own_grid, x, y) && final(self)@ == (GameStateView {
                    own_grid: restored_at(old(self)@.own_grid, x, y),
                    ..old(self)@
                }).say(rescue_line()),
            !restored ==> final(self)@ == old(self)@,
    {
        let ghost before = self@;
        if crate::cards::restore_random_ship(&mut self.own_grid) {
            let ghost (x, y) = choose|x: int, y: int|
                restorable_at(before.own_grid, x, y) && cells(self.own_grid@) == restored_at(
                    before.own_grid,
                    x,
                    y,
                );
            self.say("Destroyer restored by Last Stand!");
            assert(restorable_at(before.own_grid, x, y) && self@ == (GameStateView {
                own_grid: restored_at(before.own_grid, x, y),
                ..before
            }).say(rescue_line()));
            true
        } else {
            false
        }
    }

    /// Adds a card to the hand unless the hand is full; tells whether it was
    /// added.
    pub fn add_card(&mut self, card: PowerUp) -> (added: bool)
        ensures
            added == (old(self).current_hand.len() < old(self).max_hand_size),
            added ==> final(self)@ == (GameStateView {
                current_hand: old(self)@.current_hand.push(card),
                ..old(self)@
            }),
            !added ==> final(self)@ == old(self)@,
            final(self).wf() == old(self).wf(),
            old(self).current_hand.len() <= old(self).max_hand_size
                ==> final(self).current_hand.len() <= final(self).max_hand_size,
    {
        if self.current_hand.len() >= self.max_hand_size {
            return false;
        }
        self.current_hand.push(card);
        true
    }

    /// Draws a random card into the hand unless the hand is full. Returns the
    /// card drawn, which is then the last of the hand, or `None` for a full
    /// hand, which stays as it is.
    pub fn draw_card(&mut self) -> (drawn: Option<PowerUp>)
        ensures
            drawn is Some <==> old(self).current_hand.len() < old(self).max_hand_size,
            drawn matches Some(card) ==> final(self)@ == (GameStateView {
                current_hand: old(self)@.current_hand.push(card),
                ..old(self)@
            }),
            drawn is None ==> final(self)@ == old(self)@,
            final(self).wf() == old(self).wf(),
            old(self).current_hand.len() <= old(self).max_hand_size
                ==> final(self).current_hand.len() <= final(self).max_hand_size,
    {
        if self.current_hand.len() >= self.max_hand_size {
            return None;
        }
        let card = random_card();
        self.add_card(card);
        Some(card)
    }

    /// Takes the card at a position out of the hand; `None`, with the hand as
    /// it is, when the hand has no such position.
    pub fn use_card(&mut self, card_index: usize) -> (used: Option<PowerUp>)
        ensures
            used == (if card_index < old(self).current_hand.len() {
                Some(old(self)@.current_hand[card_index as int])
            } else {
                None
            }),
            final(self)@ == (GameStateView {
                current_hand: if card_index < old(self).current_hand.len() {
                    old(self)@.current_hand.remove(card_index as int)
                } else {
                    old(self)@.current_hand
                },
                ..old(self)@
            }),
            final(self).wf() == old(self).wf(),
    {
        if card_index < self.current_hand.len() {
            Some(self.current_hand.remove(card_index))
        } else {
            None
        }
    }

    /// Whether the hand has a card at a position.
    pub fn can_use_card(&self, card_index: usize) -> (usable: bool)
        ensures
            usable == (card_index < self@.current_hand.len()),
    {
        card_index < self.current_hand.len()
    }

    /// The card at a position of the hand.
    pub fn get_card_at(&self, index: usize) -> (card: Option<&PowerUp>)
        ensures
            card == (if index < self@.current_hand.len() {
                Some(&self@.current_hand[index as int])
            } else {
                None
            }),
    {
        if index < self.current_hand.len() {
            Some(&self.current_hand[index])
        } else {
            None
        }
    }

    /// Raises the shield and says so.
    pub fn activate_shield(&mut self)
        ensures
            final(self)@ == (GameStateView { shield_active: true, ..old(self)@ }).say(
                shield_on_line(),
            ),
            final(self).wf() == old(self).wf(),
    {
        self.shield_active = true;
        self.say("🛡️ Shield activated! 50% damage reduction for 1 turn!");
    }

    /// Lowers the shield, if it is up, and says so.
    pub fn deactivate_shield(&mut self)
        ensures
            final(self)@ == (if old(self).shield_active {
                (GameStateView { shield_active: false, ..old(self)@ }).say(shield_off_line())
            } else {
                old(self)@
            }),
            final(self).wf() == old(self).wf(),
    {
        if self.shield_active {
            self.shield_active = false;
            self.say("🛡️ Shield expired!");
        }
    }

    /// Scans a grid of the enemy: up to two different undamaged ship cells,
    /// chosen at random, are revealed and kept, two if there are at least
    /// two, else all there are.
    pub fn reveal_radar_positions(&mut self, enemy_grid: &[Vec<CellState>]) -> (revealed: Vec<
        (usize, usize),
    >)
        requires
            well_formed(enemy_grid@),
        ensures
            revealed.len() <= 2,
            forall|k: int|
                0 <= k < revealed.len() ==> in_state(
                    cells(enemy_grid@),
                    (#[trigger] revealed@[k]).0 as int,
                    revealed@[k].1 as int,
                    CellState::Ship,
                    CellState::Ship,
                ),
            revealed.len() == 2 ==> revealed@[0] != revealed@[1],
            revealed.len() < 2 ==> forall|x: usize, y: usize| #[trigger]
                in_state(cells(enemy_grid@), x as int, y as int, CellState::Ship, CellState::Ship)
                    ==> revealed@.contains((x, y)),
            final(self)@ == (GameStateView { radar_reveals: revealed@, ..old(self)@ }).say(
                radar_on_line(),
            ),
            final(self).wf() == old(self).wf(),
    {
        let revealed = crate::cards::random_radar_positions(enemy_grid);
        let mut kept: Vec<(usize, usize)> = Vec::new();
        let mut k: usize = 0;
        while k < revealed.len()
            invariant
                k <= revealed.len(),
                kept@ == revealed@.subrange(0, k as int),
            decreases revealed.len() - k,
        {
            kept.push(revealed[k]);
            k += 1;
            assert(kept@ =~= revealed@.subrange(0, k as int));
        }
        assert(kept@ =~= revealed@);
        self.radar_reveals = kept;
        self.say("📡 Radar scan complete! Enemy positions revealed!");
        revealed
    }

    /// Forgets what the radar revealed, if anything, and says so.
    pub fn clear_radar_reveals(&mut self)
        ensures
            final(self)@ == (if old(self).radar_reveals.len() > 0 {
                (GameStateView { radar_reveals: Seq::empty(), ..old(self)@ }).say(radar_off_line())
            } else {
                old(self)@
            }),
            final(self).wf() == old(self).wf(),
    {
        if self.radar_reveals.len() > 0 {
            self.radar_reveals.clear();
            self.say("📡 Radar scan expired!");
        }
    }

    /// Repairs the first damaged cell, in reading order, of a ship of the
    /// player that is still afloat, and says so; tells whether there was one.
    pub fn repair_ship(&mut self) -> (repaired: bool)
        requires
            well_formed(old(self).own_grid@),
        ensures
            repaired == first_repairable(old(self)@.own_grid) is Some,
            final(self)@ == (match first_repairable(old(self)@.own_grid) {
                Some(at) => (GameStateView {
                    own_grid: with_cell(
                        old(self)@.own_grid,
                        at.0 as int,
                        at.1 as int,
                        CellState::Ship,
                    ),
                    ..old(self)@
                }).say(repaired_line()),
                None => old(self)@,
            }),
            final(self).wf() == old(self).wf(),
    {
        match crate::cards::repair_first(&mut self.own_grid) {
            Some(_) => {
                self.say("🔧 Ship repaired!");
                true
            },
            None => false,
        }
    }

    /// Fires the missile strike at a grid of the enemy and says so: two
    /// missiles come down on two different cells chosen at random among those
    /// still `Empty` or `Ship`, or on as many as there are. Returns the cells
    /// struck, in order.
    pub fn missile_strike(&mut self, enemy_grid: &mut [Vec<CellState>]) -> (struck: Vec<
        (usize, usize),
    >)
        requires
            well_formed(old(enemy_grid)@),
        ensures
            well_formed(final(enemy_grid)@),
            struck.len() <= 2,
            struck.len() == 0 ==> {
                &&& forall|x: int, y: int| !is_target(cells(old(enemy_grid)@), x, y)
                &&& cells(final(enemy_grid)@) == cells(old(enemy_grid)@)
            },
            struck.len() == 1 ==> {
                &&& is_target(cells(old(enemy_grid)@), struck@[0].0 as int, struck@[0].1 as int)
                &&& forall|x: int, y: int|
                    is_target(cells(old(enemy_grid)@), x, y) ==> x == struck@[0].0 && y
                        == struck@[0].1
                &&& cells(final(enemy_grid)@) == after_strike(
                    cells(old(enemy_grid)@),
                    struck@[0].0 as int,
                    struck@[0].1 as int,
                )
            },
            struck.len() == 2 ==> {
                &&& is_target(cells(old(enemy_grid)@), struck@[0].0 as int, struck@[0].1 as int)
                &&& is_target(cells(old(enemy_grid)@), struck@[1].0 as int, struck@[1].1 as int)
                &&& struck@[0] != struck@[1]
                &&& cells(final(enemy_grid)@) == after_strike(
                    after_strike(
                        cells(old(enemy_grid)@),
                        struck@[0].0 as int,
                        struck@[0].1 as int,
                    ),
                    struck@[1].0 as int,
                    struck@[1].1 as int,
                )
            },
            final(self)@ == old(self)@.say(missile_line()),
            final(self).wf() == old(self).wf(),
    {
        let struck = crate::cards::missile_strike(enemy_grid);
        self.say("🚀 Missile strike launched!");
        struck
    }
}

} // verus!
