//! What a key does: each key press moves the state of the client and may
//! produce a message for the session, or end the client.

use crate::board::{can_place, copy_grid, placed};
use crate::game_state::{is_signal, ship_length, ship_name, GameState, GameStateView};
use crate::text::{coordinate_text, digit_str, digit_text, format_coordinate};
use crate::types::{CellState, GamePhase, Message, MessageView, SidePanelMode, GRID_SIZE, SHIPS};
use vstd::prelude::*;
use vstd::string::StringExecFns;

verus! {

/// A key press, as far as the game tells keys apart.
#[derive(Debug, Clone, Copy, PartialEq, Eq)]
pub enum Key {
    Up,
    Down,
    Left,
    Right,
    Enter,
    Char(char),
    Other,
}

/// What a key press leads to besides the change of state: whether the client
/// ends, and the message to send to the session, if any.
#[derive(Debug, Clone, PartialEq)]
pub struct KeyOutcome {
    pub quit: bool,
    pub message: Option<Message>,
}

/// The state after a key press, whether the client ends, and the message to
/// send.
pub struct KeyEffect {
    pub state: GameStateView,
    pub quit: bool,
    pub message: Option<MessageView>,
}

impl View for KeyOutcome {
    type V = (bool, Option<MessageView>);

    open spec fn view(&self) -> (bool, Option<MessageView>) {
        (
            self.quit,
            match self.message {
                Some(message) => Some(message@),
                None => None,
            },
        )
    }
}

/// A key press that only changes the state.
pub open spec fn quiet(state: GameStateView) -> KeyEffect {
    KeyEffect { state, quit: false, message: None }
}

/// A key press that sends a message.
pub open spec fn sending(state: GameStateView, message: MessageView) -> KeyEffect {
    KeyEffect { state, quit: false, message: Some(message) }
}

/// The key press that ends the client: the session is told.
pub open spec fn leaving(state: GameStateView) -> KeyEffect {
    KeyEffect { state, quit: true, message: Some(MessageView::Quit) }
}

/// `a` less one, but not below zero.
pub open spec fn back(a: usize) -> usize {
    if a == 0 {
        0
    } else {
        (a - 1) as usize
    }
}

/// `a` plus one, but not beyond `limit`.
pub open spec fn forth(a: usize, limit: usize) -> usize {
    if a + 1 <= limit {
        (a + 1) as usize
    } else {
        limit
    }
}

/// The furthest the cursor may go along an axis while a ship is being
/// placed: far enough for the ship to fit when it lies along that axis, the
/// edge otherwise.
pub open spec fn placing_limit(s: GameStateView, along_row: bool) -> usize {
    if s.placing_ship_idx < 5 && s.placing_horizontal == along_row {
        (GRID_SIZE - ship_length(s.placing_ship_idx as int)) as usize
    } else {
        (GRID_SIZE - 1) as usize
    }
}

/// The state with the cursor moved by an arrow key, each axis with its limit.
pub open spec fn cursor_moved(s: GameStateView, key: Key, limit_x: usize, limit_y: usize) -> GameStateView {
    match key {
        Key::Up => GameStateView { cursor: (s.cursor.0, back(s.cursor.1)), ..s },
        Key::Down => GameStateView { cursor: (s.cursor.0, forth(s.cursor.1, limit_y)), ..s },
        Key::Left => GameStateView { cursor: (back(s.cursor.0), s.cursor.1), ..s },
        Key::Right => GameStateView { cursor: (forth(s.cursor.0, limit_x), s.cursor.1), ..s },
        _ => s,
    }
}

/// The state with the ship that is being placed turned the other way, and
/// the cursor pulled back if the ship would stick out.
pub open spec fn rotated(s: GameStateView) -> GameStateView {
    let horizontal = !s.placing_horizontal;
    let length = ship_length(s.placing_ship_idx as int);
    let cursor = if s.placing_ship_idx < 5 {
        if horizontal {
            if s.cursor.0 + length > GRID_SIZE {
                ((GRID_SIZE - length) as usize, s.cursor.1)
            } else {
                s.cursor
            }
        } else {
            if s.cursor.1 + length > GRID_SIZE {
                (s.cursor.0, (GRID_SIZE - length) as usize)
            } else {
                s.cursor
            }
        }
    } else {
        s.cursor
    };
    GameStateView { placing_horizontal: horizontal, cursor, ..s }
}

/// The line that asks for the next ship.
pub open spec fn next_ship_line(i: int) -> Seq<char> {
    "Place "@ + ship_name(i) + " (length "@ + digit_text(ship_length(i) as int) + ")"@
}

/// The ship that is being placed goes down at the cursor, if it fits there.
/// When it was the last one the fleet is sent to the session.
pub open spec fn confirmed(s: GameStateView) -> KeyEffect {
    let i = s.placing_ship_idx;
    let length = ship_length(i as int);
    if i < 5 && can_place(
        s.own_grid,
        s.cursor.0 as int,
        s.cursor.1 as int,
        length as int,
        s.placing_horizontal,
    ) {
        let grid = placed(
            s.own_grid,
            s.cursor.0 as int,
            s.cursor.1 as int,
            length as int,
            s.placing_horizontal,
        );
        let put = (GameStateView {
            own_grid: grid,
            placing_ship_idx: (i + 1) as usize,
            ..s
        }).say(ship_name(i as int) + " placed!"@);
        if i + 1 >= 5 {
            sending(
                GameStateView {
                    phase: GamePhase::WaitingForOpponent,
                    ..put.say("All ships placed! Waiting for opponent..."@)
                },
                MessageView::PlaceShips(grid),
            )
        } else {
            quiet(put.say(next_ship_line(i + 1)))
        }
    } else {
        quiet(s)
    }
}

/// A key while the fleet is being placed.
pub open spec fn placing_step(s: GameStateView, key: Key) -> KeyEffect {
    match key {
        Key::Char(c) => if c == 'r' || c == 'R' {
            quiet(rotated(s))
        } else if c == 'q' {
            leaving(s)
        } else {
            quiet(s)
        },
        Key::Enter => confirmed(s),
        _ => quiet(cursor_moved(s, key, placing_limit(s, true), placing_limit(s, false))),
    }
}

/// The side panel after the key that flips it.
pub open spec fn panel_flipped(mode: SidePanelMode) -> SidePanelMode {
    match mode {
        SidePanelMode::Statistics => SidePanelMode::Deck,
        SidePanelMode::Deck => SidePanelMode::Statistics,
        SidePanelMode::Hidden => SidePanelMode::Statistics,
    }
}

/// The position in the hand that a digit key names.
pub open spec fn card_slot(c: char) -> Option<int> {
    if c == '1' {
        Some(0)
    } else if c == '2' {
        Some(1)
    } else if c == '3' {
        Some(2)
    } else if c == '4' {
        Some(3)
    } else if c == '5' {
        Some(4)
    } else {
        None
    }
}

/// The player fires at the cell under the cursor, if it has not been fired
/// at.
pub open spec fn fired(s: GameStateView) -> KeyEffect {
    let (x, y) = s.cursor;
    if s.enemy_grid[y as int][x as int] == CellState::Empty {
        sending(
            (GameStateView { phase: GamePhase::OpponentTurn, ..s }).say(
                "Firing at "@ + coordinate_text(x as int, y as int) + "..."@,
            ),
            MessageView::Attack { x, y },
        )
    } else {
        quiet(s)
    }
}

/// The player plays the card at a position of the hand, if there is one.
pub open spec fn card_played(s: GameStateView, slot: int) -> KeyEffect {
    if 0 <= slot < s.current_hand.len() {
        sending(
            GameStateView { current_hand: s.current_hand.remove(slot), ..s },
            MessageView::CardUsed { card: s.current_hand[slot], target_x: None, target_y: None },
        )
    } else {
        quiet(s)
    }
}

/// A key while it is the player's turn.
pub open spec fn your_turn_step(s: GameStateView, key: Key) -> KeyEffect {
    match key {
        Key::Char(c) => if c == 's' || c == 'S' {
            quiet(GameStateView { side_panel_mode: panel_flipped(s.side_panel_mode), ..s })
        } else if c == 'q' {
            leaving(s)
        } else {
            match card_slot(c) {
                Some(slot) => card_played(s, slot),
                None => quiet(s),
            }
        },
        Key::Enter => fired(s),
        _ => quiet(
            cursor_moved(s, key, (GRID_SIZE - 1) as usize, (GRID_SIZE - 1) as usize),
        ),
    }
}

/// A key while the player is asked whether to play again.
pub open spec fn prompt_step(s: GameStateView, key: Key) -> KeyEffect {
    match key {
        Key::Char(c) => if c == 'y' || c == 'Y' {
            sending(
                GameStateView {
                    phase: GamePhase::GameOver,
                    ..s.say("You chose to play again!"@)
                },
                MessageView::PlayAgainResponse { wants_to_play: true },
            )
        } else if c == 'n' || c == 'N' {
            sending(
                GameStateView {
                    phase: GamePhase::GameOver,
                    ..s.say("You chose not to play again."@)
                },
                MessageView::PlayAgainResponse { wants_to_play: false },
            )
        } else if c == 'q' {
            leaving(s)
        } else {
            quiet(s)
        },
        _ => quiet(s),
    }
}

/// A key of the last-stand challenge: a dot or a dash joins the answer, and
/// once the answer is as long as the challenge the verdict goes to the
/// session.
pub open spec fn signal_step(s: GameStateView, c: char) -> KeyEffect {
    let keyed = GameStateView { last_stand_input: s.last_stand_input.push(c), ..s };
    if keyed.last_stand_input.len() == keyed.last_stand_sequence.len() {
        let success = keyed.last_stand_input == keyed.last_stand_sequence;
        sending(
            keyed.say(
                if success {
                    "Last Stand successful! Ship restored!"@
                } else {
                    "Last Stand failed! Game over!"@
                },
            ),
            MessageView::LastStandResult { success },
        )
    } else {
        quiet(keyed)
    }
}

/// A key during the last stand.
pub open spec fn last_stand_step(s: GameStateView, key: Key) -> KeyEffect {
    match key {
        Key::Char(c) => if is_signal(c) {
            signal_step(s, c)
        } else if c == 'q' {
            leaving(s)
        } else {
            quiet(s)
        },
        _ => quiet(s),
    }
}

/// A key while the player waits: for the opponent's fleet or for the
/// opponent's shot.
pub open spec fn waiting_step(s: GameStateView, key: Key) -> KeyEffect {
    match key {
        Key::Char(c) => if c == 's' || c == 'S' {
            quiet(GameStateView { side_panel_mode: panel_flipped(s.side_panel_mode), ..s })
        } else if c == 'q' {
            leaving(s)
        } else {
            quiet(s)
        },
        _ => quiet(s),
    }
}

/// A key once the game is over: only the key that ends the client is heard.
pub open spec fn game_over_step(s: GameStateView, key: Key) -> KeyEffect {
    if key == Key::Char('q') {
        leaving(s)
    } else {
        quiet(s)
    }
}

/// What a key press does in a state of the client.
pub open spec fn key_step(s: GameStateView, key: Key) -> KeyEffect {
    match s.phase {
        GamePhase::Placing => placing_step(s, key),
        GamePhase::YourTurn => your_turn_step(s, key),
        GamePhase::GameOver => game_over_step(s, key),
        GamePhase::PlayAgainPrompt => prompt_step(s, key),
        GamePhase::LastStand => last_stand_step(s, key),
        GamePhase::WaitingForOpponent => waiting_step(s, key),
        GamePhase::OpponentTurn => waiting_step(s, key),
    }
}

/// The outcome of a key press is the effect's.
pub open spec fn matches_effect(state: GameStateView, outcome: KeyOutcome, effect: KeyEffect) -> bool {
    state == effect.state && outcome@ == (effect.quit, effect.message)
}

fn stay() -> (outcome: KeyOutcome)
    ensures
        outcome@ == (false, None::<MessageView>),
{
    KeyOutcome { quit: false, message: None }
}

fn send(message: Message) -> (outcome: KeyOutcome)
    ensures
        outcome@ == (false, Some(message@)),
{
    KeyOutcome { quit: false, message: Some(message) }
}

fn leave() -> (outcome: KeyOutcome)
    ensures
        outcome@ == (true, Some(MessageView::Quit)),
{
    KeyOutcome { quit: true, message: Some(Message::Quit) }
}

fn step_back(a: usize) -> (b: usize)
    ensures
        b == back(a),
{
    if a == 0 {
        0
    } else {
        a - 1
    }
}

fn step_forth(a: usize, limit: usize) -> (b: usize)
    ensures
        b == forth(a, limit),
{
    if a < limit {
        a + 1
    } else {
        limit
    }
}

/// Moves the cursor by an arrow key.
fn move_cursor(state: &mut GameState, key: Key, limit_x: usize, limit_y: usize)
    requires
        old(state).wf(),
        limit_x < GRID_SIZE,
        limit_y < GRID_SIZE,
    ensures
        final(state).wf(),
        final(state)@ == cursor_moved(old(state)@, key, limit_x, limit_y),
{
    match key {
        Key::Up => {
            state.cursor.1 = step_back(state.cursor.1);
        },
        Key::Down => {
            state.cursor.1 = step_forth(state.cursor.1, limit_y);
        },
        Key::Left => {
            state.cursor.0 = step_back(state.cursor.0);
        },
        Key::Right => {
            state.cursor.0 = step_forth(state.cursor.0, limit_x);
        },
        _ => {},
    }
}

/// The length of ship class `i`.
fn length_of(i: usize) -> (length: usize)
    requires
        i < 5,
    ensures
        length == ship_length(i as int),
        2 <= length <= 5,
{
    SHIPS[i].0
}

/// The name of ship class `i`.
fn name_of(i: usize) -> (name: &'static str)
    requires
        i < 5,
    ensures
        name@ == ship_name(i as int),
{
    SHIPS[i].1
}

fn limit_along(state: &GameState, along_row: bool) -> (limit: usize)
    ensures
        limit == placing_limit(state@, along_row),
        limit < GRID_SIZE,
{
    if state.placing_ship_idx < 5 && state.placing_horizontal == along_row {
        GRID_SIZE - length_of(state.placing_ship_idx)
    } else {
        GRID_SIZE - 1
    }
}

fn rotate(state: &mut GameState)
    requires
        old(state).wf(),
    ensures
        final(state).wf(),
        final(state)@ == rotated(old(state)@),
{
    state.placing_horizontal = !state.placing_horizontal;
    if state.placing_ship_idx < 5 {
        let length = length_of(state.placing_ship_idx);
        if state.placing_horizontal {
            if state.cursor.0 + length > GRID_SIZE {
                state.cursor.0 = GRID_SIZE - length;
            }
        } else {
            if state.cursor.1 + length > GRID_SIZE {
                state.cursor.1 = GRID_SIZE - length;
            }
        }
    }
}

fn confirm(state: &mut GameState) -> (outcome: KeyOutcome)
    requires
        old(state).wf(),
    ensures
        final(state).wf(),
        matches_effect(final(state)@, outcome, confirmed(old(state)@)),
{
    let i = state.placing_ship_idx;
    if i >= 5 {
        return stay();
    }
    let length = length_of(i);
    let (x, y) = state.cursor;
    if !state.can_place_ship(x, y, length, state.placing_horizontal) {
        return stay();
    }
    let horizontal = state.placing_horizontal;
    state.place_ship(x, y, length, horizontal);
    let mut line = String::from_str(name_of(i));
    line.append(" placed!");
    state.say_owned(line);
    state.placing_ship_idx = i + 1;
    if i + 1 >= 5 {
        state.say("All ships placed! Waiting for opponent...");
        state.phase = GamePhase::WaitingForOpponent;
        send(Message::PlaceShips(copy_grid(&state.own_grid)))
    } else {
        let mut next = String::from_str("Place ");
        next.append(name_of(i + 1));
        next.append(" (length ");
        next.append(digit_str(length_of(i + 1)));
        next.append(")");
        state.say_owned(next);
        stay()
    }
}

fn placing_key(state: &mut GameState, key: Key) -> (outcome: KeyOutcome)
    requires
        old(state).wf(),
    ensures
        final(state).wf(),
        matches_effect(final(state)@, outcome, placing_step(old(state)@, key)),
{
    match key {
        Key::Char(c) => {
            if c == 'r' || c == 'R' {
                rotate(state);
                stay()
            } else if c == 'q' {
                leave()
            } else {
                stay()
            }
        },
        Key::Enter => confirm(state),
        _ => {
            let limit_x = limit_along(state, true);
            let limit_y = limit_along(state, false);
            move_cursor(state, key, limit_x, limit_y);
            stay()
        },
    }
}

fn flip_panel(state: &mut GameState)
    ensures
        final(state).wf() == old(state).wf(),
        final(state)@ == (GameStateView {
            side_panel_mode: panel_flipped(old(state)@.side_panel_mode),
            ..old(state)@
        }),
{
    state.side_panel_mode = match state.side_panel_mode {
        SidePanelMode::Statistics => SidePanelMode::Deck,
        SidePanelMode::Deck => SidePanelMode::Statistics,
        SidePanelMode::Hidden => SidePanelMode::Statistics,
    };
}

fn fire(state: &mut GameState) -> (outcome: KeyOutcome)
    requires
        old(state).wf(),
    ensures
        final(state).wf(),
        matches_effect(final(state)@, outcome, fired(old(state)@)),
{
    let (x, y) = state.cursor;
    if state.enemy_grid[y][x] == CellState::Empty {
        state.phase = GamePhase::OpponentTurn;
        let mut line = String::from_str("Firing at ");
        let cell = format_coordinate(x, y);
        line.append(cell.as_str());
        line.append("...");
        state.say_owned(line);
        send(Message::Attack { x, y })
    } else {
        stay()
    }
}

fn play_card(state: &mut GameState, slot: usize) -> (outcome: KeyOutcome)
    requires
        old(state).wf(),
    ensures
        final(state).wf(),
        matches_effect(final(state)@, outcome, card_played(old(state)@, slot as int)),
{
    if state.can_use_card(slot) {
        match state.use_card(slot) {
            Some(card) => send(Message::CardUsed { card, target_x: None, target_y: None }),
            None => stay(),
        }
    } else {
        stay()
    }
}

fn slot_of(c: char) -> (slot: Option<usize>)
    ensures
        slot is Some == card_slot(c) is Some,
        slot matches Some(i) ==> card_slot(c) == Some(i as int),
{
    if c == '1' {
        Some(0)
    } else if c == '2' {
        Some(1)
    } else if c == '3' {
        Some(2)
    } else if c == '4' {
        Some(3)
    } else if c == '5' {
        Some(4)
    } else {
        None
    }
}

fn your_turn_key(state: &mut GameState, key: Key) -> (outcome: KeyOutcome)
    requires
        old(state).wf(),
    ensures
        final(state).wf(),
        matches_effect(final(state)@, outcome, your_turn_step(old(state)@, key)),
{
    match key {
        Key::Char(c) => {
            if c == 's' || c == 'S' {
                flip_panel(state);
                stay()
            } else if c == 'q' {
                leave()
            } else {
                match slot_of(c) {
                    Some(slot) => play_card(state, slot),
                    None => stay(),
                }
            }
        },
        Key::Enter => fire(state),
        _ => {
            move_cursor(state, key, GRID_SIZE - 1, GRID_SIZE - 1);
            stay()
        },
    }
}

fn prompt_key(state: &mut GameState, key: Key) -> (outcome: KeyOutcome)
    ensures
        final(state).wf() == old(state).wf(),
        matches_effect(final(state)@, outcome, prompt_step(old(state)@, key)),
{
    match key {
        Key::Char(c) => {
            if c == 'y' || c == 'Y' {
                state.say("You chose to play again!");
                state.phase = GamePhase::GameOver;
                send(Message::PlayAgainResponse { wants_to_play: true })
            } else if c == 'n' || c == 'N' {
                state.say("You chose not to play again.");
                state.phase = GamePhase::GameOver;
                send(Message::PlayAgainResponse { wants_to_play: false })
            } else if c == 'q' {
                leave()
            } else {
                stay()
            }
        },
        _ => stay(),
    }
}

fn signal_key(state: &mut GameState, c: char) -> (outcome: KeyOutcome)
    requires
        is_signal(c),
    ensures
        final(state).wf() == old(state).wf(),
        matches_effect(final(state)@, outcome, signal_step(old(state)@, c)),
{
    match state.check_last_stand_input(c) {
        Some(success) => {
            if success {
                state.say("Last Stand successful! Ship restored!");
            } else {
                state.say("Last Stand failed! Game over!");
            }
            send(Message::LastStandResult { success })
        },
        None => stay(),
    }
}

fn last_stand_key(state: &mut GameState, key: Key) -> (outcome: KeyOutcome)
    ensures
        final(state).wf() == old(state).wf(),
        matches_effect(final(state)@, outcome, last_stand_step(old(state)@, key)),
{
    match key {
        Key::Char(c) => {
            if c == '.' || c == '-' {
                signal_key(state, c)
            } else if c == 'q' {
                leave()
            } else {
                stay()
            }
        },
        _ => stay(),
    }
}

fn waiting_key(state: &mut GameState, key: Key) -> (outcome: KeyOutcome)
    ensures
        final(state).wf() == old(state).wf(),
        matches_effect(final(state)@, outcome, waiting_step(old(state)@, key)),
{
    match key {
        Key::Char(c) => {
            if c == 's' || c == 'S' {
                flip_panel(state);
                stay()
            } else if c == 'q' {
                leave()
            } else {
                stay()
            }
        },
        _ => stay(),
    }
}

fn game_over_key(state: &mut GameState, key: Key) -> (outcome: KeyOutcome)
    ensures
        final(state).wf() == old(state).wf(),
        matches_effect(final(state)@, outcome, game_over_step(old(state)@, key)),
{
    match key {
        Key::Char(c) => {
            if c == 'q' {
                leave()
            } else {
                stay()
            }
        },
        _ => stay(),
    }
}

/// Takes a key press: the state of the client moves as [`key_step`] says,
/// and the outcome tells whether the client ends and what to send to the
/// session.
pub fn handle_key_event(state: &mut GameState, key: Key) -> (outcome: KeyOutcome)
    requires
        old(state).wf(),
    ensures
        final(state).wf(),
        matches_effect(final(state)@, outcome, key_step(old(state)@, key)),
{
    match state.phase {
        GamePhase::Placing => placing_key(state, key),
        GamePhase::YourTurn => your_turn_key(state, key),
        GamePhase::GameOver => game_over_key(state, key),
        GamePhase::PlayAgainPrompt => prompt_key(state, key),
        GamePhase::LastStand => last_stand_key(state, key),
        GamePhase::WaitingForOpponent => waiting_key(state, key),
        GamePhase::OpponentTurn => waiting_key(state, key),
    }
}

} // verus!
