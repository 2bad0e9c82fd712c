//! The session as mathematics: its state, the notices it sends, and for each
//! event the next state and the notices that go out. The executable session
//! is proved to follow these functions step by step.

use crate::board::{all_sunk, is_board, sunk_at, with_cell};
use crate::cards::{
    after_shot, after_strike, card_position, first_repairable, is_target, radar_sweep,
    restorable_at, restored_at, shot_hits, without_card, MAX_HAND_SIZE,
};
use crate::text::{pair_text, strike_text};
use crate::types::{CellState, MessageView, PowerUp, GRID_SIZE};
use vstd::prelude::*;

verus! {

/// How long a player has to answer a last-stand challenge, in milliseconds.
pub const LAST_STAND_WINDOW_MS: u64 = 10_000;

/// How long both players have to say whether they play again, in
/// milliseconds.
pub const PLAY_AGAIN_WINDOW_MS: u64 = 30_000;

/// The negotiation that follows a finished game.
#[derive(Debug, Clone, Copy, PartialEq, Eq, Structural)]
pub enum PlayAgainState {
    /// No negotiation is open.
    Idle,
    /// Both players were asked; each answer is kept as it comes in.
    WaitingForResponses { p1_response: Option<bool>, p2_response: Option<bool>, timeout_start: u64 },
    /// The window closed before both had answered.
    Timeout,
    /// Both players want another game.
    BothAgreed,
    /// A player said no.
    OneDeclined,
}

/// Where a session stands.
#[derive(Debug, Clone, Copy, PartialEq, Eq, Structural)]
pub enum SessionPhase {
    /// At least one player has still to place a fleet.
    AwaitingPlacement,
    /// The players take turns.
    InProgress,
    /// The fleet of `loser` is gone and the player was challenged at
    /// `opened_at`; if the challenge is met, play goes on with
    /// `resume_turn` to move.
    PendingLastStand { loser: usize, resume_turn: usize, opened_at: u64 },
    /// The game is over and the players are asked whether they play again.
    AwaitingPlayAgain,
    /// The session has ended.
    Closed,
}

/// What the attacker is told when a shield turns a hit into a miss.
#[derive(Debug, Clone, Copy, PartialEq, Eq, Structural)]
pub enum ShieldPolicy {
    /// The attacker gets the result of a miss.
    ReportMiss,
    /// The attacker gets no result at all.
    Silent,
}

/// What an event leaves to chance, already decided. Each field is read only
/// by the event that needs it.
#[derive(Debug, Clone, Copy)]
pub struct Chance {
    /// Whether an active shield turns this hit into a miss.
    pub shield_blocks: bool,
    /// The card that a hit draws.
    pub drawn: PowerUp,
    /// The cell at which a last stand tries to put the rescue ship.
    pub anchor: Option<(usize, usize)>,
    /// The cell on which the first missile comes down.
    pub first_strike: Option<(usize, usize)>,
    /// The cell on which the second missile comes down.
    pub second_strike: Option<(usize, usize)>,
}

/// One player as the session knows it.
pub struct PlayerView {
    pub grid: Option<Seq<Seq<CellState>>>,
    pub ready: bool,
    pub last_stand_used: bool,
    pub hand: Seq<PowerUp>,
    pub shield_active: bool,
}

/// The state of a session.
pub struct SessionView {
    pub p1: PlayerView,
    pub p2: PlayerView,
    pub current_turn: usize,
    pub play_again_state: PlayAgainState,
    pub phase: SessionPhase,
    pub shield_policy: ShieldPolicy,
}

/// A message on its way to player `to`.
pub struct OutgoingView {
    pub to: usize,
    pub message: MessageView,
}

/// The other player.
pub open spec fn opponent(i: usize) -> usize {
    if i == 0 {
        1
    } else {
        0
    }
}

/// The time from `since` to `now`; none if the clock reads earlier than
/// `since`.
pub open spec fn elapsed(since: u64, now: u64) -> int {
    if now >= since {
        now - since
    } else {
        0
    }
}

/// The message `message` on its way to player `to`.
pub open spec fn notice(to: usize, message: MessageView) -> OutgoingView {
    OutgoingView { to, message }
}

/// Both players are told whose turn it is, the first player first.
pub open spec fn turn_notices(turn: usize) -> Seq<OutgoingView> {
    seq![
        notice(
            0,
            if turn == 0 {
                MessageView::YourTurn
            } else {
                MessageView::OpponentTurn
            },
        ),
        notice(
            1,
            if turn == 1 {
                MessageView::YourTurn
            } else {
                MessageView::OpponentTurn
            },
        ),
    ]
}

/// Both players are told who won, then asked whether they play again.
pub open spec fn game_over_notices(loser: usize) -> Seq<OutgoingView> {
    seq![
        notice(0, MessageView::GameOver { won: loser != 0 }),
        notice(1, MessageView::GameOver { won: loser != 1 }),
        notice(0, MessageView::PlayAgainRequest),
        notice(1, MessageView::PlayAgainRequest),
    ]
}

/// The effect notice that a card sends to its user.
pub open spec fn effect(to: usize, effect_type: Seq<char>, data: Seq<char>) -> OutgoingView {
    notice(to, MessageView::CardEffect { effect_type, data })
}

/// What a shot sends: the result to the attacker unless it is kept silent,
/// the shot itself to the target, and the card drawn, if any, to the
/// attacker.
pub open spec fn attack_notices(
    from: usize,
    x: usize,
    y: usize,
    hit: bool,
    sunk: bool,
    silent: bool,
    drawn: Option<PowerUp>,
) -> Seq<OutgoingView> {
    (if silent {
        Seq::empty()
    } else {
        seq![notice(from, MessageView::AttackResult { x, y, hit, sunk })]
    }) + seq![notice(opponent(from), MessageView::Attack { x, y })] + (match drawn {
        Some(card) => seq![notice(from, MessageView::CardDrawn { card })],
        None => Seq::empty(),
    })
}

impl PlayAgainState {
    /// The answer of a player, if the negotiation is open and has it.
    pub open spec fn response_of(self, peer: usize) -> Option<bool> {
        match self {
            PlayAgainState::WaitingForResponses { p1_response, p2_response, .. } => if peer == 0 {
                p1_response
            } else {
                p2_response
            },
            _ => None,
        }
    }

    /// An open negotiation is settled as soon as an answer is no, or both
    /// are yes.
    pub open spec fn settled(self) -> PlayAgainState {
        match self {
            PlayAgainState::WaitingForResponses { p1_response, p2_response, .. } => if p1_response
                == Some(false) || p2_response == Some(false) {
                PlayAgainState::OneDeclined
            } else if p1_response == Some(true) && p2_response == Some(true) {
                PlayAgainState::BothAgreed
            } else {
                self
            },
            _ => self,
        }
    }

    /// The negotiation after `peer` answered. Only the first answer of each
    /// player counts, and only while the negotiation is open.
    pub open spec fn after_response(self, peer: usize, wants_to_play: bool) -> PlayAgainState {
        match self {
            PlayAgainState::WaitingForResponses { p1_response, p2_response, timeout_start } => {
                if peer == 0 && p1_response is None {
                    PlayAgainState::WaitingForResponses {
                        p1_response: Some(wants_to_play),
                        p2_response,
                        timeout_start,
                    }.settled()
                } else if peer == 1 && p2_response is None {
                    PlayAgainState::WaitingForResponses {
                        p1_response,
                        p2_response: Some(wants_to_play),
                        timeout_start,
                    }.settled()
                } else {
                    self
                }
            },
            _ => self,
        }
    }

    /// The negotiation at time `now`: an open one times out once more than
    /// the window has passed since it opened.
    pub open spec fn at_time(self, now: u64) -> PlayAgainState {
        match self {
            PlayAgainState::WaitingForResponses { timeout_start, .. } => if elapsed(
                timeout_start,
                now,
            ) > PLAY_AGAIN_WINDOW_MS {
                PlayAgainState::Timeout
            } else {
                self
            },
            _ => self,
        }
    }
}

impl PlayerView {
    /// A player who has just joined.
    pub open spec fn fresh() -> PlayerView {
        PlayerView {
            grid: None,
            ready: false,
            last_stand_used: false,
            hand: Seq::empty(),
            shield_active: false,
        }
    }

    /// A player is ready exactly when its grid is there; the grid is a
    /// board; the hand holds five cards at most.
    pub open spec fn inv(self) -> bool {
        &&& self.ready <==> self.grid is Some
        &&& self.grid matches Some(b) ==> is_board(b)
        &&& self.hand.len() <= MAX_HAND_SIZE
    }
}

impl SessionView {
    /// Player `i`; any index but 0 names the second player.
    pub open spec fn player(self, i: usize) -> PlayerView {
        if i == 0 {
            self.p1
        } else {
            self.p2
        }
    }

    /// The session with player `i` replaced by `p`.
    pub open spec fn with_player(self, i: usize, p: PlayerView) -> SessionView {
        if i == 0 {
            SessionView { p1: p, ..self }
        } else {
            SessionView { p2: p, ..self }
        }
    }

    /// What holds of every session that started fresh.
    pub open spec fn inv(self) -> bool {
        &&& self.p1.inv()
        &&& self.p2.inv()
        &&& self.current_turn <= 1
        &&& self.phase is AwaitingPlacement ==> self.current_turn == 0 && !(self.p1.ready
            && self.p2.ready)
        &&& self.phase is InProgress ==> self.p1.ready && self.p2.ready
        &&& self.phase matches SessionPhase::PendingLastStand { loser, resume_turn, .. } ==> {
            &&& loser <= 1
            &&& resume_turn <= 1
            &&& self.p1.ready && self.p2.ready
            &&& self.player(loser).last_stand_used
        }
        &&& self.phase is AwaitingPlayAgain ==> self.play_again_state is WaitingForResponses
        &&& self.play_again_state is WaitingForResponses ==> self.play_again_state.settled()
            == self.play_again_state
    }
}

/// A session between two players who have just joined.
pub open spec fn initial(shield_policy: ShieldPolicy) -> SessionView {
    SessionView {
        p1: PlayerView::fresh(),
        p2: PlayerView::fresh(),
        current_turn: 0,
        play_again_state: PlayAgainState::Idle,
        phase: SessionPhase::AwaitingPlacement,
        shield_policy,
    }
}

/// The session made ready for another game: grids, readiness, turn, hands,
/// shields and last-stand flags as at the start.
pub open spec fn reset(s: SessionView) -> SessionView {
    initial(s.shield_policy)
}

/// The game is over: both are told, both are asked to play again, and the
/// window for their answers opens.
pub open spec fn game_over(s: SessionView, loser: usize, now: u64) -> (
    SessionView,
    Seq<OutgoingView>,
) {
    (
        SessionView {
            phase: SessionPhase::AwaitingPlayAgain,
            play_again_state: PlayAgainState::WaitingForResponses {
                p1_response: None,
                p2_response: None,
                timeout_start: now,
            },
            ..s
        },
        game_over_notices(loser),
    )
}

/// The fleet of `loser` is gone. A player who has not had a last stand in
/// this life is challenged; otherwise the game is over.
pub open spec fn defeat(s: SessionView, loser: usize, resume_turn: usize, now: u64) -> (
    SessionView,
    Seq<OutgoingView>,
) {
    if s.player(loser).last_stand_used {
        game_over(s, loser, now)
    } else {
        (
            SessionView {
                phase: SessionPhase::PendingLastStand { loser, resume_turn, opened_at: now },
                ..s.with_player(
                    loser,
                    PlayerView { last_stand_used: true, ..s.player(loser) },
                )
            },
            seq![notice(loser, MessageView::LastStandTrigger)],
        )
    }
}

/// A fleet is taken when it is a board. A player who is ready already is
/// not heard again.
pub open spec fn placement_accepted(s: SessionView, from: usize, grid: Seq<Seq<CellState>>) -> bool {
    &&& s.phase is AwaitingPlacement
    &&& from <= 1
    &&& !s.player(from).ready
    &&& is_board(grid)
}

/// A fleet that is taken makes its player ready. If the other player is
/// ready too the game starts, with the first player to move; otherwise the
/// player is told to wait.
pub open spec fn place_ships(s: SessionView, from: usize, grid: Seq<Seq<CellState>>) -> (
    SessionView,
    Seq<OutgoingView>,
) {
    if !placement_accepted(s, from, grid) {
        (s, Seq::empty())
    } else {
        let placed = s.with_player(
            from,
            PlayerView { grid: Some(grid), ready: true, ..s.player(from) },
        );
        if s.player(opponent(from)).ready {
            (
                SessionView { phase: SessionPhase::InProgress, current_turn: 0, ..placed },
                seq![
                    notice(0, MessageView::GameStart),
                    notice(1, MessageView::GameStart),
                    notice(0, MessageView::YourTurn),
                    notice(1, MessageView::OpponentTurn),
                ],
            )
        } else {
            (placed, seq![notice(from, MessageView::WaitingForOpponent)])
        }
    }
}

/// A shot is taken from the player on turn, in a game in progress, at a cell
/// of the board.
pub open spec fn attack_accepted(s: SessionView, from: usize, x: usize, y: usize) -> bool {
    &&& s.phase is InProgress
    &&& from <= 1
    &&& from == s.current_turn
    &&& s.p1.ready
    &&& s.p2.ready
    &&& s.player(opponent(from)).grid is Some
    &&& x < GRID_SIZE
    &&& y < GRID_SIZE
}

/// A shot meets a shield when the target's shield is up and the coin falls
/// that way.
pub open spec fn shielded(target: PlayerView, chance: Chance) -> bool {
    target.shield_active && chance.shield_blocks
}

/// A shot is resolved against the grid of the other player, who sees it
/// mirrored; the attacker gets the result, unless a shield blocked the shot
/// and the policy is silence, and draws a card on a hit if the hand has room.
/// The shield of the target is down afterwards. If the fleet is gone the
/// target is defeated; otherwise the turn passes to the target.
pub open spec fn attack(
    s: SessionView,
    from: usize,
    x: usize,
    y: usize,
    now: u64,
    chance: Chance,
) -> (SessionView, Seq<OutgoingView>) {
    if !attack_accepted(s, from, x, y) {
        (s, Seq::empty())
    } else {
        let target = opponent(from);
        let b = s.player(target).grid->Some_0;
        let shield = shielded(s.player(target), chance);
        let blocked = b[y as int][x as int] == CellState::Ship && shield;
        let hit = shot_hits(b, x as int, y as int, shield);
        let b1 = after_shot(b, x as int, y as int, shield);
        let sunk = hit && sunk_at(b1, x as int, y as int);
        let draws = hit && s.player(from).hand.len() < MAX_HAND_SIZE;
        let s1 = s.with_player(
            target,
            PlayerView { grid: Some(b1), shield_active: false, ..s.player(target) },
        );
        let s2 = if draws {
            s1.with_player(
                from,
                PlayerView { hand: s1.player(from).hand.push(chance.drawn), ..s1.player(from) },
            )
        } else {
            s1
        };
        let reports = attack_notices(
            from,
            x,
            y,
            hit,
            sunk,
            blocked && s.shield_policy == ShieldPolicy::Silent,
            if draws {
                Some(chance.drawn)
            } else {
                None
            },
        );
        if all_sunk(b1) {
            let end = defeat(s2, target, target, now);
            (end.0, reports + end.1)
        } else {
            (SessionView { current_turn: target, ..s2 }, reports + turn_notices(target))
        }
    }
}

/// An answer to a last-stand challenge counts when it comes from the player
/// who was challenged.
pub open spec fn last_stand_accepted(s: SessionView, from: usize) -> bool {
    &&& s.phase is PendingLastStand
    &&& s.phase->loser == from
    &&& from <= 1
}

/// A last stand is won when the player succeeded and the rescue ship fits at
/// the cell that chance picked.
pub open spec fn last_stand_won(s: SessionView, from: usize, success: bool, chance: Chance) -> bool {
    &&& success
    &&& s.player(from).grid is Some
    &&& chance.anchor matches Some(a) && restorable_at(
        s.player(from).grid->Some_0,
        a.0 as int,
        a.1 as int,
    )
}

/// The answer to a last-stand challenge: a stand that is won puts the rescue
/// ship on the grid and play goes on with the turn that was kept for it; any
/// other answer of the challenged player ends the game.
pub open spec fn last_stand(
    s: SessionView,
    from: usize,
    success: bool,
    now: u64,
    chance: Chance,
) -> (SessionView, Seq<OutgoingView>) {
    if !last_stand_accepted(s, from) {
        (s, Seq::empty())
    } else if last_stand_won(s, from, success, chance) {
        let a = chance.anchor->Some_0;
        let b = s.player(from).grid->Some_0;
        (
            SessionView {
                phase: SessionPhase::InProgress,
                current_turn: s.phase->resume_turn,
                ..s.with_player(
                    from,
                    PlayerView {
                        grid: Some(restored_at(b, a.0 as int, a.1 as int)),
                        ..s.player(from)
                    },
                )
            },
            turn_notices(s.phase->resume_turn),
        )
    } else {
        game_over(s, from, now)
    }
}

/// The passing of time: a last stand that was not answered within its window
/// is lost, and a negotiation that is still open after its window ends the
/// session.
pub open spec fn tick(s: SessionView, now: u64) -> (SessionView, Seq<OutgoingView>) {
    if s.phase is PendingLastStand && elapsed(s.phase->opened_at, now) >= LAST_STAND_WINDOW_MS {
        game_over(s, s.phase->loser, now)
    } else if s.phase is AwaitingPlayAgain && s.play_again_state.at_time(now) is Timeout {
        (
            SessionView {
                phase: SessionPhase::Closed,
                play_again_state: PlayAgainState::Timeout,
                ..s
            },
            Seq::empty(),
        )
    } else {
        (s, Seq::empty())
    }
}

/// An answer to the play-again question: two yeses reset the session and
/// announce the new game, one no closes the session, and a first yes is
/// kept.
pub open spec fn play_again(s: SessionView, from: usize, wants_to_play: bool) -> (
    SessionView,
    Seq<OutgoingView>,
) {
    if !(s.phase is AwaitingPlayAgain && from <= 1) {
        (s, Seq::empty())
    } else {
        let next = s.play_again_state.after_response(from, wants_to_play);
        if next is BothAgreed {
            (
                reset(s),
                seq![notice(0, MessageView::NewGameStart), notice(1, MessageView::NewGameStart)],
            )
        } else if next is OneDeclined {
            (
                SessionView {
                    phase: SessionPhase::Closed,
                    play_again_state: PlayAgainState::OneDeclined,
                    ..s
                },
                Seq::empty(),
            )
        } else {
            (SessionView { play_again_state: next, ..s }, Seq::empty())
        }
    }
}

/// A player leaves: the other is told and the session ends.
pub open spec fn quit(s: SessionView, from: usize) -> (SessionView, Seq<OutgoingView>) {
    if s.phase is Closed || from > 1 {
        (s, Seq::empty())
    } else {
        (
            SessionView { phase: SessionPhase::Closed, ..s },
            seq![notice(opponent(from), MessageView::OpponentQuit)],
        )
    }
}

/// A connection is lost: the session ends and nobody is told.
pub open spec fn disconnect(s: SessionView) -> SessionView {
    SessionView { phase: SessionPhase::Closed, ..s }
}

/// A card is played in a game in progress by a player who holds it.
pub open spec fn card_accepted(s: SessionView, from: usize, card: PowerUp) -> bool {
    &&& s.phase is InProgress
    &&& from <= 1
    &&& s.p1.grid is Some
    &&& s.p2.grid is Some
    &&& card_position(s.player(from).hand, card, 0) < s.player(from).hand.len()
}

/// One notice for each cell that the radar shows.
pub open spec fn radar_notices(to: usize, cells: Seq<(usize, usize)>) -> Seq<OutgoingView> {
    Seq::new(
        cells.len(),
        |k: int| effect(to, "radar_reveal"@, pair_text(cells[k].0 as int, cells[k].1 as int)),
    )
}

/// The board after a missile, if one was sent.
pub open spec fn after_missile(b: Seq<Seq<CellState>>, at: Option<(usize, usize)>) -> Seq<
    Seq<CellState>,
> {
    match at {
        Some(p) => after_strike(b, p.0 as int, p.1 as int),
        None => b,
    }
}

/// The notice of a missile, if one was sent and came down on a cell that
/// could still be struck.
pub open spec fn missile_notices(to: usize, b: Seq<Seq<CellState>>, at: Option<(usize, usize)>) -> Seq<
    OutgoingView,
> {
    match at {
        Some(p) => if is_target(b, p.0 as int, p.1 as int) {
            seq![
                effect(
                    to,
                    "missile_strike"@,
                    strike_text(
                        p.0 as int,
                        p.1 as int,
                        b[p.1 as int][p.0 as int] == CellState::Ship,
                    ),
                ),
            ]
        } else {
            Seq::empty()
        },
        None => Seq::empty(),
    }
}

/// A shield goes up over the fleet of its user until the next shot at it is
/// resolved.
pub open spec fn use_shield(s: SessionView, from: usize) -> (SessionView, Seq<OutgoingView>) {
    (
        s.with_player(
            from,
            PlayerView {
                shield_active: true,
                hand: without_card(s.player(from).hand, PowerUp::Shield),
                ..s.player(from)
            },
        ),
        seq![effect(from, "shield_activated"@, ""@)],
    )
}

/// A radar shows its user up to two undamaged ship cells of the opponent.
pub open spec fn use_radar(s: SessionView, from: usize) -> (SessionView, Seq<OutgoingView>) {
    (
        s.with_player(
            from,
            PlayerView { hand: without_card(s.player(from).hand, PowerUp::Radar), ..s.player(from) },
        ),
        radar_notices(from, radar_sweep(s.player(opponent(from)).grid->Some_0)),
    )
}

/// A repair without a ship to repair is refused: the card stays in the hand
/// and nothing is sent.
pub open spec fn use_repair(s: SessionView, from: usize) -> (SessionView, Seq<OutgoingView>) {
    let b = s.player(from).grid->Some_0;
    match first_repairable(b) {
        None => (s, Seq::empty()),
        Some(p) => (
            s.with_player(
                from,
                PlayerView {
                    grid: Some(with_cell(b, p.0 as int, p.1 as int, CellState::Ship)),
                    hand: without_card(s.player(from).hand, PowerUp::Repair),
                    ..s.player(from)
                },
            ),
            seq![effect(from, "repair"@, ""@)],
        ),
    }
}

/// Two missiles come down on the opponent's grid whoever is on turn; the
/// user sees each strike and then the whole grid. If that sinks the fleet,
/// the opponent is defeated, and a last stand that is then won leaves the
/// turn where it was.
pub open spec fn use_missile(s: SessionView, from: usize, now: u64, chance: Chance) -> (
    SessionView,
    Seq<OutgoingView>,
) {
    let target = opponent(from);
    let b = s.player(target).grid->Some_0;
    let b1 = after_missile(b, chance.first_strike);
    let b2 = after_missile(b1, chance.second_strike);
    let s1 = s.with_player(
        from,
        PlayerView {
            hand: without_card(s.player(from).hand, PowerUp::MissileStrike),
            ..s.player(from)
        },
    );
    let s2 = s1.with_player(target, PlayerView { grid: Some(b2), ..s1.player(target) });
    let reports = missile_notices(from, b, chance.first_strike) + missile_notices(
        from,
        b1,
        chance.second_strike,
    ) + seq![notice(from, MessageView::GridUpdate { grid: b2 })];
    if all_sunk(b2) {
        let end = defeat(s2, target, s.current_turn, now);
        (end.0, reports + end.1)
    } else {
        (s2, reports)
    }
}

/// A card that is played leaves the hand, the first of its kind, and takes
/// effect; a card that is not accepted changes nothing.
pub open spec fn use_card(s: SessionView, from: usize, card: PowerUp, now: u64, chance: Chance) -> (
    SessionView,
    Seq<OutgoingView>,
) {
    if !card_accepted(s, from, card) {
        (s, Seq::empty())
    } else {
        match card {
            PowerUp::Shield => use_shield(s, from),
            PowerUp::Radar => use_radar(s, from),
            PowerUp::Repair => use_repair(s, from),
            PowerUp::MissileStrike => use_missile(s, from, now, chance),
        }
    }
}

/// The session after a message from player `from`, and the notices that go
/// out. A closed session hears nothing; a message that does not fit the
/// state of the session changes nothing and is not answered.
pub open spec fn step(s: SessionView, from: usize, message: MessageView, now: u64, chance: Chance) -> (
    SessionView,
    Seq<OutgoingView>,
) {
    if s.phase is Closed || from > 1 {
        (s, Seq::empty())
    } else {
        match message {
            MessageView::PlaceShips(grid) => place_ships(s, from, grid),
            MessageView::Attack { x, y } => attack(s, from, x, y, now, chance),
            MessageView::LastStandResult { success } => last_stand(s, from, success, now, chance),
            MessageView::PlayAgainResponse { wants_to_play } => play_again(s, from, wants_to_play),
            MessageView::CardUsed { card, .. } => use_card(s, from, card, now, chance),
            MessageView::Quit => quit(s, from),
            _ => (s, Seq::empty()),
        }
    }
}

/// The rescue ship fits somewhere on the board.
pub open spec fn has_room(b: Seq<Seq<CellState>>) -> bool {
    exists|x: int, y: int| restorable_at(b, x, y)
}

/// Some cell of the board can still be struck by a missile.
pub open spec fn has_target(b: Seq<Seq<CellState>>) -> bool {
    exists|x: int, y: int| is_target(b, x, y)
}

/// A missile is aimed well when it goes to a cell that can still be struck,
/// if the board has one.
pub open spec fn well_aimed(b: Seq<Seq<CellState>>, at: Option<(usize, usize)>) -> bool {
    has_target(b) ==> at is Some && is_target(b, at->Some_0.0 as int, at->Some_0.1 as int)
}

/// What chance decided suits the event: a last stand that was won gets a
/// cell where the rescue ship fits whenever there is one, and a missile
/// strike gets a cell that can still be struck for each missile for which
/// one is left.
pub open spec fn fits(s: SessionView, from: usize, message: MessageView, chance: Chance) -> bool {
    match message {
        MessageView::LastStandResult { success } => {
            let grid = s.player(from).grid;
            last_stand_accepted(s, from) && success && grid is Some && has_room(grid->Some_0)
                ==> last_stand_won(s, from, success, chance)
        },
        MessageView::CardUsed { card, .. } => {
            let b = s.player(opponent(from)).grid->Some_0;
            card == PowerUp::MissileStrike && card_accepted(s, from, card) ==> well_aimed(
                b,
                chance.first_strike,
            ) && well_aimed(after_missile(b, chance.first_strike), chance.second_strike)
        },
        _ => true,
    }
}

} // verus!
