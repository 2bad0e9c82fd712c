//! The authoritative session between two players: it owns both grids, both
//! hands and the turn, hears one message at a time, and answers with the
//! notices to send. Every step is proved to be the step of the model.

use crate::board::{all_ships_sunk, copy_grid, is_board, is_well_formed, well_formed};
use crate::cards::{
    after_shot, find_card, radar_positions, random_anchor, random_targets, repair_first,
    restore_ship_at, shoot, strike_cell, MAX_HAND_SIZE,
};
use crate::chance::{coin_flip, random_card};
use crate::laws::lemma_step_keeps_invariant;
use crate::model::{
    after_missile, attack, attack_notices, defeat, disconnect, effect, fits, game_over, initial,
    last_stand, missile_notices, notice, opponent, place_ships, play_again, quit, radar_notices,
    step, tick, turn_notices, use_card, use_missile, use_radar, use_repair, use_shield, Chance,
    OutgoingView, PlayAgainState, PlayerView, SessionPhase, SessionView, ShieldPolicy,
    LAST_STAND_WINDOW_MS, PLAY_AGAIN_WINDOW_MS,
};
use crate::text::{pair_string, strike_string};
use crate::types::{cells, CellState, Message, PowerUp, GRID_SIZE};
use vstd::prelude::*;
use vstd::string::StringExecFns;

verus! {

/// One player as the session keeps it: the grid once the fleet is placed,
/// the hand of cards, and the flags of the current life.
pub struct PlayerConnection {
    grid: Option<Vec<Vec<CellState>>>,
    ready: bool,
    last_stand_used: bool,
    hand: Vec<PowerUp>,
    shield_active: bool,
}

/// The session of two players.
pub struct Session {
    p1: PlayerConnection,
    p2: PlayerConnection,
    current_turn: usize,
    play_again_state: PlayAgainState,
    phase: SessionPhase,
    shield_policy: ShieldPolicy,
}

/// A message to send to player `to`.
#[derive(Debug, Clone, PartialEq)]
pub struct Outgoing {
    pub to: usize,
    pub message: Message,
}

impl View for PlayerConnection {
    type V = PlayerView;

    closed spec fn view(&self) -> PlayerView {
        PlayerView {
            grid: match self.grid {
                Some(grid) => Some(cells(grid@)),
                None => None,
            },
            ready: self.ready,
            last_stand_used: self.last_stand_used,
            hand: self.hand@,
            shield_active: self.shield_active,
        }
    }
}

impl View for Session {
    type V = SessionView;

    closed spec fn view(&self) -> SessionView {
        SessionView {
            p1: self.p1@,
            p2: self.p2@,
            current_turn: self.current_turn,
            play_again_state: self.play_again_state,
            phase: self.phase,
            shield_policy: self.shield_policy,
        }
    }
}

impl View for Outgoing {
    type V = OutgoingView;

    open spec fn view(&self) -> OutgoingView {
        OutgoingView { to: self.to, message: self.message@ }
    }
}

/// The notices that a list of outgoing messages stands for.
pub open spec fn views(out: Seq<Outgoing>) -> Seq<OutgoingView> {
    Seq::new(out.len(), |k: int| out[k]@)
}

/// A grid whose cells make a board is well formed, and the other way round.
proof fn lemma_board_of_grid(grid: Seq<Vec<CellState>>)
    ensures
        is_board(cells(grid)) <==> well_formed(grid),
{
    if is_board(cells(grid)) {
        assert forall|y: int| 0 <= y < GRID_SIZE implies (#[trigger] grid[y]).len()
            == GRID_SIZE by {
            assert(cells(grid)[y].len() == GRID_SIZE);
        }
    }
    if well_formed(grid) {
        assert forall|y: int| 0 <= y < GRID_SIZE implies (#[trigger] cells(grid)[y]).len()
            == GRID_SIZE by {
            assert(grid[y].len() == GRID_SIZE);
        }
    }
}

fn send(out: &mut Vec<Outgoing>, to: usize, message: Message)
    ensures
        views(final(out)@) == views(old(out)@).push(notice(to, message@)),
{
    out.push(Outgoing { to, message });
    assert(views(out@) =~= views(old(out)@).push(notice(to, message@)));
}

fn send_all(out: &mut Vec<Outgoing>, more: Vec<Outgoing>)
    ensures
        views(final(out)@) == views(old(out)@) + views(more@),
{
    let mut more = more;
    let ghost tail = more@;
    out.append(&mut more);
    assert(views(out@) =~= views(old(out)@) + views(tail));
}

fn send_turns(out: &mut Vec<Outgoing>, turn: usize)
    ensures
        views(final(out)@) == views(old(out)@) + turn_notices(turn),
{
    if turn == 0 {
        send(out, 0, Message::YourTurn);
    } else {
        send(out, 0, Message::OpponentTurn);
    }
    if turn == 1 {
        send(out, 1, Message::YourTurn);
    } else {
        send(out, 1, Message::OpponentTurn);
    }
    assert(views(out@) =~= views(old(out)@) + turn_notices(turn));
}

fn send_effect(out: &mut Vec<Outgoing>, to: usize, effect_type: &'static str, data: String)
    ensures
        views(final(out)@) == views(old(out)@).push(effect(to, effect_type@, data@)),
{
    send(out, to, Message::CardEffect { effect_type: String::from_str(effect_type), data });
}

impl PlayAgainState {
    /// Keeps the answer of `peer`, unless the player has answered before or
    /// no negotiation is open, and settles the negotiation if it can be.
    pub fn respond(self, peer: usize, wants_to_play: bool) -> (next: PlayAgainState)
        ensures
            next == self.after_response(peer, wants_to_play),
    {
        match self {
            PlayAgainState::WaitingForResponses { p1_response, p2_response, timeout_start } => {
                if peer == 0 && p1_response.is_none() {
                    PlayAgainState::WaitingForResponses {
                        p1_response: Some(wants_to_play),
                        p2_response,
                        timeout_start,
                    }.settle()
                } else if peer == 1 && p2_response.is_none() {
                    PlayAgainState::WaitingForResponses {
                        p1_response,
                        p2_response: Some(wants_to_play),
                        timeout_start,
                    }.settle()
                } else {
                    self
                }
            },
            _ => self,
        }
    }

    /// Settles an open negotiation: a no from either player declines, a yes
    /// from both agrees, and anything less leaves it open.
    pub fn settle(self) -> (next: PlayAgainState)
        ensures
            next == self.settled(),
    {
        match self {
            PlayAgainState::WaitingForResponses { p1_response, p2_response, .. } => {
                let declined = match p1_response {
                    Some(wants) => !wants,
                    None => false,
                } || match p2_response {
                    Some(wants) => !wants,
                    None => false,
                };
                let agreed = match (p1_response, p2_response) {
                    (Some(first), Some(second)) => first && second,
                    _ => false,
                };
                if declined {
                    PlayAgainState::OneDeclined
                } else if agreed {
                    PlayAgainState::BothAgreed
                } else {
                    self
                }
            },
            _ => self,
        }
    }

    /// Times an open negotiation out once more than the window has passed
    /// since it opened.
    pub fn check_timeout(self, now: u64) -> (next: PlayAgainState)
        ensures
            next == self.at_time(now),
    {
        match self {
            PlayAgainState::WaitingForResponses { timeout_start, .. } => {
                if now >= timeout_start && now - timeout_start > PLAY_AGAIN_WINDOW_MS {
                    PlayAgainState::Timeout
                } else {
                    self
                }
            },
            _ => self,
        }
    }
}

impl PlayerConnection {
    fn new() -> (p: PlayerConnection)
        ensures
            p@ == PlayerView::fresh(),
    {
        PlayerConnection {
            grid: None,
            ready: false,
            last_stand_used: false,
            hand: Vec::new(),
            shield_active: false,
        }
    }

    /// The grid of the player, once the fleet is placed.
    pub fn grid(&self) -> (grid: Option<&Vec<Vec<CellState>>>)
        ensures
            grid is Some == self@.grid is Some,
            grid matches Some(g) ==> self@.grid == Some(cells(g@)),
    {
        self.grid.as_ref()
    }

    /// Whether the player has placed a fleet.
    pub fn is_ready(&self) -> (ready: bool)
        ensures
            ready == self@.ready,
    {
        self.ready
    }

    /// Whether the player has had a last stand in this life.
    pub fn last_stand_used(&self) -> (used: bool)
        ensures
            used == self@.last_stand_used,
    {
        self.last_stand_used
    }

    /// The cards the player holds.
    pub fn hand(&self) -> (hand: &Vec<PowerUp>)
        ensures
            hand@ == self@.hand,
    {
        &self.hand
    }

    /// Whether the player's shield is up.
    pub fn shield_active(&self) -> (active: bool)
        ensures
            active == self@.shield_active,
    {
        self.shield_active
    }
}

fn other(i: usize) -> (o: usize)
    ensures
        o == opponent(i),
{
    if i == 0 {
        1
    } else {
        0
    }
}

impl Session {
    /// A session between two players who have just joined.
    pub fn new(shield_policy: ShieldPolicy) -> (session: Session)
        ensures
            session@ == initial(shield_policy),
            session@.inv(),
    {
        Session {
            p1: PlayerConnection::new(),
            p2: PlayerConnection::new(),
            current_turn: 0,
            play_again_state: PlayAgainState::Idle,
            phase: SessionPhase::AwaitingPlacement,
            shield_policy,
        }
    }

    /// Where the session stands.
    pub fn phase(&self) -> (phase: SessionPhase)
        ensures
            phase == self@.phase,
    {
        self.phase
    }

    /// The player to move: 0 or 1.
    pub fn current_turn(&self) -> (turn: usize)
        ensures
            turn == self@.current_turn,
    {
        self.current_turn
    }

    /// The play-again negotiation.
    pub fn play_again_state(&self) -> (state: PlayAgainState)
        ensures
            state == self@.play_again_state,
    {
        self.play_again_state
    }

    /// What an attacker is told when a shield blocks a shot.
    pub fn shield_policy(&self) -> (policy: ShieldPolicy)
        ensures
            policy == self@.shield_policy,
    {
        self.shield_policy
    }

    /// Whether the session has ended.
    pub fn is_closed(&self) -> (closed: bool)
        ensures
            closed == (self@.phase is Closed),
    {
        match self.phase {
            SessionPhase::Closed => true,
            _ => false,
        }
    }

    /// Player `i`; any index but 0 names the second player.
    pub fn player(&self, i: usize) -> (p: &PlayerConnection)
        ensures
            p@ == self@.player(i),
    {
        if i == 0 {
            &self.p1
        } else {
            &self.p2
        }
    }

    fn player_mut(&mut self, i: usize) -> (p: &mut PlayerConnection)
        ensures
            *p == (if i == 0 {
                old(self).p1
            } else {
                old(self).p2
            }),
            p@ == old(self)@.player(i),
            final(self)@ == old(self)@.with_player(i, final(p)@),
    {
        if i == 0 {
            &mut self.p1
        } else {
            &mut self.p2
        }
    }

    /// The game is over: both players are told and asked to play again.
    fn end_game(&mut self, loser: usize, now: u64) -> (out: Vec<Outgoing>)
        ensures
            (final(self)@, views(out@)) == game_over(old(self)@, loser, now),
    {
        let mut out: Vec<Outgoing> = Vec::new();
        self.phase = SessionPhase::AwaitingPlayAgain;
        self.play_again_state = PlayAgainState::WaitingForResponses {
            p1_response: None,
            p2_response: None,
            timeout_start: now,
        };
        send(&mut out, 0, Message::GameOver { won: loser != 0 });
        send(&mut out, 1, Message::GameOver { won: loser != 1 });
        send(&mut out, 0, Message::PlayAgainRequest);
        send(&mut out, 1, Message::PlayAgainRequest);
        assert(views(out@) =~= game_over(old(self)@, loser, now).1);
        out
    }

    /// The fleet of `loser` is gone: a last stand if the player has one left,
    /// the end of the game otherwise.
    fn defeated(&mut self, loser: usize, resume_turn: usize, now: u64) -> (out: Vec<Outgoing>)
        ensures
            (final(self)@, views(out@)) == defeat(old(self)@, loser, resume_turn, now),
    {
        if self.player(loser).last_stand_used {
            self.end_game(loser, now)
        } else {
            let mut out: Vec<Outgoing> = Vec::new();
            let p = self.player_mut(loser);
            p.last_stand_used = true;
            self.phase = SessionPhase::PendingLastStand { loser, resume_turn, opened_at: now };
            send(&mut out, loser, Message::LastStandTrigger);
            assert(views(out@) =~= defeat(old(self)@, loser, resume_turn, now).1);
            out
        }
    }

    fn on_place_ships(&mut self, from: usize, grid: Vec<Vec<CellState>>) -> (out: Vec<Outgoing>)
        requires
            from <= 1,
        ensures
            (final(self)@, views(out@)) == place_ships(old(self)@, from, cells(grid@)),
    {
        let mut out: Vec<Outgoing> = Vec::new();
        proof {
            lemma_board_of_grid(grid@);
        }
        let awaiting = match self.phase {
            SessionPhase::AwaitingPlacement => true,
            _ => false,
        };
        if !awaiting || self.player(from).ready || !is_well_formed(&grid) {
            assert(views(out@) =~= Seq::empty());
            return out;
        }
        let opponent_ready = self.player(other(from)).ready;
        let p = self.player_mut(from);
        p.grid = Some(grid);
        p.ready = true;
        if opponent_ready {
            self.phase = SessionPhase::InProgress;
            self.current_turn = 0;
            send(&mut out, 0, Message::GameStart);
            send(&mut out, 1, Message::GameStart);
            send(&mut out, 0, Message::YourTurn);
            send(&mut out, 1, Message::OpponentTurn);
        } else {
            send(&mut out, from, Message::WaitingForOpponent);
        }
        assert(views(out@) =~= place_ships(old(self)@, from, cells(grid@)).1);
        out
    }

    /// Sends what a shot sends.
    fn send_attack(
        out: &mut Vec<Outgoing>,
        from: usize,
        x: usize,
        y: usize,
        hit: bool,
        sunk: bool,
        silent: bool,
        drawn: Option<PowerUp>,
    )
        requires
            old(out)@.len() == 0,
        ensures
            views(final(out)@) == attack_notices(from, x, y, hit, sunk, silent, drawn),
    {
        if !silent {
            send(out, from, Message::AttackResult { x, y, hit, sunk });
        }
        send(out, other(from), Message::Attack { x, y });
        if let Some(card) = drawn {
            send(out, from, Message::CardDrawn { card });
        }
        assert(views(out@) =~= attack_notices(from, x, y, hit, sunk, silent, drawn));
    }

    fn on_attack(&mut self, from: usize, x: usize, y: usize, now: u64, chance: Chance) -> (out: Vec<
        Outgoing,
    >)
        requires
            old(self)@.inv(),
            from <= 1,
        ensures
            (final(self)@, views(out@)) == attack(old(self)@, from, x, y, now, chance),
    {
        let mut out: Vec<Outgoing> = Vec::new();
        let in_progress = match self.phase {
            SessionPhase::InProgress => true,
            _ => false,
        };
        let target = other(from);
        if !in_progress || from != self.current_turn || !self.p1.ready || !self.p2.ready
            || self.player(target).grid.is_none() || x >= GRID_SIZE || y >= GRID_SIZE {
            assert(views(out@) =~= Seq::empty());
            return out;
        }
        let silent_policy = match self.shield_policy {
            ShieldPolicy::Silent => true,
            ShieldPolicy::ReportMiss => false,
        };
        let ghost s0 = self@;
        let ghost b = s0.player(target).grid->Some_0;
        let t = self.player_mut(target);
        let shield = t.shield_active && chance.shield_blocks;
        let mut hit = false;
        let mut sunk = false;
        let mut blocked = false;
        let mut fleet_gone = false;
        match &mut t.grid {
            Some(grid) => {
                proof {
                    lemma_board_of_grid(grid@);
                }
                blocked = grid[y][x] == CellState::Ship && shield;
                let report = shoot(grid, x, y, shield);
                hit = report.0;
                sunk = report.1;
                fleet_gone = all_ships_sunk(grid);
            },
            None => {},
        }
        t.shield_active = false;
        let ghost b1 = after_shot(b, x as int, y as int, shield);
        let ghost s1 = s0.with_player(
            target,
            PlayerView { grid: Some(b1), shield_active: false, ..s0.player(target) },
        );
        assert(self@ == s1);
        let mut drawn: Option<PowerUp> = None;
        if hit {
            let a = self.player_mut(from);
            if a.hand.len() < MAX_HAND_SIZE {
                a.hand.push(chance.drawn);
                drawn = Some(chance.drawn);
            }
        }
        let ghost s2 = if drawn is Some {
            s1.with_player(
                from,
                PlayerView { hand: s1.player(from).hand.push(chance.drawn), ..s1.player(from) },
            )
        } else {
            s1
        };
        assert(self@ == s2);
        Self::send_attack(&mut out, from, x, y, hit, sunk, blocked && silent_policy, drawn);
        if fleet_gone {
            let more = self.defeated(target, target, now);
            send_all(&mut out, more);
        } else {
            self.current_turn = target;
            send_turns(&mut out, target);
        }
        out
    }

    fn on_last_stand(&mut self, from: usize, success: bool, now: u64, chance: Chance) -> (out: Vec<
        Outgoing,
    >)
        requires
            old(self)@.inv(),
            from <= 1,
        ensures
            (final(self)@, views(out@)) == last_stand(old(self)@, from, success, now, chance),
    {
        let mut out: Vec<Outgoing> = Vec::new();
        let (loser, resume_turn) = match self.phase {
            SessionPhase::PendingLastStand { loser, resume_turn, .. } => (loser, resume_turn),
            _ => {
                assert(views(out@) =~= Seq::empty());
                return out;
            },
        };
        if loser != from {
            assert(views(out@) =~= Seq::empty());
            return out;
        }
        let mut restored = false;
        if success {
            if let Some(anchor) = chance.anchor {
                let p = self.player_mut(from);
                match &mut p.grid {
                    Some(grid) => {
                        proof {
                            lemma_board_of_grid(grid@);
                        }
                        restored = restore_ship_at(grid, anchor.0, anchor.1);
                    },
                    None => {},
                }
            }
        }
        if restored {
            self.phase = SessionPhase::InProgress;
            self.current_turn = resume_turn;
            send_turns(&mut out, resume_turn);
            assert(views(out@) =~= turn_notices(resume_turn));
            out
        } else {
            self.end_game(from, now)
        }
    }

    fn on_play_again(&mut self, from: usize, wants_to_play: bool) -> (out: Vec<Outgoing>)
        requires
            from <= 1,
        ensures
            (final(self)@, views(out@)) == play_again(old(self)@, from, wants_to_play),
    {
        let mut out: Vec<Outgoing> = Vec::new();
        let awaiting = match self.phase {
            SessionPhase::AwaitingPlayAgain => true,
            _ => false,
        };
        if !awaiting {
            assert(views(out@) =~= Seq::empty());
            return out;
        }
        let next = self.play_again_state.respond(from, wants_to_play);
        match next {
            PlayAgainState::BothAgreed => {
                self.p1 = PlayerConnection::new();
                self.p2 = PlayerConnection::new();
                self.current_turn = 0;
                self.play_again_state = PlayAgainState::Idle;
                self.phase = SessionPhase::AwaitingPlacement;
                send(&mut out, 0, Message::NewGameStart);
                send(&mut out, 1, Message::NewGameStart);
            },
            PlayAgainState::OneDeclined => {
                self.play_again_state = PlayAgainState::OneDeclined;
                self.phase = SessionPhase::Closed;
            },
            _ => {
                self.play_again_state = next;
            },
        }
        assert(views(out@) =~= play_again(old(self)@, from, wants_to_play).1);
        out
    }

    fn on_quit(&mut self, from: usize) -> (out: Vec<Outgoing>)
        requires
            from <= 1,
            !(old(self)@.phase is Closed),
        ensures
            (final(self)@, views(out@)) == quit(old(self)@, from),
    {
        let mut out: Vec<Outgoing> = Vec::new();
        self.phase = SessionPhase::Closed;
        send(&mut out, other(from), Message::OpponentQuit);
        assert(views(out@) =~= quit(old(self)@, from).1);
        out
    }

    fn on_shield(&mut self, from: usize, at: usize) -> (out: Vec<Outgoing>)
        requires
            from <= 1,
            at == crate::cards::card_position(old(self)@.player(from).hand, PowerUp::Shield, 0),
            at < old(self)@.player(from).hand.len(),
        ensures
            (final(self)@, views(out@)) == use_shield(old(self)@, from),
    {
        let mut out: Vec<Outgoing> = Vec::new();
        let p = self.player_mut(from);
        p.hand.remove(at);
        p.shield_active = true;
        send_effect(&mut out, from, "shield_activated", String::from_str(""));
        assert(views(out@) =~= use_shield(old(self)@, from).1);
        out
    }

    fn on_radar(&mut self, from: usize, at: usize) -> (out: Vec<Outgoing>)
        requires
            old(self)@.inv(),
            from <= 1,
            old(self)@.player(opponent(from)).grid is Some,
            at == crate::cards::card_position(old(self)@.player(from).hand, PowerUp::Radar, 0),
            at < old(self)@.player(from).hand.len(),
        ensures
            (final(self)@, views(out@)) == use_radar(old(self)@, from),
    {
        let mut out: Vec<Outgoing> = Vec::new();
        let mut revealed: Vec<(usize, usize)> = Vec::new();
        match &self.player(other(from)).grid {
            Some(grid) => {
                proof {
                    lemma_board_of_grid(grid@);
                    crate::cards::lemma_radar_sweep(cells(grid@));
                }
                revealed = radar_positions(grid);
            },
            None => {},
        }
        let p = self.player_mut(from);
        p.hand.remove(at);
        let mut k: usize = 0;
        while k < revealed.len()
            invariant
                k <= revealed.len(),
                from <= 1,
                forall|j: int|
                    0 <= j < revealed.len() ==> (#[trigger] revealed@[j]).0 < GRID_SIZE
                        && revealed@[j].1 < GRID_SIZE,
                views(out@) == radar_notices(from, revealed@.subrange(0, k as int)),
            decreases revealed.len() - k,
        {
            let cell = revealed[k];
            send_effect(&mut out, from, "radar_reveal", pair_string(cell.0, cell.1));
            k += 1;
            assert(views(out@) =~= radar_notices(from, revealed@.subrange(0, k as int)));
        }
        assert(revealed@.subrange(0, k as int) =~= revealed@);
        out
    }

    fn on_repair(&mut self, from: usize, at: usize) -> (out: Vec<Outgoing>)
        requires
            old(self)@.inv(),
            from <= 1,
            old(self)@.player(from).grid is Some,
            at == crate::cards::card_position(old(self)@.player(from).hand, PowerUp::Repair, 0),
            at < old(self)@.player(from).hand.len(),
        ensures
            (final(self)@, views(out@)) == use_repair(old(self)@, from),
    {
        let mut out: Vec<Outgoing> = Vec::new();
        let p = self.player_mut(from);
        let mut repaired = false;
        match &mut p.grid {
            Some(grid) => {
                proof {
                    lemma_board_of_grid(grid@);
                }
                repaired = repair_first(grid).is_some();
            },
            None => {},
        }
        if repaired {
            p.hand.remove(at);
            send_effect(&mut out, from, "repair", String::from_str(""));
        }
        assert(views(out@) =~= use_repair(old(self)@, from).1);
        out
    }

    /// Lets one missile come down, if one was sent, and tells the user.
    fn launch(grid: &mut [Vec<CellState>], to: usize, at: Option<(usize, usize)>) -> (out: Vec<
        Outgoing,
    >)
        requires
            well_formed(old(grid)@),
        ensures
            well_formed(final(grid)@),
            cells(final(grid)@) == after_missile(cells(old(grid)@), at),
            views(out@) == missile_notices(to, cells(old(grid)@), at),
    {
        let mut out: Vec<Outgoing> = Vec::new();
        if let Some(cell) = at {
            if let Some(was_ship) = strike_cell(grid, cell.0, cell.1) {
                send_effect(&mut out, to, "missile_strike", strike_string(cell.0, cell.1, was_ship));
            }
        }
        assert(views(out@) =~= missile_notices(to, cells(old(grid)@), at));
        out
    }

    fn on_missile(&mut self, from: usize, at: usize, now: u64, chance: Chance) -> (out: Vec<
        Outgoing,
    >)
        requires
            old(self)@.inv(),
            from <= 1,
            old(self)@.player(opponent(from)).grid is Some,
            at == crate::cards::card_position(
                old(self)@.player(from).hand,
                PowerUp::MissileStrike,
                0,
            ),
            at < old(self)@.player(from).hand.len(),
        ensures
            (final(self)@, views(out@)) == use_missile(old(self)@, from, now, chance),
    {
        let mut out: Vec<Outgoing> = Vec::new();
        let target = other(from);
        let resume_turn = self.current_turn;
        let ghost s0 = self@;
        let ghost b = s0.player(target).grid->Some_0;
        let ghost b1 = after_missile(b, chance.first_strike);
        let ghost b2 = after_missile(b1, chance.second_strike);
        let p = self.player_mut(from);
        p.hand.remove(at);
        let ghost s1 = s0.with_player(
            from,
            PlayerView {
                hand: crate::cards::without_card(s0.player(from).hand, PowerUp::MissileStrike),
                ..s0.player(from)
            },
        );
        assert(self@ == s1);
        let t = self.player_mut(target);
        let mut fleet_gone = false;
        match &mut t.grid {
            Some(grid) => {
                proof {
                    lemma_board_of_grid(grid@);
                }
                let first = Self::launch(grid, from, chance.first_strike);
                send_all(&mut out, first);
                let second = Self::launch(grid, from, chance.second_strike);
                send_all(&mut out, second);
                send(&mut out, from, Message::GridUpdate { grid: copy_grid(grid) });
                fleet_gone = all_ships_sunk(grid);
            },
            None => {},
        }
        let ghost s2 = s1.with_player(target, PlayerView { grid: Some(b2), ..s1.player(target) });
        assert(self@ == s2);
        let ghost reports = missile_notices(from, b, chance.first_strike) + missile_notices(
            from,
            b1,
            chance.second_strike,
        ) + seq![notice(from, crate::types::MessageView::GridUpdate { grid: b2 })];
        assert(views(out@) =~= reports);
        if fleet_gone {
            let more = self.defeated(target, resume_turn, now);
            send_all(&mut out, more);
        }
        out
    }

    fn on_card(&mut self, from: usize, card: PowerUp, now: u64, chance: Chance) -> (out: Vec<
        Outgoing,
    >)
        requires
            old(self)@.inv(),
            from <= 1,
        ensures
            (final(self)@, views(out@)) == use_card(old(self)@, from, card, now, chance),
    {
        let in_progress = match self.phase {
            SessionPhase::InProgress => true,
            _ => false,
        };
        let at = find_card(&self.player(from).hand, card);
        if !in_progress || self.p1.grid.is_none() || self.p2.grid.is_none() || at
            >= self.player(from).hand.len() {
            let out: Vec<Outgoing> = Vec::new();
            assert(views(out@) =~= Seq::empty());
            return out;
        }
        match card {
            PowerUp::Shield => self.on_shield(from, at),
            PowerUp::Radar => self.on_radar(from, at),
            PowerUp::Repair => self.on_repair(from, at),
            PowerUp::MissileStrike => self.on_missile(from, at, now, chance),
        }
    }

    /// Hears a message from player `from` at time `now`, with what the event
    /// leaves to chance already decided, and returns the notices to send.
    /// The session moves exactly as the model's [`step`] says.
    pub fn apply_message(&mut self, from: usize, message: Message, now: u64, chance: Chance) -> (out:
        Vec<Outgoing>)
        requires
            old(self)@.inv(),
        ensures
            final(self)@.inv(),
            (final(self)@, views(out@)) == step(old(self)@, from, message@, now, chance),
    {
        proof {
            lemma_step_keeps_invariant(self@, from, message@, now, chance);
        }
        if self.is_closed() || from > 1 {
            let out: Vec<Outgoing> = Vec::new();
            assert(views(out@) =~= Seq::empty());
            return out;
        }
        match message {
            Message::PlaceShips(grid) => self.on_place_ships(from, grid),
            Message::Attack { x, y } => self.on_attack(from, x, y, now, chance),
            Message::LastStandResult { success } => self.on_last_stand(from, success, now, chance),
            Message::PlayAgainResponse { wants_to_play } => self.on_play_again(from, wants_to_play),
            Message::CardUsed { card, .. } => self.on_card(from, card, now, chance),
            Message::Quit => self.on_quit(from),
            _ => {
                let out: Vec<Outgoing> = Vec::new();
                assert(views(out@) =~= Seq::empty());
                out
            },
        }
    }

    /// Decides what the message leaves to chance: the coin of a shield and
    /// the card of a hit for a shot, the cell of the rescue ship for a last
    /// stand that was won, the cells of the two missiles for a missile
    /// strike.
    pub fn roll(&self, from: usize, message: &Message) -> (chance: Chance)
        requires
            self@.inv(),
        ensures
            fits(self@, from, message@, chance),
    {
        let mut chance = Chance {
            shield_blocks: false,
            drawn: PowerUp::Shield,
            anchor: None,
            first_strike: None,
            second_strike: None,
        };
        if from > 1 {
            return chance;
        }
        match message {
            Message::Attack { .. } => {
                chance.shield_blocks = coin_flip();
                chance.drawn = random_card();
            },
            Message::LastStandResult { success } => {
                if *success {
                    match &self.player(from).grid {
                        Some(grid) => {
                            proof {
                                lemma_board_of_grid(grid@);
                            }
                            chance.anchor = random_anchor(grid);
                        },
                        None => {},
                    }
                }
            },
            Message::CardUsed { card, .. } => {
                if *card == PowerUp::MissileStrike {
                    match &self.player(other(from)).grid {
                        Some(grid) => {
                            proof {
                                lemma_board_of_grid(grid@);
                            }
                            let picks = random_targets(grid);
                            chance.first_strike = picks.0;
                            chance.second_strike = picks.1;
                            proof {
                                let b = cells(grid@);
                                if let Some(p) = picks.0 {
                                    let b1 = crate::cards::after_strike(b, p.0 as int, p.1 as int);
                                    assert forall|x: int, y: int| #[trigger]
                                        crate::cards::is_target(b1, x, y) implies picks.1 is Some
                                        && crate::cards::is_target(
                                        b1,
                                        picks.1->Some_0.0 as int,
                                        picks.1->Some_0.1 as int,
                                    ) by {
                                        assert(crate::cards::is_target(b, x, y));
                                    }
                                }
                            }
                        },
                        None => {},
                    }
                }
            },
            _ => {},
        }
        chance
    }

    /// Hears a message from player `from` at time `now` and returns the
    /// notices to send. What the event leaves to chance is decided here, so
    /// the session moves as [`step`] says for one choice that suits the
    /// event.
    pub fn handle_message(&mut self, from: usize, message: Message, now: u64) -> (out: Vec<Outgoing>)
        requires
            old(self)@.inv(),
        ensures
            final(self)@.inv(),
            exists|chance: Chance|
                fits(old(self)@, from, message@, chance) && (final(self)@, views(out@)) == #[trigger] step(
                    old(self)@,
                    from,
                    message@,
                    now,
                    chance,
                ),
    {
        let chance = self.roll(from, &message);
        self.apply_message(from, message, now, chance)
    }

    /// Lets time pass up to `now`: a last stand that was not answered within
    /// its window is lost, and a play-again negotiation that is still open
    /// after its window ends the session.
    pub fn tick(&mut self, now: u64) -> (out: Vec<Outgoing>)
        requires
            old(self)@.inv(),
        ensures
            final(self)@.inv(),
            (final(self)@, views(out@)) == tick(old(self)@, now),
    {
        proof {
            crate::laws::lemma_tick_keeps_invariant(self@, now);
        }
        match self.phase {
            SessionPhase::PendingLastStand { loser, opened_at, .. } => {
                if now >= opened_at && now - opened_at >= LAST_STAND_WINDOW_MS {
                    return self.end_game(loser, now);
                }
            },
            SessionPhase::AwaitingPlayAgain => {
                match self.play_again_state.check_timeout(now) {
                    PlayAgainState::Timeout => {
                        self.play_again_state = PlayAgainState::Timeout;
                        self.phase = SessionPhase::Closed;
                    },
                    _ => {},
                }
            },
            _ => {},
        }
        let out: Vec<Outgoing> = Vec::new();
        assert(views(out@) =~= Seq::empty());
        out
    }

    /// The connection of a player is lost: the session ends and nobody is
    /// told.
    pub fn disconnect(&mut self)
        requires
            old(self)@.inv(),
        ensures
            final(self)@.inv(),
            final(self)@ == disconnect(old(self)@),
    {
        self.phase = SessionPhase::Closed;
    }
}

} // verus!
