//! The relay: a session that does not judge. It passes every message of one
//! player on to the other and only starts the game once both fleets are
//! placed.

use crate::model::opponent;
use crate::types::{Message, MessageView};
use vstd::prelude::*;

verus! {

/// What the relay remembers: who has placed a fleet, and whether the game
/// was started.
#[derive(Debug, Clone, Copy, PartialEq, Eq, Structural)]
pub struct RelayState {
    pub player1_ready: bool,
    pub player2_ready: bool,
    pub game_started: bool,
}

/// What the relay does with a message: it passes the message on as it came,
/// or sends one of its own.
#[derive(Debug, Clone, PartialEq)]
pub enum RelayAction {
    Forward { to: usize },
    Send { to: usize, message: Message },
}

/// An action of the relay with its message as mathematics.
pub enum RelayActionView {
    Forward { to: usize },
    Send { to: usize, message: MessageView },
}

impl View for RelayAction {
    type V = RelayActionView;

    open spec fn view(&self) -> RelayActionView {
        match *self {
            RelayAction::Forward { to } => RelayActionView::Forward { to },
            RelayAction::Send { to, message } => RelayActionView::Send { to, message: message@ },
        }
    }
}

/// What a list of actions stands for.
pub open spec fn action_views(actions: Seq<RelayAction>) -> Seq<RelayActionView> {
    Seq::new(actions.len(), |k: int| actions[k]@)
}

/// The relay after player `from` placed a fleet.
pub open spec fn with_ready(s: RelayState, from: usize) -> RelayState {
    if from == 0 {
        RelayState { player1_ready: true, ..s }
    } else {
        RelayState { player2_ready: true, ..s }
    }
}

/// The game starts with the placement that makes both players ready, once.
pub open spec fn starts_game(s: RelayState, from: usize, message: MessageView) -> bool {
    &&& message is PlaceShips
    &&& with_ready(s, from).player1_ready
    &&& with_ready(s, from).player2_ready
    &&& !s.game_started
}

/// The relay after a message of player `from`.
pub open spec fn relayed_state(s: RelayState, from: usize, message: MessageView) -> RelayState {
    if message is PlaceShips {
        RelayState {
            game_started: s.game_started || starts_game(s, from, message),
            ..with_ready(s, from)
        }
    } else {
        s
    }
}

/// What the relay does with a message of player `from`: the message goes to
/// the other player, and the placement that makes both ready also starts the
/// game, with the first player to move.
pub open spec fn relayed_actions(s: RelayState, from: usize, message: MessageView) -> Seq<
    RelayActionView,
> {
    let forward = seq![RelayActionView::Forward { to: opponent(from) }];
    if starts_game(s, from, message) {
        forward + seq![
            RelayActionView::Send { to: 0, message: MessageView::GameStart },
            RelayActionView::Send { to: 1, message: MessageView::GameStart },
            RelayActionView::Send { to: 0, message: MessageView::YourTurn },
            RelayActionView::Send { to: 1, message: MessageView::OpponentTurn },
        ]
    } else {
        forward
    }
}

impl RelayState {
    /// A relay between two players who have just joined.
    pub fn new() -> (state: RelayState)
        ensures
            state == (RelayState {
                player1_ready: false,
                player2_ready: false,
                game_started: false,
            }),
    {
        RelayState { player1_ready: false, player2_ready: false, game_started: false }
    }

    /// The greeting for a player who has just joined.
    pub fn greeting() -> (message: Message)
        ensures
            message@ == MessageView::WaitingForOpponent,
    {
        Message::WaitingForOpponent
    }

    /// Takes a message of player `from`, the first player being 0 and any
    /// other index the second, and returns what to do with it.
    pub fn relay(&mut self, from: usize, message: &Message) -> (actions: Vec<RelayAction>)
        ensures
            *final(self) == relayed_state(*old(self), from, message@),
            action_views(actions@) == relayed_actions(*old(self), from, message@),
    {
        let mut actions: Vec<RelayAction> = Vec::new();
        let to = if from == 0 {
            1
        } else {
            0
        };
        actions.push(RelayAction::Forward { to });
        match message {
            Message::PlaceShips(_) => {
                if from == 0 {
                    self.player1_ready = true;
                } else {
                    self.player2_ready = true;
                }
                if self.player1_ready && self.player2_ready && !self.game_started {
                    self.game_started = true;
                    actions.push(RelayAction::Send { to: 0, message: Message::GameStart });
                    actions.push(RelayAction::Send { to: 1, message: Message::GameStart });
                    actions.push(RelayAction::Send { to: 0, message: Message::YourTurn });
                    actions.push(RelayAction::Send { to: 1, message: Message::OpponentTurn });
                }
            },
            _ => {},
        }
        assert(action_views(actions@) =~= relayed_actions(*old(self), from, message@));
        actions
    }
}

} // verus!
