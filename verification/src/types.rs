use vstd::prelude::*;

verus! {

/// Side length of the square grid each player owns.
pub const GRID_SIZE: usize = 10;

/// The fleet, largest ship first: the length of each class and its name.
pub const SHIPS: [(usize, &'static str); 5] = [
    (5, "Carrier"),
    (4, "Battleship"),
    (3, "Cruiser"),
    (3, "Submarine"),
    (2, "Destroyer"),
];

/// What one grid cell holds.
#[derive(Debug, Clone, Copy, PartialEq, Eq, Structural)]
pub enum CellState {
    Empty,
    Ship,
    Hit,
    Miss,
}

/// A consumable card, drawn on landing a hit.
#[derive(Debug, Clone, Copy, PartialEq, Eq, Structural)]
pub enum PowerUp {
    Shield,
    Radar,
    Repair,
    MissileStrike,
}

impl PowerUp {
    /// The display name of each card, as a sequence of characters.
    pub open spec fn name_text(self) -> Seq<char> {
        match self {
            PowerUp::Shield => "Shield"@,
            PowerUp::Radar => "Radar"@,
            PowerUp::Repair => "Repair"@,
            PowerUp::MissileStrike => "Missile Strike"@,
        }
    }

    /// The one-line rule text of each card.
    pub open spec fn description_text(self) -> Seq<char> {
        match self {
            PowerUp::Shield => "Reduce 50% damage for 1 turn"@,
            PowerUp::Radar => "Reveal 2 enemy positions"@,
            PowerUp::Repair => "Restore 1 HP to a ship"@,
            PowerUp::MissileStrike => "Hit 2 random enemy tiles"@,
        }
    }

    /// The pictogram shown beside each card.
    pub open spec fn emoji_text(self) -> Seq<char> {
        match self {
            PowerUp::Shield => "ðŸ›¡ï¸"@,
            PowerUp::Radar => "ðŸ“¡"@,
            PowerUp::Repair => "ðŸ”§"@,
            PowerUp::MissileStrike => "ðŸš€"@,
        }
    }

    /// The display name of the card.
    pub fn name(&self) -> (text: &'static str)
        ensures
            text@ == self.name_text(),
    {
        match self {
            PowerUp::Shield => "Shield",
            PowerUp::Radar => "Radar",
            PowerUp::Repair => "Repair",
            PowerUp::MissileStrike => "Missile Strike",
        }
    }

    /// The one-line rule text of the card.
    pub fn description(&self) -> (text: &'static str)
        ensures
            text@ == self.description_text(),
    {
        match self {
            PowerUp::Shield => "Reduce 50% damage for 1 turn",
            PowerUp::Radar => "Reveal 2 enemy positions",
            PowerUp::Repair => "Restore 1 HP to a ship",
            PowerUp::MissileStrike => "Hit 2 random enemy tiles",
        }
    }

    /// The pictogram shown beside the card.
    pub fn emoji(&self) -> (text: &'static str)
        ensures
            text@ == self.emoji_text(),
    {
        match self {
            PowerUp::Shield => "ðŸ›¡ï¸",
            PowerUp::Radar => "ðŸ“¡",
            PowerUp::Repair => "ðŸ”§",
            PowerUp::MissileStrike => "ðŸš€",
        }
    }
}

/// Where the local player stands in a game, as the client sees it.
#[derive(Debug, Clone, Copy, PartialEq, Eq, Structural)]
pub enum GamePhase {
    Placing,
    WaitingForOpponent,
    YourTurn,
    OpponentTurn,
    GameOver,
    PlayAgainPrompt,
    LastStand,
}

/// What the side panel of the client shows.
#[derive(Debug, Clone, Copy, PartialEq, Eq, Structural)]
pub enum SidePanelMode {
    Statistics,
    Deck,
    Hidden,
}

/// One message of the line protocol between a player and the session.
#[derive(Debug, Clone, PartialEq)]
pub enum Message {
    PlaceShips(Vec<Vec<CellState>>),
    Attack { x: usize, y: usize },
    AttackResult { x: usize, y: usize, hit: bool, sunk: bool },
    YourTurn,
    OpponentTurn,
    GameOver { won: bool },
    WaitingForOpponent,
    GameStart,
    PlayAgainRequest,
    PlayAgainResponse { wants_to_play: bool },
    PlayAgainTimeout,
    OpponentQuit,
    NewGameStart,
    LastStandTrigger,
    LastStandResult { success: bool },
    CardDrawn { card: PowerUp },
    CardUsed { card: PowerUp, target_x: Option<usize>, target_y: Option<usize> },
    CardEffect { effect_type: String, data: String },
    GridUpdate { grid: Vec<Vec<CellState>> },
    Quit,
}

/// The mathematical content of a [`Message`]: grids as sequences of rows,
/// strings as sequences of characters.
pub enum MessageView {
    PlaceShips(Seq<Seq<CellState>>),
    Attack { x: usize, y: usize },
    AttackResult { x: usize, y: usize, hit: bool, sunk: bool },
    YourTurn,
    OpponentTurn,
    GameOver { won: bool },
    WaitingForOpponent,
    GameStart,
    PlayAgainRequest,
    PlayAgainResponse { wants_to_play: bool },
    PlayAgainTimeout,
    OpponentQuit,
    NewGameStart,
    LastStandTrigger,
    LastStandResult { success: bool },
    CardDrawn { card: PowerUp },
    CardUsed { card: PowerUp, target_x: Option<usize>, target_y: Option<usize> },
    CardEffect { effect_type: Seq<char>, data: Seq<char> },
    GridUpdate { grid: Seq<Seq<CellState>> },
    Quit,
}

/// The rows of a grid, each as the sequence of its cells.
pub open spec fn cells(grid: Seq<Vec<CellState>>) -> Seq<Seq<CellState>> {
    Seq::new(grid.len(), |y: int| grid[y]@)
}

impl View for Message {
    type V = MessageView;

    open spec fn view(&self) -> MessageView {
        match *self {
            Message::PlaceShips(grid) => MessageView::PlaceShips(cells(grid@)),
            Message::Attack { x, y } => MessageView::Attack { x, y },
            Message::AttackResult { x, y, hit, sunk } => MessageView::AttackResult {
                x,
                y,
                hit,
                sunk,
            },
            Message::YourTurn => MessageView::YourTurn,
            Message::OpponentTurn => MessageView::OpponentTurn,
            Message::GameOver { won } => MessageView::GameOver { won },
            Message::WaitingForOpponent => MessageView::WaitingForOpponent,
            Message::GameStart => MessageView::GameStart,
            Message::PlayAgainRequest => MessageView::PlayAgainRequest,
            Message::PlayAgainResponse { wants_to_play } => MessageView::PlayAgainResponse {
                wants_to_play,
            },
            Message::PlayAgainTimeout => MessageView::PlayAgainTimeout,
            Message::OpponentQuit => MessageView::OpponentQuit,
            Message::NewGameStart => MessageView::NewGameStart,
            Message::LastStandTrigger => MessageView::LastStandTrigger,
            Message::LastStandResult { success } => MessageView::LastStandResult { success },
            Message::CardDrawn { card } => MessageView::CardDrawn { card },
            Message::CardUsed { card, target_x, target_y } => MessageView::CardUsed {
                card,
                target_x,
                target_y,
            },
            Message::CardEffect { effect_type, data } => MessageView::CardEffect {
                effect_type: effect_type@,
                data: data@,
            },
            Message::GridUpdate { grid } => MessageView::GridUpdate { grid: cells(grid@) },
            Message::Quit => MessageView::Quit,
        }
    }
}

} // verus!
