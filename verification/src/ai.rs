//! The computer opponent: a player driven by dice. It places a fleet, fires
//! at cells it has not fired at, and plays the cards it holds; what it sends
//! goes through the session like the messages of any other player.

use crate::board::{
    can_place, can_place_ship, empty_board, is_ship_fully_sunk, new_grid, place_ship, placed,
    well_formed, with_cell,
};
use crate::cards::{
    add_card, card_position, find_card, first_repairable, has_repair_target, on_board,
    repair_first, repairable_at, without_card, MAX_HAND_SIZE,
};
use crate::chance::random_below;
use crate::client::own_cell_after;
use crate::game_state::ship_length;
use crate::types::{cells, CellState, Message, MessageView, PowerUp, GRID_SIZE, SHIPS};
use vstd::prelude::*;

verus! {

/// Where a ship goes: its first cell and whether it lies horizontally.
#[derive(Debug, Clone, Copy, PartialEq, Eq)]
pub struct Placement {
    pub x: usize,
    pub y: usize,
    pub horizontal: bool,
}

/// The placement is legal for a ship of `length` cells on the board.
pub open spec fn legal(b: Seq<Seq<CellState>>, p: Placement, length: int) -> bool {
    can_place(b, p.x as int, p.y as int, length, p.horizontal)
}

/// The board with a ship of `length` cells put down as the placement says.
pub open spec fn put(b: Seq<Seq<CellState>>, p: Placement, length: int) -> Seq<Seq<CellState>> {
    placed(b, p.x as int, p.y as int, length, p.horizontal)
}

/// The board after the first `k` ships of the fleet went down one after the
/// other, largest first, on an empty board.
pub open spec fn fleet_after(placements: Seq<Placement>, k: int) -> Seq<Seq<CellState>>
    decreases k,
{
    if k <= 0 {
        empty_board()
    } else {
        put(fleet_after(placements, k - 1), placements[k - 1], ship_length(k - 1) as int)
    }
}

/// Five placements, one for each ship of the fleet, each legal on the board
/// that the ships before it left: no ship sticks out and no two overlap.
pub open spec fn legal_fleet(placements: Seq<Placement>) -> bool {
    &&& placements.len() == 5
    &&& forall|k: int|
        0 <= k < 5 ==> legal(
            #[trigger] fleet_after(placements, k),
            placements[k],
            ship_length(k) as int,
        )
}

/// The board holds a whole fleet, legally placed, and nothing else.
pub open spec fn is_fleet(b: Seq<Seq<CellState>>) -> bool {
    exists|placements: Seq<Placement>| legal_fleet(placements) && b == fleet_after(placements, 5)
}

/// The ship at a placement has a cell in row `r`.
pub open spec fn in_row(p: Placement, length: int, r: int) -> bool {
    if p.horizontal {
        p.y == r
    } else {
        p.y <= r < p.y + length
    }
}

/// The ship at a placement has a cell in column `c`.
pub open spec fn in_column(p: Placement, length: int, c: int) -> bool {
    if p.horizontal {
        p.x <= c < p.x + length
    } else {
        p.x == c
    }
}

/// One of the first `k` ships of the fleet has a cell in row `r`.
pub open spec fn row_blocked(placements: Seq<Placement>, k: int, r: int) -> bool {
    exists|j: int| 0 <= j < k && in_row(#[trigger] placements[j], ship_length(j) as int, r)
}

/// One of the first `k` ships of the fleet has a cell in column `c`.
pub open spec fn column_blocked(placements: Seq<Placement>, k: int, c: int) -> bool {
    exists|j: int| 0 <= j < k && in_column(#[trigger] placements[j], ship_length(j) as int, c)
}

/// A cell of the board that the first `k` ships left is empty unless one of
/// them covers it.
pub proof fn lemma_fleet_cell(placements: Seq<Placement>, k: int, x: int, y: int)
    requires
        0 <= k <= placements.len(),
        on_board(x, y),
    ensures
        crate::board::is_board(fleet_after(placements, k)),
        fleet_after(placements, k)[y][x] != CellState::Empty ==> row_blocked(placements, k, y)
            && column_blocked(placements, k, x),
    decreases k,
{
    if k > 0 {
        lemma_fleet_cell(placements, k - 1, x, y);
        let before = fleet_after(placements, k - 1);
        let p = placements[k - 1];
        assert(before[y].len() == GRID_SIZE);
        assert forall|r: int| 0 <= r < GRID_SIZE implies (#[trigger] fleet_after(
            placements,
            k,
        )[r]).len() == GRID_SIZE by {
            assert(before[r].len() == GRID_SIZE);
        }
        if fleet_after(placements, k)[y][x] != CellState::Empty {
            if crate::board::covers(
                p.x as int,
                p.y as int,
                ship_length(k - 1) as int,
                p.horizontal,
                x,
                y,
            ) {
                assert(in_row(placements[k - 1], ship_length(k - 1) as int, y));
                assert(in_column(placements[k - 1], ship_length(k - 1) as int, x));
            } else {
                let j = choose|j: int|
                    0 <= j < k - 1 && in_row(#[trigger] placements[j], ship_length(j) as int, y);
                assert(in_row(placements[j], ship_length(j) as int, y));
                let i = choose|i: int|
                    0 <= i < k - 1 && in_column(
                        #[trigger] placements[i],
                        ship_length(i) as int,
                        x,
                    );
                assert(in_column(placements[i], ship_length(i) as int, x));
            }
        }
    } else {
        assert(fleet_after(placements, k) == empty_board());
    }
}

/// Four ships of the fleet at most cannot have a cell in every row and in
/// every column: together they reach fewer than twenty rows and columns.
pub proof fn lemma_a_line_is_clear(placements: Seq<Placement>, k: int)
    requires
        0 <= k <= 4,
        k <= placements.len(),
    ensures
        exists|line: int|
            0 <= line < GRID_SIZE && (!row_blocked(placements, k, line) || !column_blocked(
                placements,
                k,
                line,
            )),
{
    let all_rows = forall|r: int| 0 <= r < GRID_SIZE ==> row_blocked(placements, k, r);
    let all_columns = forall|c: int| 0 <= c < GRID_SIZE ==> column_blocked(placements, k, c);
    if all_rows && all_columns {
        lemma_blocked_rows_are_reached(placements, k, GRID_SIZE as int);
        lemma_blocked_columns_are_reached(placements, k, GRID_SIZE as int);
        lemma_reach_bound(placements, k);
    }
}

/// The number of rows among the first `n` in which the ship has a cell.
pub open spec fn rows_reached(p: Placement, length: int, n: int) -> int
    decreases n,
{
    if n <= 0 {
        0
    } else {
        rows_reached(p, length, n - 1) + if in_row(p, length, n - 1) {
            1int
        } else {
            0int
        }
    }
}

/// The number of columns among the first `n` in which the ship has a cell.
pub open spec fn columns_reached(p: Placement, length: int, n: int) -> int
    decreases n,
{
    if n <= 0 {
        0
    } else {
        columns_reached(p, length, n - 1) + if in_column(p, length, n - 1) {
            1int
        } else {
            0int
        }
    }
}

/// A ship reaches no more rows and columns together than it has cells, and
/// one more.
pub proof fn lemma_ship_reach(p: Placement, length: int, n: int)
    requires
        length >= 1,
        0 <= n,
    ensures
        0 <= rows_reached(p, length, n),
        0 <= columns_reached(p, length, n),
        p.horizontal ==> rows_reached(p, length, n) <= 1 && columns_reached(p, length, n) <= length,
        !p.horizontal ==> rows_reached(p, length, n) <= length && columns_reached(p, length, n)
            <= 1,
        rows_reached(p, length, n) <= (if p.horizontal {
            if p.y < n {
                1int
            } else {
                0int
            }
        } else {
            if n <= p.y {
                0int
            } else if n <= p.y + length {
                n - p.y
            } else {
                length
            }
        }),
        columns_reached(p, length, n) <= (if !p.horizontal {
            if p.x < n {
                1int
            } else {
                0int
            }
        } else {
            if n <= p.x {
                0int
            } else if n <= p.x + length {
                n - p.x
            } else {
                length
            }
        }),
    decreases n,
{
    if n > 0 {
        lemma_ship_reach(p, length, n - 1);
    }
}

/// The rows among the first `n` that are blocked are no more than the rows
/// that the ships reach one by one.
pub proof fn lemma_blocked_rows_are_reached(placements: Seq<Placement>, k: int, n: int)
    requires
        0 <= k <= 4,
        k <= placements.len(),
        0 <= n,
        forall|r: int| 0 <= r < n ==> row_blocked(placements, k, r),
    ensures
        n <= reach_sum(placements, k, n, true),
    decreases n,
{
    if n > 0 {
        lemma_blocked_rows_are_reached(placements, k, n - 1);
        assert(row_blocked(placements, k, n - 1));
        let j = choose|j: int|
            0 <= j < k && in_row(#[trigger] placements[j], ship_length(j) as int, n - 1);
        lemma_reach_sum_grows(placements, k, n, true, j);
    } else {
        lemma_nothing_reached(placements, k, true);
    }
}

/// The columns among the first `n` that are blocked are no more than the
/// columns that the ships reach one by one.
pub proof fn lemma_blocked_columns_are_reached(placements: Seq<Placement>, k: int, n: int)
    requires
        0 <= k <= 4,
        k <= placements.len(),
        0 <= n,
        forall|c: int| 0 <= c < n ==> column_blocked(placements, k, c),
    ensures
        n <= reach_sum(placements, k, n, false),
    decreases n,
{
    if n > 0 {
        lemma_blocked_columns_are_reached(placements, k, n - 1);
        assert(column_blocked(placements, k, n - 1));
        let j = choose|j: int|
            0 <= j < k && in_column(#[trigger] placements[j], ship_length(j) as int, n - 1);
        lemma_reach_sum_grows(placements, k, n, false, j);
    } else {
        lemma_nothing_reached(placements, k, false);
    }
}

/// The rows, or the columns, among the first `n` that the first `k` ships
/// reach, each counted once for every ship that reaches it.
pub open spec fn reach_sum(placements: Seq<Placement>, k: int, n: int, rows: bool) -> int
    decreases k,
{
    if k <= 0 {
        0
    } else {
        reach_sum(placements, k - 1, n, rows) + if rows {
            rows_reached(placements[k - 1], ship_length(k - 1) as int, n)
        } else {
            columns_reached(placements[k - 1], ship_length(k - 1) as int, n)
        }
    }
}

/// Among no lines at all no ship reaches any.
pub proof fn lemma_nothing_reached(placements: Seq<Placement>, k: int, rows: bool)
    ensures
        reach_sum(placements, k, 0, rows) == 0,
    decreases k,
{
    if k > 0 {
        lemma_nothing_reached(placements, k - 1, rows);
    }
}

/// One more line counts for each ship that reaches it: the sum over `n`
/// lines exceeds the sum over `n - 1` by one at least when ship `j` reaches
/// line `n - 1`, and is never less.
pub proof fn lemma_reach_sum_grows(placements: Seq<Placement>, k: int, n: int, rows: bool, j: int)
    requires
        0 <= k <= placements.len(),
        n > 0,
    ensures
        reach_sum(placements, k, n, rows) >= reach_sum(placements, k, n - 1, rows),
        0 <= j < k && (if rows {
            in_row(placements[j], ship_length(j) as int, n - 1)
        } else {
            in_column(placements[j], ship_length(j) as int, n - 1)
        }) ==> reach_sum(placements, k, n, rows) >= reach_sum(placements, k, n - 1, rows) + 1,
    decreases k,
{
    if k > 0 {
        lemma_reach_sum_grows(placements, k - 1, n, rows, j);
    }
}

/// The cells of the first `k` ships of the fleet, and one more for each
/// ship.
pub open spec fn cells_and_ships(k: int) -> int {
    if k <= 0 {
        0
    } else if k == 1 {
        6
    } else if k == 2 {
        11
    } else if k == 3 {
        15
    } else {
        19
    }
}

/// The rows and columns that the first `k` ships reach are, ship by ship, no
/// more than the cells of the ships and one more for each.
pub proof fn lemma_reach_bound(placements: Seq<Placement>, k: int)
    requires
        0 <= k <= 4,
        k <= placements.len(),
    ensures
        reach_sum(placements, k, GRID_SIZE as int, true) + reach_sum(
            placements,
            k,
            GRID_SIZE as int,
            false,
        ) <= cells_and_ships(k),
    decreases k,
{
    if k > 0 {
        lemma_reach_bound(placements, k - 1);
        lemma_ship_reach(placements[k - 1], ship_length(k - 1) as int, GRID_SIZE as int);
    }
}

/// A mask of the cells fired at is ten rows of ten flags.
pub open spec fn is_mask(fired: Seq<Vec<bool>>) -> bool {
    &&& fired.len() == GRID_SIZE
    &&& forall|y: int| 0 <= y < GRID_SIZE ==> (#[trigger] fired[y]).len() == GRID_SIZE
}

/// The flags of a mask, row by row.
pub open spec fn flags(fired: Seq<Vec<bool>>) -> Seq<Seq<bool>> {
    Seq::new(fired.len(), |y: int| fired[y]@)
}

/// The flags with the one at `(x, y)` set.
pub open spec fn with_flag(f: Seq<Seq<bool>>, x: int, y: int) -> Seq<Seq<bool>> {
    f.update(y, f[y].update(x, true))
}

/// `(x, y)` is a cell of the board that has not been fired at.
pub open spec fn untried(f: Seq<Seq<bool>>, x: int, y: int) -> bool {
    on_board(x, y) && !f[y][x]
}

/// Every legal placement of a ship of `length` cells on a grid.
fn legal_placements(grid: &[Vec<CellState>], length: usize) -> (found: Vec<Placement>)
    requires
        well_formed(grid@),
        length >= 1,
    ensures
        forall|k: int| 0 <= k < found.len() ==> legal(cells(grid@), #[trigger] found@[k], length as int),
        forall|p: Placement| #[trigger] legal(cells(grid@), p, length as int) ==> found@.contains(p),
{
    let ghost b = cells(grid@);
    let mut found: Vec<Placement> = Vec::new();
    let mut y: usize = 0;
    while y < GRID_SIZE
        invariant
            well_formed(grid@),
            b == cells(grid@),
            length >= 1,
            y <= GRID_SIZE,
            forall|k: int| 0 <= k < found.len() ==> legal(b, #[trigger] found@[k], length as int),
            forall|p: Placement| #[trigger]
                legal(b, p, length as int) && p.y < y ==> found@.contains(p),
        decreases GRID_SIZE - y,
    {
        let mut x: usize = 0;
        while x < GRID_SIZE
            invariant
                well_formed(grid@),
                b == cells(grid@),
                length >= 1,
                y < GRID_SIZE,
                x <= GRID_SIZE,
                forall|k: int| 0 <= k < found.len() ==> legal(b, #[trigger] found@[k], length as int),
                forall|p: Placement| #[trigger]
                    legal(b, p, length as int) && (p.y < y || (p.y == y && p.x < x))
                        ==> found@.contains(p),
            decreases GRID_SIZE - x,
        {
            let ghost before = found@;
            let across = can_place_ship(grid, x, y, length, true);
            if across {
                found.push(Placement { x, y, horizontal: true });
            }
            let ghost middle = found@;
            let down = can_place_ship(grid, x, y, length, false);
            if down {
                found.push(Placement { x, y, horizontal: false });
            }
            assert forall|p: Placement| #[trigger]
                legal(b, p, length as int) && (p.y < y || (p.y == y && p.x < x + 1)) implies found@.contains(
                p,
            ) by {
                if p.y == y && p.x == x {
                    if p.horizontal {
                        assert(across);
                        assert(middle[before.len() as int] == p);
                        assert(found@[before.len() as int] == p);
                    } else {
                        assert(down);
                        assert(found@[middle.len() as int] == p);
                    }
                } else {
                    let k = choose|k: int| 0 <= k < before.len() && before[k] == p;
                    assert(found@[k] == p);
                }
            }
            x += 1;
        }
        assert forall|p: Placement| #[trigger]
            legal(b, p, length as int) && p.y < y + 1 implies found@.contains(p) by {
            assert(crate::board::free_at(b, p.x as int, p.y as int, 0, p.horizontal));
        }
        y += 1;
    }
    assert forall|p: Placement| #[trigger] legal(b, p, length as int) implies found@.contains(p) by {
        assert(crate::board::free_at(b, p.x as int, p.y as int, 0, p.horizontal));
    }
    found
}

/// Puts a ship of `length` cells on a grid at a placement chosen at random
/// among the legal ones, each with the same chance. Returns the placement;
/// `None`, with the grid untouched, when the ship fits nowhere.
pub fn place_ship_randomly(grid: &mut [Vec<CellState>], length: usize) -> (chosen: Option<
    Placement,
>)
    requires
        well_formed(old(grid)@),
        length >= 1,
    ensures
        well_formed(final(grid)@),
        chosen matches Some(p) ==> legal(cells(old(grid)@), p, length as int) && cells(
            final(grid)@,
        ) == put(cells(old(grid)@), p, length as int),
        chosen is None ==> cells(final(grid)@) == cells(old(grid)@) && forall|p: Placement|
            !legal(cells(old(grid)@), p, length as int),
{
    let mut options = legal_placements(grid, length);
    if options.len() == 0 {
        assert forall|p: Placement| !legal(cells(grid@), p, length as int) by {
            if legal(cells(grid@), p, length as int) {
                assert(options@.contains(p));
            }
        }
        return None;
    }
    let index = random_below(options.len());
    let p = options.swap_remove(index);
    place_ship(grid, p.x, p.y, length, p.horizontal);
    Some(p)
}

/// A ship of the fleet always finds room on the board that the ships before
/// it left: along a row or a column that none of them reaches.
pub proof fn lemma_room_for_next_ship(placements: Seq<Placement>, k: int)
    requires
        0 <= k <= 4,
        k <= placements.len(),
    ensures
        exists|p: Placement| legal(fleet_after(placements, k), p, ship_length(k) as int),
{
    let b = fleet_after(placements, k);
    let length = ship_length(k) as int;
    lemma_a_line_is_clear(placements, k);
    let line = choose|line: int|
        0 <= line < GRID_SIZE && (!row_blocked(placements, k, line) || !column_blocked(
            placements,
            k,
            line,
        ));
    if !row_blocked(placements, k, line) {
        let p = Placement { x: 0, y: line as usize, horizontal: true };
        assert forall|i: int| 0 <= i < length implies #[trigger] crate::board::free_at(
            b,
            0,
            line,
            i,
            true,
        ) by {
            lemma_fleet_cell(placements, k, i, line);
        }
        assert(legal(b, p, length));
    } else {
        let p = Placement { x: line as usize, y: 0, horizontal: false };
        assert forall|i: int| 0 <= i < length implies #[trigger] crate::board::free_at(
            b,
            line,
            0,
            i,
            false,
        ) by {
            lemma_fleet_cell(placements, k, line, i);
        }
        assert(legal(b, p, length));
    }
}

/// A fresh grid with a whole fleet on it, each ship at a placement chosen at
/// random among those that were legal when its turn came. There always is
/// one, so the fleet is always whole.
pub fn place_fleet_randomly() -> (grid: Vec<Vec<CellState>>)
    ensures
        well_formed(grid@),
        is_fleet(cells(grid@)),
{
    let mut grid = new_grid();
    let ghost mut placements: Seq<Placement> = Seq::empty();
    let mut k: usize = 0;
    while k < 5
        invariant
            k <= 5,
            well_formed(grid@),
            placements.len() == k,
            cells(grid@) == fleet_after(placements, k as int),
            forall|j: int|
                0 <= j < k ==> legal(
                    #[trigger] fleet_after(placements, j),
                    placements[j],
                    ship_length(j) as int,
                ),
        decreases 5 - k,
    {
        let length = SHIPS[k].0;
        match place_ship_randomly(&mut grid, length) {
            None => {
                proof {
                    lemma_room_for_next_ship(placements, k as int);
                    placements = placements.push(Placement { x: 0, y: 0, horizontal: true });
                }
            },
            Some(p) => {
                proof {
                    let before = placements;
                    placements = placements.push(p);
                    lemma_fleet_prefix(before, placements, k as int);
                    assert forall|j: int| 0 <= j < k + 1 implies legal(
                        #[trigger] fleet_after(placements, j),
                        placements[j],
                        ship_length(j) as int,
                    ) by {
                        lemma_fleet_prefix(before, placements, j);
                    }
                }
            },
        }
        k += 1;
    }
    assert(legal_fleet(placements));
    grid
}

/// The board after the first `k` ships depends on the first `k` placements
/// only.
pub proof fn lemma_fleet_prefix(short: Seq<Placement>, long: Seq<Placement>, k: int)
    requires
        0 <= k <= short.len() <= long.len(),
        forall|j: int| 0 <= j < short.len() ==> short[j] == long[j],
    ensures
        fleet_after(short, k) == fleet_after(long, k),
    decreases k,
{
    if k > 0 {
        lemma_fleet_prefix(short, long, k - 1);
    }
}

/// Whether a grid has a damaged cell of a ship that is still afloat.
pub fn has_valid_repair_target(grid: &[Vec<CellState>]) -> (found: bool)
    requires
        well_formed(grid@),
    ensures
        found == has_repair_target(cells(grid@)),
{
    let ghost b = cells(grid@);
    let mut y: usize = 0;
    while y < GRID_SIZE
        invariant
            well_formed(grid@),
            b == cells(grid@),
            y <= GRID_SIZE,
            forall|px: int, py: int| 0 <= py < y ==> !#[trigger] repairable_at(b, px, py),
        decreases GRID_SIZE - y,
    {
        let mut x: usize = 0;
        while x < GRID_SIZE
            invariant
                well_formed(grid@),
                b == cells(grid@),
                y < GRID_SIZE,
                x <= GRID_SIZE,
                forall|px: int, py: int|
                    0 <= py < y || (py == y && 0 <= px < x) ==> !#[trigger] repairable_at(
                        b,
                        px,
                        py,
                    ),
            decreases GRID_SIZE - x,
        {
            if grid[y][x] == CellState::Hit && !is_ship_fully_sunk(grid, x, y) {
                assert(repairable_at(b, x as int, y as int));
                return true;
            }
            assert(!repairable_at(b, x as int, y as int));
            x += 1;
        }
        y += 1;
    }
    assert forall|px: int, py: int| !repairable_at(b, px, py) by {
        if repairable_at(b, px, py) {
            assert(0 <= py < GRID_SIZE);
        }
    }
    false
}

/// The computer opponent: its own view of its fleet, the cells it has fired
/// at, and the cards it holds.
pub struct AiPlayer {
    grid: Vec<Vec<CellState>>,
    fired: Vec<Vec<bool>>,
    hand: Vec<PowerUp>,
}

/// The computer opponent as mathematics: its board, the flags of the cells
/// it fired at, and its hand.
pub struct AiView {
    pub grid: Seq<Seq<CellState>>,
    pub fired: Seq<Seq<bool>>,
    pub hand: Seq<PowerUp>,
}

impl View for AiPlayer {
    type V = AiView;

    closed spec fn view(&self) -> AiView {
        AiView { grid: cells(self.grid@), fired: flags(self.fired@), hand: self.hand@ }
    }
}

/// A mask with no cell fired at.
fn new_mask() -> (fired: Vec<Vec<bool>>)
    ensures
        is_mask(fired@),
        forall|x: int, y: int| on_board(x, y) ==> !(#[trigger] flags(fired@)[y][x]),
{
    let fired = vec![vec![false; GRID_SIZE]; GRID_SIZE];
    fired
}

/// The cells of the board that have not been fired at.
fn untried_cells(fired: &Vec<Vec<bool>>) -> (found: Vec<(usize, usize)>)
    requires
        is_mask(fired@),
    ensures
        forall|k: int|
            0 <= k < found.len() ==> untried(
                flags(fired@),
                (#[trigger] found@[k]).0 as int,
                found@[k].1 as int,
            ),
        forall|x: usize, y: usize| #[trigger]
            untried(flags(fired@), x as int, y as int) ==> found@.contains((x, y)),
{
    let ghost f = flags(fired@);
    let mut found: Vec<(usize, usize)> = Vec::new();
    let mut y: usize = 0;
    while y < GRID_SIZE
        invariant
            is_mask(fired@),
            f == flags(fired@),
            y <= GRID_SIZE,
            forall|k: int|
                0 <= k < found.len() ==> untried(
                    f,
                    (#[trigger] found@[k]).0 as int,
                    found@[k].1 as int,
                ),
            forall|px: usize, py: usize| #[trigger]
                untried(f, px as int, py as int) && py < y ==> found@.contains((px, py)),
        decreases GRID_SIZE - y,
    {
        let mut x: usize = 0;
        while x < GRID_SIZE
            invariant
                is_mask(fired@),
                f == flags(fired@),
                y < GRID_SIZE,
                x <= GRID_SIZE,
                forall|k: int|
                    0 <= k < found.len() ==> untried(
                        f,
                        (#[trigger] found@[k]).0 as int,
                        found@[k].1 as int,
                    ),
                forall|px: usize, py: usize| #[trigger]
                    untried(f, px as int, py as int) && (py < y || (py == y && px < x))
                        ==> found@.contains((px, py)),
            decreases GRID_SIZE - x,
        {
            if !fired[y][x] {
                let ghost before = found@;
                found.push((x, y));
                assert forall|px: usize, py: usize| #[trigger]
                    untried(f, px as int, py as int) && (py < y || (py == y && px < x
                        + 1)) implies found@.contains((px, py)) by {
                    if py == y && px == x {
                        assert(found@[before.len() as int] == (px, py));
                    } else {
                        let k = choose|k: int| 0 <= k < before.len() && before[k] == (px, py);
                        assert(found@[k] == (px, py));
                    }
                }
            }
            x += 1;
        }
        y += 1;
    }
    found
}

impl AiView {
    /// The opponent has a board, a mask and a hand of five cards at most.
    pub open spec fn inv(self) -> bool {
        &&& crate::board::is_board(self.grid)
        &&& self.fired.len() == GRID_SIZE
        &&& forall|y: int| 0 <= y < GRID_SIZE ==> (#[trigger] self.fired[y]).len() == GRID_SIZE
        &&& self.hand.len() <= MAX_HAND_SIZE
    }

    /// The opponent after the shot at `(x, y)`: the cell counts as fired at.
    pub open spec fn fired_at(self, x: int, y: int) -> AiView {
        AiView { fired: with_flag(self.fired, x, y), ..self }
    }

    /// Whether the opponent plays the card at a position of its hand: there
    /// must be a card, and a repair must have a ship to repair.
    pub open spec fn plays(self, index: int) -> bool {
        &&& 0 <= index < self.hand.len()
        &&& self.hand[index] == PowerUp::Repair ==> has_repair_target(self.grid)
    }

    /// Whichever card of the hand is picked, it is played: the hand is not
    /// empty, and if it holds a repair there is a ship to repair.
    pub open spec fn sure_to_play(self) -> bool {
        &&& self.hand.len() > 0
        &&& self.hand.contains(PowerUp::Repair) ==> has_repair_target(self.grid)
    }

    /// The opponent after it played the card at a position of its hand: the
    /// first card of that kind leaves the hand, and a repair mends the first
    /// cell that can be repaired.
    pub open spec fn played(self, index: int) -> AiView {
        let card = self.hand[index];
        AiView {
            hand: without_card(self.hand, card),
            grid: if card == PowerUp::Repair {
                match first_repairable(self.grid) {
                    Some(at) => with_cell(self.grid, at.0 as int, at.1 as int, CellState::Ship),
                    None => self.grid,
                }
            } else {
                self.grid
            },
            ..self
        }
    }

    /// The opponent after a notice of the session: a card drawn joins the
    /// hand if there is room, and an enemy shot marks the cell it came down
    /// on. Other notices change nothing.
    pub open spec fn noted(self, message: MessageView) -> AiView {
        match message {
            MessageView::CardDrawn { card } => if self.hand.len() < MAX_HAND_SIZE {
                AiView { hand: self.hand.push(card), ..self }
            } else {
                self
            },
            MessageView::Attack { x, y } => if x < GRID_SIZE && y < GRID_SIZE {
                AiView {
                    grid: with_cell(
                        self.grid,
                        x as int,
                        y as int,
                        own_cell_after(self.grid[y as int][x as int]),
                    ),
                    ..self
                }
            } else {
                self
            },
            _ => self,
        }
    }
}

/// What a list of messages stands for.
pub open spec fn message_views(messages: Seq<Message>) -> Seq<MessageView> {
    Seq::new(messages.len(), |k: int| messages[k]@)
}

/// The message, if there is one, as a list.
pub open spec fn as_list(message: Option<MessageView>) -> Seq<MessageView> {
    match message {
        Some(m) => seq![m],
        None => Seq::empty(),
    }
}

/// The message that plays a card.
pub open spec fn card_message(card: PowerUp) -> MessageView {
    MessageView::CardUsed { card, target_x: None, target_y: None }
}

impl AiView {
    /// The opponent went from `self` to `next` by playing a card of its hand
    /// and announcing it with `played`, or by keeping its cards and saying
    /// nothing.
    pub open spec fn card_move(self, next: AiView, played: Option<MessageView>) -> bool {
        match played {
            None => next == self,
            Some(message) => exists|index: int|
                self.plays(index) && next == #[trigger] self.played(index) && message
                    == card_message(self.hand[index]),
        }
    }

    /// The opponent went from `self` to `next` by firing at a cell it had
    /// not fired at and announcing the shot with `shot`, or, when no such
    /// cell is left, by doing and saying nothing.
    pub open spec fn shot_move(self, next: AiView, shot: Option<MessageView>) -> bool {
        match shot {
            None => next == self && forall|x: int, y: int| !untried(self.fired, x, y),
            Some(message) => exists|x: usize, y: usize|
                untried(self.fired, x as int, y as int) && message == (MessageView::Attack {
                    x,
                    y,
                }) && next == #[trigger] self.fired_at(x as int, y as int),
        }
    }

    /// The opponent went from `self` to `next` by a turn: a card move, then
    /// a shot move, with `sent` what the two announce, in that order.
    pub open spec fn turn_move(self, next: AiView, sent: Seq<MessageView>) -> bool {
        exists|mid: AiView, played: Option<MessageView>, shot: Option<MessageView>|
            #![trigger self.card_move(mid, played), mid.shot_move(next, shot)]
            self.card_move(mid, played) && mid.shot_move(next, shot) && sent == as_list(played)
                + as_list(shot)
    }
}

/// The view of a message that may not be there.
pub open spec fn view_of(message: Option<Message>) -> Option<MessageView> {
    match message {
        Some(m) => Some(m@),
        None => None,
    }
}

impl AiPlayer {
    /// An opponent that holds the given fleet, has fired at nothing and
    /// holds no card.
    pub fn new(fleet: Vec<Vec<CellState>>) -> (ai: AiPlayer)
        requires
            well_formed(fleet@),
        ensures
            ai@.inv(),
            ai@.grid == cells(fleet@),
            ai@.hand == Seq::<PowerUp>::empty(),
            forall|x: int, y: int| on_board(x, y) ==> untried(ai@.fired, x, y),
    {
        let fired = new_mask();
        let ai = AiPlayer { grid: fleet, fired, hand: Vec::new() };
        proof {
            lemma_views(ai.grid@, ai.fired@);
            assert forall|x: int, y: int| on_board(x, y) implies untried(ai@.fired, x, y) by {
                assert(!flags(fired@)[y][x]);
            }
        }
        ai
    }

    /// An opponent with a fresh fleet, placed at random, and the message that
    /// places the fleet with the session.
    pub fn start() -> (joined: (AiPlayer, Message))
        ensures
            joined.0@.inv(),
            is_fleet(joined.0@.grid),
            joined.0@.hand == Seq::<PowerUp>::empty(),
            forall|x: int, y: int| on_board(x, y) ==> untried(joined.0@.fired, x, y),
            joined.1@ == MessageView::PlaceShips(joined.0@.grid),
    {
        let fleet = place_fleet_randomly();
        let copy = crate::board::copy_grid(&fleet);
        (AiPlayer::new(fleet), Message::PlaceShips(copy))
    }

    /// The opponent's own view of its fleet.
    pub fn grid(&self) -> (grid: &Vec<Vec<CellState>>)
        ensures
            cells(grid@) == self@.grid,
    {
        &self.grid
    }

    /// The cards the opponent holds.
    pub fn hand(&self) -> (hand: &Vec<PowerUp>)
        ensures
            hand@ == self@.hand,
    {
        &self.hand
    }

    /// Whether the opponent has fired at `(x, y)`; a point off the board
    /// counts as fired at.
    pub fn has_fired_at(&self, x: usize, y: usize) -> (fired: bool)
        requires
            self@.inv(),
        ensures
            fired == !untried(self@.fired, x as int, y as int),
    {
        proof {
            lemma_views(self.grid@, self.fired@);
        }
        if x >= GRID_SIZE || y >= GRID_SIZE {
            return true;
        }
        self.fired[y][x]
    }

    /// Takes a notice of the session.
    pub fn note(&mut self, message: &Message)
        requires
            old(self)@.inv(),
        ensures
            final(self)@.inv(),
            final(self)@ == old(self)@.noted(message@),
    {
        proof {
            lemma_views(self.grid@, self.fired@);
        }
        match message {
            Message::CardDrawn { card } => {
                add_card(&mut self.hand, *card);
            },
            Message::Attack { x, y } => {
                if *x < GRID_SIZE && *y < GRID_SIZE {
                    let ghost before = cells(self.grid@);
                    let hit = self.grid[*y][*x] == CellState::Ship;
                    self.grid[*y][*x] = if hit {
                        CellState::Hit
                    } else {
                        CellState::Miss
                    };
                    assert(cells(self.grid@) =~~= with_cell(
                        before,
                        *x as int,
                        *y as int,
                        own_cell_after(before[*y as int][*x as int]),
                    ));
                }
            },
            _ => {},
        }
        proof {
            lemma_views(self.grid@, self.fired@);
        }
    }

    /// Fires at `(x, y)` if the cell is on the board and has not been fired
    /// at: the cell then counts as fired at and the shot is returned.
    pub fn fire_at(&mut self, x: usize, y: usize) -> (shot: Option<Message>)
        requires
            old(self)@.inv(),
        ensures
            final(self)@.inv(),
            untried(old(self)@.fired, x as int, y as int) ==> final(self)@ == old(self)@.fired_at(
                x as int,
                y as int,
            ) && shot is Some && shot->Some_0@ == (MessageView::Attack { x, y }),
            !untried(old(self)@.fired, x as int, y as int) ==> final(self)@ == old(self)@
                && shot is None,
    {
        proof {
            lemma_views(self.grid@, self.fired@);
        }
        if x >= GRID_SIZE || y >= GRID_SIZE || self.fired[y][x] {
            return None;
        }
        let ghost before = flags(self.fired@);
        self.fired[y][x] = true;
        assert(flags(self.fired@) =~~= with_flag(before, x as int, y as int));
        proof {
            lemma_views(self.grid@, self.fired@);
        }
        Some(Message::Attack { x, y })
    }

    /// Fires at a cell chosen at random among those not fired at, each with
    /// the same chance. `None` once every cell has been fired at.
    pub fn next_shot(&mut self) -> (shot: Option<Message>)
        requires
            old(self)@.inv(),
        ensures
            final(self)@.inv(),
            old(self)@.shot_move(final(self)@, view_of(shot)),
    {
        proof {
            lemma_views(self.grid@, self.fired@);
        }
        let options = untried_cells(&self.fired);
        if options.len() == 0 {
            assert forall|x: int, y: int| !untried(self@.fired, x, y) by {
                if untried(self@.fired, x, y) {
                    assert(untried(flags(self.fired@), x as usize as int, y as usize as int));
                    assert(options@.contains((x as usize, y as usize)));
                }
            }
            return None;
        }
        let index = random_below(options.len());
        let (x, y) = options[index];
        let shot = self.fire_at(x, y);
        assert(untried(old(self)@.fired, x as int, y as int) && shot->Some_0@
            == (MessageView::Attack { x, y }) && self@ == old(self)@.fired_at(x as int, y as int));
        shot
    }

    /// Plays the card at a position of the hand, unless there is none or it
    /// is a repair with no ship to repair, which stays in the hand. Returns
    /// the message that plays the card.
    pub fn play_card_at(&mut self, index: usize) -> (played: Option<Message>)
        requires
            old(self)@.inv(),
        ensures
            final(self)@.inv(),
            old(self)@.plays(index as int) ==> final(self)@ == old(self)@.played(index as int)
                && played is Some && played->Some_0@ == card_message(
                old(self)@.hand[index as int],
            ),
            !old(self)@.plays(index as int) ==> final(self)@ == old(self)@ && played is None,
    {
        proof {
            lemma_views(self.grid@, self.fired@);
        }
        if index >= self.hand.len() {
            return None;
        }
        let card = self.hand[index];
        if card == PowerUp::Repair {
            if !has_valid_repair_target(&self.grid) {
                return None;
            }
            proof {
                crate::cards::lemma_first_repairable(cells(self.grid@));
            }
            repair_first(&mut self.grid);
        }
        let at = find_card(&self.hand, card);
        proof {
            lemma_first_is_no_later(self.hand@, card, index as int, 0);
        }
        self.hand.remove(at);
        proof {
            lemma_views(self.grid@, self.fired@);
        }
        Some(Message::CardUsed { card, target_x: None, target_y: None })
    }

    /// Plays a card chosen at random from the hand, each position with the
    /// same chance; a repair with no ship to repair is kept. `None` when the
    /// hand is empty or the card was kept: a card is played for sure when
    /// the hand is not empty and a repair in it has a ship to repair.
    pub fn play_random_card(&mut self) -> (played: Option<Message>)
        requires
            old(self)@.inv(),
        ensures
            final(self)@.inv(),
            old(self)@.card_move(final(self)@, view_of(played)),
            old(self)@.sure_to_play() ==> played is Some,
    {
        if self.hand.len() == 0 {
            return None;
        }
        let index = random_below(self.hand.len());
        assert(old(self)@.hand[index as int] == PowerUp::Repair ==> old(self)@.hand.contains(
            PowerUp::Repair,
        ));
        let played = self.play_card_at(index);
        if played.is_some() {
            assert(old(self)@.plays(index as int) && self@ == old(self)@.played(index as int));
        }
        played
    }

    /// The opponent's turn: it may play a card, then it fires. Returns the
    /// messages to send, in order.
    pub fn take_turn(&mut self) -> (sent: Vec<Message>)
        requires
            old(self)@.inv(),
        ensures
            final(self)@.inv(),
            old(self)@.turn_move(final(self)@, message_views(sent@)),
    {
        let mut sent: Vec<Message> = Vec::new();
        let played = self.play_random_card();
        let ghost mid = self@;
        let ghost card = view_of(played);
        if let Some(message) = played {
            sent.push(message);
        }
        assert(message_views(sent@) =~= as_list(card));
        let shot = self.next_shot();
        let ghost fire = view_of(shot);
        if let Some(message) = shot {
            sent.push(message);
        }
        assert(message_views(sent@) =~= as_list(card) + as_list(fire));
        assert(old(self)@.card_move(mid, card) && mid.shot_move(self@, fire));
        sent
    }

    /// What the opponent sends in answer to a message of the session. It
    /// takes its turn when the turn comes, declines a last stand, is always
    /// ready to play again, and places a fresh fleet when a new game starts;
    /// every other message is only taken note of.
    pub fn respond(&mut self, message: &Message) -> (sent: Vec<Message>)
        requires
            old(self)@.inv(),
        ensures
            final(self)@.inv(),
            message@ is LastStandTrigger ==> final(self)@ == old(self)@ && sent.len() == 1
                && sent@[0]@ == (MessageView::LastStandResult { success: false }),
            message@ is PlayAgainRequest ==> final(self)@ == old(self)@ && sent.len() == 1
                && sent@[0]@ == (MessageView::PlayAgainResponse { wants_to_play: true }),
            message@ is NewGameStart ==> {
                &&& is_fleet(final(self)@.grid)
                &&& final(self)@.hand == Seq::<PowerUp>::empty()
                &&& forall|x: int, y: int| on_board(x, y) ==> untried(final(self)@.fired, x, y)
                &&& sent.len() == 1
                &&& sent@[0]@ == MessageView::PlaceShips(final(self)@.grid)
            },
            !(message@ is YourTurn || message@ is LastStandTrigger || message@ is PlayAgainRequest
                || message@ is NewGameStart) ==> sent.len() == 0 && final(self)@ == old(
                self,
            )@.noted(message@),
            message@ is YourTurn ==> old(self)@.turn_move(final(self)@, message_views(sent@)),
    {
        let mut sent: Vec<Message> = Vec::new();
        match message {
            Message::YourTurn => {
                return self.take_turn();
            },
            Message::LastStandTrigger => {
                sent.push(Message::LastStandResult { success: false });
            },
            Message::PlayAgainRequest => {
                sent.push(Message::PlayAgainResponse { wants_to_play: true });
            },
            Message::NewGameStart => {
                let (fresh, placement) = AiPlayer::start();
                *self = fresh;
                sent.push(placement);
            },
            _ => {
                self.note(message);
            },
        }
        sent
    }
}

/// The first card of a kind stands no later than any card of that kind.
pub proof fn lemma_first_is_no_later(hand: Seq<PowerUp>, card: PowerUp, index: int, start: int)
    requires
        0 <= start <= index < hand.len(),
        hand[index] == card,
    ensures
        start <= card_position(hand, card, start) <= index,
        hand[card_position(hand, card, start)] == card,
    decreases index - start,
{
    if hand[start] != card {
        lemma_first_is_no_later(hand, card, index, start + 1);
    }
}

/// The views of a well-formed grid and mask are a board and a mask, and the
/// other way round.
proof fn lemma_views(grid: Seq<Vec<CellState>>, fired: Seq<Vec<bool>>)
    ensures
        crate::board::is_board(cells(grid)) <==> well_formed(grid),
        is_mask(fired) <==> (flags(fired).len() == GRID_SIZE && forall|y: int|
            0 <= y < GRID_SIZE ==> (#[trigger] flags(fired)[y]).len() == GRID_SIZE),
{
    if crate::board::is_board(cells(grid)) {
        assert forall|y: int| 0 <= y < GRID_SIZE implies (#[trigger] grid[y]).len()
            == GRID_SIZE by {
            assert(cells(grid)[y].len() == GRID_SIZE);
        }
    }
    if well_formed(grid) {
        assert forall|y: int| 0 <= y < GRID_SIZE implies (#[trigger] cells(grid)[y]).len()
            == GRID_SIZE by {
            assert(grid[y].len() == GRID_SIZE);
        }
    }
    if is_mask(fired) {
        assert forall|y: int| 0 <= y < GRID_SIZE implies (#[trigger] flags(fired)[y]).len()
            == GRID_SIZE by {
            assert(fired[y].len() == GRID_SIZE);
        }
    }
    if flags(fired).len() == GRID_SIZE && forall|y: int|
        0 <= y < GRID_SIZE ==> (#[trigger] flags(fired)[y]).len() == GRID_SIZE {
        assert forall|y: int| 0 <= y < GRID_SIZE implies (#[trigger] fired[y]).len()
            == GRID_SIZE by {
            assert(flags(fired)[y].len() == GRID_SIZE);
        }
    }
}

} // verus!
