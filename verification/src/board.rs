//! The board model: what a grid is, where a ship may be placed, and when a
//! ship or a whole fleet is sunk.

use crate::types::{cells, CellState, GRID_SIZE};
use vstd::prelude::*;

verus! {

/// A board is ten rows of ten cells.
pub open spec fn is_board(b: Seq<Seq<CellState>>) -> bool {
    &&& b.len() == GRID_SIZE
    &&& forall|y: int| 0 <= y < GRID_SIZE ==> (#[trigger] b[y]).len() == GRID_SIZE
}

/// An executable grid is well formed when its cells make a board.
pub open spec fn well_formed(grid: Seq<Vec<CellState>>) -> bool {
    &&& grid.len() == GRID_SIZE
    &&& forall|y: int| 0 <= y < GRID_SIZE ==> (#[trigger] grid[y]).len() == GRID_SIZE
}

/// The board on which nothing has been placed or fired at.
pub open spec fn empty_board() -> Seq<Seq<CellState>> {
    Seq::new(GRID_SIZE as nat, |y: int| Seq::new(GRID_SIZE as nat, |x: int| CellState::Empty))
}

/// A cell that belongs to a ship, damaged or not.
pub open spec fn occupied(c: CellState) -> bool {
    c == CellState::Ship || c == CellState::Hit
}

/// The column of cell `(x, y)` when the span `i` cells further along.
pub open spec fn span_x(x: int, i: int, horizontal: bool) -> int {
    if horizontal {
        x + i
    } else {
        x
    }
}

/// The row of cell `(x, y)` when the span `i` cells further along.
pub open spec fn span_y(y: int, i: int, horizontal: bool) -> int {
    if horizontal {
        y
    } else {
        y + i
    }
}

/// Cell `(cx, cy)` is one of the `length` cells that start at `(x, y)` and
/// run rightwards (horizontal) or downwards (vertical).
pub open spec fn covers(x: int, y: int, length: int, horizontal: bool, cx: int, cy: int) -> bool {
    if horizontal {
        cy == y && x <= cx < x + length
    } else {
        cx == x && y <= cy < y + length
    }
}

/// The cell `i` steps along the span from `(x, y)` lies on the board and is
/// `Empty`.
pub open spec fn free_at(b: Seq<Seq<CellState>>, x: int, y: int, i: int, horizontal: bool) -> bool {
    &&& 0 <= span_x(x, i, horizontal) < GRID_SIZE
    &&& 0 <= span_y(y, i, horizontal) < GRID_SIZE
    &&& b[span_y(y, i, horizontal)][span_x(x, i, horizontal)] == CellState::Empty
}

/// Every one of the `length` cells from `(x, y)` lies on the board and is
/// `Empty`.
pub open spec fn can_place(
    b: Seq<Seq<CellState>>,
    x: int,
    y: int,
    length: int,
    horizontal: bool,
) -> bool {
    forall|i: int| 0 <= i < length ==> #[trigger] free_at(b, x, y, i, horizontal)
}

/// The board `b` with the covered cells turned into `Ship`.
pub open spec fn placed(
    b: Seq<Seq<CellState>>,
    x: int,
    y: int,
    length: int,
    horizontal: bool,
) -> Seq<Seq<CellState>> {
    Seq::new(
        b.len(),
        |cy: int|
            Seq::new(
                b[cy].len(),
                |cx: int|
                    if covers(x, y, length, horizontal, cx, cy) {
                        CellState::Ship
                    } else {
                        b[cy][cx]
                    },
            ),
    )
}

/// The board `b` with the single cell `(x, y)` replaced by `c`.
pub open spec fn with_cell(b: Seq<Seq<CellState>>, x: int, y: int, c: CellState) -> Seq<
    Seq<CellState>,
> {
    b.update(y, b[y].update(x, c))
}

/// No cell of the board is an undamaged ship cell.
pub open spec fn all_sunk(b: Seq<Seq<CellState>>) -> bool {
    forall|y: int, x: int| 0 <= y < b.len() && 0 <= x < b[y].len() ==> b[y][x] != CellState::Ship
}

/// Column `x` of the board, read from the top.
pub open spec fn column(b: Seq<Seq<CellState>>, x: int) -> Seq<CellState> {
    Seq::new(b.len(), |y: int| b[y][x])
}

/// Position `k` of a line belongs to the run scanned from position `i`:
/// every cell from `k` up to and including `i` is occupied when `k` does not
/// lie after `i`, and every cell after `i` up to and including `k` is occupied
/// when it does. For an occupied cell `i` this is the contiguous run of ship
/// cells through `i`.
pub open spec fn in_run(line: Seq<CellState>, i: int, k: int) -> bool {
    &&& 0 <= k < line.len()
    &&& if k <= i {
        forall|j: int| k <= j <= i ==> occupied(#[trigger] line[j])
    } else {
        forall|j: int| i < j <= k ==> occupied(#[trigger] line[j])
    }
}

/// No cell of the run scanned from `i` is an undamaged ship cell.
pub open spec fn line_sunk(line: Seq<CellState>, i: int) -> bool {
    forall|k: int| in_run(line, i, k) ==> #[trigger] line[k] != CellState::Ship
}

/// The ship through `(x, y)` is taken to lie horizontally when the cell to its
/// left or to its right is occupied.
pub open spec fn lies_horizontal(b: Seq<Seq<CellState>>, x: int, y: int) -> bool {
    ||| (x > 0 && occupied(b[y][x - 1]))
    ||| (x + 1 < GRID_SIZE && occupied(b[y][x + 1]))
}

/// Every cell of the ship through `(x, y)` has been hit: the run is scanned
/// along the row when the ship lies horizontally, along the column otherwise.
pub open spec fn sunk_at(b: Seq<Seq<CellState>>, x: int, y: int) -> bool {
    if lies_horizontal(b, x, y) {
        line_sunk(b[y], x)
    } else {
        line_sunk(column(b, x), y)
    }
}

/// A fresh grid with every cell `Empty`.
pub fn new_grid() -> (grid: Vec<Vec<CellState>>)
    ensures
        well_formed(grid@),
        cells(grid@) == empty_board(),
{
    let grid = vec![vec![CellState::Empty; GRID_SIZE]; GRID_SIZE];
    assert(cells(grid@) =~~= empty_board());
    grid
}

/// Whether a grid has the shape of a board.
pub fn is_well_formed(grid: &[Vec<CellState>]) -> (ok: bool)
    ensures
        ok == well_formed(grid@),
{
    if grid.len() != GRID_SIZE {
        return false;
    }
    let mut y: usize = 0;
    while y < GRID_SIZE
        invariant
            y <= GRID_SIZE,
            grid.len() == GRID_SIZE,
            forall|r: int| 0 <= r < y ==> (#[trigger] grid@[r]).len() == GRID_SIZE,
        decreases GRID_SIZE - y,
    {
        if grid[y].len() != GRID_SIZE {
            return false;
        }
        y += 1;
    }
    true
}

/// A copy of a grid, cell for cell.
pub fn copy_grid(grid: &[Vec<CellState>]) -> (copy: Vec<Vec<CellState>>)
    ensures
        cells(copy@) == cells(grid@),
        well_formed(grid@) ==> well_formed(copy@),
{
    let mut copy: Vec<Vec<CellState>> = Vec::new();
    let mut y: usize = 0;
    while y < grid.len()
        invariant
            y <= grid.len(),
            copy.len() == y,
            forall|r: int| 0 <= r < y ==> (#[trigger] copy@[r])@ == grid@[r]@,
        decreases grid.len() - y,
    {
        let mut row: Vec<CellState> = Vec::new();
        let mut x: usize = 0;
        while x < grid[y].len()
            invariant
                y < grid.len(),
                x <= grid@[y as int].len(),
                row.len() == x,
                forall|c: int| 0 <= c < x ==> #[trigger] row@[c] == grid@[y as int]@[c],
            decreases grid@[y as int].len() - x,
        {
            row.push(grid[y][x]);
            x += 1;
        }
        assert(row@ =~= grid@[y as int]@);
        copy.push(row);
        y += 1;
    }
    assert(cells(copy@) =~= cells(grid@));
    copy
}

/// Whether a ship of `length` cells may be placed with its first cell at
/// `(x, y)`: all its cells must lie on the board and be `Empty`.
pub fn can_place_ship(
    grid: &[Vec<CellState>],
    x: usize,
    y: usize,
    length: usize,
    horizontal: bool,
) -> (placeable: bool)
    requires
        well_formed(grid@),
    ensures
        placeable == can_place(cells(grid@), x as int, y as int, length as int, horizontal),
{
    let ghost b = cells(grid@);
    if length == 0 {
        return true;
    }
    if x >= GRID_SIZE || y >= GRID_SIZE {
        assert(!free_at(b, x as int, y as int, 0, horizontal));
        return false;
    }
    let along: usize = if horizontal {
        x
    } else {
        y
    };
    if length > GRID_SIZE - along {
        assert(!free_at(b, x as int, y as int, length - 1, horizontal));
        return false;
    }
    let mut i: usize = 0;
    while i < length
        invariant
            well_formed(grid@),
            b == cells(grid@),
            x < GRID_SIZE,
            y < GRID_SIZE,
            i <= length,
            along == (if horizontal {
                x
            } else {
                y
            }),
            length <= GRID_SIZE - along,
            forall|k: int| 0 <= k < i ==> #[trigger] free_at(b, x as int, y as int, k, horizontal),
        decreases length - i,
    {
        let cell = if horizontal {
            grid[y][x + i]
        } else {
            grid[y + i][x]
        };
        if cell != CellState::Empty {
            assert(!free_at(b, x as int, y as int, i as int, horizontal));
            return false;
        }
        i += 1;
    }
    true
}

/// Turns the `length` cells from `(x, y)` into ship cells. The placement must
/// have been validated with [`can_place_ship`]; it is not checked again.
pub fn place_ship(
    grid: &mut [Vec<CellState>],
    x: usize,
    y: usize,
    length: usize,
    horizontal: bool,
)
    requires
        well_formed(old(grid)@),
        can_place(cells(old(grid)@), x as int, y as int, length as int, horizontal),
    ensures
        well_formed(final(grid)@),
        cells(final(grid)@) == placed(
            cells(old(grid)@),
            x as int,
            y as int,
            length as int,
            horizontal,
        ),
{
    let ghost before = cells(grid@);
    assert(before =~~= placed(before, x as int, y as int, 0, horizontal));
    let mut i: usize = 0;
    while i < length
        invariant
            well_formed(grid@),
            before == cells(old(grid)@),
            is_board(before),
            can_place(before, x as int, y as int, length as int, horizontal),
            i <= length,
            cells(grid@) == placed(before, x as int, y as int, i as int, horizontal),
        decreases length - i,
    {
        assert(free_at(before, x as int, y as int, i as int, horizontal));
        let ghost prev = cells(grid@);
        if horizontal {
            grid[y][x + i] = CellState::Ship;
        } else {
            grid[y + i][x] = CellState::Ship;
        }
        assert(cells(grid@) =~~= placed(before, x as int, y as int, i + 1, horizontal)) by {
            assert forall|cy: int, cx: int| 0 <= cy < GRID_SIZE && 0 <= cx < GRID_SIZE implies (
            #[trigger] cells(grid@)[cy][cx]) == placed(
                before,
                x as int,
                y as int,
                i + 1,
                horizontal,
            )[cy][cx] by {
                assert(prev[cy][cx] == placed(before, x as int, y as int, i as int, horizontal)[cy][cx]);
            }
        }
        i += 1;
    }
    assert(cells(grid@) =~~= placed(before, x as int, y as int, length as int, horizontal));
}

/// Whether the fleet on a grid is gone: no cell is an undamaged ship cell.
pub fn all_ships_sunk(grid: &[Vec<CellState>]) -> (sunk: bool)
    ensures
        sunk == all_sunk(cells(grid@)),
{
    let ghost b = cells(grid@);
    let mut y: usize = 0;
    while y < grid.len()
        invariant
            y <= grid.len(),
            b == cells(grid@),
            forall|r: int, c: int|
                0 <= r < y && 0 <= c < b[r].len() ==> #[trigger] b[r][c] != CellState::Ship,
        decreases grid.len() - y,
    {
        let mut x: usize = 0;
        while x < grid[y].len()
            invariant
                y < grid.len(),
                b == cells(grid@),
                x <= b[y as int].len(),
                forall|c: int| 0 <= c < x ==> #[trigger] b[y as int][c] != CellState::Ship,
            decreases b[y as int].len() - x,
        {
            if grid[y][x] == CellState::Ship {
                assert(b[y as int][x as int] == CellState::Ship);
                return false;
            }
            x += 1;
        }
        y += 1;
    }
    true
}

/// Column `x` of a grid, copied out from the top row down.
fn column_of(grid: &[Vec<CellState>], x: usize) -> (line: Vec<CellState>)
    requires
        well_formed(grid@),
        x < GRID_SIZE,
    ensures
        line@ == column(cells(grid@), x as int),
{
    let mut line: Vec<CellState> = Vec::new();
    let mut y: usize = 0;
    while y < GRID_SIZE
        invariant
            well_formed(grid@),
            x < GRID_SIZE,
            y <= GRID_SIZE,
            line.len() == y,
            forall|r: int| 0 <= r < y ==> #[trigger] line@[r] == grid@[r]@[x as int],
        decreases GRID_SIZE - y,
    {
        line.push(grid[y][x]);
        y += 1;
    }
    assert(line@ =~= column(cells(grid@), x as int));
    line
}

/// Scans the run from position `i` of a line outwards, first towards the
/// start, then towards the end, and stops at the first undamaged ship cell.
fn line_is_sunk(line: &Vec<CellState>, i: usize) -> (sunk: bool)
    requires
        i < line.len(),
    ensures
        sunk == line_sunk(line@, i as int),
{
    let mut lo: usize = i + 1;
    while lo > 0 && matches!(line[lo - 1], CellState::Ship | CellState::Hit)
        invariant
            i < line.len(),
            lo <= i + 1,
            forall|j: int| lo <= j <= i ==> #[trigger] line@[j] == CellState::Hit,
        decreases lo,
    {
        if line[lo - 1] == CellState::Ship {
            assert(in_run(line@, i as int, lo - 1));
            return false;
        }
        lo -= 1;
    }
    let mut hi: usize = i + 1;
    while hi < line.len() && matches!(line[hi], CellState::Ship | CellState::Hit)
        invariant
            i < hi <= line.len(),
            forall|j: int| i < j < hi ==> #[trigger] line@[j] == CellState::Hit,
        decreases line.len() - hi,
    {
        if line[hi] == CellState::Ship {
            assert(in_run(line@, i as int, hi as int));
            return false;
        }
        hi += 1;
    }
    assert forall|k: int| in_run(line@, i as int, k) implies #[trigger] line@[k]
        != CellState::Ship by {
        if k <= i {
            if k < lo {
                assert(occupied(line@[lo - 1]));
            }
        } else {
            if k >= hi {
                assert(occupied(line@[hi as int]));
            }
        }
    }
    true
}

/// Finds both ends of the run through the hit cell `i` of a line, then looks
/// for an undamaged ship cell between them.
fn line_is_fully_sunk(line: &Vec<CellState>, i: usize) -> (sunk: bool)
    requires
        i < line.len(),
        line@[i as int] == CellState::Hit,
    ensures
        sunk == line_sunk(line@, i as int),
{
    let mut left: usize = i;
    while left > 0 && matches!(line[left - 1], CellState::Ship | CellState::Hit)
        invariant
            i < line.len(),
            left <= i,
            forall|j: int| left <= j <= i ==> occupied(#[trigger] line@[j]),
        decreases left,
    {
        left -= 1;
    }
    let mut right: usize = i;
    while right < line.len() - 1 && matches!(line[right + 1], CellState::Ship | CellState::Hit)
        invariant
            i <= right < line.len(),
            forall|j: int| i <= j <= right ==> occupied(#[trigger] line@[j]),
        decreases line.len() - right,
    {
        right += 1;
    }
    let mut k: usize = left;
    while k <= right
        invariant
            left <= k <= right + 1,
            left <= i <= right < line.len(),
            forall|j: int| left <= j <= right ==> occupied(#[trigger] line@[j]),
            forall|j: int| left <= j < k ==> #[trigger] line@[j] != CellState::Ship,
        decreases right + 1 - k,
    {
        if line[k] == CellState::Ship {
            assert(in_run(line@, i as int, k as int));
            return false;
        }
        k += 1;
    }
    assert forall|j: int| in_run(line@, i as int, j) implies #[trigger] line@[j]
        != CellState::Ship by {
        if j < left {
            assert(occupied(line@[left - 1]));
        }
        if j > right {
            assert(occupied(line@[right + 1]));
        }
    }
    true
}

/// Whether the cell to the left or to the right of `(x, y)` belongs to a ship.
fn has_horizontal_neighbour(grid: &[Vec<CellState>], x: usize, y: usize) -> (horizontal: bool)
    requires
        well_formed(grid@),
        x < GRID_SIZE,
        y < GRID_SIZE,
    ensures
        horizontal == lies_horizontal(cells(grid@), x as int, y as int),
{
    (x > 0 && matches!(grid[y][x - 1], CellState::Ship | CellState::Hit)) || (x + 1 < GRID_SIZE
        && matches!(grid[y][x + 1], CellState::Ship | CellState::Hit))
}

/// Whether the ship through the hit cell `(x, y)` is sunk. The ship is taken
/// to lie along the row when a horizontal neighbour of the cell is occupied,
/// along the column otherwise; it is sunk when the run of ship cells scanned
/// outwards from the cell holds no undamaged one.
pub fn is_ship_sunk_at(grid: &[Vec<CellState>], x: usize, y: usize) -> (sunk: bool)
    requires
        well_formed(grid@),
        x < GRID_SIZE,
        y < GRID_SIZE,
    ensures
        sunk == sunk_at(cells(grid@), x as int, y as int),
{
    if has_horizontal_neighbour(grid, x, y) {
        line_is_sunk(&grid[y], x)
    } else {
        let line = column_of(grid, x);
        line_is_sunk(&line, y)
    }
}

/// Whether `(x, y)` is a hit cell of a ship that is sunk. A cell that has not
/// been hit is never part of a sunk ship.
pub fn is_ship_fully_sunk(grid: &[Vec<CellState>], x: usize, y: usize) -> (sunk: bool)
    requires
        well_formed(grid@),
        x < GRID_SIZE,
        y < GRID_SIZE,
    ensures
        sunk == (cells(grid@)[y as int][x as int] == CellState::Hit && sunk_at(
            cells(grid@),
            x as int,
            y as int,
        )),
{
    if grid[y][x] != CellState::Hit {
        return false;
    }
    if has_horizontal_neighbour(grid, x, y) {
        line_is_fully_sunk(&grid[y], x)
    } else {
        let line = column_of(grid, x);
        line_is_fully_sunk(&line, y)
    }
}

/// A ship cannot be placed where one of its cells would lie off the board or
/// on a cell that is not empty, such as a cell of another ship; it can be
/// placed where all its cells lie on the board and are empty.
pub proof fn lemma_placement_rules(
    b: Seq<Seq<CellState>>,
    x: int,
    y: int,
    length: int,
    horizontal: bool,
    i: int,
)
    requires
        is_board(b),
        0 <= i < length,
    ensures
        span_x(x, i, horizontal) < 0 || span_x(x, i, horizontal) >= GRID_SIZE ==> !can_place(
            b,
            x,
            y,
            length,
            horizontal,
        ),
        span_y(y, i, horizontal) < 0 || span_y(y, i, horizontal) >= GRID_SIZE ==> !can_place(
            b,
            x,
            y,
            length,
            horizontal,
        ),
        free_at(b, x, y, i, horizontal) || !can_place(b, x, y, length, horizontal),
        (forall|k: int| 0 <= k < length ==> #[trigger] free_at(b, x, y, k, horizontal)) ==> can_place(
            b,
            x,
            y,
            length,
            horizontal,
        ),
        0 <= span_x(x, i, horizontal) < GRID_SIZE && 0 <= span_y(y, i, horizontal) < GRID_SIZE
            && b[span_y(y, i, horizontal)][span_x(x, i, horizontal)] == CellState::Ship
            ==> !can_place(b, x, y, length, horizontal),
{
    if can_place(b, x, y, length, horizontal) {
        assert(free_at(b, x, y, i, horizontal));
    }
}

/// A ship of at least two cells that stands alone on its axis, with a hit
/// cell `(x, y)`, is reported sunk exactly when every one of its cells has
/// been hit. The ship occupies the `length` cells from `(x0, y0)`; the cells
/// just beyond its two ends are not occupied; and for a vertical ship the
/// horizontal neighbours of `(x, y)` are not occupied either, so that the
/// scan runs down the column.
pub proof fn lemma_sunk_iff_every_cell_hit(
    b: Seq<Seq<CellState>>,
    x0: int,
    y0: int,
    length: int,
    horizontal: bool,
    x: int,
    y: int,
)
    requires
        is_board(b),
        2 <= length,
        0 <= x0,
        0 <= y0,
        span_x(x0, length - 1, horizontal) < GRID_SIZE,
        span_y(y0, length - 1, horizontal) < GRID_SIZE,
        forall|i: int|
            0 <= i < length ==> occupied(
                #[trigger] b[span_y(y0, i, horizontal)][span_x(x0, i, horizontal)],
            ),
        span_x(x0, -1, horizontal) < 0 || span_y(y0, -1, horizontal) < 0 || !occupied(
            b[span_y(y0, -1, horizontal)][span_x(x0, -1, horizontal)],
        ),
        span_x(x0, length, horizontal) >= GRID_SIZE || span_y(y0, length, horizontal) >= GRID_SIZE
            || !occupied(b[span_y(y0, length, horizontal)][span_x(x0, length, horizontal)]),
        !horizontal ==> !lies_horizontal(b, x, y),
        covers(x0, y0, length, horizontal, x, y),
        b[y][x] == CellState::Hit,
    ensures
        sunk_at(b, x, y) <==> forall|i: int|
            0 <= i < length ==> #[trigger] b[span_y(y0, i, horizontal)][span_x(x0, i, horizontal)]
                == CellState::Hit,
{
    let line = if horizontal {
        b[y]
    } else {
        column(b, x)
    };
    let start = if horizontal {
        x0
    } else {
        y0
    };
    let at = if horizontal {
        x
    } else {
        y
    };
    assert(line.len() == GRID_SIZE);
    // The ship's cells, read off the line.
    assert forall|k: int| start <= k < start + length implies occupied(#[trigger] line[k]) by {
        assert(occupied(b[span_y(y0, k - start, horizontal)][span_x(x0, k - start, horizontal)]));
    }
    if horizontal {
        if x > x0 {
            assert(occupied(line[x - 1]));
        } else {
            assert(occupied(line[x + 1]));
        }
        assert(lies_horizontal(b, x, y));
    }
    assert(sunk_at(b, x, y) == line_sunk(line, at));
    // The run scanned from the hit cell is the ship itself.
    assert forall|k: int| in_run(line, at, k) <==> start <= k < start + length by {
        if in_run(line, at, k) {
            if k < start {
                assert(occupied(line[start - 1]));
            }
            if k >= start + length {
                assert(occupied(line[start + length]));
            }
        }
    }
    if line_sunk(line, at) {
        assert forall|i: int| 0 <= i < length implies #[trigger] b[span_y(
            y0,
            i,
            horizontal,
        )][span_x(x0, i, horizontal)] == CellState::Hit by {
            assert(in_run(line, at, start + i));
            assert(line[start + i] != CellState::Ship);
            assert(occupied(b[span_y(y0, i, horizontal)][span_x(x0, i, horizontal)]));
        }
    }
    if forall|i: int|
        0 <= i < length ==> #[trigger] b[span_y(y0, i, horizontal)][span_x(x0, i, horizontal)]
            == CellState::Hit {
        assert forall|k: int| in_run(line, at, k) implies #[trigger] line[k]
            != CellState::Ship by {
            assert(b[span_y(y0, k - start, horizontal)][span_x(x0, k - start, horizontal)]
                == CellState::Hit);
        }
    }
}

} // verus!
