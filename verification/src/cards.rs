//! The power-up cards and the last-stand rescue: what each does to a grid and
//! to a hand.

use crate::board::{
    can_place, can_place_ship, is_ship_sunk_at, place_ship, placed, sunk_at, well_formed,
    with_cell,
};
use crate::chance::{random_below, random_card};
use crate::types::{cells, CellState, PowerUp, GRID_SIZE, SHIPS};
use vstd::prelude::*;

verus! {

/// The most cards a hand holds; a draw into a full hand does nothing.
pub const MAX_HAND_SIZE: usize = 5;

/// The length of the ship that a last stand brings back: the smallest class.
pub open spec fn rescue_length() -> int {
    2
}

/// `(x, y)` names a cell of the board.
pub open spec fn on_board(x: int, y: int) -> bool {
    0 <= x < GRID_SIZE && 0 <= y < GRID_SIZE
}

/// The rank of a cell when the board is read row by row from the top.
pub open spec fn rank(x: int, y: int) -> int {
    y * GRID_SIZE + x
}

/// `(x, y)` is a cell of the board in state `a` or in state `c`.
pub open spec fn in_state(b: Seq<Seq<CellState>>, x: int, y: int, a: CellState, c: CellState) -> bool {
    on_board(x, y) && (b[y][x] == a || b[y][x] == c)
}

/// A rescue ship fits with its first cell at `(x, y)`, lying either way.
pub open spec fn restorable_at(b: Seq<Seq<CellState>>, x: int, y: int) -> bool {
    can_place(b, x, y, rescue_length(), true) || can_place(b, x, y, rescue_length(), false)
}

/// The board after the rescue ship went in at `(x, y)`: horizontally when
/// that is legal, vertically otherwise.
pub open spec fn restored_at(b: Seq<Seq<CellState>>, x: int, y: int) -> Seq<Seq<CellState>> {
    if can_place(b, x, y, rescue_length(), true) {
        placed(b, x, y, rescue_length(), true)
    } else {
        placed(b, x, y, rescue_length(), false)
    }
}

/// A missile may still strike `(x, y)`: the cell is `Empty` or `Ship`.
pub open spec fn is_target(b: Seq<Seq<CellState>>, x: int, y: int) -> bool {
    in_state(b, x, y, CellState::Empty, CellState::Ship)
}

/// The board after a missile came down on `(x, y)`: a ship cell is hit, an
/// empty cell is a miss, and any other cell, or a point off the board, leaves
/// the board as it was.
pub open spec fn after_strike(b: Seq<Seq<CellState>>, x: int, y: int) -> Seq<Seq<CellState>> {
    if is_target(b, x, y) {
        with_cell(
            b,
            x,
            y,
            if b[y][x] == CellState::Ship {
                CellState::Hit
            } else {
                CellState::Miss
            },
        )
    } else {
        b
    }
}

/// A cell after a shot: a ship cell is hit, or missed when a shield blocked
/// the shot; an empty cell is missed; a cell shot at before stays as it is.
pub open spec fn cell_after_shot(cell: CellState, blocked: bool) -> CellState {
    if cell == CellState::Ship {
        if blocked {
            CellState::Miss
        } else {
            CellState::Hit
        }
    } else if cell == CellState::Empty {
        CellState::Miss
    } else {
        cell
    }
}

/// A shot at `(x, y)` is a hit: the cell is an undamaged ship cell and no
/// shield blocks the shot.
pub open spec fn shot_hits(b: Seq<Seq<CellState>>, x: int, y: int, shielded: bool) -> bool {
    b[y][x] == CellState::Ship && !shielded
}

/// The board after a shot at `(x, y)`.
pub open spec fn after_shot(b: Seq<Seq<CellState>>, x: int, y: int, shielded: bool) -> Seq<
    Seq<CellState>,
> {
    with_cell(b, x, y, cell_after_shot(b[y][x], shielded))
}

/// `(x, y)` is a damaged cell of a ship that is still afloat.
pub open spec fn repairable_at(b: Seq<Seq<CellState>>, x: int, y: int) -> bool {
    on_board(x, y) && b[y][x] == CellState::Hit && !sunk_at(b, x, y)
}

/// Some cell of the board can be repaired.
pub open spec fn has_repair_target(b: Seq<Seq<CellState>>) -> bool {
    exists|x: int, y: int| repairable_at(b, x, y)
}

/// The first cell at or after `(x, y)`, reading row by row, that `wanted`
/// holds of; `None` when it holds of none.
pub open spec fn first_from(wanted: spec_fn(int, int) -> bool, x: int, y: int) -> Option<
    (usize, usize),
>
    decreases GRID_SIZE - y, GRID_SIZE - x,
{
    if x < 0 || y < 0 || y >= GRID_SIZE {
        None
    } else if x >= GRID_SIZE {
        first_from(wanted, 0, y + 1)
    } else if wanted(x, y) {
        Some((x as usize, y as usize))
    } else {
        first_from(wanted, x + 1, y)
    }
}

/// The first undamaged ship cell at or after `(x, y)` in reading order.
pub open spec fn first_ship_from(b: Seq<Seq<CellState>>, x: int, y: int) -> Option<(usize, usize)> {
    first_from(|cx: int, cy: int| b[cy][cx] == CellState::Ship, x, y)
}

/// The first cell in reading order that can be repaired.
pub open spec fn first_repairable(b: Seq<Seq<CellState>>) -> Option<(usize, usize)> {
    first_from(|cx: int, cy: int| repairable_at(b, cx, cy), 0, 0)
}

/// What a radar shows of a board: its first two undamaged ship cells in
/// reading order, or as many as there are.
pub open spec fn radar_sweep(b: Seq<Seq<CellState>>) -> Seq<(usize, usize)> {
    match first_ship_from(b, 0, 0) {
        None => Seq::empty(),
        Some(p) => match first_ship_from(b, p.0 + 1, p.1 as int) {
            None => seq![p],
            Some(q) => seq![p, q],
        },
    }
}

/// What [`first_from`] finds is the wanted cell of least rank at or after the
/// start, and it finds one whenever there is one.
pub proof fn lemma_first_from(wanted: spec_fn(int, int) -> bool, x: int, y: int)
    requires
        0 <= x <= GRID_SIZE,
        0 <= y <= GRID_SIZE,
    ensures
        first_from(wanted, x, y) matches Some(p) ==> {
            &&& on_board(p.0 as int, p.1 as int)
            &&& wanted(p.0 as int, p.1 as int)
            &&& rank(x, y) <= rank(p.0 as int, p.1 as int)
            &&& forall|cx: int, cy: int|
                on_board(cx, cy) && rank(x, y) <= rank(cx, cy) < rank(p.0 as int, p.1 as int)
                    ==> !#[trigger] wanted(cx, cy)
        },
        first_from(wanted, x, y) is None ==> forall|cx: int, cy: int|
            on_board(cx, cy) && rank(x, y) <= rank(cx, cy) ==> !#[trigger] wanted(cx, cy),
    decreases GRID_SIZE - y, GRID_SIZE - x,
{
    if y >= GRID_SIZE {
    } else if x >= GRID_SIZE {
        lemma_first_from(wanted, 0, y + 1);
    } else if wanted(x, y) {
    } else {
        lemma_first_from(wanted, x + 1, y);
    }
}

/// A repair finds a cell exactly when some cell of the board can be repaired.
pub proof fn lemma_first_repairable(b: Seq<Seq<CellState>>)
    ensures
        first_repairable(b) is Some <==> has_repair_target(b),
        first_repairable(b) matches Some(p) ==> repairable_at(b, p.0 as int, p.1 as int),
{
    let wanted = |cx: int, cy: int| repairable_at(b, cx, cy);
    lemma_first_from(wanted, 0, 0);
    if first_repairable(b) is Some {
        let p = first_repairable(b)->Some_0;
        assert(wanted(p.0 as int, p.1 as int));
        assert(repairable_at(b, p.0 as int, p.1 as int));
    } else {
        assert forall|cx: int, cy: int| !repairable_at(b, cx, cy) by {
            if repairable_at(b, cx, cy) {
                assert(wanted(cx, cy));
            }
        }
    }
}

/// A radar shows at most two cells, each an undamaged ship cell of the board,
/// and never the same cell twice.
pub proof fn lemma_radar_sweep(b: Seq<Seq<CellState>>)
    ensures
        radar_sweep(b).len() <= 2,
        forall|k: int|
            0 <= k < radar_sweep(b).len() ==> in_state(
                b,
                (#[trigger] radar_sweep(b)[k]).0 as int,
                radar_sweep(b)[k].1 as int,
                CellState::Ship,
                CellState::Ship,
            ),
        radar_sweep(b).len() == 2 ==> radar_sweep(b)[0] != radar_sweep(b)[1],
        radar_sweep(b).len() < 2 ==> forall|x: int, y: int|
            in_state(b, x, y, CellState::Ship, CellState::Ship) ==> radar_sweep(b).len() == 1
                && radar_sweep(b)[0] == (x as usize, y as usize),
{
    let wanted = |cx: int, cy: int| b[cy][cx] == CellState::Ship;
    lemma_first_from(wanted, 0, 0);
    match first_ship_from(b, 0, 0) {
        None => {
            assert forall|x: int, y: int|
                in_state(b, x, y, CellState::Ship, CellState::Ship) implies false by {
                assert(wanted(x, y));
            }
        },
        Some(p) => {
            assert(wanted(p.0 as int, p.1 as int));
            lemma_first_from(wanted, p.0 + 1, p.1 as int);
            match first_ship_from(b, p.0 + 1, p.1 as int) {
                None => {
                    assert forall|x: int, y: int|
                        in_state(b, x, y, CellState::Ship, CellState::Ship) implies radar_sweep(
                        b,
                    )[0] == (x as usize, y as usize) by {
                        assert(wanted(x, y));
                    }
                },
                Some(q) => {
                    assert(wanted(q.0 as int, q.1 as int));
                },
            }
        },
    }
}

/// An element other than the one removed is still there after the removal.
pub proof fn lemma_remove_keeps_others<T>(s: Seq<T>, index: int, v: T)
    requires
        0 <= index < s.len(),
        s.contains(v),
        s[index] != v,
    ensures
        s.remove(index).contains(v),
{
    let k = choose|k: int| 0 <= k < s.len() && s[k] == v;
    if k < index {
        assert(s.remove(index)[k] == v);
    } else {
        assert(s.remove(index)[k - 1] == v);
    }
}

/// Every cell of the grid in state `a` or `c`, in reading order.
pub fn cells_in_state(grid: &[Vec<CellState>], a: CellState, c: CellState) -> (found: Vec<
    (usize, usize),
>)
    requires
        well_formed(grid@),
    ensures
        forall|k: int|
            0 <= k < found.len() ==> in_state(
                cells(grid@),
                (#[trigger] found@[k]).0 as int,
                found@[k].1 as int,
                a,
                c,
            ),
        forall|k: int, l: int|
            0 <= k < l < found.len() ==> rank(
                (#[trigger] found@[k]).0 as int,
                found@[k].1 as int,
            ) < rank((#[trigger] found@[l]).0 as int, found@[l].1 as int),
        forall|x: usize, y: usize|
            #[trigger] in_state(cells(grid@), x as int, y as int, a, c) ==> found@.contains((x, y)),
{
    let ghost b = cells(grid@);
    let mut found: Vec<(usize, usize)> = Vec::new();
    let mut y: usize = 0;
    while y < GRID_SIZE
        invariant
            well_formed(grid@),
            b == cells(grid@),
            y <= GRID_SIZE,
            forall|k: int|
                0 <= k < found.len() ==> in_state(
                    b,
                    (#[trigger] found@[k]).0 as int,
                    found@[k].1 as int,
                    a,
                    c,
                ) && rank(found@[k].0 as int, found@[k].1 as int) < rank(0, y as int),
            forall|k: int, l: int|
                0 <= k < l < found.len() ==> rank(
                    (#[trigger] found@[k]).0 as int,
                    found@[k].1 as int,
                ) < rank((#[trigger] found@[l]).0 as int, found@[l].1 as int),
            forall|px: usize, py: usize|
                #[trigger] in_state(b, px as int, py as int, a, c) && py < y ==> found@.contains(
                    (px, py),
                ),
        decreases GRID_SIZE - y,
    {
        let mut x: usize = 0;
        while x < GRID_SIZE
            invariant
                well_formed(grid@),
                b == cells(grid@),
                y < GRID_SIZE,
                x <= GRID_SIZE,
                forall|k: int|
                    0 <= k < found.len() ==> in_state(
                        b,
                        (#[trigger] found@[k]).0 as int,
                        found@[k].1 as int,
                        a,
                        c,
                    ) && rank(found@[k].0 as int, found@[k].1 as int) < rank(x as int, y as int),
                forall|k: int, l: int|
                    0 <= k < l < found.len() ==> rank(
                        (#[trigger] found@[k]).0 as int,
                        found@[k].1 as int,
                    ) < rank((#[trigger] found@[l]).0 as int, found@[l].1 as int),
                forall|px: usize, py: usize|
                    #[trigger] in_state(b, px as int, py as int, a, c) && (py < y || (py == y && px
                        < x)) ==> found@.contains((px, py)),
            decreases GRID_SIZE - x,
        {
            let cell = grid[y][x];
            if cell == a || cell == c {
                let ghost prev = found@;
                found.push((x, y));
                assert forall|px: usize, py: usize|
                    #[trigger] in_state(b, px as int, py as int, a, c) && (py < y || (py == y && px
                        < x + 1)) implies found@.contains((px, py)) by {
                    if py == y && px == x {
                        assert(found@[prev.len() as int] == (px, py));
                    } else {
                        let k = choose|k: int| 0 <= k < prev.len() && prev[k] == (px, py);
                        assert(found@[k] == (px, py));
                    }
                }
            }
            x += 1;
        }
        y += 1;
    }
    found
}

/// Removes one element of the list, each with the same chance, and returns it.
fn take_random(candidates: &mut Vec<(usize, usize)>) -> (taken: (usize, usize))
    requires
        old(candidates).len() > 0,
    ensures
        exists|index: int|
            0 <= index < old(candidates).len() && taken == #[trigger] old(candidates)@[index]
                && final(candidates)@ == old(candidates)@.remove(index),
{
    let index = random_below(candidates.len());
    candidates.remove(index)
}

/// Puts the rescue ship on the grid with its first cell at `(x, y)`,
/// horizontally if that is legal, else vertically if that is; tells whether
/// it went in.
pub fn restore_ship_at(grid: &mut [Vec<CellState>], x: usize, y: usize) -> (restored: bool)
    requires
        well_formed(old(grid)@),
    ensures
        well_formed(final(grid)@),
        restored == restorable_at(cells(old(grid)@), x as int, y as int),
        restored ==> cells(final(grid)@) == restored_at(cells(old(grid)@), x as int, y as int),
        !restored ==> cells(final(grid)@) == cells(old(grid)@),
{
    let length = SHIPS[4].0;
    if can_place_ship(grid, x, y, length, true) {
        place_ship(grid, x, y, length, true);
        true
    } else if can_place_ship(grid, x, y, length, false) {
        place_ship(grid, x, y, length, false);
        true
    } else {
        false
    }
}

/// Probes the empty cells of a grid in random order, each at most once, and
/// returns the first at which the rescue ship fits; `None` when it fits
/// nowhere.
pub fn random_anchor(grid: &[Vec<CellState>]) -> (anchor: Option<(usize, usize)>)
    requires
        well_formed(grid@),
    ensures
        anchor matches Some(a) ==> restorable_at(cells(grid@), a.0 as int, a.1 as int),
        anchor is None ==> forall|x: int, y: int| !restorable_at(cells(grid@), x, y),
{
    let ghost b = cells(grid@);
    let length = SHIPS[4].0;
    let mut candidates = cells_in_state(grid, CellState::Empty, CellState::Empty);
    assert forall|x: usize, y: usize| #[trigger]
        restorable_at(b, x as int, y as int) implies candidates@.contains((x, y)) by {
        lemma_restorable_is_empty(b, x as int, y as int);
        assert(in_state(b, x as int, y as int, CellState::Empty, CellState::Empty));
    }
    while candidates.len() > 0
        invariant
            well_formed(grid@),
            cells(grid@) == b,
            length == rescue_length(),
            forall|x: usize, y: usize| #[trigger]
                restorable_at(b, x as int, y as int) ==> candidates@.contains((x, y)),
        decreases candidates.len(),
    {
        let ghost prev = candidates@;
        let (x, y) = take_random(&mut candidates);
        let ghost index = choose|index: int|
            0 <= index < prev.len() && (x, y) == #[trigger] prev[index] && candidates@
                == prev.remove(index);
        if can_place_ship(grid, x, y, length, true) || can_place_ship(grid, x, y, length, false) {
            return Some((x, y));
        }
        assert forall|px: usize, py: usize| #[trigger]
            restorable_at(b, px as int, py as int) implies candidates@.contains((px, py)) by {
            lemma_remove_keeps_others(prev, index, (px, py));
        }
    }
    assert forall|x: int, y: int| !restorable_at(b, x, y) by {
        if restorable_at(b, x, y) {
            lemma_restorable_is_empty(b, x, y);
            assert(restorable_at(b, x as usize as int, y as usize as int));
            assert(candidates@.contains((x as usize, y as usize)));
        }
    }
    None
}

/// The last-stand rescue: probes the empty cells in random order, each at
/// most once, and puts the rescue ship at the first where it fits,
/// horizontally if it can. Succeeds exactly when the ship fits somewhere; the
/// grid is untouched otherwise.
pub fn restore_random_ship(grid: &mut [Vec<CellState>]) -> (restored: bool)
    requires
        well_formed(old(grid)@),
    ensures
        well_formed(final(grid)@),
        restored <==> exists|x: int, y: int| restorable_at(cells(old(grid)@), x, y),
        restored ==> exists|x: int, y: int|
            restorable_at(cells(old(grid)@), x, y) && cells(final(grid)@) == restored_at(
                cells(old(grid)@),
                x,
                y,
            ),
        !restored ==> cells(final(grid)@) == cells(old(grid)@),
{
    match random_anchor(grid) {
        Some(a) => {
            let restored = restore_ship_at(grid, a.0, a.1);
            assert(restorable_at(cells(old(grid)@), a.0 as int, a.1 as int) && cells(grid@)
                == restored_at(cells(old(grid)@), a.0 as int, a.1 as int));
            restored
        },
        None => false,
    }
}

/// A rescue ship only fits where the first cell is an empty cell of the board.
pub proof fn lemma_restorable_is_empty(b: Seq<Seq<CellState>>, x: int, y: int)
    requires
        restorable_at(b, x, y),
    ensures
        on_board(x, y),
        b[y][x] == CellState::Empty,
{
    if can_place(b, x, y, rescue_length(), true) {
        assert(crate::board::free_at(b, x, y, 0, true));
    } else {
        assert(crate::board::free_at(b, x, y, 0, false));
    }
}

/// Resolves a shot at the cell `(x, y)`; `shielded` tells whether a shield
/// turns a hit into a miss. Returns whether the shot hit, and whether it sank
/// the ship it hit.
pub fn shoot(grid: &mut [Vec<CellState>], x: usize, y: usize, shielded: bool) -> (report: (
    bool,
    bool,
))
    requires
        well_formed(old(grid)@),
        x < GRID_SIZE,
        y < GRID_SIZE,
    ensures
        well_formed(final(grid)@),
        cells(final(grid)@) == after_shot(cells(old(grid)@), x as int, y as int, shielded),
        report.0 == shot_hits(cells(old(grid)@), x as int, y as int, shielded),
        report.1 == (report.0 && sunk_at(cells(final(grid)@), x as int, y as int)),
{
    let ghost before = cells(grid@);
    let cell = grid[y][x];
    let hit = cell == CellState::Ship && !shielded;
    if cell == CellState::Ship {
        if shielded {
            grid[y][x] = CellState::Miss;
        } else {
            grid[y][x] = CellState::Hit;
        }
    } else if cell == CellState::Empty {
        grid[y][x] = CellState::Miss;
    }
    assert(cells(grid@) =~~= after_shot(before, x as int, y as int, shielded));
    let sunk = hit && is_ship_sunk_at(grid, x, y);
    (hit, sunk)
}

/// Lets a missile come down on `(x, y)` if the cell is still `Empty` or
/// `Ship`. Returns whether it struck a ship, or `None` if it did not come
/// down at all.
pub fn strike_cell(grid: &mut [Vec<CellState>], x: usize, y: usize) -> (struck: Option<bool>)
    requires
        well_formed(old(grid)@),
    ensures
        well_formed(final(grid)@),
        struck is Some == is_target(cells(old(grid)@), x as int, y as int),
        struck matches Some(was_ship) ==> was_ship == (cells(old(grid)@)[y as int][x as int]
            == CellState::Ship),
        cells(final(grid)@) == after_strike(cells(old(grid)@), x as int, y as int),
{
    let ghost before = cells(grid@);
    if x >= GRID_SIZE || y >= GRID_SIZE {
        return None;
    }
    let cell = grid[y][x];
    if cell == CellState::Ship {
        grid[y][x] = CellState::Hit;
    } else if cell == CellState::Empty {
        grid[y][x] = CellState::Miss;
    } else {
        return None;
    }
    assert(cells(grid@) =~~= after_strike(before, x as int, y as int));
    Some(cell == CellState::Ship)
}

/// Two different cells for the missiles, chosen at random among those still
/// `Empty` or `Ship`; fewer where fewer than two such cells are left.
pub fn random_targets(grid: &[Vec<CellState>]) -> (picks: (
    Option<(usize, usize)>,
    Option<(usize, usize)>,
))
    requires
        well_formed(grid@),
    ensures
        picks.0 matches Some(p) ==> is_target(cells(grid@), p.0 as int, p.1 as int),
        picks.0 is None ==> picks.1 is None && forall|x: int, y: int|
            !is_target(cells(grid@), x, y),
        picks.1 matches Some(q) ==> picks.0 is Some && picks.0->Some_0 != q && is_target(
            cells(grid@),
            q.0 as int,
            q.1 as int,
        ),
        picks.1 is None && picks.0 is Some ==> forall|x: int, y: int|
            is_target(cells(grid@), x, y) ==> x == picks.0->Some_0.0 && y == picks.0->Some_0.1,
{
    let ghost b = cells(grid@);
    let mut targets = cells_in_state(grid, CellState::Empty, CellState::Ship);
    if targets.len() == 0 {
        assert forall|x: int, y: int| !is_target(b, x, y) by {
            if is_target(b, x, y) {
                assert(in_state(
                    b,
                    x as usize as int,
                    y as usize as int,
                    CellState::Empty,
                    CellState::Ship,
                ));
                assert(targets@.contains((x as usize, y as usize)));
            }
        }
        return (None, None);
    }
    let ghost all = targets@;
    let first = take_random(&mut targets);
    let ghost i0 = choose|index: int|
        0 <= index < all.len() && first == #[trigger] all[index] && targets@ == all.remove(index);
    if targets.len() == 0 {
        assert forall|x: int, y: int| is_target(b, x, y) implies x == first.0 && y == first.1 by {
            assert(in_state(
                b,
                x as usize as int,
                y as usize as int,
                CellState::Empty,
                CellState::Ship,
            ));
            assert(all.contains((x as usize, y as usize)));
            assert(all.len() == 1);
        }
        return (Some(first), None);
    }
    let ghost rest = targets@;
    let second = take_random(&mut targets);
    let ghost i1 = choose|index: int|
        0 <= index < rest.len() && second == #[trigger] rest[index] && targets@ == rest.remove(
            index,
        );
    // The second cell is another than the first: ranks in the list grow.
    let ghost j1 = if i1 < i0 {
        i1
    } else {
        i1 + 1
    };
    assert(rest[i1] == all[j1]);
    assert(rank(all[i0].0 as int, all[i0].1 as int) != rank(all[j1].0 as int, all[j1].1 as int));
    (Some(first), Some(second))
}

/// The missile strike: two missiles come down on two different cells chosen
/// at random among those still `Empty` or `Ship`, or on as many as there are
/// if fewer than two are left. Returns the cells struck, in order.
pub fn missile_strike(grid: &mut [Vec<CellState>]) -> (struck: Vec<(usize, usize)>)
    requires
        well_formed(old(grid)@),
    ensures
        well_formed(final(grid)@),
        struck.len() <= 2,
        struck.len() == 0 ==> {
            &&& forall|x: int, y: int| !is_target(cells(old(grid)@), x, y)
            &&& cells(final(grid)@) == cells(old(grid)@)
        },
        struck.len() == 1 ==> {
            &&& is_target(cells(old(grid)@), struck@[0].0 as int, struck@[0].1 as int)
            &&& forall|x: int, y: int|
                is_target(cells(old(grid)@), x, y) ==> x == struck@[0].0 && y == struck@[0].1
            &&& cells(final(grid)@) == after_strike(
                cells(old(grid)@),
                struck@[0].0 as int,
                struck@[0].1 as int,
            )
        },
        struck.len() == 2 ==> {
            &&& is_target(cells(old(grid)@), struck@[0].0 as int, struck@[0].1 as int)
            &&& is_target(cells(old(grid)@), struck@[1].0 as int, struck@[1].1 as int)
            &&& struck@[0] != struck@[1]
            &&& cells(final(grid)@) == after_strike(
                after_strike(cells(old(grid)@), struck@[0].0 as int, struck@[0].1 as int),
                struck@[1].0 as int,
                struck@[1].1 as int,
            )
        },
{
    let mut struck: Vec<(usize, usize)> = Vec::new();
    let picks = random_targets(grid);
    if let Some(first) = picks.0 {
        strike_cell(grid, first.0, first.1);
        struck.push(first);
        if let Some(second) = picks.1 {
            strike_cell(grid, second.0, second.1);
            struck.push(second);
        }
    }
    struck
}

/// The first undamaged ship cell of a grid at or after `(x, y)` in reading
/// order.
fn next_ship(grid: &[Vec<CellState>], x: usize, y: usize) -> (found: Option<(usize, usize)>)
    requires
        well_formed(grid@),
        x <= GRID_SIZE,
        y <= GRID_SIZE,
    ensures
        found == first_ship_from(cells(grid@), x as int, y as int),
{
    let ghost b = cells(grid@);
    let ghost wanted = |cx: int, cy: int| b[cy][cx] == CellState::Ship;
    let mut cx: usize = x;
    let mut cy: usize = y;
    while cy < GRID_SIZE
        invariant
            well_formed(grid@),
            b == cells(grid@),
            wanted == (|cx: int, cy: int| b[cy][cx] == CellState::Ship),
            cx <= GRID_SIZE,
            cy <= GRID_SIZE,
            first_from(wanted, x as int, y as int) == first_from(wanted, cx as int, cy as int),
        decreases GRID_SIZE - cy,
    {
        while cx < GRID_SIZE
            invariant
                well_formed(grid@),
                b == cells(grid@),
                wanted == (|cx: int, cy: int| b[cy][cx] == CellState::Ship),
                cx <= GRID_SIZE,
                cy < GRID_SIZE,
                first_from(wanted, x as int, y as int) == first_from(wanted, cx as int, cy as int),
            decreases GRID_SIZE - cx,
        {
            if grid[cy][cx] == CellState::Ship {
                assert(wanted(cx as int, cy as int));
                return Some((cx, cy));
            }
            assert(!wanted(cx as int, cy as int));
            cx += 1;
        }
        cx = 0;
        cy += 1;
    }
    None
}

/// What a radar shows of a grid: its first two undamaged ship cells in
/// reading order, or as many as there are.
pub fn radar_positions(grid: &[Vec<CellState>]) -> (revealed: Vec<(usize, usize)>)
    requires
        well_formed(grid@),
    ensures
        revealed@ == radar_sweep(cells(grid@)),
{
    let mut revealed: Vec<(usize, usize)> = Vec::new();
    match next_ship(grid, 0, 0) {
        None => {
            assert(revealed@ =~= radar_sweep(cells(grid@)));
        },
        Some(p) => {
            proof {
                lemma_first_from(|cx: int, cy: int| cells(grid@)[cy][cx] == CellState::Ship, 0, 0);
            }
            revealed.push(p);
            match next_ship(grid, p.0 + 1, p.1) {
                None => {},
                Some(q) => {
                    revealed.push(q);
                },
            }
            assert(revealed@ =~= radar_sweep(cells(grid@)));
        },
    }
    revealed
}

/// Up to two different undamaged ship cells of a grid, chosen at random: two
/// if there are at least two, else all there are.
pub fn random_radar_positions(grid: &[Vec<CellState>]) -> (revealed: Vec<(usize, usize)>)
    requires
        well_formed(grid@),
    ensures
        revealed.len() <= 2,
        forall|k: int|
            0 <= k < revealed.len() ==> in_state(
                cells(grid@),
                (#[trigger] revealed@[k]).0 as int,
                revealed@[k].1 as int,
                CellState::Ship,
                CellState::Ship,
            ),
        revealed.len() == 2 ==> revealed@[0] != revealed@[1],
        revealed.len() < 2 ==> forall|x: usize, y: usize|
            #[trigger] in_state(cells(grid@), x as int, y as int, CellState::Ship, CellState::Ship)
                ==> revealed@.contains((x, y)),
{
    let mut ships = cells_in_state(grid, CellState::Ship, CellState::Ship);
    let mut revealed: Vec<(usize, usize)> = Vec::new();
    if ships.len() == 0 {
        return revealed;
    }
    let ghost all = ships@;
    let first = take_random(&mut ships);
    let ghost i0 = choose|index: int|
        0 <= index < all.len() && first == #[trigger] all[index] && ships@ == all.remove(index);
    revealed.push(first);
    if ships.len() == 0 {
        assert forall|x: usize, y: usize|
            #[trigger] in_state(
                cells(grid@),
                x as int,
                y as int,
                CellState::Ship,
                CellState::Ship,
            ) implies revealed@.contains((x, y)) by {
            assert(all.contains((x, y)));
            assert(all.len() == 1);
            assert(revealed@[0] == (x, y));
        }
        return revealed;
    }
    let ghost rest = ships@;
    let second = take_random(&mut ships);
    let ghost i1 = choose|index: int|
        0 <= index < rest.len() && second == #[trigger] rest[index] && ships@ == rest.remove(index);
    let ghost j1 = if i1 < i0 {
        i1
    } else {
        i1 + 1
    };
    assert(rest[i1] == all[j1]);
    assert(rank(all[i0].0 as int, all[i0].1 as int) != rank(all[j1].0 as int, all[j1].1 as int));
    revealed.push(second);
    revealed
}

/// Repairs the first damaged cell, in reading order, of a ship that is still
/// afloat: the cell becomes `Ship` again. Returns the cell, or `None`, with
/// the grid untouched, when no ship can be repaired.
pub fn repair_first(grid: &mut [Vec<CellState>]) -> (repaired: Option<(usize, usize)>)
    requires
        well_formed(old(grid)@),
    ensures
        well_formed(final(grid)@),
        repaired == first_repairable(cells(old(grid)@)),
        repaired matches Some(at) ==> cells(final(grid)@) == with_cell(
            cells(old(grid)@),
            at.0 as int,
            at.1 as int,
            CellState::Ship,
        ),
        repaired is None ==> cells(final(grid)@) == cells(old(grid)@),
{
    let ghost before = cells(grid@);
    let ghost wanted = |cx: int, cy: int| repairable_at(before, cx, cy);
    let mut y: usize = 0;
    while y < GRID_SIZE
        invariant
            well_formed(grid@),
            cells(grid@) == before,
            before == cells(old(grid)@),
            wanted == (|cx: int, cy: int| repairable_at(before, cx, cy)),
            y <= GRID_SIZE,
            first_from(wanted, 0, 0) == first_from(wanted, 0, y as int),
        decreases GRID_SIZE - y,
    {
        let mut x: usize = 0;
        while x < GRID_SIZE
            invariant
                well_formed(grid@),
                cells(grid@) == before,
                before == cells(old(grid)@),
                wanted == (|cx: int, cy: int| repairable_at(before, cx, cy)),
                y < GRID_SIZE,
                x <= GRID_SIZE,
                first_from(wanted, 0, 0) == first_from(wanted, x as int, y as int),
            decreases GRID_SIZE - x,
        {
            if grid[y][x] == CellState::Hit && !is_ship_sunk_at(grid, x, y) {
                assert(wanted(x as int, y as int));
                grid[y][x] = CellState::Ship;
                assert(cells(grid@) =~~= with_cell(before, x as int, y as int, CellState::Ship));
                return Some((x, y));
            }
            assert(!wanted(x as int, y as int));
            x += 1;
        }
        y += 1;
    }
    None
}

/// Adds a card to a hand unless the hand is full; tells whether it was added.
pub fn add_card(hand: &mut Vec<PowerUp>, card: PowerUp) -> (added: bool)
    ensures
        added == (old(hand).len() < MAX_HAND_SIZE),
        added ==> final(hand)@ == old(hand)@.push(card),
        !added ==> final(hand)@ == old(hand)@,
        old(hand).len() <= MAX_HAND_SIZE ==> final(hand).len() <= MAX_HAND_SIZE,
{
    if hand.len() < MAX_HAND_SIZE {
        hand.push(card);
        true
    } else {
        false
    }
}

/// Draws a random card into a hand unless the hand is full. Returns the card
/// drawn, which is then the last of the hand, or `None` for a full hand,
/// which stays as it is.
pub fn draw_into(hand: &mut Vec<PowerUp>) -> (drawn: Option<PowerUp>)
    ensures
        drawn is Some <==> old(hand).len() < MAX_HAND_SIZE,
        drawn matches Some(card) ==> final(hand)@ == old(hand)@.push(card),
        drawn is None ==> final(hand)@ == old(hand)@,
        old(hand).len() <= MAX_HAND_SIZE ==> final(hand).len() <= MAX_HAND_SIZE,
{
    if hand.len() >= MAX_HAND_SIZE {
        return None;
    }
    let card = random_card();
    hand.push(card);
    Some(card)
}

/// The position of the first `card` in a hand at or after `start`; the
/// length of the hand if there is none.
pub open spec fn card_position(hand: Seq<PowerUp>, card: PowerUp, start: int) -> int
    decreases hand.len() - start,
{
    if start >= hand.len() {
        hand.len() as int
    } else if start >= 0 && hand[start] == card {
        start
    } else {
        card_position(hand, card, start + 1)
    }
}

/// The position found is a position of the hand, or its length; a position
/// of the hand holds the card.
pub proof fn lemma_card_position(hand: Seq<PowerUp>, card: PowerUp, start: int)
    requires
        0 <= start <= hand.len(),
    ensures
        start <= card_position(hand, card, start) <= hand.len(),
        card_position(hand, card, start) < hand.len() ==> hand[card_position(hand, card, start)]
            == card,
    decreases hand.len() - start,
{
    if start < hand.len() && hand[start] != card {
        lemma_card_position(hand, card, start + 1);
    }
}

/// A hand without its first `card`.
pub open spec fn without_card(hand: Seq<PowerUp>, card: PowerUp) -> Seq<PowerUp> {
    hand.remove(card_position(hand, card, 0))
}

/// The position of the first card of a kind in a hand; the length of the
/// hand if it holds none.
pub fn find_card(hand: &Vec<PowerUp>, card: PowerUp) -> (at: usize)
    ensures
        at == card_position(hand@, card, 0),
        at <= hand.len(),
        at < hand.len() ==> hand@[at as int] == card,
{
    let mut i: usize = 0;
    while i < hand.len()
        invariant
            i <= hand.len(),
            card_position(hand@, card, 0) == card_position(hand@, card, i as int),
        decreases hand.len() - i,
    {
        if hand[i] == card {
            return i;
        }
        i += 1;
    }
    i
}

} // verus!
