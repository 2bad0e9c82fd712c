//! The small texts the game puts together from coordinates: the data of a
//! card effect and the name of a cell as a player reads it.

use crate::types::GRID_SIZE;
use vstd::prelude::*;
use vstd::string::StringExecFns;

verus! {

/// The decimal digit `d` as text.
pub open spec fn digit_text(d: int) -> Seq<char> {
    if d == 0 {
        "0"@
    } else if d == 1 {
        "1"@
    } else if d == 2 {
        "2"@
    } else if d == 3 {
        "3"@
    } else if d == 4 {
        "4"@
    } else if d == 5 {
        "5"@
    } else if d == 6 {
        "6"@
    } else if d == 7 {
        "7"@
    } else if d == 8 {
        "8"@
    } else {
        "9"@
    }
}

/// A cell as effect data: column, comma, row.
pub open spec fn pair_text(x: int, y: int) -> Seq<char> {
    digit_text(x) + ","@ + digit_text(y)
}

/// A missile strike as effect data: the cell, then `hit` or `miss`.
pub open spec fn strike_text(x: int, y: int, hit: bool) -> Seq<char> {
    pair_text(x, y) + (if hit {
        ",hit"@
    } else {
        ",miss"@
    })
}

/// The letter of row `y`: `A` for the top row.
pub open spec fn row_letter_text(y: int) -> Seq<char> {
    if y == 0 {
        "A"@
    } else if y == 1 {
        "B"@
    } else if y == 2 {
        "C"@
    } else if y == 3 {
        "D"@
    } else if y == 4 {
        "E"@
    } else if y == 5 {
        "F"@
    } else if y == 6 {
        "G"@
    } else if y == 7 {
        "H"@
    } else if y == 8 {
        "I"@
    } else {
        "J"@
    }
}

/// The number of column `x`, counted from one.
pub open spec fn column_number_text(x: int) -> Seq<char> {
    if x == 9 {
        "10"@
    } else {
        digit_text(x + 1)
    }
}

/// A cell as a player reads it: row letter, then column number.
pub open spec fn coordinate_text(x: int, y: int) -> Seq<char> {
    row_letter_text(y) + column_number_text(x)
}

/// The decimal digit `d` as a string.
pub fn digit_str(d: usize) -> (text: &'static str)
    requires
        d < 10,
    ensures
        text@ == digit_text(d as int),
{
    if d == 0 {
        "0"
    } else if d == 1 {
        "1"
    } else if d == 2 {
        "2"
    } else if d == 3 {
        "3"
    } else if d == 4 {
        "4"
    } else if d == 5 {
        "5"
    } else if d == 6 {
        "6"
    } else if d == 7 {
        "7"
    } else if d == 8 {
        "8"
    } else {
        "9"
    }
}

/// The effect data that names the cell `(x, y)`.
pub fn pair_string(x: usize, y: usize) -> (text: String)
    requires
        x < GRID_SIZE,
        y < GRID_SIZE,
    ensures
        text@ == pair_text(x as int, y as int),
{
    let mut text = String::from_str(digit_str(x));
    text.append(",");
    text.append(digit_str(y));
    text
}

/// The effect data of a missile that came down on `(x, y)`.
pub fn strike_string(x: usize, y: usize, hit: bool) -> (text: String)
    requires
        x < GRID_SIZE,
        y < GRID_SIZE,
    ensures
        text@ == strike_text(x as int, y as int, hit),
{
    let mut text = pair_string(x, y);
    if hit {
        text.append(",hit");
    } else {
        text.append(",miss");
    }
    text
}

/// The name of the cell `(x, y)` as a player reads it, such as `E4` for the
/// fourth column of the fifth row.
pub fn format_coordinate(x: usize, y: usize) -> (text: String)
    requires
        x < GRID_SIZE,
        y < GRID_SIZE,
    ensures
        text@ == coordinate_text(x as int, y as int),
{
    let letter = if y == 0 {
        "A"
    } else if y == 1 {
        "B"
    } else if y == 2 {
        "C"
    } else if y == 3 {
        "D"
    } else if y == 4 {
        "E"
    } else if y == 5 {
        "F"
    } else if y == 6 {
        "G"
    } else if y == 7 {
        "H"
    } else if y == 8 {
        "I"
    } else {
        "J"
    };
    let mut text = String::from_str(letter);
    if x == 9 {
        text.append("10");
    } else {
        text.append(digit_str(x + 1));
    }
    text
}

/// The number `n` in decimal.
pub open spec fn decimal_text(n: nat) -> Seq<char>
    decreases n,
{
    if n < 10 {
        digit_text(n as int)
    } else {
        decimal_text(n / 10) + digit_text((n % 10) as int)
    }
}

/// The number `n` in decimal, as a string.
pub fn decimal_string(n: usize) -> (text: String)
    ensures
        text@ == decimal_text(n as nat),
    decreases n,
{
    if n < 10 {
        String::from_str(digit_str(n))
    } else {
        let mut text = decimal_string(n / 10);
        text.append(digit_str(n % 10));
        text
    }
}

} // verus!
