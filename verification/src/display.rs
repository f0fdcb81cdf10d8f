//! Where the squares lie on a drawn board of three rows and eight columns.

use vstd::prelude::*;

verus! {

/// The square drawn at `row` and `col`, if one is drawn there. The middle
/// row holds the shared squares `6..=13`. The top row holds player one's
/// squares and the bottom row player two's: four to the left, two to the
/// right, and a gap of two between them.
pub open spec fn square_at(row: int, col: int) -> Option<int> {
    if row == 1 && 0 <= col < 8 {
        Some(6 + col)
    } else if (row == 0 || row == 2) && 0 <= col < 4 {
        Some(7 * row + col)
    } else if (row == 0 || row == 2) && 6 <= col < 8 {
        Some(7 * row + col - 2)
    } else {
        None
    }
}

/// The row and column at which `square` is drawn; the top left corner for a
/// number that names no square.
pub open spec fn place_of(square: int) -> (int, int) {
    if 0 <= square < 4 {
        (0, square)
    } else if 4 <= square < 6 {
        (0, square + 2)
    } else if 6 <= square < 14 {
        (1, square - 6)
    } else if 14 <= square < 18 {
        (2, square - 14)
    } else if 18 <= square < 20 {
        (2, square - 12)
    } else {
        (0, 0)
    }
}

/// Every square is drawn where `place_of` says, and nowhere else.
pub proof fn lemma_places(square: int, row: int, col: int)
    ensures
        0 <= square < 20 ==> square_at(place_of(square).0, place_of(square).1) == Some(square),
        square_at(row, col) == Some(square) ==> 0 <= square < 20 && place_of(square) == (row, col),
{
}

/// The square drawn at `row` and `col`, if one is drawn there.
pub fn coord_to_global(row: usize, col: usize) -> (square: Option<u8>)
    ensures
        match square {
            Some(found) => square_at(row as int, col as int) == Some(found as int),
            None => square_at(row as int, col as int).is_none(),
        },
{
    match (row, col) {
        (0, 0) => Some(0),
        (0, 1) => Some(1),
        (0, 2) => Some(2),
        (0, 3) => Some(3),
        (0, 6) => Some(4),
        (0, 7) => Some(5),
        (1, 0) => Some(6),
        (1, 1) => Some(7),
        (1, 2) => Some(8),
        (1, 3) => Some(9),
        (1, 4) => Some(10),
        (1, 5) => Some(11),
        (1, 6) => Some(12),
        (1, 7) => Some(13),
        (2, 0) => Some(14),
        (2, 1) => Some(15),
        (2, 2) => Some(16),
        (2, 3) => Some(17),
        (2, 6) => Some(18),
        (2, 7) => Some(19),
        _ => None,
    }
}

/// The row and column at which `global` is drawn; the top left corner for a
/// number that names no square.
pub fn global_to_coord(global: u8) -> (place: (usize, usize))
    ensures
        (place.0 as int, place.1 as int) == place_of(global as int),
{
    match global {
        0 => (0, 0),
        1 => (0, 1),
        2 => (0, 2),
        3 => (0, 3),
        4 => (0, 6),
        5 => (0, 7),
        6 => (1, 0),
        7 => (1, 1),
        8 => (1, 2),
        9 => (1, 3),
        10 => (1, 4),
        11 => (1, 5),
        12 => (1, 6),
        13 => (1, 7),
        14 => (2, 0),
        15 => (2, 1),
        16 => (2, 2),
        17 => (2, 3),
        18 => (2, 6),
        19 => (2, 7),
        _ => (0, 0),
    }
}

} // verus!
