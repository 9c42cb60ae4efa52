//! The mathematical model of a board: its state as plain sets, and what each
//! operation of the game means on that state.

use crate::minesweeper::{OpenResult, Position};
use vstd::prelude::*;

verus! {

/// Whether `q` touches `p` horizontally, vertically or diagonally. A position
/// is not adjacent to itself.
pub open spec fn adjacent(p: Position, q: Position) -> bool {
    &&& p != q
    &&& p.0 - 1 <= q.0 <= p.0 + 1
    &&& p.1 - 1 <= q.1 <= p.1 + 1
}

/// How many of the three coordinates `at - 1`, `at`, `at + 1` lie in
/// `0..limit`.
pub open spec fn span(at: int, limit: int) -> int {
    (if 0 <= at - 1 < limit { 1int } else { 0 })
    + (if 0 <= at < limit { 1int } else { 0 })
    + (if 0 <= at + 1 < limit { 1int } else { 0 })
}

/// The cells of a grid of `columns` columns and `rows` rows.
pub open spec fn grid_cells(columns: nat, rows: nat) -> Set<Position> {
    Set::new(|p: Position| p.0 < columns && p.1 < rows)
}

/// The character that shows a number of mines around a cell.
pub open spec fn digit(count: nat) -> char {
    if count == 0 {
        '0'
    } else if count == 1 {
        '1'
    } else if count == 2 {
        '2'
    } else if count == 3 {
        '3'
    } else if count == 4 {
        '4'
    } else if count == 5 {
        '5'
    } else if count == 6 {
        '6'
    } else if count == 7 {
        '7'
    } else {
        '8'
    }
}

/// The state of a board as mathematical sets.
pub struct BoardView {
    pub width: usize,
    pub height: usize,
    pub open_fields: Set<Position>,
    pub mines: Set<Position>,
    pub flagged_fields: Set<Position>,
}

impl BoardView {
    /// Whether `p` names a cell of the board.
    pub open spec fn in_bounds(self, p: Position) -> bool {
        p.0 < self.width && p.1 < self.height
    }

    /// All cells of the board.
    pub open spec fn cells(self) -> Set<Position> {
        grid_cells(self.width as nat, self.height as nat)
    }

    /// What holds of every board that the game can reach: the mines are
    /// finitely many cells of the board, and no cell is both open and flagged.
    pub open spec fn inv(self) -> bool {
        &&& self.mines.finite()
        &&& self.mines.subset_of(self.cells())
        &&& self.open_fields.disjoint(self.flagged_fields)
    }

    /// A board as it is right after construction: nothing open, nothing
    /// flagged.
    pub open spec fn untouched(self) -> bool {
        &&& self.open_fields == Set::<Position>::empty()
        &&& self.flagged_fields == Set::<Position>::empty()
    }

    /// The cells of the board that touch `p`: up to eight of them, fewer where
    /// `p` lies on an edge of the board. The board does not wrap around.
    pub open spec fn neighbour_set(self, p: Position) -> Set<Position> {
        Set::new(|q: Position| self.in_bounds(q) && adjacent(p, q))
    }

    /// The number of mines on the cells that touch `p`.
    pub open spec fn mine_count(self, p: Position) -> nat {
        self.neighbour_set(p).intersect(self.mines).len()
    }

    /// What opening `p` reports: nothing if `p` is flagged, else whether `p`
    /// holds a mine. The number carried by [`OpenResult::NoMine`] is always
    /// zero; the number of mines around the cell is [`Self::mine_count`].
    pub open spec fn open_result(self, p: Position) -> Option<OpenResult> {
        if self.flagged_fields.contains(p) {
            None
        } else if self.mines.contains(p) {
            Some(OpenResult::Mine)
        } else {
            Some(OpenResult::NoMine(0))
        }
    }

    /// The board after opening `p`: unchanged if `p` is flagged, else with
    /// `p` among the open cells. No other cell is opened along with it.
    pub open spec fn after_open(self, p: Position) -> BoardView {
        if self.flagged_fields.contains(p) {
            self
        } else {
            BoardView { open_fields: self.open_fields.insert(p), ..self }
        }
    }

    /// The board after toggling the flag on `p`: unchanged if `p` is open,
    /// else with the flag on `p` taken off if it was on, and put on if it
    /// was off.
    pub open spec fn after_toggle_flag(self, p: Position) -> BoardView {
        if self.open_fields.contains(p) {
            self
        } else if self.flagged_fields.contains(p) {
            BoardView { flagged_fields: self.flagged_fields.remove(p), ..self }
        } else {
            BoardView { flagged_fields: self.flagged_fields.insert(p), ..self }
        }
    }

    /// How one cell is drawn: a flag if the cell is flagged; else a bomb if
    /// it holds a mine, open or not; else the number of mines around it.
    pub open spec fn cell_text(self, p: Position) -> Seq<char> {
        if self.flagged_fields.contains(p) {
            seq!['\u{1F6A9}', ' ']
        } else if self.mines.contains(p) {
            seq!['\u{1F4A3}', ' ']
        } else {
            seq![' ', digit(self.mine_count(p)), ' ']
        }
    }

    /// The first `rows` cells of column `x`, drawn one after the other.
    pub open spec fn column_text(self, x: usize, rows: nat) -> Seq<char>
        decreases rows,
    {
        if rows == 0 {
            Seq::empty()
        } else {
            self.column_text(x, (rows - 1) as nat) + self.cell_text((x, (rows - 1) as usize))
        }
    }

    /// The first `columns` columns, each drawn on a line of its own.
    pub open spec fn columns_text(self, columns: nat) -> Seq<char>
        decreases columns,
    {
        if columns == 0 {
            Seq::empty()
        } else {
            self.columns_text((columns - 1) as nat) + self.column_text(
                (columns - 1) as usize,
                self.height as nat,
            ) + seq!['\n']
        }
    }

    /// The whole board as text: one line for each column, from the first
    /// column to the last, and on it the cells of that column from the first
    /// row to the last.
    pub open spec fn text(self) -> Seq<char> {
        self.columns_text(self.width as nat)
    }
}

} // verus!
