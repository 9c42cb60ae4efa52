//! Laws of the board model, each proved from the definitions.

use crate::minesweeper::Position;
use crate::model::{grid_cells, span, BoardView};
use vstd::prelude::*;
use vstd::set_lib::{lemma_len_subset, lemma_set_disjoint_lens};

verus! {

/// The first `rows` cells of column `x`.
spec fn column_cells(x: usize, rows: nat) -> Set<Position> {
    Set::new(|p: Position| p.0 == x && p.1 < rows)
}

/// A column of `rows` cells holds exactly `rows` positions.
proof fn lemma_column_size(x: usize, rows: nat)
    requires
        rows <= usize::MAX,
    ensures
        column_cells(x, rows).finite(),
        column_cells(x, rows).len() == rows,
    decreases rows,
{
    if rows == 0 {
        assert(column_cells(x, rows) =~= Set::<Position>::empty());
    } else {
        let below = (rows - 1) as nat;
        lemma_column_size(x, below);
        let last: Position = (x, below as usize);
        assert(column_cells(x, rows) =~= column_cells(x, below).insert(last));
    }
}

/// A grid of `cols` columns and `rows` rows has exactly `cols * rows` cells;
/// so has a board of that width and height.
pub proof fn lemma_grid_size(cols: nat, rows: nat)
    requires
        cols <= usize::MAX,
        rows <= usize::MAX,
    ensures
        grid_cells(cols, rows).finite(),
        grid_cells(cols, rows).len() == cols * rows,
    decreases cols,
{
    if cols == 0 {
        assert(grid_cells(cols, rows) =~= Set::<Position>::empty());
    } else {
        let left = (cols - 1) as nat;
        let rest = grid_cells(left, rows);
        let column = column_cells(left as usize, rows);
        lemma_grid_size(left, rows);
        lemma_column_size(left as usize, rows);
        assert(rest.disjoint(column));
        assert(grid_cells(cols, rows) =~= rest + column);
        lemma_set_disjoint_lens(rest, column);
        assert(left * rows + rows == cols * rows) by (nonlinear_arith)
            requires
                cols == left + 1,
        ;
    }
}

/// A board never holds more mines than it has cells.
pub proof fn lemma_mines_fit(board: BoardView)
    requires
        board.inv(),
    ensures
        board.mines.len() <= board.width * board.height,
{
    lemma_grid_size(board.width as nat, board.height as nat);
    lemma_len_subset(board.mines, board.cells());
}

/// `cells` with the cell at column `i` and row `j` added, if the board has
/// such a cell.
spec fn with_cell(board: BoardView, cells: Set<Position>, i: int, j: int) -> Set<Position> {
    if 0 <= i < board.width && 0 <= j < board.height {
        cells.insert((i as usize, j as usize))
    } else {
        cells
    }
}

/// The clipping rule. The neighbours of `p` are the cells in the block of
/// three columns and three rows around `p`, less `p` itself: as many columns
/// of the block as lie on the board, times as many rows, minus one if `p` is
/// a cell of the board.
pub proof fn lemma_neighbour_count(board: BoardView, p: Position)
    ensures
        board.neighbour_set(p).finite(),
        board.neighbour_set(p).len() == span(p.0 as int, board.width as int) * span(
            p.1 as int,
            board.height as int,
        ) - (if board.in_bounds(p) { 1int } else { 0 }),
        board.neighbour_set(p).len() <= 8,
{
    // The neighbours are at most the eight cells around `p`: each of them is
    // added in turn if the board has it, and counts one.
    let x = p.0 as int;
    let y = p.1 as int;
    let s0 = Set::<Position>::empty();
    let s1 = with_cell(board, s0, x - 1, y - 1);
    let s2 = with_cell(board, s1, x - 1, y);
    let s3 = with_cell(board, s2, x - 1, y + 1);
    let s4 = with_cell(board, s3, x, y - 1);
    let s5 = with_cell(board, s4, x, y + 1);
    let s6 = with_cell(board, s5, x + 1, y - 1);
    let s7 = with_cell(board, s6, x + 1, y);
    let s8 = with_cell(board, s7, x + 1, y + 1);
    assert(board.neighbour_set(p) =~= s8);
    let columns = span(x, board.width as int);
    let rows = span(y, board.height as int);
    assert(columns * rows == if columns == 0 {
        0
    } else if columns == 1 {
        rows
    } else if columns == 2 {
        rows + rows
    } else {
        rows + rows + rows
    }) by (nonlinear_arith)
        requires
            0 <= columns <= 3,
    ;
}

/// On a board of at least two columns and two rows, a corner cell has
/// exactly three neighbours.
pub proof fn lemma_corner_neighbours(board: BoardView, p: Position)
    requires
        board.width >= 2,
        board.height >= 2,
        p.0 == 0 || p.0 == board.width - 1,
        p.1 == 0 || p.1 == board.height - 1,
    ensures
        board.neighbour_set(p).len() == 3,
{
    lemma_neighbour_count(board, p);
    let columns = span(p.0 as int, board.width as int);
    let rows = span(p.1 as int, board.height as int);
    assert(columns * rows == 4) by (nonlinear_arith)
        requires
            columns == 2,
            rows == 2,
    ;
}

/// A cell on an edge of the board that is no corner has exactly five
/// neighbours, if the board is at least two cells wide across that edge.
pub proof fn lemma_edge_neighbours(board: BoardView, p: Position)
    requires
        ({
            &&& board.width >= 2
            &&& p.0 == 0 || p.0 == board.width - 1
            &&& 0 < p.1 < board.height - 1
        }) || ({
            &&& board.height >= 2
            &&& p.1 == 0 || p.1 == board.height - 1
            &&& 0 < p.0 < board.width - 1
        }),
    ensures
        board.neighbour_set(p).len() == 5,
{
    lemma_neighbour_count(board, p);
    let columns = span(p.0 as int, board.width as int);
    let rows = span(p.1 as int, board.height as int);
    assert(columns * rows == 6) by (nonlinear_arith)
        requires
            (columns == 2 && rows == 3) || (columns == 3 && rows == 2),
    ;
}

/// A cell that lies on no edge of the board has exactly eight neighbours.
pub proof fn lemma_interior_neighbours(board: BoardView, p: Position)
    requires
        0 < p.0 < board.width - 1,
        0 < p.1 < board.height - 1,
    ensures
        board.neighbour_set(p).len() == 8,
{
    lemma_neighbour_count(board, p);
    let columns = span(p.0 as int, board.width as int);
    let rows = span(p.1 as int, board.height as int);
    assert(columns * rows == 9) by (nonlinear_arith)
        requires
            columns == 3,
            rows == 3,
    ;
}

/// Opening a cell keeps the board's invariant.
pub proof fn lemma_open_keeps_inv(board: BoardView, p: Position)
    requires
        board.inv(),
    ensures
        board.after_open(p).inv(),
{
}

/// Toggling a flag keeps the board's invariant.
pub proof fn lemma_toggle_flag_keeps_inv(board: BoardView, p: Position)
    requires
        board.inv(),
    ensures
        board.after_toggle_flag(p).inv(),
{
}

/// Once a cell has been opened, toggling its flag changes nothing.
pub proof fn lemma_open_blocks_flag(board: BoardView, p: Position)
    requires
        board.open_result(p) is Some,
    ensures
        board.after_open(p).after_toggle_flag(p) == board.after_open(p),
{
}

/// Where a cell bears a flag after toggling, opening it reports nothing and
/// changes nothing: the open cells are those that were open before the
/// toggling. If it was the toggling that put the flag on, the cell is not
/// among them.
pub proof fn lemma_flag_blocks_open(board: BoardView, p: Position)
    requires
        board.after_toggle_flag(p).flagged_fields.contains(p),
    ensures
        board.after_toggle_flag(p).open_result(p) is None,
        board.after_toggle_flag(p).after_open(p) == board.after_toggle_flag(p),
        board.after_toggle_flag(p).after_open(p).open_fields == board.open_fields,
        !board.flagged_fields.contains(p) ==> !board.after_toggle_flag(p).after_open(
            p,
        ).open_fields.contains(p),
{
}

/// Opening a cell that bears no flag a second time reports what the first
/// opening reported and leaves the board as the first opening left it, with
/// the cell among the open ones.
pub proof fn lemma_open_twice(board: BoardView, p: Position)
    requires
        !board.flagged_fields.contains(p),
    ensures
        board.after_open(p).open_result(p) == board.open_result(p),
        board.after_open(p).after_open(p) == board.after_open(p),
        board.after_open(p).open_fields.contains(p),
{
    assert(board.open_fields.insert(p).insert(p) =~= board.open_fields.insert(p));
}

/// Toggling the flag of a cell that is not open twice restores the board,
/// and with it whether the cell is flagged.
pub proof fn lemma_toggle_flag_twice(board: BoardView, p: Position)
    requires
        !board.open_fields.contains(p),
    ensures
        board.after_toggle_flag(p).after_toggle_flag(p) == board,
        board.after_toggle_flag(p).after_toggle_flag(p).flagged_fields.contains(p)
            == board.flagged_fields.contains(p),
{
    if board.flagged_fields.contains(p) {
        assert(board.flagged_fields.remove(p).insert(p) =~= board.flagged_fields);
    } else {
        assert(board.flagged_fields.insert(p).remove(p) =~= board.flagged_fields);
    }
}

} // verus!
