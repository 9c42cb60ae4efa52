//! The board and its operations.

use crate::laws::{lemma_grid_size, lemma_neighbour_count};
use crate::model::{digit, grid_cells, BoardView};
use crate::position_set::PositionSet;
use crate::random::random_range;
use vstd::prelude::*;
use vstd::seq_lib::{lemma_seq_contains_after_push, seq_to_set_is_finite};
use vstd::set_lib::lemma_len_subset;
use vstd::string::StringExecFns;

verus! {

/// Zero-based `(column, row)` coordinates of a cell.
pub type Position = (usize, usize);

/// What opening a cell revealed.
#[derive(Debug, Clone, Copy, PartialEq, Eq, Structural)]
pub enum OpenResult {
    /// The cell holds a mine.
    Mine,
    /// The cell holds no mine. The number is always zero: it does not count
    /// the mines around the cell, which [`Minesweeper::mine_count`] does.
    NoMine(u8),
}

/// A Minesweeper board: its size, where the mines lie, and which cells the
/// player has opened or flagged.
///
/// Flags and openness are marks on a position, whether or not it holds a
/// mine. A cell is never both open and flagged as long as the sets are
/// changed through [`Minesweeper::open`] and [`Minesweeper::toggle_flag`]
/// alone.
#[derive(Debug)]
pub struct Minesweeper {
    pub width: usize,
    pub height: usize,
    pub open_fields: PositionSet,
    pub mines: PositionSet,
    pub flagged_fields: PositionSet,
}

impl View for Minesweeper {
    type V = BoardView;

    open spec fn view(&self) -> BoardView {
        BoardView {
            width: self.width,
            height: self.height,
            open_fields: self.open_fields@,
            mines: self.mines@,
            flagged_fields: self.flagged_fields@,
        }
    }
}

/// How many duplicate draws [`Minesweeper::new`] discards before it stops
/// drawing and places the mines that are still missing in column order.
pub const REDRAW_LIMIT: u64 = 0xffff_ffff_ffff_ffff;

/// The least coordinate within one step of `at`.
spec fn reach_from(at: usize) -> int {
    if at == 0 {
        0
    } else {
        at - 1
    }
}

/// One past the greatest coordinate below `limit` within one step of `at`.
spec fn reach_to(at: usize, limit: usize) -> int {
    if at + 2 <= limit {
        at + 2
    } else {
        limit as int
    }
}

/// The coordinates below `limit` within one step of `at`, as a half-open
/// range. The range is empty where `at` lies more than one step beyond
/// `limit`.
fn reach(at: usize, limit: usize) -> (range: (usize, usize))
    ensures
        range.0 == reach_from(at),
        range.1 == reach_to(at, limit),
{
    let from = if at == 0 { 0 } else { at - 1 };
    let to = if limit >= 2 && at <= limit - 2 { at + 2 } else { limit };
    (from, to)
}

/// A sequence of distinct positions stays one when a position that it lacks
/// is put at its end.
proof fn lemma_push_distinct(items: Seq<Position>, item: Position)
    requires
        items.no_duplicates(),
        !items.contains(item),
    ensures
        items.push(item).no_duplicates(),
{
}

/// Looking at one more item of a sequence of distinct positions raises the
/// number of mines seen by one if that item is a mine, and else leaves it.
proof fn lemma_count_step(items: Seq<Position>, k: int, mines: Set<Position>)
    requires
        items.no_duplicates(),
        0 <= k < items.len(),
    ensures
        items.take(k + 1).to_set().intersect(mines).len() == items.take(k).to_set().intersect(
            mines,
        ).len() + (if mines.contains(items[k]) { 1int } else { 0 }),
{
    let seen = items.take(k).to_set();
    seq_to_set_is_finite(items.take(k));
    assert(items.take(k + 1) =~= items.take(k).push(items[k]));
    items.take(k).lemma_push_to_set_commute(items[k]);
    assert(!seen.contains(items[k])) by {
        if seen.contains(items[k]) {
            let i = choose|i: int| 0 <= i < k && items.take(k)[i] == items[k];
            assert(items[i] == items[k]);
        }
    }
    if mines.contains(items[k]) {
        assert(seen.insert(items[k]).intersect(mines) =~= seen.intersect(mines).insert(items[k]));
    } else {
        assert(seen.insert(items[k]).intersect(mines) =~= seen.intersect(mines));
    }
}

/// Walks the board column by column and turns free cells into mines until
/// there are `mine_count` of them.
fn fill_in_order(mines: &mut PositionSet, width: usize, height: usize, mine_count: usize)
    requires
        old(mines)@.finite(),
        old(mines)@.subset_of(grid_cells(width as nat, height as nat)),
        old(mines)@.len() <= mine_count <= width * height,
    ensures
        final(mines)@.finite(),
        final(mines)@.subset_of(grid_cells(width as nat, height as nat)),
        final(mines)@.len() == mine_count,
        old(mines)@.subset_of(final(mines)@),
{
    let mut x: usize = 0;
    while x < width
        invariant
            x <= width,
            mines@.finite(),
            mines@.subset_of(grid_cells(width as nat, height as nat)),
            mines@.len() <= mine_count <= width * height,
            old(mines)@.subset_of(mines@),
            mines@.len() == mine_count || grid_cells(x as nat, height as nat).subset_of(mines@),
        decreases width - x,
    {
        let mut y: usize = 0;
        while y < height
            invariant
                x < width,
                y <= height,
                mines@.finite(),
                mines@.subset_of(grid_cells(width as nat, height as nat)),
                mines@.len() <= mine_count <= width * height,
                old(mines)@.subset_of(mines@),
                mines@.len() == mine_count || forall|q: Position|
                    q.0 < x && q.1 < height || q.0 == x && q.1 < y ==> mines@.contains(q),
            decreases height - y,
        {
            if mines.len() == mine_count {
                return ;
            }
            mines.insert((x, y));
            y += 1;
        }
        x += 1;
    }
    proof {
        if mines@.len() != mine_count {
            lemma_grid_size(width as nat, height as nat);
            lemma_len_subset(grid_cells(width as nat, height as nat), mines@);
        }
    }
}

/// The text that shows `count` mines around a cell.
fn count_text(count: usize) -> (text: &'static str)
    requires
        count <= 8,
    ensures
        text@ == seq![' ', digit(count as nat), ' '],
{
    proof {
        reveal_strlit(" 0 ");
        reveal_strlit(" 1 ");
        reveal_strlit(" 2 ");
        reveal_strlit(" 3 ");
        reveal_strlit(" 4 ");
        reveal_strlit(" 5 ");
        reveal_strlit(" 6 ");
        reveal_strlit(" 7 ");
        reveal_strlit(" 8 ");
    }
    let text = if count == 0 {
        " 0 "
    } else if count == 1 {
        " 1 "
    } else if count == 2 {
        " 2 "
    } else if count == 3 {
        " 3 "
    } else if count == 4 {
        " 4 "
    } else if count == 5 {
        " 5 "
    } else if count == 6 {
        " 6 "
    } else if count == 7 {
        " 7 "
    } else {
        " 8 "
    };
    assert(text@ =~= seq![' ', digit(count as nat), ' ']);
    text
}

impl Minesweeper {
    /// A board of `width` columns and `height` rows with `mine_count` mines
    /// and no cell opened or flagged.
    ///
    /// Each mine goes to a cell drawn at random, column and row drawn one
    /// after the other; a draw that hits a mine is discarded and drawn again.
    /// So that construction ends whatever the random source returns, at most
    /// [`REDRAW_LIMIT`] draws are discarded; after that the missing mines go
    /// to the first free cells in column order.
    ///
    /// The board cannot hold more mines than it has cells.
    pub fn new(width: usize, height: usize, mine_count: usize) -> (board: Minesweeper)
        requires
            mine_count <= width * height,
        ensures
            board@.width == width,
            board@.height == height,
            board@.mines.len() == mine_count,
            board@.untouched(),
            board@.inv(),
    {
        let mut mines = PositionSet::new();
        let mut redraws: u64 = REDRAW_LIMIT;
        while mines.len() < mine_count && redraws > 0
            invariant
                mines@.finite(),
                mines@.subset_of(grid_cells(width as nat, height as nat)),
                mines@.len() <= mine_count <= width * height,
            decreases mine_count - mines@.len(), redraws,
        {
            assert(0 < width && 0 < height) by (nonlinear_arith)
                requires
                    0 < width * height,
            ;
            let drawn = (random_range(0, width), random_range(0, height));
            let fresh = mines.insert(drawn);
            if !fresh {
                redraws -= 1;
            }
        }
        fill_in_order(&mut mines, width, height, mine_count);
        Minesweeper {
            width,
            height,
            open_fields: PositionSet::new(),
            mines,
            flagged_fields: PositionSet::new(),
        }
    }

    /// The board that [`Self::new`] makes, or nothing where `mine_count` is
    /// more than the number of cells: for callers that cannot promise that
    /// the mines fit.
    pub fn try_new(width: usize, height: usize, mine_count: usize) -> (made: Option<Minesweeper>)
        ensures
            made is Some <==> mine_count <= width * height,
            made matches Some(board) ==> {
                &&& board@.width == width
                &&& board@.height == height
                &&& board@.mines.len() == mine_count
                &&& board@.untouched()
                &&& board@.inv()
            },
    {
        assert(width * height <= u128::MAX) by (nonlinear_arith)
            requires
                width <= u64::MAX,
                height <= u64::MAX,
        ;
        let cells: u128 = (width as u128) * (height as u128);
        if mine_count as u128 <= cells {
            Some(Self::new(width, height, mine_count))
        } else {
            None
        }
    }

    /// The cells of the board that touch `position`, each once, in no
    /// particular order.
    pub fn neighbours(&self, position: Position) -> (found: Vec<Position>)
        ensures
            found@.no_duplicates(),
            found@.to_set() == self@.neighbour_set(position),
            found@.len() == self@.neighbour_set(position).len(),
            found@.len() <= 8,
    {
        let (x, y) = position;
        let (x_from, x_to) = reach(x, self.width);
        let (y_from, y_to) = reach(y, self.height);
        let mut found: Vec<Position> = Vec::new();
        let mut i = x_from;
        while i < x_to
            invariant
                position == (x, y),
                x_from == reach_from(x),
                x_to == reach_to(x, self.width),
                y_from == reach_from(y),
                y_to == reach_to(y, self.height),
                x_from <= i,
                found@.no_duplicates(),
                forall|q: Position|
                    found@.contains(q) <==> self@.neighbour_set(position).contains(q) && q.0 < i,
            decreases x_to - i,
        {
            let mut j = y_from;
            while j < y_to
                invariant
                    position == (x, y),
                    x_from == reach_from(x),
                    x_to == reach_to(x, self.width),
                    y_from == reach_from(y),
                    y_to == reach_to(y, self.height),
                    x_from <= i < x_to,
                    y_from <= j,
                    found@.no_duplicates(),
                    forall|q: Position|
                        found@.contains(q) <==> self@.neighbour_set(position).contains(q) && (q.0
                            < i || q.0 == i && q.1 < j),
                decreases y_to - j,
            {
                let ghost before = found@;
                if i != x || j != y {
                    found.push((i, j));
                }
                proof {
                    let cell: Position = (i, j);
                    if cell != position {
                        lemma_push_distinct(before, cell);
                    }
                    assert forall|q: Position|
                        found@.contains(q) <==> self@.neighbour_set(position).contains(q) && (q.0
                            < i || q.0 == i && q.1 < j + 1) by {
                        if cell != position {
                            lemma_seq_contains_after_push(before, cell, q);
                        }
                        if q.0 == i && q.1 == j {
                            assert(q == cell);
                        }
                    }
                }
                j += 1;
            }
            i += 1;
        }
        proof {
            assert(found@.to_set() =~= self@.neighbour_set(position));
            found@.unique_seq_to_set();
            lemma_neighbour_count(self@, position);
        }
        found
    }

    /// The number of mines on the cells that touch `position`: the number
    /// shown on an opened cell that holds no mine. The board stays as it is.
    pub fn mine_count(&self, position: Position) -> (count: usize)
        ensures
            count == self@.mine_count(position),
            count <= 8,
    {
        let around = self.neighbours(position);
        let mut count: usize = 0;
        let mut k: usize = 0;
        assert(around@.take(0).to_set().intersect(self@.mines) =~= Set::<Position>::empty());
        while k < around.len()
            invariant
                k <= around.len(),
                around@.no_duplicates(),
                count <= k,
                count == around@.take(k as int).to_set().intersect(self@.mines).len(),
            decreases around.len() - k,
        {
            proof {
                lemma_count_step(around@, k as int, self@.mines);
            }
            if self.mines.contains(around[k]) {
                count += 1;
            }
            k += 1;
        }
        assert(around@.take(k as int) =~= around@);
        count
    }

    /// Opens `position`.
    ///
    /// A flagged cell stays closed and nothing is reported: the flag has to
    /// be taken off first. Any other cell joins the open ones, whether it
    /// was open before or not, and the result says whether it holds a mine.
    /// The number in [`OpenResult::NoMine`] is always zero; ask
    /// [`Self::mine_count`] for the number of mines around the cell. Opening
    /// a mine changes nothing else, and no other cell is opened.
    pub fn open(&mut self, position: Position) -> (result: Option<OpenResult>)
        ensures
            result == old(self)@.open_result(position),
            final(self)@ == old(self)@.after_open(position),
            old(self)@.inv() ==> final(self)@.inv(),
    {
        if self.flagged_fields.contains(position) {
            return None;
        }
        self.open_fields.insert(position);
        let is_mine = self.mines.contains(position);
        if is_mine {
            Some(OpenResult::Mine)
        } else {
            Some(OpenResult::NoMine(0))
        }
    }

    /// Puts a flag on `position`, or takes it off if there is one. An open
    /// cell is left as it is.
    pub fn toggle_flag(&mut self, position: Position)
        ensures
            final(self)@ == old(self)@.after_toggle_flag(position),
            old(self)@.inv() ==> final(self)@.inv(),
    {
        if self.open_fields.contains(position) {
            return ;
        }
        if self.flagged_fields.contains(position) {
            self.flagged_fields.remove(position);
        } else {
            self.flagged_fields.insert(position);
        }
    }

    /// How the cell at `position` is drawn.
    fn cell_str(&self, position: Position) -> (text: &'static str)
        ensures
            text@ == self@.cell_text(position),
    {
        if self.flagged_fields.contains(position) {
            proof {
                reveal_strlit("\u{1F6A9} ");
            }
            let text = "\u{1F6A9} ";
            assert(text@ =~= seq!['\u{1F6A9}', ' ']);
            text
        } else if self.mines.contains(position) {
            proof {
                reveal_strlit("\u{1F4A3} ");
            }
            let text = "\u{1F4A3} ";
            assert(text@ =~= seq!['\u{1F4A3}', ' ']);
            text
        } else {
            count_text(self.mine_count(position))
        }
    }

    /// The board as text, for the eye: a line for each column, and on it a
    /// flag for a flagged cell, a bomb for any other cell that holds a mine,
    /// open or not, and for the rest the number of mines around the cell.
    pub fn render(&self) -> (text: String)
        ensures
            text@ == self@.text(),
    {
        let mut text = String::new();
        let mut x: usize = 0;
        while x < self.width
            invariant
                x <= self.width,
                text@ == self@.columns_text(x as nat),
            decreases self.width - x,
        {
            let ghost done = text@;
            let mut y: usize = 0;
            while y < self.height
                invariant
                    x < self.width,
                    y <= self.height,
                    text@ == done + self@.column_text(x, y as nat),
                decreases self.height - y,
            {
                text.append(self.cell_str((x, y)));
                y += 1;
            }
            proof {
                reveal_strlit("\n");
            }
            text.append("\n");
            assert("\n"@ =~= seq!['\n']);
            x += 1;
        }
        text
    }
}

} // verus!
