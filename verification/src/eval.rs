//! Win evaluator: scans the eight fixed winning lines of a board (three rows,
//! three columns, two diagonals, in that order) and classifies the round as
//! undecided, won by O or X (with the winning line), or drawn.

use vstd::prelude::*;
use crate::board::{Board, Cell, cell_index};

verus! {

/// One of the eight fixed winning lines: three rows, three columns and two
/// diagonals, named by the coordinates they cover. `DiagMain` runs through
/// (0, 0), (1, 1), (2, 2); `DiagAnti` through (2, 0), (1, 1), (0, 2).
#[derive(Clone, Copy, Debug, PartialEq, Eq, Structural)]
pub enum Line {
    Row0,
    Row1,
    Row2,
    Col0,
    Col1,
    Col2,
    DiagMain,
    DiagAnti,
}

/// The round's classification after a move: still open, won, or drawn.
#[derive(Clone, Copy, Debug, PartialEq, Eq, Structural)]
pub enum Outcome {
    /// The game continues: nobody has a line and empty cells remain.
    Undecided,
    /// X holds a complete line and O does not.
    XWins,
    /// O holds a complete line and X does not.
    OWins,
    /// No empty cell remains without a winner, or both players hold a
    /// complete line at once (unreachable in a legal game, but defined).
    Draw,
}

/// The eight lines in their fixed scan order: rows, then columns, then the
/// two diagonals.
pub open spec fn line_at(i: int) -> Line {
    if i == 0 {
        Line::Row0
    } else if i == 1 {
        Line::Row1
    } else if i == 2 {
        Line::Row2
    } else if i == 3 {
        Line::Col0
    } else if i == 4 {
        Line::Col1
    } else if i == 5 {
        Line::Col2
    } else if i == 6 {
        Line::DiagMain
    } else {
        Line::DiagAnti
    }
}

/// Flat index of the k-th cell (k in 0..3) of a line, in the board's
/// column-major cell order.
pub open spec fn line_cell(l: Line, k: int) -> int {
    match l {
        Line::Row0 => cell_index(k, 0),
        Line::Row1 => cell_index(k, 1),
        Line::Row2 => cell_index(k, 2),
        Line::Col0 => cell_index(0, k),
        Line::Col1 => cell_index(1, k),
        Line::Col2 => cell_index(2, k),
        Line::DiagMain => cell_index(k, k),
        Line::DiagAnti => cell_index(2 - k, k),
    }
}

/// Whether all three cells of line `l` hold mark `p`.
pub open spec fn line_complete(cells: Seq<Cell>, l: Line, p: Cell) -> bool {
    &&& cells[line_cell(l, 0)] == p
    &&& cells[line_cell(l, 1)] == p
    &&& cells[line_cell(l, 2)] == p
}

/// Whether player `p` holds some complete line.
pub open spec fn player_wins(cells: Seq<Cell>, p: Cell) -> bool {
    exists|i: int| 0 <= i < 8 && line_complete(cells, line_at(i), p)
}

/// Whether no empty cell remains.
pub open spec fn board_full(cells: Seq<Cell>) -> bool {
    forall|i: int| 0 <= i < 9 ==> cells[i] != Cell::Empty
}

/// The first line among the first `n` in scan order that is complete for
/// either player; earlier lines take priority.
pub open spec fn first_complete_upto(cells: Seq<Cell>, n: int) -> Option<Line>
    decreases n,
{
    if n <= 0 {
        None
    } else if first_complete_upto(cells, n - 1) is Some {
        first_complete_upto(cells, n - 1)
    } else if line_complete(cells, line_at(n - 1), Cell::O) || line_complete(
        cells,
        line_at(n - 1),
        Cell::X,
    ) {
        Some(line_at(n - 1))
    } else {
        None
    }
}

/// The round's classification: a double win is a draw (degenerate, but
/// defined by the scan), then a single winner, then a full board draws,
/// otherwise the game is still open.
pub open spec fn spec_outcome(cells: Seq<Cell>) -> Outcome {
    if player_wins(cells, Cell::X) && player_wins(cells, Cell::O) {
        Outcome::Draw
    } else if player_wins(cells, Cell::X) {
        Outcome::XWins
    } else if player_wins(cells, Cell::O) {
        Outcome::OWins
    } else if board_full(cells) {
        Outcome::Draw
    } else {
        Outcome::Undecided
    }
}

/// The line reported with a win: the first complete line in scan order when
/// one player wins, and nothing when the round is open or drawn.
pub open spec fn spec_winning_line(cells: Seq<Cell>) -> Option<Line> {
    if spec_outcome(cells) == Outcome::OWins || spec_outcome(cells) == Outcome::XWins {
        first_complete_upto(cells, 8)
    } else {
        None
    }
}

/// The line scanned at position `i`.
fn line_of(i: usize) -> (l: Line)
    requires
        i < 8,
    ensures
        l == line_at(i as int),
{
    match i {
        0 => Line::Row0,
        1 => Line::Row1,
        2 => Line::Row2,
        3 => Line::Col0,
        4 => Line::Col1,
        5 => Line::Col2,
        6 => Line::DiagMain,
        _ => Line::DiagAnti,
    }
}

/// The flat indices of the three cells of line `l`.
fn line_cells(l: Line) -> (r: (usize, usize, usize))
    ensures
        r.0 == line_cell(l, 0),
        r.1 == line_cell(l, 1),
        r.2 == line_cell(l, 2),
        r.0 < 9 && r.1 < 9 && r.2 < 9,
{
    match l {
        Line::Row0 => (0, 3, 6),
        Line::Row1 => (1, 4, 7),
        Line::Row2 => (2, 5, 8),
        Line::Col0 => (0, 1, 2),
        Line::Col1 => (3, 4, 5),
        Line::Col2 => (6, 7, 8),
        Line::DiagMain => (0, 4, 8),
        Line::DiagAnti => (6, 4, 2),
    }
}

/// Classify `board`: scan the eight lines in order, tracking the highest O
/// and X counts on any line and the first line complete for either player,
/// then count the empty cells and decide per the fixed decision table. The
/// result depends on the board's cells alone.
pub fn evaluate(board: &Board) -> (r: (Outcome, Option<Line>))
    requires
        board@.wf(),
    ensures
        r.0 == spec_outcome(board@.cells),
        r.1 == spec_winning_line(board@.cells),
{
    let ghost cells = board@.cells;
    let mut o_max: u32 = 0;
    let mut x_max: u32 = 0;
    let mut win_line: Option<Line> = None;
    let mut i: usize = 0;
    while i < 8
        invariant
            board@.wf(),
            cells == board@.cells,
            i <= 8,
            o_max <= 3,
            x_max <= 3,
            (o_max == 3) <==> exists|j: int|
                0 <= j < i && line_complete(cells, line_at(j), Cell::O),
            (x_max == 3) <==> exists|j: int|
                0 <= j < i && line_complete(cells, line_at(j), Cell::X),
            win_line == first_complete_upto(cells, i as int),
        decreases 8 - i,
    {
        let l = line_of(i);
        let (a, b, c) = line_cells(l);
        let cell_a = board.cell_at(a);
        let cell_b = board.cell_at(b);
        let cell_c = board.cell_at(c);
        let mut o: u32 = 0;
        let mut x: u32 = 0;
        match cell_a {
            Cell::O => o = o + 1,
            Cell::X => x = x + 1,
            Cell::Empty => (),
        }
        match cell_b {
            Cell::O => o = o + 1,
            Cell::X => x = x + 1,
            Cell::Empty => (),
        }
        match cell_c {
            Cell::O => o = o + 1,
            Cell::X => x = x + 1,
            Cell::Empty => (),
        }
        assert((o == 3) <==> line_complete(cells, line_at(i as int), Cell::O));
        assert((x == 3) <==> line_complete(cells, line_at(i as int), Cell::X));
        if (o == 3 || x == 3) && win_line.is_none() {
            win_line = Some(l);
        }
        if o > o_max {
            o_max = o;
        }
        if x > x_max {
            x_max = x;
        }
        i = i + 1;
    }
    let mut empties: u32 = 0;
    let mut k: usize = 0;
    while k < 9
        invariant
            board@.wf(),
            cells == board@.cells,
            k <= 9,
            empties <= k,
            (empties == 0) <==> (forall|j: int| 0 <= j < k ==> cells[j] != Cell::Empty),
        decreases 9 - k,
    {
        if matches!(board.cell_at(k), Cell::Empty) {
            empties = empties + 1;
        }
        k = k + 1;
    }
    let outcome = if x_max == 3 && o_max == 3 {
        Outcome::Draw
    } else if x_max == 3 {
        Outcome::XWins
    } else if o_max == 3 {
        Outcome::OWins
    } else if empties == 0 {
        Outcome::Draw
    } else {
        Outcome::Undecided
    };
    let line = match outcome {
        Outcome::OWins => win_line,
        Outcome::XWins => win_line,
        _ => None,
    };
    (outcome, line)
}

/// Evaluation is idempotent: any two results that satisfy the evaluator's
/// contract on the same unchanged board carry the same outcome and line.
pub proof fn lemma_evaluation_idempotent(
    cells: Seq<Cell>,
    r1: (Outcome, Option<Line>),
    r2: (Outcome, Option<Line>),
)
    requires
        r1.0 == spec_outcome(cells),
        r1.1 == spec_winning_line(cells),
        r2.0 == spec_outcome(cells),
        r2.1 == spec_winning_line(cells),
    ensures
        r1 == r2,
{
}

} // verus!
