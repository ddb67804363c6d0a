//! Board state: a 3x3 grid of cells plus a turn counter, with validated move
//! application. O moves on even turns, X on odd turns; an accepted move fills
//! exactly one empty cell and increments the turn counter by one.

use vstd::prelude::*;

verus! {

/// One square of the 3x3 grid.
#[derive(Clone, Copy, Debug, PartialEq, Eq, Structural)]
pub enum Cell {
    Empty,
    X,
    O,
}

/// Why a move was rejected.
#[derive(Clone, Copy, Debug, PartialEq, Eq, Structural)]
pub enum MoveError {
    /// A coordinate was outside the 3x3 grid.
    OutOfBounds,
    /// The target cell already holds a mark.
    OccupiedCell,
}

/// Mathematical model of a board state: the nine cells in column-major
/// order (cell (col, row) at index `col * 3 + row`) and the turn counter.
pub ghost struct BoardModel {
    pub cells: Seq<Cell>,
    pub turn: nat,
}

/// Flat index of cell (col, row).
pub open spec fn cell_index(col: int, row: int) -> int {
    col * 3 + row
}

/// Whether (col, row) lies on the 3x3 grid.
pub open spec fn coords_in_bounds(col: int, row: int) -> bool {
    0 <= col < 3 && 0 <= row < 3
}

/// Number of non-empty cells among the first `n` of `cells`.
pub open spec fn count_marked(cells: Seq<Cell>, n: int) -> int
    decreases n,
{
    if n <= 0 {
        0
    } else {
        count_marked(cells, n - 1) + if cells[n - 1] != Cell::Empty {
            1int
        } else {
            0int
        }
    }
}

/// The mark the player to move will place: O on even turns, X on odd turns.
pub open spec fn player_of_turn(turn: nat) -> Cell {
    if turn % 2 == 0 {
        Cell::O
    } else {
        Cell::X
    }
}

impl BoardModel {
    /// Well-formedness: nine cells, and the turn counter equals the number of
    /// marked cells (each accepted move marks exactly one cell).
    pub open spec fn wf(self) -> bool {
        &&& self.cells.len() == 9
        &&& self.turn == count_marked(self.cells, 9)
    }
}

/// The model of a fresh board: all cells empty, turn zero.
pub open spec fn initial_model() -> BoardModel {
    BoardModel { cells: Seq::new(9, |i: int| Cell::Empty), turn: 0 }
}

/// What `Board::apply_move` reports for a given state and coordinates:
/// out-of-bounds coordinates are rejected first, then an occupied target.
pub open spec fn move_result(m: BoardModel, col: int, row: int) -> Result<(), MoveError> {
    if !coords_in_bounds(col, row) {
        Err(MoveError::OutOfBounds)
    } else if m.cells[cell_index(col, row)] != Cell::Empty {
        Err(MoveError::OccupiedCell)
    } else {
        Ok(())
    }
}

/// The state after an accepted move at (col, row): the target cell takes the
/// current player's mark and the turn counter grows by one.
pub open spec fn move_step(m: BoardModel, col: int, row: int) -> BoardModel {
    BoardModel {
        cells: m.cells.update(cell_index(col, row), player_of_turn(m.turn)),
        turn: m.turn + 1,
    }
}

/// A 3x3 tic-tac-toe board with its turn counter.
pub struct Board {
    cells: Vec<Cell>,
    turn: usize,
}

impl View for Board {
    type V = BoardModel;

    closed spec fn view(&self) -> BoardModel {
        BoardModel { cells: self.cells@, turn: self.turn as nat }
    }
}

proof fn lemma_count_marked_bounds(cells: Seq<Cell>, n: int)
    requires
        0 <= n,
    ensures
        0 <= count_marked(cells, n) <= n,
    decreases n,
{
    if n > 0 {
        lemma_count_marked_bounds(cells, n - 1);
    }
}

proof fn lemma_count_marked_update(cells: Seq<Cell>, k: int, v: Cell, n: int)
    requires
        0 <= k < n <= cells.len(),
        cells[k] == Cell::Empty,
        v != Cell::Empty,
    ensures
        count_marked(cells.update(k, v), n) == count_marked(cells, n) + 1,
    decreases n,
{
    if k == n - 1 {
        assert(count_marked(cells.update(k, v), n - 1) == count_marked(cells, n - 1)) by {
            lemma_count_marked_agree(cells.update(k, v), cells, n - 1);
        }
    } else {
        lemma_count_marked_update(cells, k, v, n - 1);
    }
}

proof fn lemma_count_marked_agree(a: Seq<Cell>, b: Seq<Cell>, n: int)
    requires
        0 <= n <= a.len(),
        n <= b.len(),
        forall|i: int| 0 <= i < n ==> a[i] == b[i],
    ensures
        count_marked(a, n) == count_marked(b, n),
    decreases n,
{
    if n > 0 {
        lemma_count_marked_agree(a, b, n - 1);
    }
}

impl Board {
    /// A fresh board: all nine cells empty, turn counter zero.
    pub fn new() -> (r: Board)
        ensures
            r@.wf(),
            r@ == initial_model(),
    {
        let mut cells: Vec<Cell> = Vec::new();
        let mut i: usize = 0;
        while i < 9
            invariant
                i <= 9,
                cells@.len() == i,
                forall|j: int| 0 <= j < i ==> cells@[j] == Cell::Empty,
            decreases 9 - i,
        {
            cells.push(Cell::Empty);
            i = i + 1;
        }
        let r = Board { cells, turn: 0 };
        proof {
            assert(r@.cells =~= initial_model().cells);
            assert(count_marked(r@.cells, 9) == 0) by {
                lemma_count_marked_empty(r@.cells, 9);
            }
        }
        r
    }

    /// Validate and apply a move at (col, row). On success the current
    /// player's mark fills the empty target cell and the turn counter grows
    /// by one; a rejected move leaves the board and turn counter unchanged.
    pub fn apply_move(&mut self, col: usize, row: usize) -> (r: Result<(), MoveError>)
        requires
            old(self)@.wf(),
        ensures
            final(self)@.wf(),
            r == move_result(old(self)@, col as int, row as int),
            r is Ok ==> final(self)@ == move_step(old(self)@, col as int, row as int),
            r is Err ==> final(self)@ == old(self)@,
    {
        if col >= 3 || row >= 3 {
            return Err(MoveError::OutOfBounds);
        }
        let i = col * 3 + row;
        if self.cells[i] != Cell::Empty {
            return Err(MoveError::OccupiedCell);
        }
        let mark = if self.turn % 2 == 0 {
            Cell::O
        } else {
            Cell::X
        };
        proof {
            lemma_count_marked_bounds(self.cells@, 9);
            lemma_count_marked_update(self.cells@, i as int, mark, 9);
        }
        self.cells.set(i, mark);
        self.turn = self.turn + 1;
        Ok(())
    }

    /// The mark of the player to move: O when the turn counter is even,
    /// X when it is odd.
    pub fn current_player(&self) -> (r: Cell)
        ensures
            r == player_of_turn(self@.turn),
    {
        if self.turn % 2 == 0 {
            Cell::O
        } else {
            Cell::X
        }
    }

    /// The mark at cell (col, row).
    pub fn cell(&self, col: usize, row: usize) -> (r: Cell)
        requires
            self@.wf(),
            col < 3,
            row < 3,
        ensures
            r == self@.cells[cell_index(col as int, row as int)],
    {
        self.cells[col * 3 + row]
    }

    /// The mark at the flat cell index `i` (cell (col, row) sits at
    /// `col * 3 + row`).
    pub fn cell_at(&self, i: usize) -> (r: Cell)
        requires
            self@.wf(),
            i < 9,
        ensures
            r == self@.cells[i as int],
    {
        self.cells[i]
    }

    /// The number of accepted moves so far.
    pub fn turn(&self) -> (r: usize)
        ensures
            r == self@.turn,
    {
        self.turn
    }
}

/// Whether every move of `moves` (as (col, row) pairs) is accepted in turn
/// when played from state `m`.
pub open spec fn all_moves_accepted(m: BoardModel, moves: Seq<(int, int)>) -> bool
    decreases moves.len(),
{
    moves.len() == 0 || {
        &&& move_result(m, moves[0].0, moves[0].1) is Ok
        &&& all_moves_accepted(move_step(m, moves[0].0, moves[0].1), moves.drop_first())
    }
}

/// The state reached by playing `moves` in order from state `m`.
pub open spec fn run_moves(m: BoardModel, moves: Seq<(int, int)>) -> BoardModel
    decreases moves.len(),
{
    if moves.len() == 0 {
        m
    } else {
        run_moves(move_step(m, moves[0].0, moves[0].1), moves.drop_first())
    }
}

/// Each accepted move raises the turn counter by exactly one, so any
/// sequence of accepted moves raises it by the sequence's length.
pub proof fn lemma_turn_counts_accepted_moves(m: BoardModel, moves: Seq<(int, int)>)
    requires
        all_moves_accepted(m, moves),
    ensures
        run_moves(m, moves).turn == m.turn + moves.len(),
    decreases moves.len(),
{
    if moves.len() > 0 {
        lemma_turn_counts_accepted_moves(move_step(m, moves[0].0, moves[0].1), moves.drop_first());
    }
}

/// From a fresh board, the turn counter after N accepted moves equals N, so
/// the player to move alternates with every move, O first.
pub proof fn lemma_turn_equals_move_count(moves: Seq<(int, int)>)
    requires
        all_moves_accepted(initial_model(), moves),
    ensures
        run_moves(initial_model(), moves).turn == moves.len(),
        player_of_turn(run_moves(initial_model(), moves).turn) == (if moves.len() % 2 == 0 {
            Cell::O
        } else {
            Cell::X
        }),
{
    lemma_turn_counts_accepted_moves(initial_model(), moves);
}

/// A cell, once marked, is never reset by later accepted moves: an accepted
/// move only fills a cell that is still empty.
pub proof fn lemma_marks_persist(m: BoardModel, moves: Seq<(int, int)>, i: int)
    requires
        m.cells.len() == 9,
        all_moves_accepted(m, moves),
        0 <= i < 9,
        m.cells[i] != Cell::Empty,
    ensures
        run_moves(m, moves).cells[i] == m.cells[i],
    decreases moves.len(),
{
    if moves.len() > 0 {
        let m2 = move_step(m, moves[0].0, moves[0].1);
        assert(m2.cells[i] == m.cells[i]);
        lemma_marks_persist(m2, moves.drop_first(), i);
    }
}

proof fn lemma_count_marked_empty(cells: Seq<Cell>, n: int)
    requires
        0 <= n <= cells.len(),
        forall|i: int| 0 <= i < n ==> cells[i] == Cell::Empty,
    ensures
        count_marked(cells, n) == 0,
    decreases n,
{
    if n > 0 {
        lemma_count_marked_empty(cells, n - 1);
    }
}

} // verus!
