use vstd::prelude::*;

use crate::board::{all_marked, cell_index, empty_cells, in_grid, winner_of, Board};
use crate::grid::{band, cell_at};
use crate::player::Turn;
use crate::turn::TurnController;

verus! {

/// Where a session stands after an accepted move.
#[derive(Clone, Copy, Debug, PartialEq, Eq, Structural)]
pub enum Status {
    /// No line is owned and a cell is still free: play goes on.
    InProgress,
    /// The player owns a whole line: the session ends.
    Won(Turn),
    /// Every cell is marked and no line is owned: the session ends.
    Draw,
}

/// What came of a requested move.
#[derive(Clone, Copy, Debug, PartialEq, Eq, Structural)]
pub enum MoveOutcome {
    /// The cell was occupied: nothing changed.
    Ignored,
    /// The mark was placed and the turn passed; the session now stands so.
    Placed(Status),
}

/// Where a board stands: a win before a draw.
pub open spec fn status_of(cells: Seq<Option<Turn>>) -> Status {
    match winner_of(cells) {
        Some(p) => Status::Won(p),
        None => if all_marked(cells) {
            Status::Draw
        } else {
            Status::InProgress
        },
    }
}

/// A session as its observers see it: the cells in row-major order and the
/// player to move.
pub struct GameModel {
    pub cells: Seq<Option<Turn>>,
    pub turn: Turn,
}

impl GameModel {
    /// The opening position: an empty board, `X` to move.
    pub open spec fn initial() -> GameModel {
        GameModel { cells: empty_cells(), turn: Turn::X }
    }

    /// A move at `row`, `col` is taken: that cell is still empty.
    pub open spec fn accepts(self, row: int, col: int) -> bool {
        self.cells[cell_index(row, col)] is None
    }

    /// The position after a move at `row`, `col` by the player to move; a move
    /// on an occupied cell changes nothing.
    pub open spec fn step(self, row: int, col: int) -> GameModel {
        if self.accepts(row, col) {
            GameModel {
                cells: self.cells.update(cell_index(row, col), Some(self.turn)),
                turn: self.turn.opponent(),
            }
        } else {
            self
        }
    }

    /// The position after the moves `(row, col)`, in order.
    pub open spec fn after(self, moves: Seq<(int, int)>) -> GameModel
        decreases moves.len(),
    {
        if moves.len() == 0 {
            self
        } else {
            self.after(moves.drop_last()).step(moves.last().0, moves.last().1)
        }
    }
}

/// One session: the board and the player to move.
pub struct Game {
    board: Board,
    turn: TurnController,
}

impl Game {
    /// The cells and the player to move.
    pub closed spec fn view(&self) -> GameModel {
        GameModel { cells: self.board@, turn: self.turn@ }
    }

    /// A fresh session: an empty board, `X` to move.
    pub fn new() -> (r: Game)
        ensures
            r@ == GameModel::initial(),
    {
        Game { board: Board::new(), turn: TurnController::new() }
    }

    /// The board.
    pub fn board(&self) -> (r: &Board)
        ensures
            r@ == self@.cells,
    {
        &self.board
    }

    /// The player to move.
    pub fn current(&self) -> (r: Turn)
        ensures
            r == self@.turn,
    {
        self.turn.current()
    }

    /// Where the session stands.
    pub fn status(&self) -> (r: Status)
        ensures
            r == status_of(self@.cells),
    {
        match self.board.winner() {
            Some(p) => Status::Won(p),
            None => if self.board.is_full() {
                Status::Draw
            } else {
                Status::InProgress
            },
        }
    }

    /// The player to move marks the cell at `row`, `col`. On an occupied cell
    /// the move is ignored and nothing changes; otherwise the turn passes and
    /// the result tells where the session now stands.
    pub fn play(&mut self, row: usize, col: usize) -> (r: MoveOutcome)
        requires
            in_grid(row as int, col as int),
        ensures
            final(self)@ == old(self)@.step(row as int, col as int),
            r == (if old(self)@.accepts(row as int, col as int) {
                MoveOutcome::Placed(status_of(final(self)@.cells))
            } else {
                MoveOutcome::Ignored
            }),
    {
        let player = self.turn.current();
        match self.board.place(row, col, player) {
            Err(_) => MoveOutcome::Ignored,
            Ok(()) => {
                self.turn.advance();
                MoveOutcome::Placed(self.status())
            },
        }
    }

    /// A click at `x`, `y` (pixels from the top-left corner) in a window of
    /// `width` by `height` pixels: a move on the cell under the pointer.
    pub fn click(&mut self, x: u32, y: u32, width: u32, height: u32) -> (r: MoveOutcome)
        requires
            width > 0,
            height > 0,
        ensures
            ({
                let row = band(y as int, height as int);
                let col = band(x as int, width as int);
                &&& final(self)@ == old(self)@.step(row, col)
                &&& r == if old(self)@.accepts(row, col) {
                    MoveOutcome::Placed(status_of(final(self)@.cells))
                } else {
                    MoveOutcome::Ignored
                }
            }),
    {
        let (row, col) = cell_at(x, y, width, height);
        self.play(row, col)
    }
}

/// A move on an occupied cell leaves the board and the player to move as
/// they were.
pub proof fn lemma_occupied_move_changes_nothing(g: GameModel, row: int, col: int)
    requires
        in_grid(row, col),
        g.cells[cell_index(row, col)] is Some,
    ensures
        g.step(row, col) == g,
{
}

/// Once a cell holds a mark it keeps that mark, whatever moves on the grid
/// follow.
pub proof fn lemma_marks_are_permanent(g: GameModel, moves: Seq<(int, int)>, idx: int)
    requires
        g.cells.len() == 9,
        forall|i: int| 0 <= i < moves.len() ==> in_grid(#[trigger] moves[i].0, moves[i].1),
        0 <= idx < 9,
        g.cells[idx] is Some,
    ensures
        g.after(moves).cells.len() == g.cells.len(),
        g.after(moves).cells[idx] == g.cells[idx],
    decreases moves.len(),
{
    if moves.len() > 0 {
        let prev = moves.drop_last();
        assert forall|i: int| 0 <= i < prev.len() implies in_grid(#[trigger] prev[i].0, prev[i].1) by {
            assert(prev[i] == moves[i]);
        }
        lemma_marks_are_permanent(g, prev, idx);
        assert(in_grid(moves.last().0, moves.last().1));
    }
}

/// The moves are on cells of the grid, no two on the same cell.
pub open spec fn distinct_cells(moves: Seq<(int, int)>) -> bool {
    &&& forall|i: int| 0 <= i < moves.len() ==> in_grid(#[trigger] moves[i].0, moves[i].1)
    &&& forall|i: int, j: int| 0 <= i < j < moves.len() ==> moves[i] != moves[j]
}

/// The player to move after `n` accepted moves from the opening position.
pub open spec fn turn_after(n: nat) -> Turn {
    if n % 2 == 0 {
        Turn::X
    } else {
        Turn::O
    }
}

/// From the opening position, moves on distinct cells mark only their own
/// cells and pass the turn each time.
proof fn lemma_after_distinct(moves: Seq<(int, int)>)
    requires
        distinct_cells(moves),
    ensures
        GameModel::initial().after(moves).cells.len() == 9,
        forall|idx: int|
            0 <= idx < 9 && (#[trigger] GameModel::initial().after(moves).cells[idx]) is Some
                ==> exists|j: int|
                0 <= j < moves.len() && cell_index(moves[j].0, moves[j].1) == idx,
        GameModel::initial().after(moves).turn == turn_after(moves.len()),
    decreases moves.len(),
{
    if moves.len() > 0 {
        let prev = moves.drop_last();
        assert(distinct_cells(prev)) by {
            assert forall|i: int| 0 <= i < prev.len() implies in_grid(
                #[trigger] prev[i].0,
                prev[i].1,
            ) by {
                assert(prev[i] == moves[i]);
            }
        }
        lemma_after_distinct(prev);
        lemma_fresh_cell_accepted(moves, moves.len() - 1);
    }
}

/// Move `i` of moves on distinct cells finds its cell empty.
proof fn lemma_fresh_cell_accepted(moves: Seq<(int, int)>, i: int)
    requires
        distinct_cells(moves),
        0 <= i < moves.len(),
        forall|idx: int|
            0 <= idx < 9 && (#[trigger] GameModel::initial().after(moves.take(i)).cells[idx])
                is Some ==> exists|j: int|
                0 <= j < moves.take(i).len() && cell_index(moves.take(i)[j].0, moves.take(i)[j].1)
                    == idx,
    ensures
        GameModel::initial().after(moves.take(i)).accepts(moves[i].0, moves[i].1),
{
    let s = GameModel::initial().after(moves.take(i));
    let idx = cell_index(moves[i].0, moves[i].1);
    assert(in_grid(moves[i].0, moves[i].1));
    if s.cells[idx] is Some {
        let j = choose|j: int|
            0 <= j < moves.take(i).len() && cell_index(moves.take(i)[j].0, moves.take(i)[j].1)
                == idx;
        assert(moves.take(i)[j] == moves[j]);
        assert(in_grid(moves[j].0, moves[j].1));
        assert(moves[j] == moves[i]);
    }
}

/// From the opening position, every move of a sequence on distinct cells of
/// the grid is accepted, and after `n` moves it is `X`'s turn when `n` is even
/// and `O`'s when `n` is odd.
pub proof fn lemma_distinct_moves_accepted(moves: Seq<(int, int)>)
    requires
        distinct_cells(moves),
    ensures
        forall|i: int|
            0 <= i < moves.len() ==> #[trigger] GameModel::initial().after(moves.take(i)).accepts(
                moves[i].0,
                moves[i].1,
            ),
        GameModel::initial().after(moves).turn == turn_after(moves.len()),
{
    lemma_after_distinct(moves);
    assert forall|i: int|
        0 <= i < moves.len() implies #[trigger] GameModel::initial().after(moves.take(i)).accepts(
        moves[i].0,
        moves[i].1,
    ) by {
        let prefix = moves.take(i);
        assert(distinct_cells(prefix)) by {
            assert forall|k: int| 0 <= k < prefix.len() implies in_grid(
                #[trigger] prefix[k].0,
                prefix[k].1,
            ) by {
                assert(prefix[k] == moves[k]);
            }
        }
        lemma_after_distinct(prefix);
        lemma_fresh_cell_accepted(moves, i);
    }
}

} // verus!
