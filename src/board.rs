use vstd::prelude::*;

use crate::player::Turn;

verus! {

/// Why a move was refused.
#[derive(Clone, Copy, Debug, PartialEq, Eq, Structural)]
pub enum PlaceError {
    /// The targeted cell already holds a mark.
    CellOccupied,
}

/// Whether `row` and `col` address a cell of the 3x3 grid.
pub open spec fn in_grid(row: int, col: int) -> bool {
    0 <= row < 3 && 0 <= col < 3
}

/// Position, in row-major order, of the cell at `row`, `col`.
pub open spec fn cell_index(row: int, col: int) -> int {
    row * 3 + col
}

/// A board with no mark on it.
pub open spec fn empty_cells() -> Seq<Option<Turn>> {
    Seq::new(9, |i: int| None)
}

/// Every one of the nine cells holds a mark.
pub open spec fn all_marked(cells: Seq<Option<Turn>>) -> bool {
    forall|i: int| 0 <= i < 9 ==> cells[i] is Some
}

/// The three cells (row-major positions) of winning line `k`: the three rows,
/// then the three columns, then the two diagonals.
pub open spec fn line(k: int) -> (int, int, int) {
    if k == 0 {
        (0, 1, 2)
    } else if k == 1 {
        (3, 4, 5)
    } else if k == 2 {
        (6, 7, 8)
    } else if k == 3 {
        (0, 3, 6)
    } else if k == 4 {
        (1, 4, 7)
    } else if k == 5 {
        (2, 5, 8)
    } else if k == 6 {
        (0, 4, 8)
    } else {
        (2, 4, 6)
    }
}

/// `p` holds all three cells of line `k`.
pub open spec fn owns_line(cells: Seq<Option<Turn>>, k: int, p: Turn) -> bool {
    let (a, b, c) = line(k);
    cells[a] == Some(p) && cells[b] == Some(p) && cells[c] == Some(p)
}

/// The player holding all three cells of line `k`, if there is one.
pub open spec fn line_owner(cells: Seq<Option<Turn>>, k: int) -> Option<Turn> {
    let (a, b, c) = line(k);
    if cells[a] is Some && cells[b] == cells[a] && cells[c] == cells[a] {
        cells[a]
    } else {
        None
    }
}

/// The owner of the first owned line, in the fixed order, from line `k` on.
pub open spec fn winner_from(cells: Seq<Option<Turn>>, k: int) -> Option<Turn>
    decreases 8 - k,
{
    if k >= 8 {
        None
    } else if line_owner(cells, k) is Some {
        line_owner(cells, k)
    } else {
        winner_from(cells, k + 1)
    }
}

/// The winner of a board: the owner of its first owned line.
pub open spec fn winner_of(cells: Seq<Option<Turn>>) -> Option<Turn> {
    winner_from(cells, 0)
}

/// The 3x3 grid of cells, each empty or marked by a player.
pub struct Board {
    cells: [Option<Turn>; 9],
}

/// Row-major positions of the cells of winning line `k`.
fn line_cells(k: usize) -> (r: (usize, usize, usize))
    requires
        k < 8,
    ensures
        r.0 == line(k as int).0,
        r.1 == line(k as int).1,
        r.2 == line(k as int).2,
{
    match k {
        0 => (0, 1, 2),
        1 => (3, 4, 5),
        2 => (6, 7, 8),
        3 => (0, 3, 6),
        4 => (1, 4, 7),
        5 => (2, 5, 8),
        6 => (0, 4, 8),
        _ => (2, 4, 6),
    }
}

impl Board {
    /// The cells in row-major order.
    pub closed spec fn view(&self) -> Seq<Option<Turn>> {
        self.cells@
    }

    /// An empty board.
    pub fn new() -> (r: Board)
        ensures
            r@ == empty_cells(),
    {
        let r = Board { cells: [None, None, None, None, None, None, None, None, None] };
        assert(r@ =~= empty_cells());
        r
    }

    /// The mark in the cell at `row`, `col`, if any.
    pub fn get(&self, row: usize, col: usize) -> (r: Option<Turn>)
        requires
            in_grid(row as int, col as int),
        ensures
            r == self@[cell_index(row as int, col as int)],
    {
        self.cells[row * 3 + col]
    }

    /// Whether the cell at `row`, `col` already holds a mark.
    pub fn is_occupied(&self, row: usize, col: usize) -> (r: bool)
        requires
            in_grid(row as int, col as int),
        ensures
            r == self@[cell_index(row as int, col as int)] is Some,
    {
        match self.cells[row * 3 + col] {
            Some(_) => true,
            None => false,
        }
    }

    /// Marks the cell at `row`, `col` with `player` if it is empty; refuses
    /// the move and leaves the board as it was if it is not.
    pub fn place(&mut self, row: usize, col: usize, player: Turn) -> (r: Result<(), PlaceError>)
        requires
            in_grid(row as int, col as int),
        ensures
            old(self)@[cell_index(row as int, col as int)] is Some ==> r == Err::<(), PlaceError>(
                PlaceError::CellOccupied,
            ) && final(self)@ == old(self)@,
            old(self)@[cell_index(row as int, col as int)] is None ==> r == Ok::<(), PlaceError>(())
                && final(self)@ == old(self)@.update(
                cell_index(row as int, col as int),
                Some(player),
            ),
    {
        let i = row * 3 + col;
        match self.cells[i] {
            Some(_) => Err(PlaceError::CellOccupied),
            None => {
                self.cells[i] = Some(player);
                Ok(())
            },
        }
    }

    /// Whether all nine cells hold a mark.
    pub fn is_full(&self) -> (r: bool)
        ensures
            r == all_marked(self@),
    {
        let mut i: usize = 0;
        while i < 9
            invariant
                i <= 9,
                forall|j: int| 0 <= j < i ==> self@[j] is Some,
            decreases 9 - i,
        {
            if self.cells[i].is_none() {
                return false;
            }
            i += 1;
        }
        true
    }

    /// The player who holds a whole line, scanning rows, then columns, then
    /// diagonals, and reporting the first owned line found.
    pub fn winner(&self) -> (r: Option<Turn>)
        ensures
            r == winner_of(self@),
    {
        let mut k: usize = 0;
        while k < 8
            invariant
                k <= 8,
                winner_from(self@, 0) == winner_from(self@, k as int),
            decreases 8 - k,
        {
            let (a, b, c) = line_cells(k);
            if let Some(p) = self.cells[a] {
                if let (Some(q), Some(s)) = (self.cells[b], self.cells[c]) {
                    if q == p && s == p {
                        return Some(p);
                    }
                }
            }
            k += 1;
        }
        None
    }
}

/// Line `k` has an owner exactly when some player holds all its cells, and
/// then that player is the owner.
proof fn lemma_line_owner(cells: Seq<Option<Turn>>, k: int)
    ensures
        line_owner(cells, k) is None <==> forall|q: Turn| !owns_line(cells, k, q),
        line_owner(cells, k) matches Some(p) ==> owns_line(cells, k, p),
{
    if line_owner(cells, k) is None {
        assert forall|q: Turn| !owns_line(cells, k, q) by {
            if owns_line(cells, k, q) {
                assert(cells[line(k).0] == Some(q));
            }
        }
    } else {
        assert(owns_line(cells, k, line_owner(cells, k)->0));
    }
}

/// From line `i` on, the scan finds no owner exactly when no line from `i`
/// on is held; an owner it finds holds one of those lines.
proof fn lemma_winner_from_owned(cells: Seq<Option<Turn>>, i: int)
    requires
        0 <= i <= 8,
    ensures
        winner_from(cells, i) is None <==> forall|j: int, q: Turn|
            i <= j < 8 ==> !#[trigger] owns_line(cells, j, q),
        winner_from(cells, i) matches Some(p) ==> exists|j: int|
            i <= j < 8 && #[trigger] owns_line(cells, j, p),
    decreases 8 - i,
{
    if i < 8 {
        lemma_line_owner(cells, i);
        lemma_winner_from_owned(cells, i + 1);
        if line_owner(cells, i) is None {
            assert forall|j: int, q: Turn|
                i <= j < 8 && winner_from(cells, i) is None implies !#[trigger] owns_line(
                cells,
                j,
                q,
            ) by {
                if j == i {
                } else {
                    assert(i + 1 <= j);
                }
            }
        }
    }
}

/// A board has no winner exactly when no line is held by a single player,
/// however many cells are marked; a winner holds a whole line.
pub proof fn lemma_no_owned_line_no_winner(cells: Seq<Option<Turn>>)
    ensures
        winner_of(cells) is None <==> forall|j: int, q: Turn|
            0 <= j < 8 ==> !#[trigger] owns_line(cells, j, q),
        winner_of(cells) matches Some(p) ==> exists|j: int|
            0 <= j < 8 && #[trigger] owns_line(cells, j, p),
{
    lemma_winner_from_owned(cells, 0);
}

/// The scan from line `i` reaches line `k`, held by `p`, or stops earlier at
/// another line held by `p`.
proof fn lemma_winner_from_reaches(cells: Seq<Option<Turn>>, i: int, k: int, p: Turn)
    requires
        0 <= i <= k < 8,
        owns_line(cells, k, p),
        forall|j: int, q: Turn| 0 <= j < 8 && #[trigger] owns_line(cells, j, q) ==> q == p,
    ensures
        winner_from(cells, i) == Some(p),
    decreases k - i,
{
    lemma_line_owner(cells, i);
    if line_owner(cells, i) is None {
        if i < k {
            lemma_winner_from_reaches(cells, i + 1, k, p);
        }
    }
}

/// A player who holds a whole line wins, wherever that line stands in the
/// scan order, when no line is held by the other player.
pub proof fn lemma_sole_owner_wins(cells: Seq<Option<Turn>>, k: int, p: Turn)
    requires
        0 <= k < 8,
        owns_line(cells, k, p),
        forall|j: int, q: Turn| 0 <= j < 8 && #[trigger] owns_line(cells, j, q) ==> q == p,
    ensures
        winner_of(cells) == Some(p),
{
    lemma_winner_from_reaches(cells, 0, k, p);
}

/// The board on which `p` has marked the three cells of line `k` and nothing
/// else is marked.
pub open spec fn line_board(k: int, p: Turn) -> Seq<Option<Turn>> {
    Seq::new(
        9,
        |i: int|
            if i == line(k).0 || i == line(k).1 || i == line(k).2 {
                Some(p)
            } else {
                None
            },
    )
}

/// Each of the eight lines, marked by one player on an otherwise empty board,
/// makes that player the winner.
pub proof fn lemma_single_line_wins(k: int, p: Turn)
    requires
        0 <= k < 8,
    ensures
        winner_of(line_board(k, p)) == Some(p),
{
    let cells = line_board(k, p);
    assert forall|j: int, q: Turn| 0 <= j < 8 && #[trigger] owns_line(cells, j, q) implies q
        == p by {
        assert(0 <= line(j).0 < 9);
        assert(cells[line(j).0] == Some(q));
    }
    lemma_sole_owner_wins(cells, k, p);
}

} // verus!
