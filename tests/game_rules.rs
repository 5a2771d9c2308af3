use tictactoe::{cell_at, Board, Game, MoveOutcome, PlaceError, Status, Turn, TurnController};

const LINES: [[(usize, usize); 3]; 8] = [
    [(0, 0), (0, 1), (0, 2)],
    [(1, 0), (1, 1), (1, 2)],
    [(2, 0), (2, 1), (2, 2)],
    [(0, 0), (1, 0), (2, 0)],
    [(0, 1), (1, 1), (2, 1)],
    [(0, 2), (1, 2), (2, 2)],
    [(0, 0), (1, 1), (2, 2)],
    [(0, 2), (1, 1), (2, 0)],
];

fn snapshot(board: &Board) -> Vec<Option<Turn>> {
    let mut cells = Vec::new();
    for row in 0..3 {
        for col in 0..3 {
            cells.push(board.get(row, col));
        }
    }
    cells
}

#[test]
fn not_is_an_involution_without_fixed_point() {
    for p in [Turn::X, Turn::O] {
        assert_eq!(p.not().not(), p);
        assert_ne!(p.not(), p);
    }
    assert_eq!(Turn::X.not(), Turn::O);
    assert_eq!(Turn::O.not(), Turn::X);
}

#[test]
fn players_draw_their_own_letter() {
    assert_eq!(Turn::X.char(), 'X');
    assert_eq!(Turn::O.char(), 'O');
    assert_eq!(Turn::default(), Turn::X);
}

#[test]
fn turn_controller_starts_with_x_and_alternates() {
    let mut t = TurnController::new();
    assert_eq!(t.current(), Turn::X);
    t.advance();
    assert_eq!(t.current(), Turn::O);
    t.advance();
    assert_eq!(t.current(), Turn::X);
}

#[test]
fn new_board_is_empty() {
    let b = Board::new();
    for row in 0..3 {
        for col in 0..3 {
            assert!(!b.is_occupied(row, col));
            assert_eq!(b.get(row, col), None);
        }
    }
    assert!(!b.is_full());
    assert_eq!(b.winner(), None);
}

#[test]
fn place_marks_the_cell_and_refuses_an_occupied_one() {
    let mut b = Board::new();
    assert_eq!(b.place(1, 2, Turn::O), Ok(()));
    assert!(b.is_occupied(1, 2));
    assert_eq!(b.get(1, 2), Some(Turn::O));
    assert!(!b.is_occupied(2, 1));
    let before = snapshot(&b);
    assert_eq!(b.place(1, 2, Turn::X), Err(PlaceError::CellOccupied));
    assert_eq!(snapshot(&b), before);
    assert_eq!(b.get(1, 2), Some(Turn::O));
}

#[test]
fn every_line_alone_wins_for_its_owner() {
    for p in [Turn::X, Turn::O] {
        for line in LINES.iter() {
            let mut b = Board::new();
            for &(row, col) in line.iter() {
                assert_eq!(b.place(row, col, p), Ok(()));
            }
            assert_eq!(b.winner(), Some(p));
            assert!(!b.is_full());
        }
    }
}

#[test]
fn two_of_a_line_is_no_win() {
    let mut b = Board::new();
    b.place(0, 0, Turn::X).unwrap();
    b.place(0, 1, Turn::X).unwrap();
    b.place(0, 2, Turn::O).unwrap();
    assert_eq!(b.winner(), None);
}

#[test]
fn first_line_in_scan_order_decides_a_tie() {
    // X holds the third column, O holds the bottom row: rows come first.
    let mut b = Board::new();
    for (row, col) in [(0, 2), (1, 2)] {
        b.place(row, col, Turn::X).unwrap();
    }
    for (row, col) in [(2, 0), (2, 1), (2, 2)] {
        b.place(row, col, Turn::O).unwrap();
    }
    assert_eq!(b.winner(), Some(Turn::O));
}

#[test]
fn full_board_without_line_has_no_winner() {
    let mut b = Board::new();
    for (row, col) in [(0, 0), (0, 1), (1, 1), (2, 0), (1, 2)] {
        b.place(row, col, Turn::X).unwrap();
    }
    for (row, col) in [(0, 2), (1, 0), (2, 1), (2, 2)] {
        b.place(row, col, Turn::O).unwrap();
    }
    assert!(b.is_full());
    assert_eq!(b.winner(), None);
}

#[test]
fn distinct_moves_are_all_accepted_and_turns_alternate() {
    let order = [(1, 1), (0, 0), (2, 2), (0, 2), (2, 0), (1, 0), (0, 1), (2, 1), (1, 2)];
    let mut b = Board::new();
    let mut t = TurnController::new();
    for (n, &(row, col)) in order.iter().enumerate() {
        let expected = if n % 2 == 0 { Turn::X } else { Turn::O };
        assert_eq!(t.current(), expected);
        assert_eq!(b.place(row, col, t.current()), Ok(()));
        t.advance();
    }
    assert_eq!(t.current(), Turn::O);
    assert!(b.is_full());
}

#[test]
fn occupied_move_leaves_game_unchanged() {
    let mut g = Game::new();
    assert_eq!(g.play(1, 1), MoveOutcome::Placed(Status::InProgress));
    assert_eq!(g.current(), Turn::O);
    let before = snapshot(g.board());
    assert_eq!(g.play(1, 1), MoveOutcome::Ignored);
    assert_eq!(g.current(), Turn::O);
    assert_eq!(snapshot(g.board()), before);
}

#[test]
fn scenario_top_row_win() {
    let mut g = Game::new();
    assert_eq!(g.play(0, 0), MoveOutcome::Placed(Status::InProgress));
    assert_eq!(g.play(1, 1), MoveOutcome::Placed(Status::InProgress));
    assert_eq!(g.play(0, 1), MoveOutcome::Placed(Status::InProgress));
    assert_eq!(g.play(2, 2), MoveOutcome::Placed(Status::InProgress));
    assert_eq!(g.play(0, 2), MoveOutcome::Placed(Status::Won(Turn::X)));
    assert_eq!(g.board().winner(), Some(Turn::X));
    assert!(!g.board().is_full());
    assert_eq!(g.status(), Status::Won(Turn::X));
}

#[test]
fn scenario_draw() {
    let mut g = Game::new();
    let moves = [
        (0, 0),
        (0, 2),
        (0, 1),
        (1, 0),
        (1, 1),
        (2, 1),
        (2, 0),
        (2, 2),
    ];
    for &(row, col) in moves.iter() {
        assert_eq!(g.play(row, col), MoveOutcome::Placed(Status::InProgress));
    }
    assert_eq!(g.current(), Turn::X);
    assert_eq!(g.play(1, 2), MoveOutcome::Placed(Status::Draw));
    assert!(g.board().is_full());
    assert_eq!(g.board().winner(), None);
    assert_eq!(g.status(), Status::Draw);
}

#[test]
fn scenario_click_on_occupied_cell() {
    let mut g = Game::new();
    // X takes the top-left cell by a click inside it.
    assert_eq!(g.click(50, 80, 600, 600), MoveOutcome::Placed(Status::InProgress));
    assert_eq!(g.board().get(0, 0), Some(Turn::X));
    let before = snapshot(g.board());
    // O clicks elsewhere in the same cell.
    assert_eq!(g.click(199, 10, 600, 600), MoveOutcome::Ignored);
    assert_eq!(snapshot(g.board()), before);
    assert_eq!(g.current(), Turn::O);
    assert_eq!(g.status(), Status::InProgress);
}

#[test]
fn click_maps_to_the_cell_under_the_pointer() {
    let mut g = Game::new();
    assert_eq!(g.click(450, 250, 600, 600), MoveOutcome::Placed(Status::InProgress));
    assert_eq!(g.board().get(1, 2), Some(Turn::X));
}

#[test]
fn cell_at_partitions_the_window() {
    assert_eq!(cell_at(0, 0, 600, 600), (0, 0));
    assert_eq!(cell_at(199, 199, 600, 600), (0, 0));
    assert_eq!(cell_at(200, 0, 600, 600), (0, 1));
    assert_eq!(cell_at(399, 599, 600, 600), (2, 1));
    assert_eq!(cell_at(400, 300, 600, 600), (1, 2));
    assert_eq!(cell_at(599, 599, 600, 600), (2, 2));
    assert_eq!(cell_at(10, 250, 300, 900), (0, 0));
    assert_eq!(cell_at(250, 10, 300, 900), (0, 2));
}

#[test]
fn cell_at_clamps_beyond_the_edges() {
    assert_eq!(cell_at(600, 600, 600, 600), (2, 2));
    assert_eq!(cell_at(u32::MAX, 5, 600, 600), (0, 2));
    assert_eq!(cell_at(1, u32::MAX, 1, 1), (2, 2));
}

#[test]
fn every_cell_has_a_region() {
    let (w, h) = (601u32, 599u32);
    let mut seen = [[false; 3]; 3];
    for x in (0..w).step_by(7) {
        for y in (0..h).step_by(5) {
            let (row, col) = cell_at(x, y, w, h);
            assert!(row < 3 && col < 3);
            assert!(col as u64 * w as u64 <= 3 * x as u64);
            assert!(3 * (x as u64) < (col as u64 + 1) * w as u64);
            assert!(row as u64 * h as u64 <= 3 * y as u64);
            assert!(3 * (y as u64) < (row as u64 + 1) * h as u64);
            seen[row][col] = true;
        }
    }
    assert!(seen.iter().all(|r| r.iter().all(|&c| c)));
}
