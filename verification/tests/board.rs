use tictactoe_rust::board::Cell;
use tictactoe_rust::board::is_full;
use tictactoe_rust::board::new_board;
use tictactoe_rust::board::new_marks;
use tictactoe_rust::board::win_check;
use tictactoe_rust::board::winning_line;

fn board(cells: [Cell; 9]) -> Vec<Cell> {
    cells.to_vec()
}

const E: Cell = Cell::Empty;
const X: Cell = Cell::X;
const O: Cell = Cell::O;

#[test]
fn test_cell_as_str() {
    assert_eq!(Cell::X.as_str(), "X");
    assert_eq!(Cell::O.as_str(), "O");
    assert_eq!(Cell::Empty.as_str(), "");
}

#[test]
fn test_new_board_is_empty() {
    let b = new_board();
    assert_eq!(b.len(), 9);
    assert!(b.iter().all(|c| *c == E));
    let m = new_marks();
    assert_eq!(m.len(), 9);
    assert!(m.iter().all(|w| !*w));
}

#[test]
fn test_win_check_row() {
    let b = board([X, X, X, O, O, E, E, E, E]);
    assert!(win_check(&b, X));
    assert!(!win_check(&b, O));
}

#[test]
fn test_win_check_column_and_diagonal() {
    let col = board([O, X, E, O, X, E, O, E, E]);
    assert!(win_check(&col, O));
    assert!(!win_check(&col, X));
    let diag = board([X, O, O, E, X, E, E, E, X]);
    assert!(win_check(&diag, X));
    let anti = board([X, X, O, E, O, E, O, E, E]);
    assert!(win_check(&anti, O));
}

#[test]
fn test_win_check_empty_board() {
    let b = new_board();
    assert!(!win_check(&b, X));
    assert!(!win_check(&b, O));
}

#[test]
fn test_winning_line_first_in_fixed_order() {
    // X owns the top row, the left column and the main diagonal at once:
    // the top row comes first in the fixed order.
    let b = board([X, X, X, X, X, O, X, O, X]);
    assert_eq!(winning_line(&b, X), Some((0, 1, 2)));
}

#[test]
fn test_winning_line_column() {
    let b = board([E, O, X, E, O, X, O, O, E]);
    assert_eq!(winning_line(&b, O), Some((1, 4, 7)));
    assert_eq!(winning_line(&b, X), None);
}

#[test]
fn test_winning_line_none_on_lineless_full_board() {
    let b = board([X, O, X, O, X, O, O, X, O]);
    assert_eq!(winning_line(&b, X), None);
    assert_eq!(winning_line(&b, O), None);
    assert!(is_full(&b));
}

#[test]
fn test_is_full() {
    assert!(!is_full(&new_board()));
    let mut b = board([X, O, X, O, X, O, O, X, E]);
    assert!(!is_full(&b));
    b[8] = O;
    assert!(is_full(&b));
}
