use tictactoe_rust::board::Cell;
use tictactoe_rust::board::is_full;
use tictactoe_rust::board::new_board;
use tictactoe_rust::board::win_check;
use tictactoe_rust::engine::minimax;
use tictactoe_rust::policy::get_best;
use tictactoe_rust::policy::get_random;
use tictactoe_rust::policy::get_worst;

const E: Cell = Cell::Empty;
const X: Cell = Cell::X;
const O: Cell = Cell::O;

fn board(cells: [Cell; 9]) -> Vec<Cell> {
    cells.to_vec()
}

#[test]
fn test_minimax_scores_won_board() {
    let mut b = board([X, X, X, O, O, E, E, E, E]);
    assert_eq!(minimax(&mut b, 0, false, X, O), 10);
    assert_eq!(minimax(&mut b, 3, false, X, O), 7);
    assert_eq!(minimax(&mut b, 0, true, O, X), -10);
}

#[test]
fn test_minimax_scores_drawn_board() {
    let mut b = board([X, O, X, O, X, O, O, X, O]);
    assert_eq!(minimax(&mut b, 0, true, X, O), 0);
    assert_eq!(minimax(&mut b, 0, false, O, X), 0);
}

#[test]
fn test_minimax_leaves_board_unchanged() {
    let before = board([X, E, E, E, O, E, E, E, E]);
    let mut b = before.clone();
    let _ = minimax(&mut b, 0, true, O, X);
    assert_eq!(b, before);
}

#[test]
fn test_minimax_marker_swap_symmetry() {
    // Swapping the markers and the maximizing side negates the value.
    let positions = [
        [E, E, E, E, E, E, E, E, E],
        [X, E, E, E, O, E, E, E, E],
        [X, O, E, X, O, E, E, E, E],
        [X, X, E, O, O, E, E, E, E],
    ];
    for cells in positions {
        let mut b = board(cells);
        let forward = minimax(&mut b, 0, true, X, O);
        let swapped = minimax(&mut b, 0, false, O, X);
        assert_eq!(forward, -swapped);
    }
}

#[test]
fn test_best_move_opens_center() {
    let b = new_board();
    assert_eq!(get_best(&b, O, X), Some(4));
    assert_eq!(get_best(&b, X, O), Some(4));
}

#[test]
fn test_best_move_takes_one_move_win() {
    // X completes the top row rather than anything slower.
    let b = board([X, X, E, O, O, E, E, E, E]);
    assert_eq!(get_best(&b, X, O), Some(2));
    // O completes the middle row the same way.
    assert_eq!(get_best(&b, O, X), Some(5));
}

#[test]
fn test_best_move_blocks_immediate_threat() {
    let b = board([X, X, E, O, E, E, E, E, E]);
    assert_eq!(get_best(&b, O, X), Some(2));
}

#[test]
fn test_best_move_on_full_board() {
    let b = board([X, O, X, O, X, O, O, X, O]);
    assert_eq!(get_best(&b, O, X), None);
    assert_eq!(get_worst(&b, O, X), None);
}

#[test]
fn test_worst_move_hands_fastest_loss() {
    // O to move: 2 blocks, 5 wins, while 6, 7 and 8 let X win at once.
    // The worst cell is the first of the immediately losing ones.
    let b = board([X, X, E, O, O, E, E, E, E]);
    assert_eq!(get_worst(&b, O, X), Some(6));
}

#[test]
fn test_worst_move_with_many_empty_cells_is_random_but_legal() {
    // Eight empty cells: the policy picks a random empty cell.
    let b = board([X, E, E, E, E, E, E, E, E]);
    let got = get_worst(&b, O, X).expect("a cell is free");
    assert!(got < 9);
    assert_eq!(b[got], E);
    assert_ne!(got, 0);
}

#[test]
fn test_worst_move_seven_empty_hands_no_immediate_win() {
    // A legally reached board with seven empty cells: one mark each.
    // Whatever the engine answers, no reply can finish a line yet.
    let b = board([X, E, E, E, O, E, E, E, E]);
    let got = get_worst(&b, O, X).expect("a cell is free");
    let mut after = b.clone();
    after[got] = O;
    for j in 0..9 {
        if after[j] == E {
            let mut reply = after.clone();
            reply[j] = X;
            assert!(!win_check(&reply, X));
        }
    }
}

#[test]
fn test_random_move_takes_the_last_cell() {
    let b = board([X, O, X, O, X, O, X, O, E]);
    assert_eq!(get_random(&b), Some(8));
}

#[test]
fn test_random_move_none_on_full_board() {
    let b = board([X, O, X, O, X, O, O, X, O]);
    assert_eq!(get_random(&b), None);
}

#[test]
fn test_random_move_is_uniformly_an_empty_cell() {
    let b = board([X, O, E, E, O, X, E, X, O]);
    for _ in 0..32 {
        let got = get_random(&b).expect("cells are free");
        assert!(got == 2 || got == 3 || got == 6);
    }
}

#[test]
fn test_hard_vs_hard_always_draws() {
    // Both sides playing best moves from an empty board: a draw, always.
    let mut b = new_board();
    let mut mover = X;
    let mut other = O;
    for _ in 0..9 {
        let cell = get_best(&b, mover, other).expect("the game is not over");
        assert_eq!(b[cell], E);
        b[cell] = mover;
        if win_check(&b, mover) {
            panic!("perfect play must not lose");
        }
        std::mem::swap(&mut mover, &mut other);
    }
    assert!(is_full(&b));
    assert!(!win_check(&b, X));
    assert!(!win_check(&b, O));
}
