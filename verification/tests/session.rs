use tictactoe_rust::board::Cell;
use tictactoe_rust::session::Difficulty;
use tictactoe_rust::session::GameResult;
use tictactoe_rust::session::Session;
use tictactoe_rust::session::Status;
use tictactoe_rust::session::CPU_REPLY_DELAY_MS;
use tictactoe_rust::session::CPU_START_DELAY_MS;

const E: Cell = Cell::Empty;
const X: Cell = Cell::X;
const O: Cell = Cell::O;

fn session_with_board(cells: [Cell; 9], turn: Cell) -> Session {
    let mut s = Session::default();
    s.board = cells.to_vec();
    s.turn = turn;
    s
}

#[test]
fn test_default_session() {
    let s = Session::default();
    assert_eq!(s.board, vec![E; 9]);
    assert_eq!(s.player_marker, X);
    assert_eq!(s.computer_marker, O);
    assert_eq!(s.turn, X);
    assert_eq!(s.difficulty, Difficulty::Medium);
    assert!(!s.game_over);
    assert!(s.sound_enabled);
    assert_eq!(s.result, None);
    assert!(s.play_as_x);
    assert!(s.player_starts);
    assert!(!s.cpu_pending);
    assert_eq!(s.cpu_deadline, None);
    assert_eq!(s.status_label(), "Your Turn");
}

#[test]
fn test_start_game_binds_markers_from_settings() {
    let mut s = Session::default();
    s.play_as_x = false;
    s.start_game(0);
    assert_eq!(s.player_marker, O);
    assert_eq!(s.computer_marker, X);
    assert_eq!(s.turn, O);
    assert!(!s.cpu_pending);
    assert_eq!(s.cpu_deadline, None);
    assert_eq!(s.status_label(), "Your Turn");
}

#[test]
fn test_start_game_with_computer_first_schedules_thinking() {
    let mut s = Session::default();
    s.player_starts = false;
    s.start_game(100);
    assert_eq!(s.turn, O);
    assert!(s.cpu_pending);
    assert_eq!(s.cpu_deadline, Some(100 + CPU_START_DELAY_MS));
    assert_eq!(s.status_label(), "Computer Thinking...");
}

#[test]
fn test_opponent_opens_center() {
    // Empty board, Hard difficulty, the computer starts: its first move,
    // once the thinking delay has elapsed, is the center cell.
    let mut s = Session::default();
    s.player_starts = false;
    s.difficulty = Difficulty::Hard;
    s.start_game(0);
    s.tick(CPU_START_DELAY_MS - 1);
    assert_eq!(s.board, vec![E; 9]);
    s.tick(CPU_START_DELAY_MS);
    assert_eq!(s.board[4], O);
    assert_eq!(s.board.iter().filter(|c| **c == O).count(), 1);
    assert_eq!(s.turn, X);
    assert!(!s.cpu_pending);
    assert_eq!(s.status_label(), "Your Turn");
}

#[test]
fn test_player_move_schedules_computer_reply() {
    let mut s = Session::default();
    s.difficulty = Difficulty::Hard;
    s.start_game(0);
    s.player_action(0, 50);
    assert_eq!(s.board[0], X);
    assert_eq!(s.turn, O);
    assert!(s.cpu_pending);
    assert_eq!(s.cpu_deadline, Some(50 + CPU_REPLY_DELAY_MS));
    assert_eq!(s.status_label(), "Computer Thinking...");
    s.tick(50 + CPU_REPLY_DELAY_MS);
    assert!(!s.cpu_pending);
    assert_eq!(s.turn, X);
    assert_eq!(s.board.iter().filter(|c| **c == O).count(), 1);
}

#[test]
fn test_player_completes_row() {
    // X to move on [X, X, _, O, O, _, _, _, _]: clicking cell 2 wins with
    // the top row highlighted.
    let mut s = session_with_board([X, X, E, O, O, E, E, E, E], X);
    s.player_action(2, 0);
    assert!(s.game_over);
    assert_eq!(s.result, Some(GameResult::Win));
    assert_eq!(
        s.winning_cells,
        vec![true, true, true, false, false, false, false, false, false]
    );
    assert_eq!(s.status_label(), "Victory!");
    assert_eq!(s.board[2], X);
    assert!(!s.cpu_pending);
}

#[test]
fn test_full_board_without_line_is_a_draw() {
    // The last free cell fills the board without completing a line.
    let mut s = session_with_board([X, O, X, O, X, O, O, E, O], X);
    s.player_action(7, 0);
    assert_eq!(s.board, vec![X, O, X, O, X, O, O, X, O]);
    assert!(s.game_over);
    assert_eq!(s.result, Some(GameResult::Draw));
    assert_eq!(s.winning_cells, vec![false; 9]);
    assert_eq!(s.status_label(), "It's a Draw");
}

#[test]
fn test_computer_win_is_scored_as_defeat() {
    let mut s = session_with_board([O, O, E, X, X, E, E, E, X], X);
    s.difficulty = Difficulty::Hard;
    s.turn = O;
    s.cpu_pending = true;
    s.cpu_deadline = Some(10);
    s.status = Status::Thinking;
    s.tick(10);
    assert!(s.game_over);
    assert_eq!(s.result, Some(GameResult::Lose));
    assert_eq!(s.board[2], O);
    assert_eq!(
        s.winning_cells,
        vec![true, true, true, false, false, false, false, false, false]
    );
    assert_eq!(s.status_label(), "Defeat");
}

#[test]
fn test_move_ignored_while_computer_thinks() {
    // Submitting a move in the waiting state changes nothing: the click
    // is a no-op, board and state stay as they were.
    let mut s = Session::default();
    s.player_starts = false;
    s.start_game(0);
    let board_before = s.board.clone();
    s.player_action(0, 1);
    assert_eq!(s.board, board_before);
    assert_eq!(s.turn, O);
    assert!(s.cpu_pending);
    assert_eq!(s.cpu_deadline, Some(CPU_START_DELAY_MS));
    assert_eq!(s.status_label(), "Computer Thinking...");
}

#[test]
fn test_move_ignored_on_taken_cell() {
    let mut s = session_with_board([X, O, E, E, E, E, E, E, E], X);
    s.player_action(1, 0);
    assert_eq!(s.board, vec![X, O, E, E, E, E, E, E, E]);
    assert_eq!(s.turn, X);
    assert!(!s.game_over);
}

#[test]
fn test_move_ignored_out_of_range() {
    let mut s = Session::default();
    s.start_game(0);
    s.player_action(9, 0);
    assert_eq!(s.board, vec![E; 9]);
    assert_eq!(s.turn, X);
}

#[test]
fn test_move_ignored_after_game_over() {
    let mut s = session_with_board([X, X, E, O, O, E, E, E, E], X);
    s.player_action(2, 0);
    assert!(s.game_over);
    let board_before = s.board.clone();
    s.player_action(5, 1);
    assert_eq!(s.board, board_before);
    assert_eq!(s.result, Some(GameResult::Win));
}

#[test]
fn test_tick_without_pending_move_is_a_no_op() {
    let mut s = Session::default();
    s.start_game(0);
    s.tick(10_000);
    assert_eq!(s.board, vec![E; 9]);
    assert_eq!(s.turn, X);
    assert!(!s.game_over);
}

#[test]
fn test_medium_reply_is_one_legal_mark() {
    let mut s = Session::default();
    s.difficulty = Difficulty::Medium;
    s.start_game(0);
    s.player_action(0, 0);
    s.tick(CPU_REPLY_DELAY_MS);
    assert_eq!(s.board[0], X);
    assert_eq!(s.board.iter().filter(|c| **c == O).count(), 1);
    assert_eq!(s.board.iter().filter(|c| **c == E).count(), 7);
    assert!(!s.game_over);
    assert_eq!(s.turn, X);
}

#[test]
fn test_easy_opening_reply_is_random_but_legal() {
    let mut s = Session::default();
    s.difficulty = Difficulty::Easy;
    s.player_starts = false;
    s.start_game(0);
    s.tick(CPU_START_DELAY_MS);
    assert_eq!(s.board.iter().filter(|c| **c == O).count(), 1);
    assert_eq!(s.board.iter().filter(|c| **c == E).count(), 8);
    assert_eq!(s.turn, X);
}

#[test]
fn test_rematch_resets_everything() {
    let mut s = session_with_board([X, X, E, O, O, E, E, E, E], X);
    s.player_action(2, 0);
    assert!(s.game_over);
    s.start_game(5);
    assert_eq!(s.board, vec![E; 9]);
    assert!(!s.game_over);
    assert_eq!(s.result, None);
    assert_eq!(s.winning_cells, vec![false; 9]);
    assert_eq!(s.turn, X);
    assert_eq!(s.status_label(), "Your Turn");
}

#[test]
fn test_hard_session_game_ends_in_draw() {
    // A full game against the Hard opponent where the player mirrors the
    // engine's own best replies ends level: nobody can beat full search.
    let mut s = Session::default();
    s.difficulty = Difficulty::Hard;
    s.start_game(0);
    let mut now = 0u64;
    while !s.game_over {
        let choice = tictactoe_rust::policy::get_best(&s.board, s.player_marker, s.computer_marker)
            .expect("the game is not over");
        s.player_action(choice, now);
        now += CPU_REPLY_DELAY_MS;
        s.tick(now);
    }
    assert_eq!(s.result, Some(GameResult::Draw));
    assert_eq!(s.status_label(), "It's a Draw");
}

#[test]
fn test_status_labels() {
    let mut s = Session::default();
    s.status = Status::Thinking;
    assert_eq!(s.status_label(), "Computer Thinking...");
    s.status = Status::Victory;
    assert_eq!(s.status_label(), "Victory!");
    s.status = Status::Defeat;
    assert_eq!(s.status_label(), "Defeat");
    s.status = Status::Draw;
    assert_eq!(s.status_label(), "It's a Draw");
    s.status = Status::YourTurn;
    assert_eq!(s.status_label(), "Your Turn");
}

#[test]
fn test_sound_hooks_do_nothing() {
    tictactoe_rust::sound::beep(700, 80);
    tictactoe_rust::sound::sleep_ms(30);
}
