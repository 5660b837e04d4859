//! The game session: turn sequencing, the cosmetic thinking delay of the
//! computer opponent, terminal-state detection and result classification.
//! Every mutation goes through `start_game`, `player_action`, `cpu_move` and
//! `tick`; invalid actions are ignored, never surfaced, and nothing here
//! panics.

use vstd::prelude::*;
use crate::board::Cell;
use crate::board::empty_board;
use crate::board::empty_count;
use crate::board::has_line;
use crate::board::lemma_count_saturated;
use crate::board::lemma_empty_board_fresh;
use crate::board::lemma_first_line_exists;
use crate::board::lemma_place_marker;
use crate::board::lemma_update_keeps_no_line;
use crate::board::line_mask;
use crate::board::markers_ok;
use crate::board::new_board;
use crate::board::new_marks;
use crate::board::no_marks;
use crate::board::is_full;
use crate::board::winning_line;
use crate::policy::get_best;
use crate::policy::get_random;
use crate::policy::get_worst;
use crate::policy::is_best_choice;
use crate::policy::is_worst_choice;
use crate::rng::rand_below;

verus! {

/// How strong an opponent the player faces.
#[derive(Clone, Copy, PartialEq, Eq, Structural, Debug)]
pub enum Difficulty {
    Easy,
    Medium,
    Hard,
}

/// Outcome of a finished game, from the human player's perspective.
#[derive(Clone, Copy, PartialEq, Eq, Structural, Debug)]
pub enum GameResult {
    Win,
    Lose,
    Draw,
}

/// What the status line should read; `status_label` spells each value out.
#[derive(Clone, Copy, PartialEq, Eq, Structural, Debug)]
pub enum Status {
    YourTurn,
    Thinking,
    Victory,
    Defeat,
    Draw,
}

/// Milliseconds of simulated thinking before an opening computer move.
pub const CPU_START_DELAY_MS: u64 = 800;

/// Milliseconds of simulated thinking before a computer reply.
pub const CPU_REPLY_DELAY_MS: u64 = 700;

/// Mathematical view of a session: every field the contracts speak of.
#[verifier::ext_equal]
pub ghost struct SessionV {
    pub board: Seq<Cell>,
    pub player_marker: Cell,
    pub computer_marker: Cell,
    pub turn: Cell,
    pub difficulty: Difficulty,
    pub game_over: bool,
    pub sound_enabled: bool,
    pub winning_cells: Seq<bool>,
    pub result: Option<GameResult>,
    pub play_as_x: bool,
    pub player_starts: bool,
    pub cpu_pending: bool,
    pub cpu_deadline: Option<u64>,
    pub status: Status,
}

/// One game in progress, together with the settings it was started from.
/// The presentation layer reads the fields and routes every mutation
/// through the methods; only the settings fields are meant to be written
/// directly, between games.
pub struct Session {
    pub board: Vec<Cell>,
    pub player_marker: Cell,
    pub computer_marker: Cell,
    pub turn: Cell,
    pub difficulty: Difficulty,
    pub game_over: bool,
    pub sound_enabled: bool,
    pub winning_cells: Vec<bool>,
    pub result: Option<GameResult>,
    pub play_as_x: bool,
    pub player_starts: bool,
    pub cpu_pending: bool,
    pub cpu_deadline: Option<u64>,
    pub status: Status,
}

impl View for Session {
    type V = SessionV;

    open spec fn view(&self) -> SessionV {
        SessionV {
            board: self.board@,
            player_marker: self.player_marker,
            computer_marker: self.computer_marker,
            turn: self.turn,
            difficulty: self.difficulty,
            game_over: self.game_over,
            sound_enabled: self.sound_enabled,
            winning_cells: self.winning_cells@,
            result: self.result,
            play_as_x: self.play_as_x,
            player_starts: self.player_starts,
            cpu_pending: self.cpu_pending,
            cpu_deadline: self.cpu_deadline,
            status: self.status,
        }
    }
}

/// The status line a session in this state must show.
pub open spec fn spec_status(s: SessionV) -> Status {
    match s.result {
        Some(GameResult::Win) => Status::Victory,
        Some(GameResult::Lose) => Status::Defeat,
        Some(GameResult::Draw) => Status::Draw,
        None => if s.cpu_pending {
            Status::Thinking
        } else {
            Status::YourTurn
        },
    }
}

/// The recorded result fits the board: a win or loss shows the finished
/// line highlighted, a draw shows a full, lineless board, and a running
/// game highlights nothing.
pub open spec fn result_state_ok(s: SessionV) -> bool {
    match s.result {
        None => s.winning_cells == no_marks(),
        Some(GameResult::Win) => has_line(s.board, s.player_marker) && s.winning_cells == line_mask(
            s.board,
            s.player_marker,
        ),
        Some(GameResult::Lose) => has_line(s.board, s.computer_marker) && s.winning_cells
            == line_mask(s.board, s.computer_marker),
        Some(GameResult::Draw) => empty_count(s.board) == 0 && !has_line(s.board, Cell::X)
            && !has_line(s.board, Cell::O) && s.winning_cells == no_marks(),
    }
}

/// Everything that holds of a session between calls: board and mask sizes,
/// the marker binding, whose turn it can be, that at most one side owns a
/// line, that a running game is neither won nor full, that the result is
/// present exactly when the game is over and matches the board, that the
/// thinking timer runs only for the computer's turn, and that the status
/// line fits all of it.
pub open spec fn session_inv(s: SessionV) -> bool {
    &&& s.board.len() == 9
    &&& s.winning_cells.len() == 9
    &&& markers_ok(s.computer_marker, s.player_marker)
    &&& (s.turn == s.player_marker || s.turn == s.computer_marker)
    &&& !(has_line(s.board, Cell::X) && has_line(s.board, Cell::O))
    &&& (!s.game_over ==> !has_line(s.board, Cell::X) && !has_line(s.board, Cell::O)
        && empty_count(s.board) > 0)
    &&& (s.game_over <==> s.result is Some)
    &&& (s.cpu_pending ==> !s.game_over && s.turn == s.computer_marker)
    &&& (s.cpu_pending <==> s.cpu_deadline is Some)
    &&& (!s.game_over && !s.cpu_pending ==> s.turn == s.player_marker)
    &&& result_state_ok(s)
    &&& s.status == spec_status(s)
}

/// Legal play never yields completed lines for both markers at once: every
/// session the library hands out keeps at most one side's line on the board.
pub proof fn lemma_no_double_win(s: SessionV)
    requires
        session_inv(s),
    ensures
        !(has_line(s.board, Cell::X) && has_line(s.board, Cell::O)),
{
}

/// The session `start_game` builds from the settings held in `pre`.
pub open spec fn start_view(pre: SessionV, now_ms: u64) -> SessionV {
    let pm = if pre.play_as_x {
        Cell::X
    } else {
        Cell::O
    };
    let cm = if pre.play_as_x {
        Cell::O
    } else {
        Cell::X
    };
    let cpu_starts = !pre.player_starts;
    SessionV {
        board: empty_board(),
        player_marker: pm,
        computer_marker: cm,
        turn: if cpu_starts {
            cm
        } else {
            pm
        },
        game_over: false,
        winning_cells: no_marks(),
        result: None,
        cpu_pending: cpu_starts,
        cpu_deadline: if cpu_starts {
            Some((now_ms + CPU_START_DELAY_MS) as u64)
        } else {
            None
        },
        status: if cpu_starts {
            Status::Thinking
        } else {
            Status::YourTurn
        },
        difficulty: pre.difficulty,
        sound_enabled: pre.sound_enabled,
        play_as_x: pre.play_as_x,
        player_starts: pre.player_starts,
    }
}

/// A move submission the session ignores: the game is over, the index is
/// out of range, the cell is taken, or it is not the player's turn.
pub open spec fn rejects_move(s: SessionV, idx: int) -> bool {
    s.game_over || !(0 <= idx < 9) || s.board[idx] != Cell::Empty || s.turn != s.player_marker
}

/// The session after the terminal check that follows a move by `last`: a
/// completed line ends the game with its cells highlighted and the result
/// scored for the mover, a full board ends it in a draw, and otherwise
/// nothing changes.
pub open spec fn check_end_view(pre: SessionV, last: Cell) -> SessionV {
    if has_line(pre.board, last) {
        SessionV {
            game_over: true,
            winning_cells: line_mask(pre.board, last),
            result: Some(
                if last == pre.player_marker {
                    GameResult::Win
                } else {
                    GameResult::Lose
                },
            ),
            status: if last == pre.player_marker {
                Status::Victory
            } else {
                Status::Defeat
            },
            ..pre
        }
    } else if empty_count(pre.board) == 0 {
        SessionV { game_over: true, result: Some(GameResult::Draw), status: Status::Draw, ..pre }
    } else {
        pre
    }
}

/// The session after an accepted player move on `idx`: the mark is placed,
/// the game ends if that finished it, and otherwise the computer's reply is
/// scheduled.
pub open spec fn after_player_move(pre: SessionV, idx: int, now_ms: u64) -> SessionV {
    let b2 = pre.board.update(idx, pre.player_marker);
    let mid = SessionV { board: b2, ..pre };
    if has_line(b2, pre.player_marker) || empty_count(b2) == 0 {
        check_end_view(mid, pre.player_marker)
    } else {
        SessionV {
            turn: pre.computer_marker,
            status: Status::Thinking,
            cpu_pending: true,
            cpu_deadline: Some((now_ms + CPU_REPLY_DELAY_MS) as u64),
            ..mid
        }
    }
}

/// The session after the computer placed its mark on `idx`: the terminal
/// check runs for the computer, the turn goes back to the player if the game
/// goes on, and the thinking timer is cleared either way.
pub open spec fn after_cpu_move(pre: SessionV, idx: int) -> SessionV {
    let b2 = pre.board.update(idx, pre.computer_marker);
    let mid = SessionV { board: b2, ..pre };
    let stepped = if has_line(b2, pre.computer_marker) || empty_count(b2) == 0 {
        check_end_view(mid, pre.computer_marker)
    } else {
        SessionV { turn: pre.player_marker, status: Status::YourTurn, ..mid }
    };
    SessionV { cpu_pending: false, cpu_deadline: None, ..stepped }
}

/// A cell the opponent policy may hand to `cpu_move`: always an empty cell;
/// on Hard the best one (the center first), and on Easy, once the search
/// runs, the worst one. Medium mixes the best cell with a random one, and
/// an Easy opening is random, so there only emptiness is promised.
pub open spec fn cpu_choice_ok(pre: SessionV, idx: int) -> bool {
    &&& 0 <= idx < 9
    &&& pre.board[idx] == Cell::Empty
    &&& (pre.difficulty == Difficulty::Hard ==> if empty_count(pre.board) == 9 {
        idx == 4
    } else {
        is_best_choice(pre.board, idx, pre.computer_marker, pre.player_marker)
    })
    &&& ((pre.difficulty == Difficulty::Easy && 0 < empty_count(pre.board) < 8)
        ==> is_worst_choice(pre.board, idx, pre.computer_marker, pre.player_marker))
}

/// The thinking delay has elapsed and a computer move is due.
pub open spec fn cpu_due(s: SessionV, now_ms: u64) -> bool {
    s.cpu_pending && (s.cpu_deadline matches Some(t) && now_ms >= t)
}

impl Session {
    /// The session is in a state the methods keep each other honest about.
    pub open spec fn wf(self) -> bool {
        session_inv(self@)
    }

    /// Reset everything and bind the markers from the current settings; if
    /// the computer starts, schedule its opening move after the longer
    /// thinking delay.
    pub fn start_game(&mut self, now_ms: u64)
        requires
            now_ms + CPU_START_DELAY_MS <= u64::MAX,
        ensures
            final(self).wf(),
            final(self)@ == start_view(old(self)@, now_ms),
    {
        self.player_marker = if self.play_as_x {
            Cell::X
        } else {
            Cell::O
        };
        self.computer_marker = if self.play_as_x {
            Cell::O
        } else {
            Cell::X
        };
        self.turn = if self.player_starts {
            self.player_marker
        } else {
            self.computer_marker
        };
        self.board = new_board();
        self.winning_cells = new_marks();
        self.game_over = false;
        self.result = None;
        self.status = Status::YourTurn;

        if self.turn == self.computer_marker {
            self.cpu_pending = true;
            self.cpu_deadline = Some(now_ms + CPU_START_DELAY_MS);
            self.status = Status::Thinking;
        } else {
            self.cpu_pending = false;
            self.cpu_deadline = None;
        }
        proof {
            lemma_empty_board_fresh();
            assert(self@ =~= start_view(old(self)@, now_ms));
        }
    }

    /// Place `who`'s mark on cell `idx`. The callers run the terminal check
    /// right after; this alone keeps every other field as it was.
    pub fn make_move(&mut self, idx: usize, who: Cell)
        requires
            idx < 9,
            old(self).board@.len() == 9,
        ensures
            final(self)@ == (SessionV {
                board: old(self)@.board.update(idx as int, who),
                ..old(self)@
            }),
    {
        self.board[idx] = who;
        proof {
            assert(self@ =~= (SessionV {
                board: old(self)@.board.update(idx as int, who),
                ..old(self)@
            }));
        }
    }

    /// Look for a finished game after `last` moved: highlight and score a
    /// completed line, or declare a draw on a full board. Answers whether
    /// the game ended.
    pub fn check_end(&mut self, last: Cell) -> (r: bool)
        requires
            old(self).board@.len() == 9,
            old(self).winning_cells@.len() == 9,
            markers_ok(old(self).computer_marker, old(self).player_marker),
            last == old(self).player_marker || last == old(self).computer_marker,
            old(self).result is None,
            old(self).winning_cells@ == no_marks(),
            !has_line(
                old(self).board@,
                if last == old(self).player_marker {
                    old(self).computer_marker
                } else {
                    old(self).player_marker
                },
            ),
        ensures
            r == (has_line(old(self).board@, last) || empty_count(old(self).board@) == 0),
            final(self)@ == check_end_view(old(self)@, last),
    {
        proof {
            lemma_first_line_exists(self.board@, last);
        }
        match winning_line(&self.board, last) {
            Some((a, b, c)) => {
                self.game_over = true;
                self.winning_cells[a] = true;
                self.winning_cells[b] = true;
                self.winning_cells[c] = true;
                if last == self.player_marker {
                    self.status = Status::Victory;
                    self.result = Some(GameResult::Win);
                } else {
                    self.status = Status::Defeat;
                    self.result = Some(GameResult::Lose);
                }
                proof {
                    assert(self.winning_cells@ =~= line_mask(old(self).board@, last));
                    assert(self@ =~= check_end_view(old(self)@, last));
                }
                true
            },
            None => {
                if is_full(&self.board) {
                    self.game_over = true;
                    self.status = Status::Draw;
                    self.result = Some(GameResult::Draw);
                    proof {
                        assert(self@ =~= check_end_view(old(self)@, last));
                    }
                    true
                } else {
                    proof {
                        assert(self@ =~= check_end_view(old(self)@, last));
                    }
                    false
                }
            },
        }
    }

    /// Submit the player's click on cell `idx`. Outside the player's turn,
    /// on a finished game, on a taken cell or out of range the click is
    /// ignored and nothing changes; otherwise the mark is placed, the
    /// terminal check runs, and a running game hands the turn to the
    /// computer with the reply delay scheduled from `now_ms`.
    pub fn player_action(&mut self, idx: usize, now_ms: u64)
        requires
            old(self).wf(),
            now_ms + CPU_REPLY_DELAY_MS <= u64::MAX,
        ensures
            final(self).wf(),
            rejects_move(old(self)@, idx as int) ==> final(self)@ == old(self)@,
            !rejects_move(old(self)@, idx as int) ==> final(self)@ == after_player_move(
                old(self)@,
                idx as int,
                now_ms,
            ),
    {
        if self.game_over || idx >= 9 {
            return ;
        }
        if self.board[idx] != Cell::Empty || self.turn != self.player_marker {
            return ;
        }
        let pm = self.player_marker;
        let ghost pre = self@;
        proof {
            lemma_place_marker(pre.board, idx as int, pm);
            lemma_update_keeps_no_line(pre.board, idx as int, pm, pre.computer_marker);
        }
        self.make_move(idx, pm);
        if !self.check_end(pm) {
            self.turn = self.computer_marker;
            self.status = Status::Thinking;
            self.cpu_pending = true;
            self.cpu_deadline = Some(now_ms + CPU_REPLY_DELAY_MS);
        }
        proof {
            assert(self@ =~= after_player_move(pre, idx as int, now_ms));
            assert(session_inv(self@));
        }
    }

    /// Let the computer take its turn: ask the policy of the current
    /// difficulty for a cell, place the mark, run the terminal check, and
    /// hand the turn back to the player if the game goes on. On a finished
    /// game this does nothing. Which cell Medium or a random policy picks
    /// varies, but every outcome places exactly one mark on a cell the
    /// policy could pick.
    pub fn cpu_move(&mut self)
        requires
            old(self).wf(),
        ensures
            final(self).wf(),
            old(self).game_over ==> final(self)@ == old(self)@,
            !old(self).game_over ==> exists|i: int|
                cpu_choice_ok(old(self)@, i) && final(self)@ == after_cpu_move(old(self)@, i),
    {
        if self.game_over {
            return ;
        }
        let cm = self.computer_marker;
        let pm = self.player_marker;
        proof {
            crate::board::lemma_count_bounded(self.board@, Cell::Empty, 9);
        }
        let choice = match self.difficulty {
            Difficulty::Hard => get_best(&self.board, cm, pm),
            Difficulty::Easy => get_worst(&self.board, cm, pm),
            Difficulty::Medium => {
                // The Medium blend: optimal play with probability three in
                // five, otherwise a random cell.
                if rand_below(10) >= 4 {
                    get_best(&self.board, cm, pm)
                } else {
                    get_random(&self.board)
                }
            },
        };
        let ghost pre = self@;
        match choice {
            Some(idx) => {
                proof {
                    if empty_count(pre.board) == 9 {
                        lemma_count_saturated(pre.board, Cell::Empty, 9);
                    }
                    lemma_place_marker(pre.board, idx as int, cm);
                    lemma_update_keeps_no_line(pre.board, idx as int, cm, pm);
                }
                self.make_move(idx, cm);
                if !self.check_end(cm) {
                    self.turn = pm;
                    self.status = Status::YourTurn;
                }
                self.cpu_pending = false;
                self.cpu_deadline = None;
                proof {
                    assert(cpu_choice_ok(pre, idx as int));
                    assert(self@ =~= after_cpu_move(pre, idx as int));
                    assert(session_inv(self@));
                }
            },
            None => {
                self.cpu_pending = false;
                self.cpu_deadline = None;
                proof {
                    // While the game runs the board has an empty cell, so
                    // every policy offers a move: this arm cannot be taken.
                    assert(false);
                }
            },
        }
    }

    /// Poll the session with the current monotonic time: once the scheduled
    /// thinking delay has elapsed the computer moves, and otherwise nothing
    /// happens. The presentation layer calls this every frame while the
    /// computer is thinking.
    pub fn tick(&mut self, now_ms: u64)
        requires
            old(self).wf(),
        ensures
            final(self).wf(),
            !cpu_due(old(self)@, now_ms) ==> final(self)@ == old(self)@,
            cpu_due(old(self)@, now_ms) ==> exists|i: int|
                cpu_choice_ok(old(self)@, i) && final(self)@ == after_cpu_move(old(self)@, i),
    {
        if self.cpu_pending {
            let due = match self.cpu_deadline {
                Some(t) => now_ms >= t,
                None => false,
            };
            if due {
                self.cpu_move();
            }
        }
    }

    /// The status line to draw for the current state.
    pub fn status_label(&self) -> (r: &'static str)
        ensures
            self.status == Status::YourTurn ==> r@ == "Your Turn"@,
            self.status == Status::Thinking ==> r@ == "Computer Thinking..."@,
            self.status == Status::Victory ==> r@ == "Victory!"@,
            self.status == Status::Defeat ==> r@ == "Defeat"@,
            self.status == Status::Draw ==> r@ == "It's a Draw"@,
    {
        match self.status {
            Status::YourTurn => "Your Turn",
            Status::Thinking => "Computer Thinking...",
            Status::Victory => "Victory!",
            Status::Defeat => "Defeat",
            Status::Draw => "It's a Draw",
        }
    }
}

impl Default for Session {
    /// A session on the settings screen: empty board, the player as X and
    /// first to move, Medium difficulty, sound on.
    fn default() -> (s: Session)
        ensures
            s.wf(),
            s@ == (SessionV {
                board: empty_board(),
                player_marker: Cell::X,
                computer_marker: Cell::O,
                turn: Cell::X,
                difficulty: Difficulty::Medium,
                game_over: false,
                sound_enabled: true,
                winning_cells: no_marks(),
                result: None,
                play_as_x: true,
                player_starts: true,
                cpu_pending: false,
                cpu_deadline: None,
                status: Status::YourTurn,
            }),
    {
        let s = Session {
            board: new_board(),
            player_marker: Cell::X,
            computer_marker: Cell::O,
            turn: Cell::X,
            difficulty: Difficulty::Medium,
            game_over: false,
            sound_enabled: true,
            winning_cells: new_marks(),
            result: None,
            play_as_x: true,
            player_starts: true,
            cpu_pending: false,
            cpu_deadline: None,
            status: Status::YourTurn,
        };
        proof {
            lemma_empty_board_fresh();
            assert(s@ =~= (SessionV {
                board: empty_board(),
                player_marker: Cell::X,
                computer_marker: Cell::O,
                turn: Cell::X,
                difficulty: Difficulty::Medium,
                game_over: false,
                sound_enabled: true,
                winning_cells: no_marks(),
                result: None,
                play_as_x: true,
                player_starts: true,
                cpu_pending: false,
                cpu_deadline: None,
                status: Status::YourTurn,
            }));
        }
        s
    }
}

} // verus!
