//! The opponent policy: best, worst and random move selection on top of the
//! search engine. Difficulty dispatch lives with the session.

use vstd::prelude::*;
use crate::board::Cell;
use crate::board::count_of;
use crate::board::count_upto;
use crate::board::empty_count;
use crate::board::has_line;
use crate::board::lemma_count_bounded;
use crate::board::lemma_count_member;
use crate::board::lemma_count_none;
use crate::board::lemma_count_positive;
use crate::board::lemma_line_needs_three;
use crate::board::lemma_place_marker;
use crate::board::lemma_update_keeps_no_line;
use crate::board::markers_ok;
use crate::engine::lemma_minimax_bounds;
use crate::engine::lemma_value_ten_is_win;
use crate::engine::minimax;
use crate::engine::spec_minimax;
use crate::rng::rand_below;

verus! {

/// Value of placing the engine's marker on cell `i` and handing the turn to
/// the opponent, searched to the end of the game.
pub open spec fn move_score(b: Seq<Cell>, i: int, comp: Cell, player: Cell) -> int {
    spec_minimax(b.update(i, comp), 0, false, comp, player)
}

/// The cell `get_best` must pick: an empty cell whose score no empty cell
/// beats, and that strictly beats every empty cell before it.
pub open spec fn is_best_choice(b: Seq<Cell>, i: int, comp: Cell, player: Cell) -> bool {
    &&& 0 <= i < 9
    &&& b[i] == Cell::Empty
    &&& forall|j: int|
        0 <= j < 9 && b[j] == Cell::Empty ==> move_score(b, j, comp, player) <= move_score(
            b,
            i,
            comp,
            player,
        )
    &&& forall|j: int|
        0 <= j < i && b[j] == Cell::Empty ==> move_score(b, j, comp, player) < move_score(
            b,
            i,
            comp,
            player,
        )
}

/// The cell `get_worst` must pick: an empty cell that beats no empty cell,
/// scoring strictly under every empty cell before it.
pub open spec fn is_worst_choice(b: Seq<Cell>, i: int, comp: Cell, player: Cell) -> bool {
    &&& 0 <= i < 9
    &&& b[i] == Cell::Empty
    &&& forall|j: int|
        0 <= j < 9 && b[j] == Cell::Empty ==> move_score(b, i, comp, player) <= move_score(
            b,
            j,
            comp,
            player,
        )
    &&& forall|j: int|
        0 <= j < i && b[j] == Cell::Empty ==> move_score(b, i, comp, player) < move_score(
            b,
            j,
            comp,
            player,
        )
}

/// A fresh copy of the board, for hypothetical placements.
fn copy_board(board: &Vec<Cell>) -> (r: Vec<Cell>)
    requires
        board@.len() == 9,
    ensures
        r@ == board@,
{
    let mut r: Vec<Cell> = Vec::new();
    let mut i: usize = 0;
    while i < 9
        invariant
            i <= 9,
            board@.len() == 9,
            r@ == board@.subrange(0, i as int),
        decreases 9 - i,
    {
        r.push(board[i]);
        proof {
            assert(r@ =~= board@.subrange(0, i + 1));
        }
        i += 1;
    }
    proof {
        assert(board@.subrange(0, 9) =~= board@);
    }
    r
}

/// A uniformly random empty cell, if one remains.
pub fn get_random(board: &Vec<Cell>) -> (r: Option<usize>)
    requires
        board@.len() == 9,
    ensures
        match r {
            Some(i) => i < 9 && board@[i as int] == Cell::Empty,
            None => empty_count(board@) == 0,
        },
{
    let mut empties: Vec<usize> = Vec::new();
    let mut i: usize = 0;
    while i < 9
        invariant
            i <= 9,
            board@.len() == 9,
            empties@.len() == count_upto(board@, Cell::Empty, i as int),
            forall|k: int|
                0 <= k < empties@.len() ==> (#[trigger] empties@[k]) < 9 && board@[empties@[k] as int]
                    == Cell::Empty,
        decreases 9 - i,
    {
        if board[i] == Cell::Empty {
            empties.push(i);
        }
        i += 1;
    }
    if empties.len() == 0 {
        None
    } else {
        let k = rand_below(empties.len());
        Some(empties[k])
    }
}

/// The engine's strongest move: the empty cell with the strictly highest
/// search score, ties keeping the first cell found. An entirely empty board
/// short-circuits to the center, which full search would also pick; a full
/// board offers nothing.
pub fn get_best(board: &Vec<Cell>, comp: Cell, player: Cell) -> (r: Option<usize>)
    requires
        board@.len() == 9,
        markers_ok(comp, player),
    ensures
        empty_count(board@) == 9 ==> r == Some(4usize),
        empty_count(board@) == 0 ==> r is None,
        0 < empty_count(board@) < 9 ==> (r matches Some(i) && is_best_choice(
            board@,
            i as int,
            comp,
            player,
        )),
{
    proof {
        lemma_count_bounded(board@, Cell::Empty, 9);
    }
    if all_empty(board) {
        return Some(4);
    }

    let mut work = copy_board(board);
    let mut best_score: i32 = i32::MIN;
    let mut best: Option<usize> = None;
    let mut i: usize = 0;
    while i < 9
        invariant
            work@ == board@,
            board@.len() == 9,
            markers_ok(comp, player),
            i <= 9,
            match best {
                None => best_score == i32::MIN && forall|j: int|
                    0 <= j < i ==> board@[j] != Cell::Empty,
                Some(bi) => {
                    &&& bi < i
                    &&& board@[bi as int] == Cell::Empty
                    &&& best_score as int == move_score(board@, bi as int, comp, player)
                    &&& forall|j: int|
                        0 <= j < i && board@[j] == Cell::Empty ==> move_score(
                            board@,
                            j,
                            comp,
                            player,
                        ) <= best_score as int
                    &&& forall|j: int|
                        0 <= j < bi && board@[j] == Cell::Empty ==> move_score(
                            board@,
                            j,
                            comp,
                            player,
                        ) < best_score as int
                },
            },
        decreases 9 - i,
    {
        if work[i] == Cell::Empty {
            proof {
                lemma_count_bounded(board@, Cell::Empty, 9);
                lemma_place_marker(board@, i as int, comp);
            }
            work[i] = comp;
            let s = minimax(&mut work, 0, false, comp, player);
            work[i] = Cell::Empty;
            proof {
                assert(work@ =~= board@);
                lemma_minimax_bounds(board@.update(i as int, comp), 0, false, comp, player);
            }
            if s > best_score {
                best_score = s;
                best = Some(i);
            }
        }
        i += 1;
    }
    proof {
        match best {
            Some(bi) => {
                if empty_count(board@) == 0 {
                    lemma_count_member(board@, Cell::Empty, bi as int, 9);
                }
            },
            None => {
                if empty_count(board@) > 0 {
                    lemma_count_positive(board@, Cell::Empty, 9);
                }
            },
        }
    }
    best
}

/// The engine's weakest move: the empty cell with the strictly lowest search
/// score, ties keeping the first cell found. With eight or more empty cells
/// every opening is equally harmless, so a random one stands in for the
/// search; a full board offers nothing.
pub fn get_worst(board: &Vec<Cell>, comp: Cell, player: Cell) -> (r: Option<usize>)
    requires
        board@.len() == 9,
        markers_ok(comp, player),
    ensures
        empty_count(board@) >= 8 ==> (r matches Some(i) && i < 9 && board@[i as int]
            == Cell::Empty),
        0 < empty_count(board@) < 8 ==> (r matches Some(i) && is_worst_choice(
            board@,
            i as int,
            comp,
            player,
        )),
        empty_count(board@) == 0 ==> r is None,
{
    let n_empty = count_empty_cells(board);
    if n_empty >= 8 {
        return get_random(board);
    }

    let mut work = copy_board(board);
    let mut worst_score: i32 = i32::MAX;
    let mut worst: Option<usize> = None;
    let mut i: usize = 0;
    while i < 9
        invariant
            work@ == board@,
            board@.len() == 9,
            markers_ok(comp, player),
            i <= 9,
            match worst {
                None => worst_score == i32::MAX && forall|j: int|
                    0 <= j < i ==> board@[j] != Cell::Empty,
                Some(wi) => {
                    &&& wi < i
                    &&& board@[wi as int] == Cell::Empty
                    &&& worst_score as int == move_score(board@, wi as int, comp, player)
                    &&& forall|j: int|
                        0 <= j < i && board@[j] == Cell::Empty ==> (worst_score as int) <= move_score(
                            board@,
                            j,
                            comp,
                            player,
                        )
                    &&& forall|j: int|
                        0 <= j < wi && board@[j] == Cell::Empty ==> (worst_score as int) < move_score(
                            board@,
                            j,
                            comp,
                            player,
                        )
                },
            },
        decreases 9 - i,
    {
        if work[i] == Cell::Empty {
            proof {
                lemma_count_bounded(board@, Cell::Empty, 9);
                lemma_place_marker(board@, i as int, comp);
            }
            work[i] = comp;
            let s = minimax(&mut work, 0, false, comp, player);
            work[i] = Cell::Empty;
            proof {
                assert(work@ =~= board@);
                lemma_minimax_bounds(board@.update(i as int, comp), 0, false, comp, player);
            }
            if s < worst_score {
                worst_score = s;
                worst = Some(i);
            }
        }
        i += 1;
    }
    match worst {
        Some(wi) => {
            proof {
                if empty_count(board@) == 0 {
                    lemma_count_member(board@, Cell::Empty, wi as int, 9);
                }
            }
            Some(wi)
        },
        None => {
            proof {
                lemma_count_none(board@, Cell::Empty, 9);
            }
            get_random(board)
        },
    }
}

/// Number of empty cells left on the board.
pub fn count_empty_cells(board: &Vec<Cell>) -> (n: usize)
    requires
        board@.len() == 9,
    ensures
        n == empty_count(board@),
{
    let mut n: usize = 0;
    let mut i: usize = 0;
    while i < 9
        invariant
            i <= 9,
            board@.len() == 9,
            n == count_upto(board@, Cell::Empty, i as int),
            n <= i,
        decreases 9 - i,
    {
        if board[i] == Cell::Empty {
            n += 1;
        }
        i += 1;
    }
    n
}

/// Every cell of the board is still empty.
fn all_empty(board: &Vec<Cell>) -> (r: bool)
    requires
        board@.len() == 9,
    ensures
        r == (empty_count(board@) == 9),
{
    let n = count_empty_cells(board);
    n == 9
}

/// `best_move` takes a one-move win: wherever some empty cell completes a
/// line for the engine, the cell `get_best` picks also completes one.
pub proof fn lemma_best_choice_takes_win(b: Seq<Cell>, w: int, i: int, comp: Cell, player: Cell)
    requires
        b.len() == 9,
        markers_ok(comp, player),
        !has_line(b, player),
        0 <= w < 9,
        b[w] == Cell::Empty,
        has_line(b.update(w, comp), comp),
        is_best_choice(b, i, comp, player),
    ensures
        has_line(b.update(i, comp), comp),
{
    assert(move_score(b, w, comp, player) == 10);
    lemma_count_bounded(b, Cell::Empty, 9);
    lemma_place_marker(b, i, comp);
    lemma_minimax_bounds(b.update(i, comp), 0, false, comp, player);
    assert(move_score(b, i, comp, player) == 10);
    lemma_update_keeps_no_line(b, i, comp, player);
    lemma_value_ten_is_win(b.update(i, comp), comp, player);
}

/// Under legal play a board with seven empty cells carries one mark of each
/// side, so whatever the engine plays, no immediate reply can complete an
/// opponent line: in particular the cell `get_worst` returns never hands the
/// opponent an instant win there.
pub proof fn lemma_seven_empty_reply_harmless(b: Seq<Cell>, i: int, j: int, comp: Cell, player: Cell)
    requires
        b.len() == 9,
        markers_ok(comp, player),
        empty_count(b) == 7,
        count_of(b, comp) == 1,
        count_of(b, player) == 1,
        0 <= i < 9,
        b[i] == Cell::Empty,
        0 <= j < 9,
        j != i,
        b[j] == Cell::Empty,
    ensures
        !has_line(b.update(i, comp).update(j, player), player),
{
    let b1 = b.update(i, comp);
    let b2 = b1.update(j, player);
    lemma_place_marker(b, i, comp);
    lemma_place_marker(b1, j, player);
    if has_line(b2, player) {
        lemma_line_needs_three(b2, player);
    }
}

} // verus!
