//! Exhaustive minimax over board snapshots: full depth, no pruning. A quick
//! win scores higher than a slow one and a late loss scores less negative
//! than an early one, so the engine prefers the quickest win and the slowest
//! loss.

use vstd::prelude::*;
use vstd::math::max;
use vstd::math::min;
use crate::board::Cell;
use crate::board::count_upto;
use crate::board::empty_count;
use crate::board::has_line;
use crate::board::is_full;
use crate::board::lemma_count_positive;
use crate::board::lemma_place_marker;
use crate::board::lemma_update_keeps_no_line;
use crate::board::markers_ok;
use crate::board::win_check;

verus! {

/// Minimax value of the board at the given search depth, scored for the side
/// whose marker is `comp`. The side to move places `comp` when `is_max` holds
/// and `player` otherwise. A board already won by `comp` is worth
/// `10 - depth`, one won by `player` is worth `depth - 10`, a full board is
/// worth nothing, and otherwise the mover picks the extreme value over all
/// empty cells.
pub open spec fn spec_minimax(b: Seq<Cell>, depth: int, is_max: bool, comp: Cell, player: Cell) -> int
    decreases empty_count(b), 10int,
    when b.len() == 9 && markers_ok(comp, player)
{
    if has_line(b, comp) {
        10 - depth
    } else if has_line(b, player) {
        depth - 10
    } else if empty_count(b) == 0 {
        0
    } else {
        search_from(b, depth, is_max, comp, player, 0)
    }
}

/// The extreme minimax value over placements in the empty cells with index at
/// least `i`; the fold starts from the weakest possible score, as the
/// executable search does.
pub open spec fn search_from(
    b: Seq<Cell>,
    depth: int,
    is_max: bool,
    comp: Cell,
    player: Cell,
    i: int,
) -> int
    decreases empty_count(b), 9 - i,
    when b.len() == 9 && markers_ok(comp, player) && 0 <= i <= 9
{
    if i >= 9 {
        if is_max {
            i32::MIN as int
        } else {
            i32::MAX as int
        }
    } else if b[i] != Cell::Empty {
        search_from(b, depth, is_max, comp, player, i + 1)
    } else {
        let mover = if is_max {
            comp
        } else {
            player
        };
        let sub = {
            proof {
                lemma_place_marker(b, i, mover);
            }
            spec_minimax(b.update(i, mover), depth + 1, !is_max, comp, player)
        };
        let rest = search_from(b, depth, is_max, comp, player, i + 1);
        if is_max {
            max(sub, rest)
        } else {
            min(sub, rest)
        }
    }
}

/// A stretch of cells with no empty one contributes only the fold's base.
pub proof fn lemma_search_no_empty(
    b: Seq<Cell>,
    depth: int,
    is_max: bool,
    comp: Cell,
    player: Cell,
    i: int,
)
    requires
        b.len() == 9,
        markers_ok(comp, player),
        0 <= i <= 9,
        forall|j: int| i <= j < 9 ==> b[j] != Cell::Empty,
    ensures
        search_from(b, depth, is_max, comp, player, i) == if is_max {
            i32::MIN as int
        } else {
            i32::MAX as int
        },
    decreases 9 - i,
{
    if i < 9 {
        lemma_search_no_empty(b, depth, is_max, comp, player, i + 1);
    }
}

/// Minimax values stay within the depth-scaled band.
pub proof fn lemma_minimax_bounds(b: Seq<Cell>, depth: int, is_max: bool, comp: Cell, player: Cell)
    requires
        b.len() == 9,
        markers_ok(comp, player),
        0 <= depth,
        depth + empty_count(b) <= 9,
    ensures
        depth - 10 <= spec_minimax(b, depth, is_max, comp, player) <= 10 - depth,
    decreases empty_count(b), 10int,
{
    if !has_line(b, comp) && !has_line(b, player) && empty_count(b) > 0 {
        lemma_count_positive(b, Cell::Empty, 9);
        lemma_search_bounds(b, depth, is_max, comp, player, 0);
    }
}

/// As long as an empty cell remains in the suffix, the folded search value is
/// the value of some real placement, so it stays within the band one ply in.
pub proof fn lemma_search_bounds(
    b: Seq<Cell>,
    depth: int,
    is_max: bool,
    comp: Cell,
    player: Cell,
    i: int,
)
    requires
        b.len() == 9,
        markers_ok(comp, player),
        0 <= depth,
        depth + empty_count(b) <= 9,
        0 <= i <= 9,
        exists|j: int| i <= j < 9 && b[j] == Cell::Empty,
    ensures
        depth - 9 <= search_from(b, depth, is_max, comp, player, i) <= 9 - depth,
    decreases empty_count(b), 9 - i,
{
    let j = choose|j: int| i <= j < 9 && b[j] == Cell::Empty;
    if b[i] != Cell::Empty {
        assert(i + 1 <= j < 9 && b[j] == Cell::Empty);
        lemma_search_bounds(b, depth, is_max, comp, player, i + 1);
    } else {
        let mover = if is_max {
            comp
        } else {
            player
        };
        lemma_place_marker(b, i, mover);
        lemma_minimax_bounds(b.update(i, mover), depth + 1, !is_max, comp, player);
        if exists|j2: int| i + 1 <= j2 < 9 && b[j2] == Cell::Empty {
            lemma_search_bounds(b, depth, is_max, comp, player, i + 1);
        } else {
            assert(forall|j2: int| i + 1 <= j2 < 9 ==> b[j2] != Cell::Empty);
            lemma_search_no_empty(b, depth, is_max, comp, player, i + 1);
        }
    }
}

/// Swapping the two markers, and with them the side that maximizes, negates
/// the minimax value: `evaluate(b, d, true, a, o) == -evaluate(b, d, false, o, a)`
/// on every board where at most one side owns a line, which covers every
/// board reached by alternating legal play.
pub proof fn lemma_minimax_marker_swap(b: Seq<Cell>, depth: int, is_max: bool, a: Cell, o: Cell)
    requires
        b.len() == 9,
        markers_ok(a, o),
        0 <= depth,
        depth + empty_count(b) <= 9,
        !(has_line(b, a) && has_line(b, o)),
    ensures
        spec_minimax(b, depth, is_max, a, o) == -spec_minimax(b, depth, !is_max, o, a),
    decreases empty_count(b), 10int,
{
    if !has_line(b, a) && !has_line(b, o) && empty_count(b) > 0 {
        lemma_count_positive(b, Cell::Empty, 9);
        lemma_search_swap(b, depth, is_max, a, o, 0);
    }
}

/// The folded search value negates under the same swap, as long as an empty
/// cell remains in the suffix so the fold's asymmetric base drops out.
proof fn lemma_search_swap(b: Seq<Cell>, depth: int, is_max: bool, a: Cell, o: Cell, i: int)
    requires
        b.len() == 9,
        markers_ok(a, o),
        0 <= depth,
        depth + empty_count(b) <= 9,
        !has_line(b, a),
        !has_line(b, o),
        0 <= i <= 9,
        exists|j: int| i <= j < 9 && b[j] == Cell::Empty,
    ensures
        search_from(b, depth, is_max, a, o, i) == -search_from(b, depth, !is_max, o, a, i),
    decreases empty_count(b), 9 - i,
{
    let j = choose|j: int| i <= j < 9 && b[j] == Cell::Empty;
    if b[i] != Cell::Empty {
        assert(i + 1 <= j < 9 && b[j] == Cell::Empty);
        lemma_search_swap(b, depth, is_max, a, o, i + 1);
    } else {
        let mv = if is_max {
            a
        } else {
            o
        };
        let b2 = b.update(i, mv);
        lemma_place_marker(b, i, mv);
        if mv == a {
            lemma_update_keeps_no_line(b, i, a, o);
        } else {
            lemma_update_keeps_no_line(b, i, o, a);
        }
        lemma_minimax_marker_swap(b2, depth + 1, !is_max, a, o);
        lemma_minimax_bounds(b2, depth + 1, !is_max, a, o);
        if exists|j2: int| i + 1 <= j2 < 9 && b[j2] == Cell::Empty {
            lemma_search_swap(b, depth, is_max, a, o, i + 1);
        } else {
            assert(forall|j2: int| i + 1 <= j2 < 9 ==> b[j2] != Cell::Empty);
            lemma_search_no_empty(b, depth, is_max, a, o, i + 1);
            lemma_search_no_empty(b, depth, !is_max, o, a, i + 1);
        }
    }
}

/// At depth zero with the opponent to move, the only way to score the full
/// ten is to stand on a board already won by the engine.
pub proof fn lemma_value_ten_is_win(c: Seq<Cell>, comp: Cell, player: Cell)
    requires
        c.len() == 9,
        markers_ok(comp, player),
        !has_line(c, player),
        spec_minimax(c, 0, false, comp, player) == 10,
    ensures
        has_line(c, comp),
{
    crate::board::lemma_count_bounded(c, Cell::Empty, 9);
    if !has_line(c, comp) {
        if empty_count(c) > 0 {
            lemma_count_positive(c, Cell::Empty, 9);
            lemma_search_bounds(c, 0, false, comp, player, 0);
        }
    }
}

/// A faithful executable copy of `spec_minimax`: explores every empty cell,
/// undoing each hypothetical placement, and leaves the board as it found it.
pub fn minimax(board: &mut Vec<Cell>, depth: i32, is_max: bool, comp: Cell, player: Cell) -> (score:
    i32)
    requires
        old(board)@.len() == 9,
        markers_ok(comp, player),
        0 <= depth,
        depth + empty_count(old(board)@) <= 9,
    ensures
        final(board)@ == old(board)@,
        score as int == spec_minimax(old(board)@, depth as int, is_max, comp, player),
    decreases empty_count(old(board)@),
{
    proof {
        crate::board::lemma_count_bounded(old(board)@, Cell::Empty, 9);
    }
    if win_check(board, comp) {
        return 10 - depth;
    }
    if win_check(board, player) {
        return depth - 10;
    }
    if is_full(board) {
        return 0;
    }

    let ghost b0 = board@;
    proof {
        lemma_count_positive(b0, Cell::Empty, 9);
        lemma_search_bounds(b0, depth as int, is_max, comp, player, 0);
    }
    let mover = if is_max {
        comp
    } else {
        player
    };
    let mut best: i32 = if is_max {
        i32::MIN
    } else {
        i32::MAX
    };
    let mut i: usize = 0;
    while i < 9
        invariant
            board@ == b0,
            old(board)@ == b0,
            b0.len() == 9,
            markers_ok(comp, player),
            0 <= depth,
            depth + empty_count(b0) <= 9,
            i <= 9,
            mover == if is_max {
                comp
            } else {
                player
            },
            is_max ==> max(best as int, search_from(b0, depth as int, true, comp, player, i as int))
                == search_from(b0, depth as int, true, comp, player, 0),
            !is_max ==> min(
                best as int,
                search_from(b0, depth as int, false, comp, player, i as int),
            ) == search_from(b0, depth as int, false, comp, player, 0),
        decreases 9 - i,
    {
        if board[i] == Cell::Empty {
            proof {
                lemma_place_marker(b0, i as int, mover);
            }
            board[i] = mover;
            let s = minimax(board, depth + 1, !is_max, comp, player);
            board[i] = Cell::Empty;
            proof {
                assert(board@ =~= b0);
            }
            if is_max {
                if s > best {
                    best = s;
                }
            } else {
                if s < best {
                    best = s;
                }
            }
        }
        i += 1;
    }
    best
}

} // verus!
