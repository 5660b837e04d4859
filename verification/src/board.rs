//! The 3-by-3 board: cell states, mark counting, the eight winning lines, and
//! win/draw detection.

use vstd::prelude::*;

verus! {

/// State of one cell of the 3-by-3 grid: empty, or marked by one side.
#[derive(Clone, Copy, PartialEq, Eq, Structural, Debug)]
pub enum Cell {
    Empty,
    X,
    O,
}

impl Cell {
    /// The glyph the presentation layer draws for this cell.
    pub fn as_str(&self) -> (r: &'static str)
        ensures
            *self == Cell::X ==> r@ == "X"@,
            *self == Cell::O ==> r@ == "O"@,
            *self == Cell::Empty ==> r@ == ""@,
    {
        match self {
            Cell::X => "X",
            Cell::O => "O",
            Cell::Empty => "",
        }
    }
}

/// The two markers of a game: the two distinct non-empty cell states.
pub open spec fn markers_ok(a: Cell, b: Cell) -> bool {
    (a == Cell::X && b == Cell::O) || (a == Cell::O && b == Cell::X)
}

/// How many of the first `n` cells hold marker `m`.
pub open spec fn count_upto(b: Seq<Cell>, m: Cell, n: int) -> nat
    decreases n,
{
    if n <= 0 {
        0
    } else {
        count_upto(b, m, n - 1) + if b[n - 1] == m {
            1nat
        } else {
            0nat
        }
    }
}

/// How many cells of the board hold marker `m`.
pub open spec fn count_of(b: Seq<Cell>, m: Cell) -> nat {
    count_upto(b, m, 9)
}

/// How many cells of the board are still empty.
pub open spec fn empty_count(b: Seq<Cell>) -> nat {
    count_of(b, Cell::Empty)
}

/// No empty cell remains.
pub open spec fn board_full(b: Seq<Cell>) -> bool {
    empty_count(b) == 0
}

/// The cell indices of winning line `k`: the three rows top to bottom, then
/// the three columns left to right, then the two diagonals.
pub open spec fn line_cells(k: int) -> (int, int, int) {
    if k == 0 {
        (0int, 1int, 2int)
    } else if k == 1 {
        (3int, 4int, 5int)
    } else if k == 2 {
        (6int, 7int, 8int)
    } else if k == 3 {
        (0int, 3int, 6int)
    } else if k == 4 {
        (1int, 4int, 7int)
    } else if k == 5 {
        (2int, 5int, 8int)
    } else if k == 6 {
        (0int, 4int, 8int)
    } else {
        (2int, 4int, 6int)
    }
}

/// Line `k` is fully occupied by marker `m`.
pub open spec fn line_won(b: Seq<Cell>, k: int, m: Cell) -> bool {
    b[line_cells(k).0] == m && b[line_cells(k).1] == m && b[line_cells(k).2] == m
}

/// Some winning line is fully occupied by marker `m`.
pub open spec fn has_line(b: Seq<Cell>, m: Cell) -> bool {
    exists|k: int| 0 <= k < 8 && line_won(b, k, m)
}

/// The first winning line fully occupied by `m`, in the fixed order.
pub open spec fn first_line(b: Seq<Cell>, m: Cell) -> Option<int> {
    if line_won(b, 0, m) {
        Some(0int)
    } else if line_won(b, 1, m) {
        Some(1int)
    } else if line_won(b, 2, m) {
        Some(2int)
    } else if line_won(b, 3, m) {
        Some(3int)
    } else if line_won(b, 4, m) {
        Some(4int)
    } else if line_won(b, 5, m) {
        Some(5int)
    } else if line_won(b, 6, m) {
        Some(6int)
    } else if line_won(b, 7, m) {
        Some(7int)
    } else {
        None
    }
}

/// `winning_line` answers positively exactly when some line is fully occupied.
pub proof fn lemma_first_line_exists(b: Seq<Cell>, m: Cell)
    ensures
        (first_line(b, m) is Some) == has_line(b, m),
{
    if first_line(b, m) is Some {
        let k = first_line(b, m)->0;
        assert(line_won(b, k, m));
    }
    if has_line(b, m) {
        let k = choose|k: int| 0 <= k < 8 && line_won(b, k, m);
        assert(line_won(b, k, m));
    }
}

/// The cells of winning line `k`, as executable indices.
pub fn line_index(k: usize) -> (r: (usize, usize, usize))
    requires
        k < 8,
    ensures
        (r.0 as int, r.1 as int, r.2 as int) == line_cells(k as int),
        r.0 < 9 && r.1 < 9 && r.2 < 9,
{
    if k == 0 {
        (0, 1, 2)
    } else if k == 1 {
        (3, 4, 5)
    } else if k == 2 {
        (6, 7, 8)
    } else if k == 3 {
        (0, 3, 6)
    } else if k == 4 {
        (1, 4, 7)
    } else if k == 5 {
        (2, 5, 8)
    } else if k == 6 {
        (0, 4, 8)
    } else {
        (2, 4, 6)
    }
}

/// Whether marker `who` owns a completed line.
pub fn win_check(board: &Vec<Cell>, who: Cell) -> (r: bool)
    requires
        board@.len() == 9,
    ensures
        r == has_line(board@, who),
{
    let mut k: usize = 0;
    while k < 8
        invariant
            k <= 8,
            board@.len() == 9,
            forall|j: int| 0 <= j < k ==> !line_won(board@, j, who),
        decreases 8 - k,
    {
        let (a, b, c) = line_index(k);
        if board[a] == who && board[b] == who && board[c] == who {
            assert(line_won(board@, k as int, who));
            return true;
        }
        k += 1;
    }
    false
}

/// The first completed line of marker `marker`, if any: the indices of its
/// three cells, rows first, then columns, then the diagonals.
pub fn winning_line(board: &Vec<Cell>, marker: Cell) -> (r: Option<(usize, usize, usize)>)
    requires
        board@.len() == 9,
    ensures
        match r {
            Some(t) => first_line(board@, marker) matches Some(k) && (
                t.0 as int,
                t.1 as int,
                t.2 as int,
            ) == line_cells(k) && t.0 < 9 && t.1 < 9 && t.2 < 9,
            None => first_line(board@, marker) is None,
        },
{
    let mut k: usize = 0;
    while k < 8
        invariant
            k <= 8,
            board@.len() == 9,
            forall|j: int| 0 <= j < k ==> !line_won(board@, j, marker),
        decreases 8 - k,
    {
        let (a, b, c) = line_index(k);
        if board[a] == marker && board[b] == marker && board[c] == marker {
            assert(line_won(board@, k as int, marker));
            return Some((a, b, c));
        }
        k += 1;
    }
    None
}

/// Cell `i` lies on winning line `k`.
pub open spec fn in_line(k: int, i: int) -> bool {
    i == line_cells(k).0 || i == line_cells(k).1 || i == line_cells(k).2
}

/// The highlight mask of the first completed line of `m`: exactly the cells
/// of that line, or no cell when `m` owns no line.
pub open spec fn line_mask(b: Seq<Cell>, m: Cell) -> Seq<bool> {
    Seq::new(
        9,
        |i: int|
            match first_line(b, m) {
                Some(k) => in_line(k, i),
                None => false,
            },
    )
}

/// A board of nine empty cells.
pub open spec fn empty_board() -> Seq<Cell> {
    Seq::new(9, |i: int| Cell::Empty)
}

/// A cleared highlight mask.
pub open spec fn no_marks() -> Seq<bool> {
    Seq::new(9, |i: int| false)
}

/// A fresh board is all empty and nobody owns a line on it.
pub proof fn lemma_empty_board_fresh()
    ensures
        empty_count(empty_board()) == 9,
        forall|m: Cell| m != Cell::Empty ==> !has_line(empty_board(), m),
{
    lemma_count_all(empty_board(), Cell::Empty, 9);
    assert forall|m: Cell| m != Cell::Empty implies !has_line(empty_board(), m) by {
        assert forall|k: int| 0 <= k < 8 implies !line_won(empty_board(), k, m) by {
            assert(0 <= line_cells(k).0 < 9);
            assert(empty_board()[line_cells(k).0] == Cell::Empty);
        }
    }
}

/// A board of nine empty cells, ready to play on.
pub fn new_board() -> (v: Vec<Cell>)
    ensures
        v@ == empty_board(),
{
    let mut v: Vec<Cell> = Vec::new();
    let mut i: usize = 0;
    while i < 9
        invariant
            i <= 9,
            v@.len() == i,
            forall|j: int| 0 <= j < i ==> v@[j] == Cell::Empty,
        decreases 9 - i,
    {
        v.push(Cell::Empty);
        i += 1;
    }
    proof {
        assert(v@ =~= empty_board());
    }
    v
}

/// A cleared highlight mask, one flag per cell.
pub fn new_marks() -> (v: Vec<bool>)
    ensures
        v@ == no_marks(),
{
    let mut v: Vec<bool> = Vec::new();
    let mut i: usize = 0;
    while i < 9
        invariant
            i <= 9,
            v@.len() == i,
            forall|j: int| 0 <= j < i ==> v@[j] == false,
        decreases 9 - i,
    {
        v.push(false);
        i += 1;
    }
    proof {
        assert(v@ =~= no_marks());
    }
    v
}

/// No empty cell remains on the board.
pub fn is_full(board: &Vec<Cell>) -> (r: bool)
    requires
        board@.len() == 9,
    ensures
        r == board_full(board@),
{
    let mut i: usize = 0;
    while i < 9
        invariant
            i <= 9,
            board@.len() == 9,
            count_upto(board@, Cell::Empty, i as int) == 0,
        decreases 9 - i,
    {
        if board[i] == Cell::Empty {
            proof {
                lemma_count_member(board@, Cell::Empty, i as int, 9);
            }
            return false;
        }
        i += 1;
    }
    true
}

/// Counting is monotone in the length of the prefix.
pub proof fn lemma_count_monotonic(b: Seq<Cell>, m: Cell, n1: int, n2: int)
    requires
        0 <= n1 <= n2,
    ensures
        count_upto(b, m, n1) <= count_upto(b, m, n2),
    decreases n2 - n1,
{
    if n1 < n2 {
        lemma_count_monotonic(b, m, n1, n2 - 1);
    }
}

/// A cell holding `m` below `n` makes the count positive.
pub proof fn lemma_count_member(b: Seq<Cell>, m: Cell, i: int, n: int)
    requires
        0 <= i < n,
        b[i] == m,
    ensures
        count_upto(b, m, n) >= 1,
    decreases n,
{
    if i < n - 1 {
        lemma_count_member(b, m, i, n - 1);
    }
}

/// A positive count yields a witness cell.
pub proof fn lemma_count_positive(b: Seq<Cell>, m: Cell, n: int)
    requires
        count_upto(b, m, n) > 0,
    ensures
        exists|i: int| 0 <= i < n && b[i] == m,
    decreases n,
{
    if n > 0 {
        if b[n - 1] == m {
            assert(0 <= n - 1 < n && b[n - 1] == m);
        } else {
            lemma_count_positive(b, m, n - 1);
        }
    }
}

/// If every cell below `n` avoids `m`, the count is zero.
pub proof fn lemma_count_none(b: Seq<Cell>, m: Cell, n: int)
    requires
        forall|i: int| 0 <= i < n ==> b[i] != m,
    ensures
        count_upto(b, m, n) == 0,
    decreases n,
{
    if n > 0 {
        lemma_count_none(b, m, n - 1);
    }
}

/// If every cell below `n` holds `m`, the count is `n`.
pub proof fn lemma_count_all(b: Seq<Cell>, m: Cell, n: int)
    requires
        0 <= n,
        forall|i: int| 0 <= i < n ==> b[i] == m,
    ensures
        count_upto(b, m, n) == n,
    decreases n,
{
    if n > 0 {
        lemma_count_all(b, m, n - 1);
    }
}

/// The count never exceeds the prefix length.
pub proof fn lemma_count_bounded(b: Seq<Cell>, m: Cell, n: int)
    requires
        0 <= n,
    ensures
        count_upto(b, m, n) <= n,
    decreases n,
{
    if n > 0 {
        lemma_count_bounded(b, m, n - 1);
    }
}

/// A saturated count means every cell below `n` holds `m`.
pub proof fn lemma_count_saturated(b: Seq<Cell>, m: Cell, n: int)
    requires
        0 <= n,
        count_upto(b, m, n) == n,
    ensures
        forall|i: int| 0 <= i < n ==> b[i] == m,
    decreases n,
{
    if n > 0 {
        lemma_count_bounded(b, m, n - 1);
        lemma_count_saturated(b, m, n - 1);
    }
}

/// How overwriting one cell shifts the count of marker `m`.
pub proof fn lemma_count_update(b: Seq<Cell>, m: Cell, i: int, v: Cell, n: int)
    requires
        0 <= i < b.len(),
        n <= b.len(),
    ensures
        count_upto(b.update(i, v), m, n) as int == count_upto(b, m, n) as int + if 0 <= i < n {
            (if v == m {
                1int
            } else {
                0int
            }) - (if b[i] == m {
                1int
            } else {
                0int
            })
        } else {
            0int
        },
    decreases n,
{
    if n > 0 {
        lemma_count_update(b, m, i, v, n - 1);
    }
}

/// Placing a marker on an empty cell takes one cell off the empty count.
pub proof fn lemma_place_marker(b: Seq<Cell>, i: int, v: Cell)
    requires
        b.len() == 9,
        0 <= i < 9,
        b[i] == Cell::Empty,
        v != Cell::Empty,
    ensures
        empty_count(b.update(i, v)) == empty_count(b) - 1,
        count_of(b.update(i, v), v) == count_of(b, v) + 1,
        forall|m: Cell| m != Cell::Empty && m != v ==> count_of(b.update(i, v), m) == count_of(
            b,
            m,
        ),
{
    lemma_count_update(b, Cell::Empty, i, v, 9);
    lemma_count_update(b, v, i, v, 9);
    assert forall|m: Cell| m != Cell::Empty && m != v implies count_of(b.update(i, v), m)
        == count_of(b, m) by {
        lemma_count_update(b, m, i, v, 9);
    }
}

/// A completed line needs at least three marks of its owner.
pub proof fn lemma_line_needs_three(b: Seq<Cell>, m: Cell)
    requires
        b.len() == 9,
        has_line(b, m),
    ensures
        count_of(b, m) >= 3,
{
    let k = choose|k: int| 0 <= k < 8 && line_won(b, k, m);
    let (p, q, r) = line_cells(k);
    assert(0 <= p < q < r < 9);
    lemma_three_marks(b, m, p, q, r);
}

/// Three distinct cells holding `m` push the count to three.
proof fn lemma_three_marks(b: Seq<Cell>, m: Cell, p: int, q: int, r: int)
    requires
        b.len() == 9,
        0 <= p < q < r < 9,
        b[p] == m,
        b[q] == m,
        b[r] == m,
    ensures
        count_of(b, m) >= 3,
{
    lemma_count_member(b, m, p, p + 1);
    lemma_count_monotonic(b, m, p + 1, q);
    lemma_count_monotonic(b, m, q + 1, r);
    lemma_count_monotonic(b, m, r + 1, 9);
    assert(count_upto(b, m, q + 1) == count_upto(b, m, q) + 1);
    assert(count_upto(b, m, r + 1) == count_upto(b, m, r) + 1);
}

/// A marker that owns no line still owns none after the other side moves.
pub proof fn lemma_update_keeps_no_line(b: Seq<Cell>, i: int, v: Cell, m: Cell)
    requires
        b.len() == 9,
        0 <= i < 9,
        !has_line(b, m),
        v != m,
    ensures
        !has_line(b.update(i, v), m),
{
    assert forall|k: int| 0 <= k < 8 implies !line_won(b.update(i, v), k, m) by {
        assert(!line_won(b, k, m));
    }
}

} // verus!
