use vstd::prelude::*;
use crate::game::{App, Position, CELL_EMPTY, CELL_X};

verus! {

/// Place in the board array of the cell at column `x`, row `y`.
pub open spec fn cell_index(x: int, y: int) -> int {
    y * 3 + x
}

/// `p` names one of the nine cells of the board.
pub open spec fn on_board(p: Position) -> bool {
    cell_index(p.0 as int, p.1 as int) < 9
}

/// The mark at `p` on `board`.
pub open spec fn mark_at(board: Seq<u8>, p: Position) -> u8 {
    board[cell_index(p.0 as int, p.1 as int)]
}

/// One if the mark counts as `value`, else zero.
pub open spec fn counts_as_value(mark: u8, value: u8) -> int {
    if mark == value {
        1
    } else {
        0
    }
}

/// The mark is an empty cell that does not already count as `value`.
pub open spec fn counts_as_empty(mark: u8, value: u8) -> bool {
    mark != value && mark == CELL_EMPTY
}

/// What `check_line` reports for the three cells `line` of `board`: how many hold `value`,
/// how many others are empty, and the last such empty cell (column 0, row 0 when none is).
pub open spec fn line_report(board: Seq<u8>, value: u8, line: Seq<Position>) -> (usize, usize, Position) {
    let m0 = mark_at(board, line[0]);
    let m1 = mark_at(board, line[1]);
    let m2 = mark_at(board, line[2]);
    let vals = counts_as_value(m0, value) + counts_as_value(m1, value) + counts_as_value(m2, value);
    let empties = (if counts_as_empty(m0, value) { 1int } else { 0int }) + (if counts_as_empty(m1, value) {
        1int
    } else {
        0int
    }) + (if counts_as_empty(m2, value) { 1int } else { 0int });
    let pos = if counts_as_empty(m2, value) {
        line[2]
    } else if counts_as_empty(m1, value) {
        line[1]
    } else if counts_as_empty(m0, value) {
        line[0]
    } else {
        Position(0, 0)
    };
    (vals as usize, empties as usize, pos)
}

/// The `k`-th of the eight lines of the board, in the order in which they are searched:
/// the three columns, the three rows, the main diagonal, the other diagonal.
pub open spec fn line(k: int) -> Seq<Position> {
    if k < 3 {
        seq![Position(k as usize, 0), Position(k as usize, 1), Position(k as usize, 2)]
    } else if k < 6 {
        seq![
            Position(0, (k - 3) as usize),
            Position(1, (k - 3) as usize),
            Position(2, (k - 3) as usize),
        ]
    } else if k == 6 {
        seq![Position(0, 0), Position(1, 1), Position(2, 2)]
    } else {
        seq![Position(0, 2), Position(1, 1), Position(2, 0)]
    }
}

/// The first line, from the `k`-th on, that holds two `value`s and one empty cell; its
/// empty cell.
pub open spec fn two_in_line_from(board: Seq<u8>, value: u8, k: int) -> Option<Position>
    decreases 8 - k,
{
    if k < 0 || k >= 8 {
        None
    } else {
        let r = line_report(board, value, line(k));
        if r.0 == 2 && r.1 == 1 {
            Some(r.2)
        } else {
            two_in_line_from(board, value, k + 1)
        }
    }
}

/// Some line of the board holds three player marks.
pub open spec fn player_has_line(board: Seq<u8>) -> bool {
    exists|k: int|
        0 <= k < 8 && {
            let l = #[trigger] line(k);
            mark_at(board, l[0]) == CELL_X && mark_at(board, l[1]) == CELL_X && mark_at(board, l[2])
                == CELL_X
        }
}

/// The three cells `l` hold one player mark and two empty cells.
pub open spec fn one_player_mark(board: Seq<u8>, l: Seq<Position>) -> bool {
    let r = line_report(board, CELL_X, l);
    r.0 == 1 && r.1 == 2
}

/// The corner where the player could make two lines at once, as `find_fork` looks for it.
pub open spec fn fork_corner(board: Seq<u8>) -> Option<Position> {
    let row0 = one_player_mark(board, seq![Position(0, 0), Position(0, 1), Position(0, 2)]);
    let row2 = one_player_mark(board, seq![Position(2, 0), Position(2, 1), Position(2, 2)]);
    let col0 = one_player_mark(board, seq![Position(0, 0), Position(1, 0), Position(2, 0)]);
    let col2 = one_player_mark(board, seq![Position(0, 2), Position(1, 2), Position(2, 2)]);
    if row0 && col0 && board[0] == CELL_EMPTY {
        Some(Position(0, 0))
    } else if row0 && col2 && board[6] == CELL_EMPTY {
        Some(Position(0, 2))
    } else if row2 && col0 && board[2] == CELL_EMPTY {
        Some(Position(2, 0))
    } else if row2 && col2 && board[8] == CELL_EMPTY {
        Some(Position(2, 2))
    } else {
        None
    }
}

impl App {
    /// The mark at column `x`, row `y`.
    pub fn get(&self, x: usize, y: usize) -> (r: u8)
        requires
            cell_index(x as int, y as int) < 9,
        ensures
            r == self.board@[cell_index(x as int, y as int)],
    {
        self.board[y * 3 + x]
    }

    /// Puts the mark `val` at column `x`, row `y`; nothing else changes.
    pub fn set(&mut self, x: usize, y: usize, val: u8)
        requires
            cell_index(x as int, y as int) < 9,
        ensures
            final(self).board@ == old(self).board@.update(cell_index(x as int, y as int), val),
            final(self).hidden_cards == old(self).hidden_cards,
            final(self).visible_cards == old(self).visible_cards,
            final(self).player1_cards == old(self).player1_cards,
            final(self).player2_cards == old(self).player2_cards,
            final(self).cursor_position == old(self).cursor_position,
            final(self).turn_num == old(self).turn_num,
            final(self).result == old(self).result,
            final(self).exit == old(self).exit,
    {
        self.board[y * 3 + x] = val;
    }

    /// Looks at three cells: how many hold `value`, how many others are empty, and the last
    /// such empty cell (column 0, row 0 when there is none).
    pub fn check_line(&self, value: u8, indexes: [Position; 3]) -> (r: (usize, usize, Position))
        requires
            forall|i: int| 0 <= i < 3 ==> on_board(#[trigger] indexes@[i]),
        ensures
            r == line_report(self.board@, value, indexes@),
            r.0 + r.1 <= 3,
    {
        let mut val_num: usize = 0;
        let mut empty_num: usize = 0;
        let mut empty_pos = Position(0, 0);
        let mut i: usize = 0;
        while i < 3
            invariant
                i <= 3,
                forall|j: int| 0 <= j < 3 ==> on_board(#[trigger] indexes@[j]),
                val_num as int == (if i > 0 { counts_as_value(mark_at(self.board@, indexes@[0]), value) } else { 0 })
                    + (if i > 1 { counts_as_value(mark_at(self.board@, indexes@[1]), value) } else { 0 })
                    + (if i > 2 { counts_as_value(mark_at(self.board@, indexes@[2]), value) } else { 0 }),
                empty_num as int == (if i > 0 && counts_as_empty(mark_at(self.board@, indexes@[0]), value) { 1int } else { 0 })
                    + (if i > 1 && counts_as_empty(mark_at(self.board@, indexes@[1]), value) { 1int } else { 0 })
                    + (if i > 2 && counts_as_empty(mark_at(self.board@, indexes@[2]), value) { 1int } else { 0 }),
                empty_pos == (if i > 2 && counts_as_empty(mark_at(self.board@, indexes@[2]), value) {
                    indexes@[2]
                } else if i > 1 && counts_as_empty(mark_at(self.board@, indexes@[1]), value) {
                    indexes@[1]
                } else if i > 0 && counts_as_empty(mark_at(self.board@, indexes@[0]), value) {
                    indexes@[0]
                } else {
                    Position(0, 0)
                }),
            decreases 3 - i,
        {
            let p = indexes[i];
            assert(on_board(indexes@[i as int]));
            let v = self.get(p.0, p.1);
            if v == value {
                val_num += 1;
            } else if v == CELL_EMPTY {
                empty_num += 1;
                empty_pos = p;
            }
            i = i + 1;
        }
        (val_num, empty_num, empty_pos)
    }

    /// The empty cell that completes the first line (columns, then rows, then the two
    /// diagonals) holding two `value`s and one empty cell.
    pub fn find_two_in_line(&self, value: u8) -> (r: Option<Position>)
        ensures
            r == two_in_line_from(self.board@, value, 0),
    {
        let mut x: usize = 0;
        while x < 3
            invariant
                x <= 3,
                two_in_line_from(self.board@, value, 0) == two_in_line_from(self.board@, value, x as int),
            decreases 3 - x,
        {
            let l = [Position(x, 0), Position(x, 1), Position(x, 2)];
            assert(l@ == line(x as int));
            let (val_num, empty_num, empty_pos) = self.check_line(value, l);
            if val_num == 2 && empty_num == 1 {
                return Some(empty_pos);
            }
            x = x + 1;
        }
        let mut y: usize = 0;
        while y < 3
            invariant
                y <= 3,
                two_in_line_from(self.board@, value, 0) == two_in_line_from(self.board@, value, 3 + y),
            decreases 3 - y,
        {
            let l = [Position(0, y), Position(1, y), Position(2, y)];
            assert(l@ == line(3 + y));
            let (val_num, empty_num, empty_pos) = self.check_line(value, l);
            if val_num == 2 && empty_num == 1 {
                return Some(empty_pos);
            }
            y = y + 1;
        }
        let l = [Position(0, 0), Position(1, 1), Position(2, 2)];
        assert(l@ == line(6));
        let (val_num, empty_num, empty_pos) = self.check_line(value, l);
        if val_num == 2 && empty_num == 1 {
            return Some(empty_pos);
        }
        assert(two_in_line_from(self.board@, value, 6) == two_in_line_from(self.board@, value, 7));
        let l = [Position(0, 2), Position(1, 1), Position(2, 0)];
        assert(l@ == line(7));
        let (val_num, empty_num, empty_pos) = self.check_line(value, l);
        if val_num == 2 && empty_num == 1 {
            return Some(empty_pos);
        }
        assert(two_in_line_from(self.board@, value, 7) == two_in_line_from(self.board@, value, 8));
        None
    }

    /// The corner where the player could complete two lines at once, if it is empty.
    pub fn find_fork(&self) -> (r: Option<Position>)
        ensures
            r == fork_corner(self.board@),
    {
        let l = [Position(0, 0), Position(0, 1), Position(0, 2)];
        let (val_num, empty_num, _) = self.check_line(CELL_X, l);
        let row0 = val_num == 1 && empty_num == 2;
        let l = [Position(2, 0), Position(2, 1), Position(2, 2)];
        let (val_num, empty_num, _) = self.check_line(CELL_X, l);
        let row2 = val_num == 1 && empty_num == 2;
        let l = [Position(0, 0), Position(1, 0), Position(2, 0)];
        let (val_num, empty_num, _) = self.check_line(CELL_X, l);
        let col0 = val_num == 1 && empty_num == 2;
        let l = [Position(0, 2), Position(1, 2), Position(2, 2)];
        let (val_num, empty_num, _) = self.check_line(CELL_X, l);
        let col2 = val_num == 1 && empty_num == 2;
        if row0 && col0 && self.get(0, 0) == CELL_EMPTY {
            Some(Position(0, 0))
        } else if row0 && col2 && self.get(0, 2) == CELL_EMPTY {
            Some(Position(0, 2))
        } else if row2 && col0 && self.get(2, 0) == CELL_EMPTY {
            Some(Position(2, 0))
        } else if row2 && col2 && self.get(2, 2) == CELL_EMPTY {
            Some(Position(2, 2))
        } else {
            None
        }
    }

    /// Whether some line of the board holds three player marks.
    pub fn is_user_win(&self) -> (r: bool)
        ensures
            r == player_has_line(self.board@),
    {
        let mut x: usize = 0;
        while x < 3
            invariant
                x <= 3,
                forall|k: int| 0 <= k < x ==> !Self::full_line(self.board@, #[trigger] line(k)),
            decreases 3 - x,
        {
            let l = [Position(x, 0), Position(x, 1), Position(x, 2)];
            assert(l@ == line(x as int));
            let (val_num, _, _) = self.check_line(CELL_X, l);
            if val_num == 3 {
                assert(Self::full_line(self.board@, line(x as int)));
                return true;
            }
            x = x + 1;
        }
        let mut y: usize = 0;
        while y < 3
            invariant
                y <= 3,
                forall|k: int| 0 <= k < 3 + y ==> !Self::full_line(self.board@, #[trigger] line(k)),
            decreases 3 - y,
        {
            let l = [Position(0, y), Position(1, y), Position(2, y)];
            assert(l@ == line(3 + y));
            let (val_num, _, _) = self.check_line(CELL_X, l);
            if val_num == 3 {
                assert(Self::full_line(self.board@, line(3 + y)));
                return true;
            }
            y = y + 1;
        }
        let l = [Position(0, 0), Position(1, 1), Position(2, 2)];
        assert(l@ == line(6));
        let (val_num, _, _) = self.check_line(CELL_X, l);
        if val_num == 3 {
            assert(Self::full_line(self.board@, line(6)));
            return true;
        }
        let l = [Position(0, 2), Position(1, 1), Position(2, 0)];
        assert(l@ == line(7));
        let (val_num, _, _) = self.check_line(CELL_X, l);
        if val_num == 3 {
            assert(Self::full_line(self.board@, line(7)));
            return true;
        }
        false
    }

    /// The three cells hold player marks.
    pub open spec fn full_line(board: Seq<u8>, l: Seq<Position>) -> bool {
        mark_at(board, l[0]) == CELL_X && mark_at(board, l[1]) == CELL_X && mark_at(board, l[2])
            == CELL_X
    }

    /// Whether one of the cells at columns 0 and 1, rows 0 and 1, is empty.
    pub fn is_empty_cells(&self) -> (r: bool)
        ensures
            r == (self.board@[0] == CELL_EMPTY || self.board@[1] == CELL_EMPTY || self.board@[3]
                == CELL_EMPTY || self.board@[4] == CELL_EMPTY),
    {
        let mut x: usize = 0;
        while x < 2
            invariant
                x <= 2,
                forall|i: int, j: int|
                    0 <= i < x && 0 <= j < 2 ==> self.board@[#[trigger] cell_index(i, j)] != CELL_EMPTY,
            decreases 2 - x,
        {
            let mut y: usize = 0;
            while y < 2
                invariant
                    x < 2,
                    y <= 2,
                    forall|i: int, j: int|
                        0 <= i < x && 0 <= j < 2 ==> self.board@[#[trigger] cell_index(i, j)] != CELL_EMPTY,
                    forall|j: int| 0 <= j < y ==> self.board@[#[trigger] cell_index(x as int, j)] != CELL_EMPTY,
                decreases 2 - y,
            {
                if self.get(x, y) == CELL_EMPTY {
                    return true;
                }
                y = y + 1;
            }
            x = x + 1;
        }
        assert(self.board@[cell_index(0, 0)] != CELL_EMPTY);
        assert(self.board@[cell_index(1, 0)] != CELL_EMPTY);
        assert(self.board@[cell_index(0, 1)] != CELL_EMPTY);
        assert(self.board@[cell_index(1, 1)] != CELL_EMPTY);
        return false;
    }
}

/// After a mark is put on a cell, that cell reads as the mark and every other cell reads as
/// before.
pub proof fn lemma_mark_after_set(board: Seq<u8>, p: Position, q: Position, val: u8)
    requires
        board.len() == 9,
        on_board(p),
        on_board(q),
    ensures
        mark_at(board.update(cell_index(p.0 as int, p.1 as int), val), p) == val,
        cell_index(q.0 as int, q.1 as int) != cell_index(p.0 as int, p.1 as int) ==> mark_at(
            board.update(cell_index(p.0 as int, p.1 as int), val),
            q,
        ) == mark_at(board, q),
{
}

/// The cells of every line lie on the board.
pub proof fn lemma_lines_on_board(k: int)
    requires
        0 <= k < 8,
    ensures
        line(k).len() == 3,
        forall|i: int| 0 <= i < 3 ==> on_board(#[trigger] line(k)[i]),
{
}

/// The search of `two_in_line_from`, from the `k`-th line on.
proof fn lemma_two_in_line_from(board: Seq<u8>, value: u8, k: int)
    requires
        board.len() == 9,
        value != CELL_EMPTY,
        0 <= k <= 8,
    ensures
        two_in_line_from(board, value, k) matches Some(p) ==> {
            &&& on_board(p)
            &&& mark_at(board, p) == CELL_EMPTY
            &&& exists|j: int|
                k <= j < 8 && (#[trigger] line(j)).contains(p) && line_report(board, value, line(j)).0 == 2
                    && line_report(board, value, line(j)).1 == 1
        },
        two_in_line_from(board, value, k) is None ==> forall|j: int|
            k <= j < 8 ==> !(line_report(board, value, #[trigger] line(j)).0 == 2 && line_report(
                board,
                value,
                line(j),
            ).1 == 1),
    decreases 8 - k,
{
    if k < 8 {
        lemma_lines_on_board(k);
        lemma_two_in_line_from(board, value, k + 1);
        let l = line(k);
        let r = line_report(board, value, l);
        if r.0 == 2 && r.1 == 1 {
            assert(on_board(l[0]) && on_board(l[1]) && on_board(l[2]));
            if counts_as_empty(mark_at(board, l[2]), value) {
                assert(l.contains(l[2]));
            } else if counts_as_empty(mark_at(board, l[1]), value) {
                assert(l.contains(l[1]));
            } else {
                assert(l.contains(l[0]));
            }
        }
    }
}

/// The cell that `find_two_in_line` names completes a line: it is empty and lies on a line
/// whose two other cells hold `value`. When it names none, no line holds two `value`s and an
/// empty cell.
pub proof fn lemma_two_in_line_completes(board: Seq<u8>, value: u8)
    requires
        board.len() == 9,
        value != CELL_EMPTY,
    ensures
        two_in_line_from(board, value, 0) matches Some(p) ==> {
            &&& on_board(p)
            &&& mark_at(board, p) == CELL_EMPTY
            &&& exists|j: int|
                0 <= j < 8 && (#[trigger] line(j)).contains(p) && line_report(board, value, line(j)).0 == 2
                    && line_report(board, value, line(j)).1 == 1
        },
        two_in_line_from(board, value, 0) is None ==> forall|j: int|
            0 <= j < 8 ==> !(line_report(board, value, #[trigger] line(j)).0 == 2 && line_report(
                board,
                value,
                line(j),
            ).1 == 1),
{
    lemma_two_in_line_from(board, value, 0);
}

/// The cell that `find_fork` names is an empty corner of the board.
pub proof fn lemma_fork_corner_is_empty_corner(board: Seq<u8>)
    requires
        board.len() == 9,
    ensures
        fork_corner(board) matches Some(p) ==> {
            &&& p.0 == 0 || p.0 == 2
            &&& p.1 == 0 || p.1 == 2
            &&& mark_at(board, p) == CELL_EMPTY
        },
{
}

/// The cells `i`, `j`, `k` of the board array all hold player marks.
pub open spec fn three_marks(board: Seq<u8>, i: int, j: int, k: int) -> bool {
    board[i] == CELL_X && board[j] == CELL_X && board[k] == CELL_X
}

/// Two of the cells `i`, `j`, `k` of the board array hold `value` and the third is empty.
pub open spec fn two_and_an_empty(board: Seq<u8>, value: u8, i: int, j: int, k: int) -> bool {
    ||| board[i] == value && board[j] == value && board[k] == CELL_EMPTY
    ||| board[i] == value && board[j] == CELL_EMPTY && board[k] == value
    ||| board[i] == CELL_EMPTY && board[j] == value && board[k] == value
}

/// One of the cells `i`, `j`, `k` of the board array holds a player mark and the other two
/// are empty.
pub open spec fn one_mark_two_empty(board: Seq<u8>, i: int, j: int, k: int) -> bool {
    ||| board[i] == CELL_X && board[j] == CELL_EMPTY && board[k] == CELL_EMPTY
    ||| board[i] == CELL_EMPTY && board[j] == CELL_X && board[k] == CELL_EMPTY
    ||| board[i] == CELL_EMPTY && board[j] == CELL_EMPTY && board[k] == CELL_X
}

/// The cells of the `k`-th line, by their places in the board array (row times three plus
/// column).
proof fn lemma_line_cells(k: int)
    requires
        0 <= k < 8,
    ensures
        k == 0 ==> cell_index(line(k)[0].0 as int, line(k)[0].1 as int) == 0 && cell_index(line(k)[1].0 as int, line(k)[1].1 as int) == 3 && cell_index(line(k)[2].0 as int, line(k)[2].1 as int) == 6,
        k == 1 ==> cell_index(line(k)[0].0 as int, line(k)[0].1 as int) == 1 && cell_index(line(k)[1].0 as int, line(k)[1].1 as int) == 4 && cell_index(line(k)[2].0 as int, line(k)[2].1 as int) == 7,
        k == 2 ==> cell_index(line(k)[0].0 as int, line(k)[0].1 as int) == 2 && cell_index(line(k)[1].0 as int, line(k)[1].1 as int) == 5 && cell_index(line(k)[2].0 as int, line(k)[2].1 as int) == 8,
        k == 3 ==> cell_index(line(k)[0].0 as int, line(k)[0].1 as int) == 0 && cell_index(line(k)[1].0 as int, line(k)[1].1 as int) == 1 && cell_index(line(k)[2].0 as int, line(k)[2].1 as int) == 2,
        k == 4 ==> cell_index(line(k)[0].0 as int, line(k)[0].1 as int) == 3 && cell_index(line(k)[1].0 as int, line(k)[1].1 as int) == 4 && cell_index(line(k)[2].0 as int, line(k)[2].1 as int) == 5,
        k == 5 ==> cell_index(line(k)[0].0 as int, line(k)[0].1 as int) == 6 && cell_index(line(k)[1].0 as int, line(k)[1].1 as int) == 7 && cell_index(line(k)[2].0 as int, line(k)[2].1 as int) == 8,
        k == 6 ==> cell_index(line(k)[0].0 as int, line(k)[0].1 as int) == 0 && cell_index(line(k)[1].0 as int, line(k)[1].1 as int) == 4 && cell_index(line(k)[2].0 as int, line(k)[2].1 as int) == 8,
        k == 7 ==> cell_index(line(k)[0].0 as int, line(k)[0].1 as int) == 6 && cell_index(line(k)[1].0 as int, line(k)[1].1 as int) == 4 && cell_index(line(k)[2].0 as int, line(k)[2].1 as int) == 2,
{
}

/// `is_user_win` answers whether one of the eight lines of the board (the columns
/// {0, 3, 6}, {1, 4, 7}, {2, 5, 8}, the rows {0, 1, 2}, {3, 4, 5}, {6, 7, 8} and the
/// diagonals {0, 4, 8}, {2, 4, 6}, by place in the board array) holds three player marks.
pub proof fn lemma_user_win_is_three_in_a_line(board: Seq<u8>)
    requires
        board.len() == 9,
    ensures
        player_has_line(board) <==> (three_marks(board, 0, 3, 6) || three_marks(board, 1, 4, 7)
            || three_marks(board, 2, 5, 8) || three_marks(board, 0, 1, 2) || three_marks(board, 3, 4, 5)
            || three_marks(board, 6, 7, 8) || three_marks(board, 0, 4, 8) || three_marks(board, 2, 4, 6)),
{
    if player_has_line(board) {
        let k = choose|k: int|
            0 <= k < 8 && {
                let l = #[trigger] line(k);
                mark_at(board, l[0]) == CELL_X && mark_at(board, l[1]) == CELL_X && mark_at(board, l[2])
                    == CELL_X
            };
        lemma_line_cells(k);
    }
    let witness = if three_marks(board, 0, 3, 6) {
        0int
    } else if three_marks(board, 1, 4, 7) {
        1
    } else if three_marks(board, 2, 5, 8) {
        2
    } else if three_marks(board, 0, 1, 2) {
        3
    } else if three_marks(board, 3, 4, 5) {
        4
    } else if three_marks(board, 6, 7, 8) {
        5
    } else if three_marks(board, 0, 4, 8) {
        6
    } else {
        7
    };
    lemma_line_cells(witness);
    let l = line(witness);
    if mark_at(board, l[0]) == CELL_X && mark_at(board, l[1]) == CELL_X && mark_at(board, l[2]) == CELL_X {
        assert(player_has_line(board));
    }
}

/// The cell that `find_two_in_line` names is empty and completes one of the eight lines of the
/// board (by place in the board array) whose two other cells hold `value`; when it names none,
/// no line holds two `value`s and an empty cell.
pub proof fn lemma_two_in_line_cells(board: Seq<u8>, value: u8)
    requires
        board.len() == 9,
        value != CELL_EMPTY,
    ensures
        two_in_line_from(board, value, 0) matches Some(p) ==> {
            let c = cell_index(p.0 as int, p.1 as int);
            &&& on_board(p)
            &&& board[c] == CELL_EMPTY
            &&& {
                ||| two_and_an_empty(board, value, 0, 3, 6) && (c == 0 || c == 3 || c == 6)
                ||| two_and_an_empty(board, value, 1, 4, 7) && (c == 1 || c == 4 || c == 7)
                ||| two_and_an_empty(board, value, 2, 5, 8) && (c == 2 || c == 5 || c == 8)
                ||| two_and_an_empty(board, value, 0, 1, 2) && (c == 0 || c == 1 || c == 2)
                ||| two_and_an_empty(board, value, 3, 4, 5) && (c == 3 || c == 4 || c == 5)
                ||| two_and_an_empty(board, value, 6, 7, 8) && (c == 6 || c == 7 || c == 8)
                ||| two_and_an_empty(board, value, 0, 4, 8) && (c == 0 || c == 4 || c == 8)
                ||| two_and_an_empty(board, value, 2, 4, 6) && (c == 2 || c == 4 || c == 6)
            }
        },
        two_in_line_from(board, value, 0) is None ==> {
            &&& !two_and_an_empty(board, value, 0, 3, 6)
            &&& !two_and_an_empty(board, value, 1, 4, 7)
            &&& !two_and_an_empty(board, value, 2, 5, 8)
            &&& !two_and_an_empty(board, value, 0, 1, 2)
            &&& !two_and_an_empty(board, value, 3, 4, 5)
            &&& !two_and_an_empty(board, value, 6, 7, 8)
            &&& !two_and_an_empty(board, value, 0, 4, 8)
            &&& !two_and_an_empty(board, value, 2, 4, 6)
        },
{
    lemma_two_in_line_from(board, value, 0);
    assert forall|j: int| 0 <= j < 8 implies (line_report(board, value, #[trigger] line(j)).0 == 2
        && line_report(board, value, line(j)).1 == 1) == (if j == 0 {
        two_and_an_empty(board, value, 0, 3, 6)
    } else if j == 1 {
        two_and_an_empty(board, value, 1, 4, 7)
    } else if j == 2 {
        two_and_an_empty(board, value, 2, 5, 8)
    } else if j == 3 {
        two_and_an_empty(board, value, 0, 1, 2)
    } else if j == 4 {
        two_and_an_empty(board, value, 3, 4, 5)
    } else if j == 5 {
        two_and_an_empty(board, value, 6, 7, 8)
    } else if j == 6 {
        two_and_an_empty(board, value, 0, 4, 8)
    } else {
        two_and_an_empty(board, value, 2, 4, 6)
    }) by {
        lemma_line_cells(j);
    }
    if let Some(p) = two_in_line_from(board, value, 0) {
        let j = choose|j: int|
            0 <= j < 8 && (#[trigger] line(j)).contains(p) && line_report(board, value, line(j)).0 == 2
                && line_report(board, value, line(j)).1 == 1;
        lemma_line_cells(j);
        let l = line(j);
        let i = choose|i: int| 0 <= i < l.len() && l[i] == p;
        assert(i == 0 || i == 1 || i == 2);
    } else {
        // Name every line, so that the facts above are applied to each of them.
        assert(line(0) == line(0) && line(1) == line(1) && line(2) == line(2) && line(3) == line(3));
        assert(line(4) == line(4) && line(5) == line(5) && line(6) == line(6) && line(7) == line(7));
    }
}

/// The corner that `find_fork` names is empty, and both the column and the row through it
/// hold one player mark and two empty cells, so a mark there would make two lines of two at
/// once. When it names none, no corner is like that.
pub proof fn lemma_fork_corner_makes_two_lines(board: Seq<u8>)
    requires
        board.len() == 9,
    ensures
        fork_corner(board) matches Some(p) ==> {
            let x = p.0 as int;
            let y = p.1 as int;
            &&& x == 0 || x == 2
            &&& y == 0 || y == 2
            &&& board[cell_index(x, y)] == CELL_EMPTY
            &&& one_mark_two_empty(board, cell_index(x, 0), cell_index(x, 1), cell_index(x, 2))
            &&& one_mark_two_empty(board, cell_index(0, y), cell_index(1, y), cell_index(2, y))
        },
        fork_corner(board) is None ==> forall|x: int, y: int|
            (x == 0 || x == 2) && (y == 0 || y == 2) && board[#[trigger] cell_index(x, y)] == CELL_EMPTY
                ==> !(one_mark_two_empty(board, cell_index(x, 0), cell_index(x, 1), cell_index(x, 2))
                && one_mark_two_empty(board, cell_index(0, y), cell_index(1, y), cell_index(2, y))),
{
}

} // verus!
