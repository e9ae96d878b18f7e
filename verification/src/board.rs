//! The game engine: a 3x3 board of marks, turn enforcement, win
//! detection keyed by the just-played cell, and the opponent's
//! win-then-block-then-random move policy.

use vstd::prelude::*;

verus! {

/// The value occupying a cell, also used for turn tracking, where
/// `Empty` means "the game has ended".
#[derive(Clone, Copy, Debug, PartialEq, Eq, Structural)]
pub enum CellValue {
    O,
    X,
    Empty,
}

/// Why a call to `Board::play` was rejected. A rejected play never
/// changes the board.
#[derive(Clone, Copy, Debug, PartialEq, Eq, Structural)]
pub enum PlayError {
    /// The mark played is not the one whose turn it is, or the game is over.
    WrongTurn,
    /// The target cell already holds a mark.
    CellOccupied,
    /// The sentinel `Empty` mark was played.
    InvalidMark,
}

impl CellValue {
    /// A printable name for the mark.
    pub fn name(&self) -> (r: &str)
        ensures
            *self is O ==> r@ == "O"@,
            *self is X ==> r@ == "X"@,
            *self is Empty ==> r@ == "Empty"@,
    {
        match *self {
            CellValue::O => "O",
            CellValue::X => "X",
            CellValue::Empty => "Empty",
        }
    }

    pub fn is_empty(&self) -> (r: bool)
        ensures
            r == (*self is Empty),
    {
        match *self {
            CellValue::Empty => true,
            _ => false,
        }
    }

    /// The mark that moves after this one; `Empty` has no successor.
    pub open spec fn spec_next(self) -> CellValue {
        match self {
            CellValue::O => CellValue::X,
            CellValue::X => CellValue::O,
            CellValue::Empty => CellValue::Empty,
        }
    }

    pub fn next(&self) -> (r: CellValue)
        ensures
            r == self.spec_next(),
    {
        match *self {
            CellValue::O => CellValue::X,
            CellValue::X => CellValue::O,
            CellValue::Empty => CellValue::Empty,
        }
    }
}

/// The cell with row-major index `i`: `(i / 3, i % 3)` for `i` in `0..9`.
pub open spec fn cell_at(i: int) -> (usize, usize) {
    if i == 0 {
        (0usize, 0usize)
    } else if i == 1 {
        (0usize, 1usize)
    } else if i == 2 {
        (0usize, 2usize)
    } else if i == 3 {
        (1usize, 0usize)
    } else if i == 4 {
        (1usize, 1usize)
    } else if i == 5 {
        (1usize, 2usize)
    } else if i == 6 {
        (2usize, 0usize)
    } else if i == 7 {
        (2usize, 1usize)
    } else {
        (2usize, 2usize)
    }
}

/// 1 for a placed mark, 0 for an empty cell.
pub open spec fn occupied(c: CellValue) -> int {
    if c is Empty {
        0
    } else {
        1
    }
}

pub struct Board {
    pub cells: [[CellValue; 3]; 3],
    /// Whose turn it is; `Empty` means the game has ended.
    pub current_player: CellValue,
    /// How many marks have been placed, in `[0, 9]`.
    pub move_count: usize,
    /// `Empty` until a line is completed, then the mark of that line.
    pub winner: CellValue,
}

impl Board {
    pub open spec fn cell(self, x: int, y: int) -> CellValue
        recommends
            0 <= x < 3,
            0 <= y < 3,
    {
        self.cells[x][y]
    }

    /// The number of non-`Empty` cells among the first `n` in row-major order.
    pub open spec fn filled_upto(self, n: int) -> int
        decreases n,
    {
        if n <= 0 {
            0
        } else {
            let c = cell_at(n - 1);
            self.filled_upto(n - 1) + occupied(self.cell(c.0 as int, c.1 as int))
        }
    }

    /// The number of non-`Empty` cells on the board.
    pub open spec fn filled_count(self) -> int {
        self.filled_upto(9)
    }

    /// The empty cells among the first `n` in row-major order.
    pub open spec fn free_upto(self, n: int) -> Seq<(usize, usize)>
        decreases n,
    {
        if n <= 0 {
            Seq::empty()
        } else {
            let c = cell_at(n - 1);
            if self.cell(c.0 as int, c.1 as int) is Empty {
                self.free_upto(n - 1).push(c)
            } else {
                self.free_upto(n - 1)
            }
        }
    }

    /// The empty cells in row-major order.
    pub open spec fn free_seq(self) -> Seq<(usize, usize)> {
        self.free_upto(9)
    }

    pub open spec fn row_won(self, x: int, p: CellValue) -> bool {
        self.cell(x, 0) == p && self.cell(x, 1) == p && self.cell(x, 2) == p
    }

    pub open spec fn col_won(self, y: int, p: CellValue) -> bool {
        self.cell(0, y) == p && self.cell(1, y) == p && self.cell(2, y) == p
    }

    pub open spec fn diag_won(self, p: CellValue) -> bool {
        self.cell(0, 0) == p && self.cell(1, 1) == p && self.cell(2, 2) == p
    }

    pub open spec fn anti_diag_won(self, p: CellValue) -> bool {
        self.cell(0, 2) == p && self.cell(1, 1) == p && self.cell(2, 0) == p
    }

    /// Whether `p` holds all three cells of any of the 8 lines.
    pub open spec fn has_line(self, p: CellValue) -> bool {
        ||| self.row_won(0, p)
        ||| self.row_won(1, p)
        ||| self.row_won(2, p)
        ||| self.col_won(0, p)
        ||| self.col_won(1, p)
        ||| self.col_won(2, p)
        ||| self.diag_won(p)
        ||| self.anti_diag_won(p)
    }

    /// The other two cells of row `x` (besides column `y`) both hold `p`.
    pub open spec fn completes_row(self, x: int, y: int, p: CellValue) -> bool {
        ||| y == 0 && self.cell(x, 1) == p && self.cell(x, 2) == p
        ||| y == 1 && self.cell(x, 0) == p && self.cell(x, 2) == p
        ||| y == 2 && self.cell(x, 0) == p && self.cell(x, 1) == p
    }

    /// The other two cells of column `y` (besides row `x`) both hold `p`.
    pub open spec fn completes_col(self, x: int, y: int, p: CellValue) -> bool {
        ||| x == 0 && self.cell(1, y) == p && self.cell(2, y) == p
        ||| x == 1 && self.cell(0, y) == p && self.cell(2, y) == p
        ||| x == 2 && self.cell(0, y) == p && self.cell(1, y) == p
    }

    /// `(x, y)` lies on the main diagonal and its other two cells hold `p`.
    pub open spec fn completes_diag(self, x: int, y: int, p: CellValue) -> bool {
        x == y && {
            ||| x == 0 && self.cell(1, 1) == p && self.cell(2, 2) == p
            ||| x == 1 && self.cell(0, 0) == p && self.cell(2, 2) == p
            ||| x == 2 && self.cell(0, 0) == p && self.cell(1, 1) == p
        }
    }

    /// `(x, y)` lies on the anti-diagonal and its other two cells hold `p`.
    pub open spec fn completes_anti_diag(self, x: int, y: int, p: CellValue) -> bool {
        x + y == 2 && {
            ||| x == 0 && self.cell(1, 1) == p && self.cell(2, 0) == p
            ||| x == 1 && self.cell(0, 2) == p && self.cell(2, 0) == p
            ||| x == 2 && self.cell(0, 2) == p && self.cell(1, 1) == p
        }
    }

    /// Placing `p` at `(x, y)` would complete a line through `(x, y)`:
    /// some line through that cell has `p` in both of its other cells.
    pub open spec fn completes_line(self, x: int, y: int, p: CellValue) -> bool {
        ||| self.completes_row(x, y, p)
        ||| self.completes_col(x, y, p)
        ||| self.completes_diag(x, y, p)
        ||| self.completes_anti_diag(x, y, p)
    }

    /// The board invariant: the move count agrees with the cells, the
    /// game is over exactly when a line was completed or the board is
    /// full, and `winner` records exactly which mark holds a line.
    pub open spec fn wf(self) -> bool {
        &&& self.move_count == self.filled_count()
        &&& self.move_count <= 9
        &&& (self.current_player is Empty <==> (self.winner !is Empty || self.move_count == 9))
        &&& (self.has_line(CellValue::O) <==> self.winner is O)
        &&& (self.has_line(CellValue::X) <==> self.winner is X)
    }

    /// The cells of `post` agree with those of `self` everywhere but `(x, y)`.
    pub open spec fn same_cells_except(self, post: Board, x: int, y: int) -> bool {
        forall|i: int, j: int|
            0 <= i < 3 && 0 <= j < 3 && !(i == x && j == y) ==> post.cell(i, j) == self.cell(i, j)
    }

    /// The full effect of a successful play of `p` at `(x, y)` on `self`,
    /// yielding `post`: the mark is placed, the count goes up by one, and
    /// the turn passes, ends in a win, or ends in a draw on the ninth move.
    pub open spec fn play_step(self, post: Board, x: int, y: int, p: CellValue) -> bool {
        &&& post.cell(x, y) == p
        &&& self.same_cells_except(post, x, y)
        &&& post.move_count == self.move_count + 1
        &&& if self.completes_line(x, y, p) {
            post.winner == p && post.current_player is Empty
        } else {
            post.winner == self.winner && post.current_player == (
            if self.move_count + 1 == 9 {
                CellValue::Empty
            } else {
                p.spec_next()
            })
        }
    }

    /// An empty cell is never counted: with `(x, y)` empty, at most
    /// `n - 1` of the first `n` cells are filled once `n` covers `(x, y)`.
    proof fn lemma_filled_upto_missing(self, x: int, y: int, n: int)
        requires
            0 <= x < 3,
            0 <= y < 3,
            0 <= n <= 9,
            self.cell(x, y) is Empty,
        ensures
            self.filled_upto(n) <= n - (if 3 * x + y < n {
                1int
            } else {
                0int
            }),
        decreases n,
    {
        if n > 0 {
            self.lemma_filled_upto_missing(x, y, n - 1);
        }
    }

    /// Filling exactly the one empty cell `(x, y)` raises the filled
    /// count of every prefix that covers it by exactly one.
    proof fn lemma_filled_after_place(self, post: Board, x: int, y: int, n: int)
        requires
            0 <= x < 3,
            0 <= y < 3,
            0 <= n <= 9,
            self.cell(x, y) is Empty,
            post.cell(x, y) !is Empty,
            self.same_cells_except(post, x, y),
        ensures
            post.filled_upto(n) == self.filled_upto(n) + (if 3 * x + y < n {
                1int
            } else {
                0int
            }),
        decreases n,
    {
        if n > 0 {
            self.lemma_filled_after_place(post, x, y, n - 1);
        }
    }

    /// Placing `p` at `(x, y)` creates a line for `p` exactly when one
    /// was already there or the placement completes one through `(x, y)`,
    /// and creates no line for any other mark.
    proof fn lemma_line_after_place(self, post: Board, x: int, y: int, p: CellValue)
        requires
            0 <= x < 3,
            0 <= y < 3,
            p !is Empty,
            self.cell(x, y) is Empty,
            post.cell(x, y) == p,
            self.same_cells_except(post, x, y),
        ensures
            post.has_line(p) <==> (self.has_line(p) || self.completes_line(x, y, p)),
            forall|q: CellValue|
                q !is Empty && q != p ==> (post.has_line(q) <==> self.has_line(q)),
    {
        assert forall|q: CellValue| q !is Empty && q != p implies (post.has_line(q)
            <==> self.has_line(q)) by {
            assert(post.cell(x, y) != q);
            assert(self.cell(x, y) != q);
        }
    }

    /// All cells empty, `O` (the machine) to move first.
    pub fn empty() -> (b: Board)
        ensures
            b.wf(),
            b.move_count == 0,
            b.current_player is O,
            b.winner is Empty,
            forall|i: int, j: int| 0 <= i < 3 && 0 <= j < 3 ==> b.cell(i, j) is Empty,
    {
        let b = Board {
            cells: [[CellValue::Empty; 3]; 3],
            current_player: CellValue::O,
            move_count: 0,
            winner: CellValue::Empty,
        };
        proof {
            reveal_with_fuel(Board::filled_upto, 10);
        }
        b
    }

    /// Every entry of a free-cell prefix is an in-range empty cell, and
    /// the prefix and the filled cells together account for all `n`.
    proof fn lemma_free_upto_props(self, n: int)
        requires
            0 <= n <= 9,
        ensures
            self.free_upto(n).len() + self.filled_upto(n) == n,
            forall|k: int|
                0 <= k < self.free_upto(n).len() ==> (#[trigger] self.free_upto(n)[k]).0 < 3
                    && self.free_upto(n)[k].1 < 3 && self.cell(
                    self.free_upto(n)[k].0 as int,
                    self.free_upto(n)[k].1 as int,
                ) is Empty,
        decreases n,
    {
        if n > 0 {
            self.lemma_free_upto_props(n - 1);
        }
    }

    /// The empty cells, as `(x, y)` pairs in row-major order.
    pub fn free_cells(&self) -> (r: Vec<(usize, usize)>)
        ensures
            r@ == self.free_seq(),
    {
        let mut free: Vec<(usize, usize)> = Vec::new();
        let mut x: usize = 0;
        while x < 3
            invariant
                x <= 3,
                free@ == self.free_upto(3 * x),
            decreases 3 - x,
        {
            let mut y: usize = 0;
            while y < 3
                invariant
                    x < 3,
                    y <= 3,
                    free@ == self.free_upto(3 * x + y),
                decreases 3 - y,
            {
                proof {
                    assert(cell_at(3 * x + y) == (x, y));
                }
                if self.cells[x][y].is_empty() {
                    free.push((x, y));
                }
                y = y + 1;
            }
            x = x + 1;
        }
        free
    }

    /// The first cell of `s`, at or after index `i`, whose filling with
    /// `p` would complete a line; `None` if there is none.
    pub open spec fn first_completing_from(
        self,
        s: Seq<(usize, usize)>,
        p: CellValue,
        i: int,
    ) -> Option<(usize, usize)>
        decreases s.len() - i,
    {
        if i < 0 || i >= s.len() {
            None
        } else if self.completes_line(s[i].0 as int, s[i].1 as int, p) {
            Some(s[i])
        } else {
            self.first_completing_from(s, p, i + 1)
        }
    }

    /// The cell the opponent policy selects, given the random draw `r`
    /// for its fallback branch: the first free cell that wins for the
    /// mover, else the first free cell that would win for the other
    /// mark, else a free cell picked by `r`.
    pub open spec fn ai_choice(self, r: int) -> (usize, usize)
        recommends
            self.free_seq().len() > 0,
    {
        let free = self.free_seq();
        match self.first_completing_from(free, self.current_player, 0) {
            Some(c) => c,
            None => match self.first_completing_from(free, self.current_player.spec_next(), 0) {
                Some(c) => c,
                None => free[r % (free.len() as int)],
            },
        }
    }

    /// Whether the cell at `(x, y)` holds `p`.
    fn holds(&self, x: usize, y: usize, p: CellValue) -> (r: bool)
        requires
            x < 3,
            y < 3,
        ensures
            r == (self.cell(x as int, y as int) == p),
    {
        self.cells[x][y] == p
    }

    /// Whether placing `p` at `(x, y)` would complete a line. Only the
    /// lines through `(x, y)` are consulted, and the cell `(x, y)`
    /// itself is never read, so this also answers "would this move win"
    /// for a cell that is still empty.
    pub fn is_winning(&self, x: usize, y: usize, p: CellValue) -> (r: bool)
        requires
            x < 3,
            y < 3,
        ensures
            r == self.completes_line(x as int, y as int, p),
    {
        match (x, y) {
            (0, 0) => (
                (self.holds(0, 1, p) && self.holds(0, 2, p))
                || (self.holds(1, 0, p) && self.holds(2, 0, p))
                || (self.holds(1, 1, p) && self.holds(2, 2, p))
            ),
            (0, 1) => (self.holds(0, 0, p) && self.holds(0, 2, p))
                || (self.holds(1, 1, p) && self.holds(2, 1, p)),
            (0, 2) => (
                (self.holds(0, 0, p) && self.holds(0, 1, p))
                || (self.holds(1, 2, p) && self.holds(2, 2, p))
                || (self.holds(2, 0, p) && self.holds(1, 1, p))
            ),
            (1, 0) => (self.holds(1, 1, p) && self.holds(1, 2, p))
                || (self.holds(0, 0, p) && self.holds(2, 0, p)),
            (1, 1) => (
                (self.holds(0, 0, p) && self.holds(2, 2, p))
                || (self.holds(0, 2, p) && self.holds(2, 0, p))
                || (self.holds(0, 1, p) && self.holds(2, 1, p))
                || (self.holds(1, 0, p) && self.holds(1, 2, p))
            ),
            (1, 2) => (self.holds(1, 0, p) && self.holds(1, 1, p))
                || (self.holds(0, 2, p) && self.holds(2, 2, p)),
            (2, 0) => (
                (self.holds(2, 1, p) && self.holds(2, 2, p))
                || (self.holds(0, 0, p) && self.holds(1, 0, p))
                || (self.holds(1, 1, p) && self.holds(0, 2, p))
            ),
            (2, 1) => (self.holds(2, 0, p) && self.holds(2, 2, p))
                || (self.holds(0, 1, p) && self.holds(1, 1, p)),
            _ => (
                (self.holds(2, 0, p) && self.holds(2, 1, p))
                || (self.holds(0, 2, p) && self.holds(1, 2, p))
                || (self.holds(0, 0, p) && self.holds(1, 1, p))
            ),
        }
    }

    /// Attempt to place `p` at `(x, y)`. The checks are made in
    /// order: turn, cell, mark. A rejected play leaves the board
    /// unchanged; an accepted one acts exactly as `play_step` states.
    pub fn play(&mut self, x: usize, y: usize, p: CellValue) -> (r: Result<(), PlayError>)
        requires
            old(self).wf(),
            x < 3,
            y < 3,
        ensures
            final(self).wf(),
            p != old(self).current_player ==> r == Err::<(), PlayError>(PlayError::WrongTurn)
                && *final(self) == *old(self),
            p == old(self).current_player && old(self).cell(x as int, y as int) !is Empty ==> r
                == Err::<(), PlayError>(PlayError::CellOccupied) && *final(self) == *old(self),
            p == old(self).current_player && old(self).cell(x as int, y as int) is Empty && p
                is Empty ==> r == Err::<(), PlayError>(PlayError::InvalidMark) && *final(self)
                == *old(self),
            p == old(self).current_player && old(self).cell(x as int, y as int) is Empty && p
                !is Empty ==> r == Ok::<(), PlayError>(()) && old(self).play_step(
                *final(self),
                x as int,
                y as int,
                p,
            ),
    {
        if p != self.current_player {
            return Err(PlayError::WrongTurn);
        }
        if !self.cells[x][y].is_empty() {
            return Err(PlayError::CellOccupied);
        }
        match p {
            CellValue::Empty => Err(PlayError::InvalidMark),
            _ => {
                proof {
                    self.lemma_filled_upto_missing(x as int, y as int, 9);
                }
                self.move_count = self.move_count + 1;
                let mut row = self.cells[x];
                row[y] = p;
                self.cells[x] = row;
                let ghost pre = *old(self);
                if self.is_winning(x, y, p) {
                    self.winner = p;
                    self.current_player = CellValue::Empty;
                } else {
                    self.current_player = if self.move_count == 9 {
                        CellValue::Empty
                    } else {
                        self.current_player.next()
                    };
                }
                proof {
                    pre.lemma_filled_after_place(*self, x as int, y as int, 9);
                    pre.lemma_line_after_place(*self, x as int, y as int, p);
                }
                Ok(())
            },
        }
    }

    /// The move the opponent policy selects; `r` feeds the fallback
    /// branch. Assumes the game is still running, so a free cell exists.
    fn ai_find_move(&self, r: usize) -> (c: (usize, usize))
        requires
            self.wf(),
            self.current_player !is Empty,
        ensures
            c == self.ai_choice(r as int),
            c.0 < 3,
            c.1 < 3,
            self.cell(c.0 as int, c.1 as int) is Empty,
    {
        let free = self.free_cells();
        let me = self.current_player;
        proof {
            self.lemma_free_upto_props(9);
        }
        let mut i: usize = 0;
        while i < free.len()
            invariant
                self.wf(),
                i <= free.len(),
                free@ == self.free_seq(),
                me == self.current_player,
                self.first_completing_from(free@, me, 0) == self.first_completing_from(
                    free@,
                    me,
                    i as int,
                ),
                forall|k: int|
                    0 <= k < free@.len() ==> (#[trigger] free@[k]).0 < 3 && free@[k].1 < 3
                        && self.cell(free@[k].0 as int, free@[k].1 as int) is Empty,
            decreases free.len() - i,
        {
            let c = free[i];
            if self.is_winning(c.0, c.1, me) {
                return c;
            }
            i = i + 1;
        }
        let opponent = me.next();
        let mut i: usize = 0;
        while i < free.len()
            invariant
                self.wf(),
                i <= free.len(),
                free@ == self.free_seq(),
                me == self.current_player,
                opponent == me.spec_next(),
                self.first_completing_from(free@, me, 0) is None,
                self.first_completing_from(free@, opponent, 0) == self.first_completing_from(
                    free@,
                    opponent,
                    i as int,
                ),
                forall|k: int|
                    0 <= k < free@.len() ==> (#[trigger] free@[k]).0 < 3 && free@[k].1 < 3
                        && self.cell(free@[k].0 as int, free@[k].1 as int) is Empty,
            decreases free.len() - i,
        {
            let c = free[i];
            if self.is_winning(c.0, c.1, opponent) {
                return c;
            }
            i = i + 1;
        }
        free[r % free.len()]
    }

    /// The full effect of one opponent move on `self`, yielding `post`,
    /// given the random draw `r`: a play of the current mark at the
    /// cell the policy selects.
    pub open spec fn ai_step(self, post: Board, r: int) -> bool {
        let c = self.ai_choice(r);
        self.play_step(post, c.0 as int, c.1 as int, self.current_player)
    }

    /// Make one move for whichever mark currently holds the turn. On a
    /// finished board this is a no-op; otherwise it plays exactly the
    /// cell `ai_choice` names and the board advances by `play_step`.
    pub fn ai_play(&mut self, r: usize)
        requires
            old(self).wf(),
        ensures
            final(self).wf(),
            old(self).current_player is Empty ==> *final(self) == *old(self),
            old(self).current_player !is Empty ==> old(self).ai_step(*final(self), r as int),
            old(self).current_player !is Empty ==> final(self).move_count == old(
                self,
            ).move_count + 1,
            old(self).current_player !is Empty ==> old(self).cell(
                old(self).ai_choice(r as int).0 as int,
                old(self).ai_choice(r as int).1 as int,
            ) is Empty,
    {
        if self.is_finished() {
            return ;
        }
        let c = self.ai_find_move(r);
        let p = self.current_player;
        let _ = self.play(c.0, c.1, p);
    }

    /// On a board with no marks at all, no move completes a line, so
    /// the opponent policy falls through to its random branch and picks
    /// the free cell indexed by `r`, which is the cell `cell_at(r % 9)`.
    proof fn lemma_empty_board_choice(self, r: int)
        requires
            forall|i: int, j: int| 0 <= i < 3 && 0 <= j < 3 ==> self.cell(i, j) is Empty,
            self.current_player !is Empty,
            0 <= r,
        ensures
            self.free_seq().len() == 9,
            forall|x: int, y: int, p: CellValue|
                0 <= x < 3 && 0 <= y < 3 && p !is Empty ==> !self.completes_line(x, y, p),
            self.ai_choice(r) == cell_at(r % 9),
    {
        reveal_with_fuel(Board::free_upto, 10);
        reveal_with_fuel(Board::first_completing_from, 10);
        assert forall|k: int| 0 <= k < 9 implies self.free_seq()[k] == cell_at(k) by {}
    }

    /// A fresh game, ready for the human: an all-empty board on
    /// which `O` (the machine, which always starts) has already made
    /// its one opening move, chosen by the random draw `r`. Exactly one
    /// cell holds a mark and it is the human's (`X`) turn.
    pub fn new_game(r: usize) -> (b: Board)
        ensures
            b.wf(),
            b.move_count == 1,
            b.current_player is X,
            b.winner is Empty,
            b.cell(cell_at(r as int % 9).0 as int, cell_at(r as int % 9).1 as int) is O,
            forall|i: int, j: int|
                0 <= i < 3 && 0 <= j < 3 && !(i == cell_at(r as int % 9).0 as int && j == cell_at(
                    r as int % 9,
                ).1 as int) ==> b.cell(i, j) is Empty,
    {
        let mut b = Board::empty();
        proof {
            b.lemma_empty_board_choice(r as int);
        }
        b.ai_play(r);
        b
    }

    pub fn is_finished(&self) -> (r: bool)
        ensures
            r == (self.current_player is Empty),
    {
        self.current_player.is_empty()
    }
}

/// For every sequence of legal moves the engine keeps its books: on
/// every well-formed board — and each board the engine hands out is
/// well-formed — `move_count` equals the number of non-`Empty` cells.
pub proof fn lemma_moves_counted(b: Board)
    requires
        b.wf(),
    ensures
        b.move_count == b.filled_count(),
{
}

/// After any accepted play that completes a line, the winner is the
/// mark of that line and the turn is cleared, so the game is finished.
pub proof fn lemma_win_is_terminal(pre: Board, post: Board, x: int, y: int, p: CellValue)
    requires
        pre.play_step(post, x, y, p),
        pre.completes_line(x, y, p),
    ensures
        post.winner == p,
        post.current_player is Empty,
{
}

/// A mark, once placed, never changes: a play only ever fills a cell
/// that was empty, so every placed mark survives every later move.
pub proof fn lemma_marks_are_permanent(pre: Board, post: Board, x: int, y: int, p: CellValue)
    requires
        0 <= x < 3,
        0 <= y < 3,
        pre.cell(x, y) is Empty,
        pre.play_step(post, x, y, p),
    ensures
        forall|i: int, j: int|
            0 <= i < 3 && 0 <= j < 3 && pre.cell(i, j) !is Empty ==> post.cell(i, j) == pre.cell(
                i,
                j,
            ),
{
}

/// A full board on which neither mark holds a line is a finished draw:
/// the turn is cleared and there is no winner.
pub proof fn lemma_full_no_line_is_draw(b: Board)
    requires
        b.wf(),
        b.move_count == 9,
        !b.has_line(CellValue::O),
        !b.has_line(CellValue::X),
    ensures
        b.current_player is Empty,
        b.winner is Empty,
{
}

} // verus!
