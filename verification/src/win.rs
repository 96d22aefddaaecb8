//! Win and draw detection: scanning the grid for four-in-a-row runs and for a
//! full board.

use vstd::prelude::*;
use crate::game::Game;

verus! {

/// `(dx, dy)` is one of the three distinct step directions a winning run can
/// take: rightward, upward, or the rising diagonal. The falling diagonal
/// (stepping left and down) traces the same four cells as a rising run read
/// from its other end, so it adds no further runs.
pub open spec fn is_dir(dx: int, dy: int) -> bool {
    ||| (dx == 1 && dy == 0)
    ||| (dx == 0 && dy == 1)
    ||| (dx == 1 && dy == 1)
}

/// How the game stands after a committed move.
#[derive(Clone, Copy, PartialEq, Eq, Structural, Debug)]
pub enum Outcome {
    Ongoing,
    Win(usize),
    Draw,
}

impl Game {
    /// Four consecutive cells, starting at `(x, y)` and stepping by
    /// `(dx, dy)`, lie on the grid and all hold the same non-empty value.
    pub open spec fn run_at(self, x: int, y: int, dx: int, dy: int) -> bool {
        &&& self.in_bounds(x, y)
        &&& self.in_bounds(x + 3 * dx, y + 3 * dy)
        &&& self.cell(x, y) != 0
        &&& self.cell(x + dx, y + dy) == self.cell(x, y)
        &&& self.cell(x + 2 * dx, y + 2 * dy) == self.cell(x, y)
        &&& self.cell(x + 3 * dx, y + 3 * dy) == self.cell(x, y)
    }

    /// Some player has four in a row somewhere on the grid.
    pub open spec fn has_win(self) -> bool {
        exists|x: int, y: int, dx: int, dy: int|
            is_dir(dx, dy) && #[trigger] self.run_at(x, y, dx, dy)
    }

    /// Player `p` has four in a row somewhere on the grid.
    pub open spec fn has_win_for(self, p: int) -> bool {
        exists|x: int, y: int, dx: int, dy: int|
            is_dir(dx, dy) && #[trigger] self.run_at(x, y, dx, dy) && self.cell(x, y) == p
    }

    /// No winning run starts at any cell that the column-major scan visits
    /// before `(x, y)`.
    spec fn no_run_before(self, x: int, y: int) -> bool {
        forall|x2: int, y2: int, dx: int, dy: int|
            is_dir(dx, dy) && (x2 < x || (x2 == x && y2 < y))
                ==> !(#[trigger] self.run_at(x2, y2, dx, dy))
    }

    /// The winning player's id, or 0 when nobody has four in a row.
    ///
    /// The scan walks every cell, column by column and row by row, and from
    /// each non-empty cell tests a rightward, an upward, a rising-diagonal
    /// and a falling-diagonal run; the first qualifying run decides. Only one
    /// player can hold a run in any position reached through legal play, so
    /// the scan order never changes the answer, only which cell reports it.
    pub fn who_won(&self) -> (r: usize)
        requires
            self.wf(),
        ensures
            (r == 0) <==> !self.has_win(),
            r != 0 ==> self.has_win_for(r as int) && 1 <= r <= self.players,
    {
        let width = self.size.width;
        let height = self.size.height;
        let mut x: usize = 0;
        while x < width
            invariant
                self.wf(),
                width == self.size.width,
                height == self.size.height,
                x <= width,
                self.no_run_before(x as int, 0),
            decreases width - x,
        {
            let mut y: usize = 0;
            while y < height
                invariant
                    self.wf(),
                    width == self.size.width,
                    height == self.size.height,
                    x < width,
                    y <= height,
                    self.no_run_before(x as int, y as int),
                decreases height - y,
            {
                let current = self.field[x][y];
                proof {
                    assert(current == self.cell(x as int, y as int));
                    assert(self.in_bounds(x as int, y as int) ==> current <= self.players);
                }
                if current != 0 {
                    if x < width - 3
                        && self.field[x + 1][y] == current
                        && self.field[x + 2][y] == current
                        && self.field[x + 3][y] == current
                    {
                        proof {
                            assert(self.run_at(x as int, y as int, 1, 0));
                        }
                        return current;
                    }
                    if y < height - 3
                        && self.field[x][y + 1] == current
                        && self.field[x][y + 2] == current
                        && self.field[x][y + 3] == current
                    {
                        proof {
                            assert(self.run_at(x as int, y as int, 0, 1));
                        }
                        return current;
                    }
                    if x < width - 3 && y < height - 3
                        && self.field[x + 1][y + 1] == current
                        && self.field[x + 2][y + 2] == current
                        && self.field[x + 3][y + 3] == current
                    {
                        proof {
                            assert(self.run_at(x as int, y as int, 1, 1));
                        }
                        return current;
                    }
                    if x >= 3 && y >= 3
                        && self.field[x - 1][y - 1] == current
                        && self.field[x - 2][y - 2] == current
                        && self.field[x - 3][y - 3] == current
                    {
                        proof {
                            assert(self.run_at(x as int - 3, y as int - 3, 1, 1));
                        }
                        return current;
                    }
                }
                proof {
                    assert forall|x2: int, y2: int, dx: int, dy: int|
                        is_dir(dx, dy) && (x2 < x || (x2 == x && y2 < y + 1))
                        implies !(#[trigger] self.run_at(x2, y2, dx, dy)) by {
                        if x2 == x && y2 == y {
                            // each direction's exec check failed or was out
                            // of bounds, so no run starts here
                        } else {
                            assert(x2 < x || (x2 == x && y2 < y));
                        }
                    }
                }
                y = y + 1;
            }
            proof {
                assert forall|x2: int, y2: int, dx: int, dy: int|
                    is_dir(dx, dy) && (x2 < x + 1 || (x2 == x + 1 && y2 < 0))
                    implies !(#[trigger] self.run_at(x2, y2, dx, dy)) by {
                    if x2 == x && y2 >= height {
                        assert(!self.in_bounds(x2, y2));
                    }
                }
            }
            x = x + 1;
        }
        proof {
            assert forall|x2: int, y2: int, dx: int, dy: int|
                is_dir(dx, dy) implies !(#[trigger] self.run_at(x2, y2, dx, dy)) by {
                if self.in_bounds(x2, y2) {
                    assert(x2 < width);
                }
            }
        }
        0
    }

    /// Every column's topmost cell (row `height - 1`) is filled. When pieces
    /// stack from the bottom this means the whole board is filled; see
    /// `lemma_top_full_means_full`.
    pub open spec fn top_row_full(self) -> bool {
        forall|x: int| 0 <= x < self.size.width
            ==> #[trigger] self.cell(x, self.size.height - 1) != 0
    }

    /// Whether the board can take no further piece: true exactly when every
    /// column's topmost cell is filled.
    pub fn check_field_full(&self) -> (r: bool)
        requires
            self.wf(),
        ensures
            r == self.top_row_full(),
    {
        let width = self.size.width;
        let height = self.size.height;
        let mut x: usize = 0;
        while x < width
            invariant
                self.wf(),
                width == self.size.width,
                height == self.size.height,
                x <= width,
                forall|x2: int| 0 <= x2 < x ==> #[trigger] self.cell(x2, height - 1) != 0,
            decreases width - x,
        {
            if self.field[x][height - 1] == 0 {
                proof {
                    assert(self.cell(x as int, height - 1) == 0);
                }
                return false;
            }
            x = x + 1;
        }
        true
    }

    /// The whole-game classification after a committed move: a win when some
    /// player has four in a row, otherwise a draw when the board is full,
    /// otherwise the game goes on.
    pub fn outcome(&self) -> (r: Outcome)
        requires
            self.wf(),
        ensures
            (r is Win) <==> self.has_win(),
            r matches Outcome::Win(p) ==> self.has_win_for(p as int) && 1 <= p <= self.players,
            (r == Outcome::Draw) <==> (!self.has_win() && self.top_row_full()),
            (r == Outcome::Ongoing) <==> (!self.has_win() && !self.top_row_full()),
    {
        let winner = self.who_won();
        if winner != 0 {
            Outcome::Win(winner)
        } else if self.check_field_full() {
            Outcome::Draw
        } else {
            Outcome::Ongoing
        }
    }
}

} // verus!
