//! The game state: grid, players, turn cursor and column selector, with the
//! operations that mutate them.

use vstd::prelude::*;

verus! {

/// Width and height of the playing field, fixed for the lifetime of a game.
#[derive(Clone, Copy, PartialEq, Eq, Structural)]
pub struct Dimension {
    pub width: usize,
    pub height: usize,
}

/// The whole game state.
///
/// `field[x][y]` is the cell in column `x` at row `y`, where row 0 is the
/// bottom. A cell holds 0 when empty, otherwise the id (in `1..=players`) of
/// the player whose piece sits there.
pub struct Game {
    pub size: Dimension,
    pub field: Vec<Vec<usize>>,
    pub players: usize,
    pub current_player: usize,
    pub selector: usize,
}

impl Game {
    /// The value of the cell in column `x`, row `y`.
    pub open spec fn cell(self, x: int, y: int) -> usize {
        self.field@[x]@[y]
    }

    /// `(x, y)` names a cell of the grid.
    pub open spec fn in_bounds(self, x: int, y: int) -> bool {
        0 <= x < self.size.width && 0 <= y < self.size.height
    }

    /// Structural well-formedness: the grid has the declared dimensions, every
    /// cell holds 0 or a player id, the turn cursor names a player, and the
    /// selector names a column. Dimensions of at least 4 keep the diagonal
    /// win checks meaningful; at least two players must be present.
    pub open spec fn wf(self) -> bool {
        &&& self.size.width >= 4
        &&& self.size.height >= 4
        &&& self.players >= 2
        &&& self.field@.len() == self.size.width
        &&& forall|x: int| 0 <= x < self.size.width ==> (#[trigger] self.field@[x])@.len() == self.size.height
        &&& forall|x: int, y: int| self.in_bounds(x, y) ==> #[trigger] self.cell(x, y) <= self.players
        &&& 1 <= self.current_player <= self.players
        &&& self.selector < self.size.width
    }

    /// Pieces stack from the bottom: no filled cell sits on top of an empty
    /// one. Together with `lemma_column_contiguous` this says that each
    /// column's filled cells form a contiguous run starting at row 0.
    pub open spec fn gravity_ok(self) -> bool {
        forall|x: int, y: int|
            0 <= x < self.size.width && 0 < y < self.size.height && #[trigger] self.cell(x, y) != 0
                ==> self.cell(x, y - 1) != 0
    }

    /// Every cell of the grid is empty.
    pub open spec fn all_empty(self) -> bool {
        forall|x: int, y: int| self.in_bounds(x, y) ==> #[trigger] self.cell(x, y) == 0
    }

    /// A fresh game: zeroed grid, player 1 to move, selector on column 0.
    pub fn new(width: usize, height: usize, players: usize) -> (g: Game)
        requires
            width >= 4,
            height >= 4,
            players >= 2,
        ensures
            g.wf(),
            g.size.width == width,
            g.size.height == height,
            g.players == players,
            g.current_player == 1,
            g.selector == 0,
            g.all_empty(),
            g.gravity_ok(),
    {
        let mut g = Game {
            size: Dimension { width, height },
            field: Vec::new(),
            players,
            current_player: 1,
            selector: 0,
        };
        g.reset_field();
        g
    }

    /// Replace the grid by a zeroed one of the game's dimensions.
    pub fn reset_field(&mut self)
        ensures
            final(self).size == old(self).size,
            final(self).players == old(self).players,
            final(self).current_player == old(self).current_player,
            final(self).selector == old(self).selector,
            final(self).field@.len() == final(self).size.width,
            forall|x: int| 0 <= x < final(self).size.width
                ==> (#[trigger] final(self).field@[x])@.len() == final(self).size.height,
            final(self).all_empty(),
            final(self).gravity_ok(),
            old(self).wf() ==> final(self).wf(),
    {
        let width = self.size.width;
        let height = self.size.height;
        let mut field: Vec<Vec<usize>> = Vec::new();
        for x in 0..width
            invariant
                field@.len() == x,
                forall|i: int| 0 <= i < x ==> (#[trigger] field@[i])@.len() == height,
                forall|i: int, j: int| 0 <= i < x && 0 <= j < height ==> #[trigger] field@[i]@[j] == 0,
        {
            let mut column: Vec<usize> = Vec::new();
            for y in 0..height
                invariant
                    column@.len() == y,
                    forall|j: int| 0 <= j < y ==> #[trigger] column@[j] == 0,
            {
                column.push(0);
            }
            field.push(column);
        }
        self.field = field;
    }

    /// Round-robin turn advance: player `p` hands over to `p % players + 1`,
    /// so play cycles 1, 2, ..., players, 1, ...
    pub fn next_player(&mut self)
        requires
            old(self).players >= 1,
        ensures
            final(self).current_player == next_id(old(self).current_player as int, old(self).players as int),
            final(self).size == old(self).size,
            final(self).field == old(self).field,
            final(self).players == old(self).players,
            final(self).selector == old(self).selector,
            old(self).wf() ==> final(self).wf(),
            old(self).gravity_ok() ==> final(self).gravity_ok(),
    {
        self.current_player = self.current_player % self.players + 1;
        proof {
            if old(self).wf() {
                lemma_wf_same_field(*old(self), *self);
            }
            if old(self).gravity_ok() {
                lemma_gravity_same_field(*old(self), *self);
            }
        }
    }
}

/// The player whose turn follows player `p` in a game of `n` players.
pub open spec fn next_id(p: int, n: int) -> int {
    p % n + 1
}

/// Which way the column selector moves.
#[derive(Clone, Copy, PartialEq, Eq, Structural, Debug)]
pub enum Direction {
    Left,
    Right,
}

/// What an attempted drop did: either the piece landed, or the chosen column
/// was already full and the state was left untouched.
#[derive(Clone, Copy, PartialEq, Eq, Structural, Debug)]
pub enum DropResult {
    Placed,
    ColumnFull,
}

impl Game {
    /// Column `x` has no empty cell left.
    pub open spec fn col_full(self, x: int) -> bool {
        forall|y: int| 0 <= y < self.size.height ==> #[trigger] self.cell(x, y) != 0
    }

    /// Row `y` is where a piece dropped into column `x` lands: the lowest
    /// empty cell of the column.
    pub open spec fn is_drop_row(self, x: int, y: int) -> bool {
        &&& 0 <= y < self.size.height
        &&& self.cell(x, y) == 0
        &&& forall|y2: int| 0 <= y2 < y ==> #[trigger] self.cell(x, y2) != 0
    }

    /// Move the selector one column left or right, clamped to the grid: at
    /// either edge the move is a no-op, not an error. Nothing else changes.
    pub fn move_selector(&mut self, dir: Direction)
        requires
            old(self).wf(),
        ensures
            final(self).wf(),
            final(self).size == old(self).size,
            final(self).field == old(self).field,
            final(self).players == old(self).players,
            final(self).current_player == old(self).current_player,
            dir == Direction::Left ==> final(self).selector == (
                if old(self).selector > 0 { old(self).selector - 1 } else { 0int }
            ),
            dir == Direction::Right ==> final(self).selector == (
                if old(self).selector + 1 < old(self).size.width {
                    old(self).selector + 1
                } else {
                    old(self).selector as int
                }
            ),
            old(self).gravity_ok() ==> final(self).gravity_ok(),
    {
        match dir {
            Direction::Left => {
                if self.selector > 0 {
                    self.selector = self.selector - 1;
                }
            }
            Direction::Right => {
                if self.selector + 1 < self.size.width {
                    self.selector = self.selector + 1;
                }
            }
        }
        proof {
            lemma_wf_same_field(*old(self), *self);
            if old(self).gravity_ok() {
                lemma_gravity_same_field(*old(self), *self);
            }
        }
    }

    /// Drop the current player's piece into the selected column. The piece
    /// lands on the lowest empty cell; if the column is full, nothing at all
    /// changes and the attempt reports `ColumnFull`.
    pub fn drop_piece(&mut self) -> (r: DropResult)
        requires
            old(self).wf(),
        ensures
            final(self).wf(),
            (r == DropResult::ColumnFull) <==> old(self).col_full(old(self).selector as int),
            r == DropResult::ColumnFull ==> *final(self) == *old(self),
            r == DropResult::Placed ==> (exists|y: int|
                placed_at(*old(self), *final(self), y)),
            old(self).gravity_ok() ==> final(self).gravity_ok(),
    {
        let x = self.selector;
        let height = self.size.height;
        let mut y: usize = 0;
        while y < height
            invariant
                *self == *old(self),
                self.wf(),
                x == self.selector,
                height == self.size.height,
                y <= height,
                forall|y2: int| 0 <= y2 < y ==> #[trigger] self.cell(x as int, y2) != 0,
            decreases height - y,
        {
            if self.field[x][y] == 0 {
                proof {
                    assert(old(self).is_drop_row(x as int, y as int));
                }
                self.field[x][y] = self.current_player;
                proof {
                    assert(placed_at(*old(self), *self, y as int));
                    lemma_placed_wf(*old(self), *self, y as int);
                    if old(self).gravity_ok() {
                        lemma_placed_gravity(*old(self), *self, y as int);
                    }
                    assert(!old(self).col_full(x as int));
                }
                return DropResult::Placed;
            }
            y = y + 1;
        }
        DropResult::ColumnFull
    }
}

/// `post` is `pre` with the one cell `(pre.selector, y)` changed from empty to
/// the dropping player's id, `y` being the landing row; every other cell and
/// every other part of the state is unchanged.
pub open spec fn placed_at(pre: Game, post: Game, y: int) -> bool {
    &&& post.size == pre.size
    &&& post.players == pre.players
    &&& post.current_player == pre.current_player
    &&& post.selector == pre.selector
    &&& post.field@.len() == pre.field@.len()
    &&& forall|x: int| 0 <= x < pre.field@.len()
            ==> (#[trigger] post.field@[x])@.len() == (pre.field@[x])@.len()
    &&& pre.is_drop_row(pre.selector as int, y)
    &&& post.cell(pre.selector as int, y) == pre.current_player
    &&& forall|x2: int, y2: int|
            pre.in_bounds(x2, y2) && !(x2 == pre.selector && y2 == y)
                ==> #[trigger] post.cell(x2, y2) == pre.cell(x2, y2)
}

/// Well-formedness does not depend on the turn cursor or the selector, only
/// on the grid and the bounds of the remaining fields.
proof fn lemma_wf_same_field(pre: Game, post: Game)
    requires
        pre.wf(),
        post.size == pre.size,
        post.field == pre.field,
        post.players == pre.players,
        1 <= post.current_player <= post.players,
        post.selector < post.size.width,
    ensures
        post.wf(),
{
    assert forall|x: int| 0 <= x < post.size.width
        implies (#[trigger] post.field@[x])@.len() == post.size.height by {
        assert((pre.field@[x])@.len() == pre.size.height);
    }
    assert forall|x: int, y: int| post.in_bounds(x, y)
        implies #[trigger] post.cell(x, y) <= post.players by {
        assert(pre.cell(x, y) <= pre.players);
    }
}

/// The stacking invariant depends on the grid alone.
proof fn lemma_gravity_same_field(pre: Game, post: Game)
    requires
        pre.gravity_ok(),
        post.size == pre.size,
        post.field == pre.field,
    ensures
        post.gravity_ok(),
{
    assert forall|x: int, y: int|
        0 <= x < post.size.width && 0 < y < post.size.height && #[trigger] post.cell(x, y) != 0
        implies post.cell(x, y - 1) != 0 by {
        assert(pre.cell(x, y) != 0);
        assert(pre.cell(x, y - 1) != 0);
    }
}

/// Landing a piece keeps the state well formed.
proof fn lemma_placed_wf(pre: Game, post: Game, y: int)
    requires
        pre.wf(),
        placed_at(pre, post, y),
    ensures
        post.wf(),
{
    assert forall|x2: int, y2: int| post.in_bounds(x2, y2)
        implies #[trigger] post.cell(x2, y2) <= post.players by {
        if x2 == pre.selector && y2 == y {
        } else {
            assert(post.cell(x2, y2) == pre.cell(x2, y2));
            assert(pre.cell(x2, y2) <= pre.players);
        }
    }
}

/// Landing a piece on the lowest empty cell of a column keeps pieces stacked
/// from the bottom.
proof fn lemma_placed_gravity(pre: Game, post: Game, y: int)
    requires
        pre.wf(),
        pre.gravity_ok(),
        placed_at(pre, post, y),
    ensures
        post.gravity_ok(),
{
    let sel = pre.selector as int;
    assert forall|x2: int, y2: int|
        0 <= x2 < post.size.width && 0 < y2 < post.size.height && #[trigger] post.cell(x2, y2) != 0
        implies post.cell(x2, y2 - 1) != 0 by {
        if x2 == sel && y2 == y {
            assert(pre.cell(sel, y - 1) != 0);
            assert(post.cell(sel, y - 1) == pre.cell(sel, y - 1));
        } else {
            assert(post.cell(x2, y2) == pre.cell(x2, y2));
            assert(pre.cell(x2, y2 - 1) != 0);
            if x2 == sel && y2 - 1 == y {
            } else {
                assert(post.cell(x2, y2 - 1) == pre.cell(x2, y2 - 1));
            }
        }
    }
}

} // verus!
