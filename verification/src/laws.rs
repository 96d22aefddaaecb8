//! Facts that relate the game's operations across calls: pieces never float,
//! a filled top row means a filled board, an empty board has no winner, and
//! the turn cursor cycles with period `players`.

use vstd::prelude::*;
use crate::game::Game;
use crate::game::next_id;

verus! {

/// Pieces never float: in a grid that respects stacking, a filled cell has
/// filled cells all the way down to row 0, so each column's filled cells form
/// a contiguous run from the bottom with no gaps.
pub proof fn lemma_column_contiguous(g: Game, x: int, y: int, y2: int)
    requires
        g.gravity_ok(),
        0 <= x < g.size.width,
        0 <= y2 <= y < g.size.height,
        g.cell(x, y) != 0,
    ensures
        g.cell(x, y2) != 0,
    decreases y,
{
    if y2 < y {
        assert(g.cell(x, y - 1) != 0);
        lemma_column_contiguous(g, x, y - 1, y2);
    }
}

/// When pieces stack from the bottom, a filled top row is enough to call the
/// whole board filled: every cell below a filled top cell is filled too.
pub proof fn lemma_top_full_means_full(g: Game)
    requires
        g.wf(),
        g.gravity_ok(),
        g.top_row_full(),
    ensures
        forall|x: int, y: int| g.in_bounds(x, y) ==> #[trigger] g.cell(x, y) != 0,
{
    assert forall|x: int, y: int| g.in_bounds(x, y) implies #[trigger] g.cell(x, y) != 0 by {
        assert(g.cell(x, g.size.height - 1) != 0);
        lemma_column_contiguous(g, x, g.size.height - 1, y);
    }
}

/// A column has at most one landing row, so the row that `Game::drop_piece`
/// promises to exist is pinned: the contract determines the whole post-state.
pub proof fn lemma_drop_row_unique(g: Game, x: int, y1: int, y2: int)
    requires
        g.is_drop_row(x, y1),
        g.is_drop_row(x, y2),
    ensures
        y1 == y2,
{
    if y1 < y2 {
        assert(g.cell(x, y1) != 0);
    }
    if y2 < y1 {
        assert(g.cell(x, y2) != 0);
    }
}

/// A grid with no piece on it has no winner: every run needs a non-empty
/// starting cell.
pub proof fn lemma_empty_no_win(g: Game)
    requires
        g.all_empty(),
    ensures
        !g.has_win(),
{
    assert forall|x: int, y: int, dx: int, dy: int|
        crate::win::is_dir(dx, dy) implies !(#[trigger] g.run_at(x, y, dx, dy)) by {
        if g.in_bounds(x, y) {
            assert(g.cell(x, y) == 0);
        }
    }
}

/// The turn cursor after `k` successive turn advances in a game of `n`
/// players, starting from player `p`; one advance is the `next_id` step that
/// `Game::next_player` promises.
pub open spec fn iter_next(p: int, n: int, k: nat) -> int
    decreases k,
{
    if k == 0 {
        p
    } else {
        next_id(iter_next(p, n, (k - 1) as nat), n)
    }
}

/// After `k <= n` turn advances the cursor stands `k` seats around the circle
/// of `n` players from where it started.
proof fn lemma_iter_next_unrolled(p: int, n: int, k: nat)
    requires
        1 <= p <= n,
        k <= n,
    ensures
        iter_next(p, n, k) == (if p + k <= n { p + k } else { p + k - n }),
        1 <= iter_next(p, n, k) <= n,
    decreases k,
{
    if k > 0 {
        lemma_iter_next_unrolled(p, n, (k - 1) as nat);
        let q = iter_next(p, n, (k - 1) as nat);
        if q < n {
            vstd::arithmetic::div_mod::lemma_small_mod(q as nat, n as nat);
        } else {
            vstd::arithmetic::div_mod::lemma_mod_self_0(n);
        }
    }
}

/// Advancing the turn is periodic with period `players`: applying the
/// round-robin step of `Game::next_player` exactly `n` times in a game of `n`
/// players returns the cursor to the player it started on.
pub proof fn lemma_turn_period(p: int, n: int)
    requires
        1 <= p <= n,
    ensures
        iter_next(p, n, n as nat) == p,
{
    lemma_iter_next_unrolled(p, n, n as nat);
}

} // verus!
