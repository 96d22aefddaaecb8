use connect_four::game::Direction;
use connect_four::game::DropResult;
use connect_four::game::Game;
use connect_four::win::Outcome;

/// A fresh default-sized game: 7 columns, 6 rows, 2 players.
fn fresh() -> Game {
    Game::new(7, 6, 2)
}

/// Every filled cell must sit on a filled cell (or on the floor).
fn assert_columns_contiguous(g: &Game) {
    for x in 0..g.size.width {
        for y in 1..g.size.height {
            if g.field[x][y] != 0 {
                assert_ne!(g.field[x][y - 1], 0, "floating piece in column {x} at row {y}");
            }
        }
    }
}

#[test]
fn fresh_game_is_empty_and_ongoing() {
    let g = fresh();
    assert_eq!(g.current_player, 1);
    assert_eq!(g.selector, 0);
    for x in 0..7 {
        for y in 0..6 {
            assert_eq!(g.field[x][y], 0);
        }
    }
    assert_eq!(g.who_won(), 0);
    assert!(!g.check_field_full());
    assert_eq!(g.outcome(), Outcome::Ongoing);
}

#[test]
fn drops_keep_columns_contiguous() {
    let mut g = fresh();
    // A mixed bag of drops, some into the same column, with selector moves
    // in both directions.
    let moves = [0usize, 3, 3, 3, 1, 0, 6, 6, 2, 5, 3, 3];
    for &col in moves.iter() {
        while g.selector < col {
            g.move_selector(Direction::Right);
        }
        while g.selector > col {
            g.move_selector(Direction::Left);
        }
        assert_eq!(g.drop_piece(), DropResult::Placed);
        g.next_player();
        assert_columns_contiguous(&g);
    }
}

#[test]
fn drop_into_full_column_is_rejected_and_changes_nothing() {
    let mut g = fresh();
    // Fill column 0 top to bottom with alternating pieces.
    for _ in 0..6 {
        assert_eq!(g.drop_piece(), DropResult::Placed);
        g.next_player();
    }
    let before_field: Vec<Vec<usize>> = g.field.clone();
    let before_player = g.current_player;
    let before_selector = g.selector;
    assert_eq!(g.drop_piece(), DropResult::ColumnFull);
    assert_eq!(g.field, before_field);
    assert_eq!(g.current_player, before_player);
    assert_eq!(g.selector, before_selector);
}

#[test]
fn turn_advance_cycles_with_period_players() {
    let mut g = fresh();
    assert_eq!(g.current_player, 1);
    g.next_player();
    assert_eq!(g.current_player, 2);
    g.next_player();
    assert_eq!(g.current_player, 1);

    let mut g3 = Game::new(7, 6, 3);
    g3.next_player();
    assert_eq!(g3.current_player, 2);
    g3.next_player();
    assert_eq!(g3.current_player, 3);
    g3.next_player();
    assert_eq!(g3.current_player, 1);
}

#[test]
fn no_win_on_empty_grid() {
    let g = fresh();
    assert_eq!(g.who_won(), 0);
}

#[test]
fn no_win_without_four_in_a_row() {
    let mut g = fresh();
    // Three in a row in each direction, never four.
    g.field[0][0] = 1;
    g.field[1][0] = 1;
    g.field[2][0] = 1;
    g.field[4][0] = 2;
    g.field[4][1] = 2;
    g.field[4][2] = 2;
    g.field[0][1] = 2;
    g.field[1][2] = 2;
    g.field[2][3] = 2;
    assert_eq!(g.who_won(), 0);
    assert_eq!(g.outcome(), Outcome::Ongoing);
}

#[test]
fn four_mixed_values_in_a_row_is_no_win() {
    let mut g = fresh();
    g.field[0][0] = 1;
    g.field[1][0] = 2;
    g.field[2][0] = 1;
    g.field[3][0] = 2;
    assert_eq!(g.who_won(), 0);
}

#[test]
fn horizontal_four_wins() {
    let mut g = fresh();
    g.field[2][0] = 1;
    g.field[3][0] = 1;
    g.field[4][0] = 1;
    g.field[5][0] = 1;
    assert_eq!(g.who_won(), 1);
    assert_eq!(g.outcome(), Outcome::Win(1));
}

#[test]
fn vertical_four_wins() {
    let mut g = fresh();
    g.field[6][1] = 2;
    g.field[6][2] = 2;
    g.field[6][3] = 2;
    g.field[6][4] = 2;
    assert_eq!(g.who_won(), 2);
    assert_eq!(g.outcome(), Outcome::Win(2));
}

#[test]
fn ascending_diagonal_four_wins() {
    let mut g = fresh();
    g.field[1][0] = 1;
    g.field[2][1] = 1;
    g.field[3][2] = 1;
    g.field[4][3] = 1;
    assert_eq!(g.who_won(), 1);
}

#[test]
fn descending_diagonal_four_wins() {
    let mut g = fresh();
    // Read from its upper end downward: (6,5), (5,4), (4,3), (3,2).
    g.field[6][5] = 2;
    g.field[5][4] = 2;
    g.field[4][3] = 2;
    g.field[3][2] = 2;
    assert_eq!(g.who_won(), 2);
}

#[test]
fn falling_line_is_not_among_the_checked_directions() {
    // Four cells stepping right and *down* do not form a run in any of the
    // four checked directions (rightward, upward, rising diagonal, and the
    // falling diagonal, which retraces a rising one).
    let mut g = fresh();
    g.field[0][3] = 1;
    g.field[1][2] = 1;
    g.field[2][1] = 1;
    g.field[3][0] = 1;
    assert_eq!(g.who_won(), 0);
}

#[test]
fn field_full_iff_every_top_cell_filled() {
    let mut g = fresh();
    assert!(!g.check_field_full());
    for x in 0..7 {
        g.field[x][5] = 1 + (x % 2);
    }
    assert!(g.check_field_full());
    for hole in 0..7 {
        g.field[hole][5] = 0;
        assert!(!g.check_field_full(), "column {hole} has an empty top cell");
        g.field[hole][5] = 1 + (hole % 2);
    }
    assert!(g.check_field_full());
}

#[test]
fn alternating_drops_in_two_columns_give_vertical_win() {
    // Drops in columns [0,1,0,1,0,1,0] by players 1,2,1,2,1,2,1: player 1
    // stacks four pieces in column 0.
    let mut g = fresh();
    let cols = [0usize, 1, 0, 1, 0, 1, 0];
    for (i, &col) in cols.iter().enumerate() {
        while g.selector < col {
            g.move_selector(Direction::Right);
        }
        while g.selector > col {
            g.move_selector(Direction::Left);
        }
        assert_eq!(g.current_player, 1 + (i % 2));
        assert_eq!(g.drop_piece(), DropResult::Placed);
        if i < cols.len() - 1 {
            assert_eq!(g.who_won(), 0, "no winner before the last drop");
            g.next_player();
        }
    }
    assert_eq!(g.who_won(), 1);
    assert_eq!(g.outcome(), Outcome::Win(1));
    for y in 0..4 {
        assert_eq!(g.field[0][y], 1);
    }
}

#[test]
fn full_board_without_a_run_is_a_draw() {
    // Fill the whole board in bands of three rows, swapping the two players'
    // columns between bands: no direction ever lines up four equal values,
    // and every column is filled bottom-up.
    let mut g = fresh();
    for x in 0..7 {
        for y in 0..6 {
            g.field[x][y] = (x + y / 3) % 2 + 1;
        }
    }
    assert_columns_contiguous(&g);
    assert_eq!(g.who_won(), 0);
    assert!(g.check_field_full());
    assert_eq!(g.outcome(), Outcome::Draw);
}

#[test]
fn selector_clamps_at_both_edges() {
    let mut g = fresh();
    assert_eq!(g.selector, 0);
    g.move_selector(Direction::Left);
    assert_eq!(g.selector, 0, "moving left at column 0 is a no-op");
    for _ in 0..6 {
        g.move_selector(Direction::Right);
    }
    assert_eq!(g.selector, 6);
    g.move_selector(Direction::Right);
    assert_eq!(g.selector, 6, "moving right at the last column is a no-op");
    g.move_selector(Direction::Left);
    assert_eq!(g.selector, 5);
}

#[test]
fn selector_persists_across_turns() {
    let mut g = fresh();
    g.move_selector(Direction::Right);
    g.move_selector(Direction::Right);
    assert_eq!(g.drop_piece(), DropResult::Placed);
    g.next_player();
    assert_eq!(g.selector, 2, "a drop does not move the selector");
}

#[test]
fn reset_field_empties_the_grid_and_keeps_the_rest() {
    let mut g = fresh();
    for _ in 0..3 {
        assert_eq!(g.drop_piece(), DropResult::Placed);
        g.next_player();
        g.move_selector(Direction::Right);
    }
    let player = g.current_player;
    let selector = g.selector;
    g.reset_field();
    for x in 0..7 {
        assert_eq!(g.field[x].len(), 6);
        for y in 0..6 {
            assert_eq!(g.field[x][y], 0);
        }
    }
    assert_eq!(g.current_player, player);
    assert_eq!(g.selector, selector);
}

#[test]
fn piece_lands_on_lowest_empty_cell() {
    let mut g = fresh();
    assert_eq!(g.drop_piece(), DropResult::Placed);
    assert_eq!(g.field[0][0], 1);
    g.next_player();
    assert_eq!(g.drop_piece(), DropResult::Placed);
    assert_eq!(g.field[0][1], 2);
    assert_eq!(g.field[0][2], 0);
}
