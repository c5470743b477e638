use tetry::field::{Block, Field, GRID_HEIGHT, GRID_WIDTH};
use tetry::game::Game;
use tetry::manager::{GameState, TetrisManager};
use tetry::shape::{I, L, O, T};
use tetry::tetris::{clear_block, place, setup, ActiveTetris};

fn new_game() -> Game {
    setup(TetrisManager::with_bags([0, 1, 2, 3, 4, 5, 6], [6, 5, 4, 3, 2, 1, 0]))
}

fn row_y(row: i32) -> i32 {
    -39 + 2 * row
}

fn column_x(column: i32) -> i32 {
    -9 + 2 * column
}

fn push_row(field: &mut Field, row: i32, columns: &[i32], index: usize) {
    for &column in columns {
        field.blocks.push(Block { x: column_x(column), y: row_y(row), index });
    }
}

fn rows_of(field: &Field) -> Vec<(i32, i32, usize)> {
    field.blocks.iter().map(|b| ((b.x + 9) / 2, (b.y + 39) / 2, b.index)).collect()
}

const ALL: [i32; 10] = [0, 1, 2, 3, 4, 5, 6, 7, 8, 9];

#[test]
fn grid_is_ten_by_twenty() {
    assert_eq!(GRID_WIDTH, 10);
    assert_eq!(GRID_HEIGHT, 20);
}

#[test]
fn place_locks_the_four_cells() {
    let mut game = new_game();
    game.active_tetris = ActiveTetris { index: T, rotation_index: 0, x: -1, y: -39 };
    game.manager.hold = true;
    game.state = GameState::Place;
    place(&mut game);
    assert_eq!(
        game.field.blocks,
        vec![
            Block { x: -1, y: -37, index: T },
            Block { x: -1, y: -39, index: T },
            Block { x: -3, y: -39, index: T },
            Block { x: 1, y: -39, index: T },
        ]
    );
    assert!(!game.manager.hold);
    assert_eq!(game.state, GameState::Place);
    assert_eq!(game.active_tetris, ActiveTetris { index: T, rotation_index: 0, x: -1, y: -39 });
}

#[test]
fn place_locks_a_turned_piece_where_it_stands() {
    let mut game = new_game();
    game.field.blocks.push(Block { x: 9, y: -39, index: O });
    game.active_tetris = ActiveTetris { index: L, rotation_index: 3, x: 5, y: -37 };
    place(&mut game);
    assert_eq!(
        game.field.blocks,
        vec![
            Block { x: 9, y: -39, index: O },
            Block { x: 5, y: -39, index: L },
            Block { x: 5, y: -37, index: L },
            Block { x: 5, y: -35, index: L },
            Block { x: 3, y: -35, index: L },
        ]
    );
}

#[test]
fn blocks_of_a_piece_are_its_cells() {
    let piece = ActiveTetris { index: I, rotation_index: 1, x: 0, y: -2 };
    let blocks = piece.blocks();
    assert_eq!(
        blocks,
        [
            Block { x: 1, y: 1, index: I },
            Block { x: 1, y: -1, index: I },
            Block { x: 1, y: -3, index: I },
            Block { x: 1, y: -5, index: I },
        ]
    );
}

#[test]
fn clear_block_without_full_rows_changes_nothing() {
    let mut game = new_game();
    push_row(&mut game.field, 0, &[0, 1, 2, 3, 4, 5, 6, 7, 8], 1);
    push_row(&mut game.field, 1, &[9], 2);
    let before = game.field.blocks.clone();
    game.state = GameState::Place;
    let rows = clear_block(&mut game);
    assert_eq!(rows, 0);
    assert_eq!(game.field.blocks, before);
    assert_eq!(game.state, GameState::Advance);
}

#[test]
fn clear_block_on_an_empty_field() {
    let mut game = new_game();
    let rows = clear_block(&mut game);
    assert_eq!(rows, 0);
    assert!(game.field.blocks.is_empty());
    assert_eq!(game.state, GameState::Advance);
}

#[test]
fn clear_block_removes_a_full_row_and_drops_what_is_above() {
    let mut game = new_game();
    push_row(&mut game.field, 1, &[4], 2);
    push_row(&mut game.field, 0, &ALL, 1);
    push_row(&mut game.field, 2, &[4, 5], 3);
    let rows = clear_block(&mut game);
    assert_eq!(rows, 1);
    assert_eq!(rows_of(&game.field), vec![(4, 0, 2), (4, 1, 3), (5, 1, 3)]);
}

#[test]
fn line_clear_shifts_by_the_full_rows_below() {
    let mut game = new_game();
    push_row(&mut game.field, 0, &[0, 1, 2, 3, 4], 2);
    push_row(&mut game.field, 8, &[9], 6);
    push_row(&mut game.field, 3, &ALL, 1);
    push_row(&mut game.field, 2, &[0, 1, 2, 3, 4, 5, 6, 7, 8], 3);
    push_row(&mut game.field, 4, &[1, 2], 4);
    push_row(&mut game.field, 5, &ALL, 1);
    push_row(&mut game.field, 6, &[3], 5);
    let total = game.field.blocks.len();
    let rows = clear_block(&mut game);
    assert_eq!(rows, 2);
    assert_eq!(game.field.blocks.len(), total - 20);
    assert!(game.field.blocks.iter().all(|b| b.index != 1));
    assert_eq!(
        rows_of(&game.field),
        vec![
            (0, 0, 2),
            (1, 0, 2),
            (2, 0, 2),
            (3, 0, 2),
            (4, 0, 2),
            (9, 6, 6),
            (0, 2, 3),
            (1, 2, 3),
            (2, 2, 3),
            (3, 2, 3),
            (4, 2, 3),
            (5, 2, 3),
            (6, 2, 3),
            (7, 2, 3),
            (8, 2, 3),
            (1, 3, 4),
            (2, 3, 4),
            (3, 4, 5),
        ]
    );
    assert_eq!(game.state, GameState::Advance);
}

#[test]
fn line_clear_leaves_the_cleared_rows_empty_when_nothing_comes_down_into_them() {
    let mut game = new_game();
    push_row(&mut game.field, 3, &ALL, 1);
    push_row(&mut game.field, 5, &ALL, 1);
    push_row(&mut game.field, 1, &[0, 9], 2);
    push_row(&mut game.field, 6, &[2, 3], 3);
    push_row(&mut game.field, 9, &[7], 4);
    let rows = clear_block(&mut game);
    assert_eq!(rows, 2);
    assert_eq!(rows_of(&game.field), vec![(0, 1, 2), (9, 1, 2), (2, 4, 3), (3, 4, 3), (7, 7, 4)]);
    assert!(game.field.blocks.iter().all(|b| b.y != row_y(3) && b.y != row_y(5)));
}

#[test]
fn clear_block_clears_adjacent_rows_together() {
    let mut game = new_game();
    for row in 0..4 {
        push_row(&mut game.field, row, &ALL, 1);
    }
    push_row(&mut game.field, 4, &[0], 2);
    push_row(&mut game.field, 19, &[5], 3);
    let rows = clear_block(&mut game);
    assert_eq!(rows, 4);
    assert_eq!(rows_of(&game.field), vec![(0, 0, 2), (5, 15, 3)]);
}

#[test]
fn row_with_ten_blocks_counts_as_full_even_with_a_gap() {
    let mut game = new_game();
    push_row(&mut game.field, 0, &[0, 1, 2, 3, 4, 5, 6, 7, 8, 8], 1);
    push_row(&mut game.field, 1, &[9], 2);
    let rows = clear_block(&mut game);
    assert_eq!(rows, 1);
    assert_eq!(rows_of(&game.field), vec![(9, 0, 2)]);
}

#[test]
fn row_above_the_field_can_be_cleared() {
    let mut game = new_game();
    push_row(&mut game.field, 20, &ALL, 1);
    push_row(&mut game.field, 19, &[0], 2);
    let rows = clear_block(&mut game);
    assert_eq!(rows, 1);
    assert_eq!(rows_of(&game.field), vec![(0, 19, 2)]);
}
