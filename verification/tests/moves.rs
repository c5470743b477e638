use tetry::field::{Block, Field};
use tetry::game::Game;
use tetry::manager::{
    GameState, TetrisManager, FALL_TIME, FAST_FALL_TIME, SLIDE_START_TIME, SLIDE_TIME,
};
use tetry::shape::{I, J, L, O, S, T, Z};
use tetry::tetris::{fall, hold, rotate, setup, slide, ActiveTetris, HoldTetris};

fn game_with(index: usize, x: i32, y: i32, cells: &[(i32, i32)]) -> Game {
    let mut game = setup(TetrisManager::with_bags([0, 1, 2, 3, 4, 5, 6], [6, 5, 4, 3, 2, 1, 0]));
    game.active_tetris = ActiveTetris { index, rotation_index: 0, x, y };
    game.ghost_tetris.index = index;
    for &(bx, by) in cells {
        game.field.blocks.push(Block { x: bx, y: by, index: 0 });
    }
    game
}

fn piece(index: usize, rotation_index: usize, x: i32, y: i32) -> ActiveTetris {
    ActiveTetris { index, rotation_index, x, y }
}

#[test]
fn rotate_needs_the_key() {
    let mut game = game_with(T, -1, -3, &[]);
    rotate(&mut game, false);
    assert_eq!(game.active_tetris, piece(T, 0, -1, -3));
}

#[test]
fn rotate_turns_in_place_where_there_is_room() {
    let mut game = game_with(T, -1, -3, &[]);
    rotate(&mut game, true);
    assert_eq!(game.active_tetris, piece(T, 1, -1, -3));
    rotate(&mut game, true);
    assert_eq!(game.active_tetris, piece(T, 2, -1, -3));
    rotate(&mut game, true);
    assert_eq!(game.active_tetris, piece(T, 3, -1, -3));
    rotate(&mut game, true);
    assert_eq!(game.active_tetris, piece(T, 0, -1, -3));
}

#[test]
fn rotate_leaves_the_o_piece_alone() {
    let mut game = game_with(O, 0, -2, &[]);
    rotate(&mut game, true);
    assert_eq!(game.active_tetris, piece(O, 0, 0, -2));
}

#[test]
fn rotate_tries_one_cell_to_the_right_first() {
    let mut game = game_with(T, -1, -3, &[(-1, -5)]);
    rotate(&mut game, true);
    assert_eq!(game.active_tetris, piece(T, 1, 1, -3));
}

#[test]
fn rotate_tries_one_cell_to_the_left_second() {
    let mut game = game_with(T, -1, -3, &[(-1, -5), (1, -5)]);
    rotate(&mut game, true);
    assert_eq!(game.active_tetris, piece(T, 1, -3, -3));
}

#[test]
fn rotate_tries_two_cells_to_the_right_third() {
    let mut game = game_with(T, -1, -3, &[(-1, -5), (1, -5), (-3, -5)]);
    rotate(&mut game, true);
    assert_eq!(game.active_tetris, piece(T, 1, 3, -3));
}

#[test]
fn rotate_tries_two_cells_to_the_left_last() {
    let mut game = game_with(T, -1, -3, &[(-1, -5), (1, -5), (-3, -5), (3, -5)]);
    rotate(&mut game, true);
    assert_eq!(game.active_tetris, piece(T, 1, -5, -3));
}

#[test]
fn rotate_gives_up_when_no_place_is_free() {
    let mut game = game_with(T, -1, -3, &[(-1, -5), (1, -5), (-3, -5), (3, -5), (-5, -5)]);
    let blocks_before = game.field.blocks.clone();
    rotate(&mut game, true);
    assert_eq!(game.active_tetris, piece(T, 0, -1, -3));
    assert_eq!(game.field.blocks, blocks_before);
    assert_eq!(game.state, GameState::Play);
}

#[test]
fn rotate_kicks_off_the_right_wall() {
    let mut game = game_with(I, 2, -10, &[]);
    rotate(&mut game, true);
    assert_eq!(game.active_tetris, piece(I, 1, 2, -10));
    game.active_tetris.x = 8;
    rotate(&mut game, true);
    assert_eq!(game.active_tetris, piece(I, 2, 6, -10));
}

#[test]
fn rotate_kicks_off_the_left_wall() {
    let mut game = game_with(I, -10, -10, &[]);
    game.active_tetris.rotation_index = 1;
    rotate(&mut game, true);
    assert_eq!(game.active_tetris, piece(I, 2, -6, -10));
}

#[test]
fn slide_does_not_move_when_the_direction_changes() {
    let mut game = game_with(T, -1, -3, &[]);
    slide(&mut game, 1_000, false, true);
    assert_eq!(game.active_tetris, piece(T, 0, -1, -3));
    assert_eq!(game.manager.slide_dir, 1);
    assert_eq!(game.manager.slide_start_timer.elapsed, 0);
    assert_eq!(game.manager.slide_timer.elapsed, 0);
    slide(&mut game, SLIDE_START_TIME, true, false);
    assert_eq!(game.active_tetris, piece(T, 0, -1, -3));
    assert_eq!(game.manager.slide_dir, -1);
    assert_eq!(game.manager.slide_start_timer.elapsed, 0);
    assert!(!game.manager.slide_start_timer.finished());
}

#[test]
fn slide_waits_for_the_start_delay_and_then_repeats() {
    let mut game = game_with(T, -1, -3, &[]);
    slide(&mut game, 0, true, false);
    assert_eq!(game.active_tetris.x, -1);
    slide(&mut game, SLIDE_START_TIME - 1, true, false);
    assert_eq!(game.active_tetris.x, -1);
    assert!(!game.manager.slide_start_timer.finished());
    assert_eq!(game.manager.slide_timer.elapsed, 0);
    slide(&mut game, 1, true, false);
    assert!(game.manager.slide_start_timer.finished());
    assert_eq!(game.manager.slide_timer.elapsed, 1);
    assert!(!game.manager.slide_timer.finished());
    assert_eq!(game.active_tetris.x, -1);
    slide(&mut game, SLIDE_TIME - 2, true, false);
    assert_eq!(game.active_tetris.x, -1);
    slide(&mut game, 1, true, false);
    assert!(game.manager.slide_timer.finished());
    assert_eq!(game.active_tetris.x, -3);
    assert_eq!(game.manager.slide_timer.elapsed, 0);
    slide(&mut game, SLIDE_TIME - 1, true, false);
    assert_eq!(game.active_tetris.x, -3);
    slide(&mut game, 1, true, false);
    assert_eq!(game.active_tetris.x, -5);
    assert_eq!(game.active_tetris.y, -3);
}

#[test]
fn slide_does_not_move_while_the_repeat_timer_has_not_completed() {
    let mut game = game_with(I, 0, -2, &[]);
    slide(&mut game, 0, false, true);
    slide(&mut game, 190_000_000, false, true);
    assert!(!game.manager.slide_start_timer.finished());
    slide(&mut game, 16_000_000, false, true);
    assert!(game.manager.slide_start_timer.finished());
    assert!(!game.manager.slide_timer.finished());
    assert_eq!(game.manager.slide_timer.elapsed, 16_000_000);
    assert_eq!(game.active_tetris, piece(I, 0, 0, -2));
    slide(&mut game, 16_000_000, false, true);
    slide(&mut game, 16_000_000, false, true);
    assert_eq!(game.active_tetris, piece(I, 0, 0, -2));
    slide(&mut game, 16_000_000, false, true);
    assert!(game.manager.slide_timer.finished());
    assert_eq!(game.manager.slide_timer.elapsed, 14_000_000);
    assert_eq!(game.active_tetris, piece(I, 0, 2, -2));
    slide(&mut game, 16_000_000, false, true);
    assert!(!game.manager.slide_timer.finished());
    assert_eq!(game.active_tetris, piece(I, 0, 2, -2));
}

#[test]
fn slide_of_a_key_let_go_too_soon_moves_nothing() {
    let mut game = game_with(T, -1, -3, &[]);
    slide(&mut game, 0, false, true);
    slide(&mut game, SLIDE_START_TIME - 1, false, true);
    slide(&mut game, 10, false, false);
    assert_eq!(game.active_tetris.x, -1);
    slide(&mut game, SLIDE_START_TIME, false, false);
    slide(&mut game, SLIDE_TIME, false, false);
    assert_eq!(game.active_tetris.x, -1);
}

#[test]
fn slide_moves_once_in_a_tick_that_spans_several_repeats() {
    let mut game = game_with(T, -1, -3, &[]);
    slide(&mut game, 0, false, true);
    slide(&mut game, SLIDE_START_TIME + 3 * SLIDE_TIME, false, true);
    assert!(game.manager.slide_start_timer.finished());
    assert!(game.manager.slide_timer.finished());
    assert_eq!(game.active_tetris.x, 1);
}

#[test]
fn slide_with_both_keys_or_none_stands_still() {
    let mut game = game_with(T, -1, -3, &[]);
    slide(&mut game, SLIDE_START_TIME, true, true);
    assert_eq!(game.active_tetris.x, -1);
    assert_eq!(game.manager.slide_dir, 0);
    slide(&mut game, SLIDE_START_TIME, false, false);
    assert_eq!(game.active_tetris.x, -1);
    slide(&mut game, SLIDE_TIME, false, false);
    assert_eq!(game.active_tetris.x, -1);
}

#[test]
fn slide_releasing_the_key_winds_the_timers_back() {
    let mut game = game_with(T, -1, -3, &[]);
    slide(&mut game, 0, false, true);
    slide(&mut game, SLIDE_START_TIME, false, true);
    assert!(game.manager.slide_start_timer.finished());
    slide(&mut game, 10, false, true);
    assert_eq!(game.manager.slide_timer.elapsed, 10);
    let x = game.active_tetris.x;
    slide(&mut game, 10, false, false);
    assert_eq!(game.manager.slide_dir, 0);
    assert!(!game.manager.slide_start_timer.finished());
    assert_eq!(game.manager.slide_start_timer.elapsed, 0);
    assert_eq!(game.manager.slide_timer.elapsed, 0);
    assert!(!game.manager.slide_timer.finished());
    assert_eq!(game.active_tetris.x, x);
}

#[test]
fn slide_into_a_wall_is_not_made() {
    let mut game = game_with(T, 7, -3, &[]);
    slide(&mut game, 0, false, true);
    slide(&mut game, SLIDE_START_TIME, false, true);
    assert_eq!(game.active_tetris.x, 7);
    assert_eq!(game.manager.slide_dir, 1);
    let mut game = game_with(T, -7, -3, &[]);
    slide(&mut game, 0, true, false);
    slide(&mut game, SLIDE_START_TIME, true, false);
    assert_eq!(game.active_tetris.x, -7);
}

#[test]
fn slide_into_a_block_is_not_made() {
    let mut game = game_with(T, -1, -3, &[(3, -3)]);
    slide(&mut game, 0, false, true);
    slide(&mut game, SLIDE_START_TIME, false, true);
    assert_eq!(game.active_tetris, piece(T, 0, -1, -3));
    slide(&mut game, 0, true, false);
    assert_eq!(game.active_tetris, piece(T, 0, -1, -3));
    slide(&mut game, SLIDE_START_TIME, true, false);
    assert_eq!(game.active_tetris, piece(T, 0, -3, -3));
}

#[test]
fn fall_moves_one_cell_when_the_fall_timer_completes() {
    let mut game = game_with(T, -1, -3, &[]);
    fall(&mut game, FALL_TIME - 1, false, false);
    assert_eq!(game.active_tetris.y, -3);
    assert_eq!(game.state, GameState::Play);
    fall(&mut game, 1, false, false);
    assert_eq!(game.active_tetris.y, -5);
    assert_eq!(game.manager.fall_timer.elapsed, 0);
    fall(&mut game, FALL_TIME, false, false);
    assert_eq!(game.active_tetris.y, -7);
    assert_eq!(game.active_tetris.x, -1);
    assert!(!game.manager.hit_floor);
}

#[test]
fn fall_runs_both_timers_and_the_down_key_picks_one() {
    let mut game = game_with(T, -1, -3, &[]);
    fall(&mut game, FAST_FALL_TIME, false, false);
    assert_eq!(game.active_tetris.y, -3);
    assert!(game.manager.fast_fall_timer.finished());
    assert_eq!(game.manager.fast_fall_timer.elapsed, 0);
    assert_eq!(game.manager.fall_timer.elapsed, FAST_FALL_TIME);
    fall(&mut game, FAST_FALL_TIME, false, true);
    assert_eq!(game.active_tetris.y, -5);
    fall(&mut game, FAST_FALL_TIME - 1, false, true);
    assert_eq!(game.active_tetris.y, -5);
    assert_eq!(game.manager.fall_timer.elapsed, 3 * FAST_FALL_TIME - 1);
}

#[test]
fn fall_with_the_down_key_ignores_the_fall_timer() {
    let mut game = game_with(T, -1, -3, &[]);
    game.manager.fall_timer.tick(FALL_TIME - 5);
    fall(&mut game, 5, false, true);
    assert!(game.manager.fall_timer.finished());
    assert!(!game.manager.fast_fall_timer.finished());
    assert_eq!(game.active_tetris.y, -3);
    game.manager.fall_timer.tick(FALL_TIME - 5);
    fall(&mut game, 5, false, false);
    assert!(game.manager.fall_timer.finished());
    assert_eq!(game.active_tetris.y, -5);
}

#[test]
fn resting_piece_is_left_alone_until_a_timer_completes() {
    let mut game = game_with(T, -1, -39, &[]);
    fall(&mut game, 1, false, false);
    assert!(!game.manager.hit_floor);
    assert_eq!(game.manager.fall_timer.elapsed, 1);
    assert_eq!(game.manager.fast_fall_timer.elapsed, 1);
    assert_eq!(game.state, GameState::Play);
    assert_eq!(game.active_tetris, piece(T, 0, -1, -39));
    fall(&mut game, FALL_TIME - 2, false, false);
    assert!(!game.manager.hit_floor);
    assert_eq!(game.manager.fall_timer.elapsed, FALL_TIME - 1);
    assert_eq!(game.state, GameState::Play);
    assert_eq!(game.active_tetris, piece(T, 0, -1, -39));
}

#[test]
fn fast_timer_does_not_start_the_grace_period_without_the_down_key() {
    let mut game = game_with(T, -1, -39, &[]);
    fall(&mut game, FAST_FALL_TIME, false, false);
    assert!(game.manager.fast_fall_timer.finished());
    assert!(!game.manager.hit_floor);
    assert_eq!(game.manager.fall_timer.elapsed, FAST_FALL_TIME);
}

#[test]
fn fast_timer_starts_the_grace_period_under_the_down_key() {
    let mut game = game_with(T, -1, -39, &[]);
    fall(&mut game, FAST_FALL_TIME - 1, false, true);
    assert!(!game.manager.hit_floor);
    assert_eq!(game.manager.fall_timer.elapsed, FAST_FALL_TIME - 1);
    fall(&mut game, 1, false, true);
    assert!(game.manager.hit_floor);
    assert_eq!(game.manager.fall_timer.elapsed, 0);
    assert_eq!(game.manager.fast_fall_timer.elapsed, 0);
    assert_eq!(game.state, GameState::Play);
    assert_eq!(game.active_tetris, piece(T, 0, -1, -39));
}

#[test]
fn fall_gives_a_resting_piece_its_grace_period() {
    let mut game = game_with(T, -1, -39, &[]);
    game.manager.fall_timer.tick(FALL_TIME - 1);
    fall(&mut game, 1, false, false);
    assert!(game.manager.hit_floor);
    assert_eq!(game.manager.fall_timer.elapsed, 0);
    assert!(!game.manager.fall_timer.finished());
    assert_eq!(game.state, GameState::Play);
    assert_eq!(game.active_tetris, piece(T, 0, -1, -39));
    fall(&mut game, FALL_TIME - 1, false, false);
    assert_eq!(game.state, GameState::Play);
    fall(&mut game, 1, false, false);
    assert_eq!(game.state, GameState::Place);
    assert_eq!(game.active_tetris, piece(T, 0, -1, -39));
}

#[test]
fn grace_period_runs_on_under_the_down_key() {
    let mut game = game_with(T, -1, -39, &[]);
    fall(&mut game, FALL_TIME, false, false);
    assert!(game.manager.hit_floor);
    fall(&mut game, FAST_FALL_TIME, false, true);
    assert!(game.manager.fast_fall_timer.finished());
    assert_eq!(game.state, GameState::Play);
    assert_eq!(game.manager.fall_timer.elapsed, FAST_FALL_TIME);
    fall(&mut game, FALL_TIME - FAST_FALL_TIME - 1, false, true);
    assert_eq!(game.state, GameState::Play);
    fall(&mut game, 1, false, true);
    assert_eq!(game.state, GameState::Place);
}

#[test]
fn grace_period_lasts_through_slides_and_turns() {
    let mut game = game_with(T, -1, -39, &[]);
    fall(&mut game, FALL_TIME, false, false);
    assert!(game.manager.hit_floor);
    let step = FALL_TIME / 10;
    for round in 0..9 {
        slide(&mut game, step, round % 2 == 0, round % 2 == 1);
        rotate(&mut game, round % 3 == 0);
        fall(&mut game, step, false, round % 4 == 0);
        assert_eq!(game.state, GameState::Play);
        assert!(game.manager.hit_floor || game.manager.fall_timer.elapsed <= (round + 1) * step);
    }
}

#[test]
fn grace_flag_is_cleared_when_the_piece_can_fall_again() {
    let mut game = game_with(O, 2, -34, &[(1, -37), (3, -37)]);
    fall(&mut game, 10, false, false);
    assert!(!game.manager.hit_floor);
    fall(&mut game, FALL_TIME - 10, false, false);
    assert!(game.manager.hit_floor);
    assert_eq!(game.manager.fall_timer.elapsed, 0);
    game.active_tetris.x = 4;
    fall(&mut game, 10, false, false);
    assert!(game.manager.hit_floor);
    assert_eq!(game.manager.fall_timer.elapsed, 10);
    game.active_tetris.x = 6;
    fall(&mut game, 10, false, false);
    assert!(!game.manager.hit_floor);
    assert_eq!(game.manager.fall_timer.elapsed, 20);
    assert_eq!(game.state, GameState::Play);
    assert_eq!(game.active_tetris.y, -34);
    game.active_tetris.x = 2;
    fall(&mut game, 10, false, false);
    assert!(!game.manager.hit_floor);
    fall(&mut game, FALL_TIME - 30, false, false);
    assert!(game.manager.hit_floor);
    assert_eq!(game.manager.fall_timer.elapsed, 0);
    assert_eq!(game.state, GameState::Play);
}

#[test]
fn hard_drop_lands_on_the_floor() {
    let mut game = game_with(T, -1, -3, &[]);
    fall(&mut game, 0, true, false);
    assert_eq!(game.active_tetris, piece(T, 0, -1, -39));
    assert_eq!(game.state, GameState::Place);
    assert_eq!(game.manager.fall_timer.elapsed, 0);
    let mut game = game_with(I, 0, -2, &[]);
    fall(&mut game, 0, true, false);
    assert_eq!(game.active_tetris, piece(I, 0, 0, -40));
}

#[test]
fn hard_drop_lands_on_the_stack() {
    let mut game = game_with(T, -1, -3, &[(1, -39), (1, -37), (-3, -39)]);
    fall(&mut game, 7, true, false);
    assert_eq!(game.active_tetris, piece(T, 0, -1, -35));
    assert_eq!(game.state, GameState::Place);
    assert!(!game.manager.hit_floor);
    assert_eq!(game.manager.fall_timer.elapsed, 0);
}

#[test]
fn hard_drop_of_a_blocked_piece_stays() {
    let mut game = game_with(T, -1, -3, &[(-1, -3)]);
    fall(&mut game, 0, true, false);
    assert_eq!(game.active_tetris, piece(T, 0, -1, -3));
    assert_eq!(game.state, GameState::Place);
}

#[test]
fn hold_on_an_empty_slot_sets_the_shape_aside() {
    let mut game = game_with(S, -1, -11, &[]);
    hold(&mut game, true);
    assert_eq!(game.hold_tetris, HoldTetris { index: S, visible: true });
    assert_eq!(game.state, GameState::Advance);
    assert!(game.manager.hold);
    assert_eq!(game.active_tetris, piece(S, 0, -1, -11));
}

#[test]
fn hold_on_a_full_slot_swaps_the_shapes() {
    let mut game = game_with(Z, 3, -11, &[]);
    game.active_tetris.rotation_index = 2;
    game.hold_tetris = HoldTetris { index: I, visible: true };
    hold(&mut game, true);
    assert_eq!(game.hold_tetris, HoldTetris { index: Z, visible: true });
    assert_eq!(game.active_tetris, piece(I, 0, 0, -2));
    assert_eq!(game.ghost_tetris.index, I);
    assert_eq!(game.state, GameState::Play);
    assert!(game.manager.hold);
    let mut game = game_with(O, 4, -20, &[]);
    game.hold_tetris = HoldTetris { index: L, visible: true };
    hold(&mut game, true);
    assert_eq!(game.active_tetris, piece(L, 0, -1, -3));
    assert_eq!(game.hold_tetris, HoldTetris { index: O, visible: true });
}

#[test]
fn hold_needs_the_key() {
    let mut game = game_with(J, -1, -11, &[]);
    hold(&mut game, false);
    assert_eq!(game.hold_tetris, HoldTetris { index: 0, visible: false });
    assert_eq!(game.state, GameState::Play);
    assert!(!game.manager.hold);
    assert_eq!(game.active_tetris, piece(J, 0, -1, -11));
}

#[test]
fn second_hold_does_nothing() {
    let mut game = game_with(Z, 3, -11, &[]);
    game.hold_tetris = HoldTetris { index: I, visible: true };
    hold(&mut game, true);
    let active = game.active_tetris;
    let held = game.hold_tetris;
    game.active_tetris.y = -6;
    hold(&mut game, true);
    assert_eq!(game.active_tetris, ActiveTetris { y: -6, ..active });
    assert_eq!(game.hold_tetris, held);
    assert_eq!(game.state, GameState::Play);
    assert!(game.manager.hold);
}
