//! What holds of the simulation over any number of ticks: the hold key works
//! once per piece, a piece is moved and locked only when its timers complete, a
//! resting piece is given its grace period, a game that is over stays over, and
//! locked blocks never come to share a cell by a lock of a free piece or by a
//! line clear.

use crate::field::{
    block_in_grid, blocks_distinct, blocks_in_grid, cleared_blocks, lemma_settled_apart,
    lemma_settled_in_grid, piece_cell_blocked, row_full, same_cell, settled, survives, touches,
    Block,
};
use crate::game::{slide_direction, GameView, Input};
use crate::manager::{
    is_bag, lemma_bag_contents, lemma_dealt_deals_next, GameState, TetrisManager,
};
use crate::shape::{shape_cells, BLOCK_SIZE};
use crate::tetris::{
    lemma_landing, lemma_locked_blocks_in_grid, lemma_moved_wf, lemma_spawned_wf,
    lemma_wf_bounds, ActiveTetris,
};
use crate::timer::TimerMode;
use vstd::prelude::*;

verus! {

/// `trace` is a run of the simulation: each state leads to the next by one tick
/// with the keys and the elapsed time of that tick.
pub open spec fn is_run(trace: Seq<GameView>, inputs: Seq<Input>, deltas: Seq<u64>) -> bool {
    &&& trace.len() == inputs.len() + 1
    &&& inputs.len() == deltas.len()
    &&& forall|k: int|
        0 <= k < inputs.len() ==> #[trigger] trace[k].ticks_to(trace[k + 1], inputs[k], deltas[k])
}

/// A piece locks in the tick that leads on from state `k` of the run.
pub open spec fn locks_in(
    trace: Seq<GameView>,
    inputs: Seq<Input>,
    deltas: Seq<u64>,
    k: int,
) -> bool {
    trace[k].played(inputs[k], deltas[k]).state == GameState::Place
}

/// The time that passes in the first `count` ticks.
pub open spec fn time_passed(deltas: Seq<u64>, count: int) -> int
    decreases count,
{
    if count <= 0 {
        0
    } else {
        time_passed(deltas, count - 1) + deltas[count - 1]
    }
}

/// A press of the hold key that finds the key unused leaves it used, and a press
/// that finds it used changes nothing.
pub proof fn lemma_hold_once(state: GameView, pressed: bool)
    ensures
        state.held(true).manager.hold,
        state.manager.hold ==> state.held(pressed) == state,
        state.held(true).held(pressed) == state.held(true),
{
}

/// A tick in which no piece locks leaves a used hold key used.
pub proof fn lemma_hold_lasts_one_tick(pre: GameView, post: GameView, input: Input, delta: u64)
    requires
        pre.manager.hold,
        pre.ticks_to(post, input, delta),
        pre.played(input, delta).state != GameState::Place,
    ensures
        post.manager.hold,
        post.hold_tetris == pre.hold_tetris,
{
}

/// Once the hold key has been used, pressing it again changes nothing until a
/// piece has locked: in every state of a run in which no piece locks, the key is
/// still used, the held shape is the same, and a press leaves the state as it is.
pub proof fn lemma_hold_once_per_piece(
    trace: Seq<GameView>,
    inputs: Seq<Input>,
    deltas: Seq<u64>,
    i: int,
    pressed: bool,
)
    requires
        is_run(trace, inputs, deltas),
        trace[0].manager.hold,
        forall|k: int| 0 <= k < inputs.len() ==> !#[trigger] locks_in(trace, inputs, deltas, k),
        0 <= i < trace.len(),
    ensures
        trace[i].manager.hold,
        trace[i].hold_tetris == trace[0].hold_tetris,
        trace[i].held(pressed) == trace[i],
    decreases i,
{
    if i > 0 {
        let k = i - 1;
        lemma_hold_once_per_piece(trace, inputs, deltas, k, pressed);
        assert(trace[k].ticks_to(trace[k + 1], inputs[k], deltas[k]));
        assert(!locks_in(trace, inputs, deltas, k));
        lemma_hold_lasts_one_tick(trace[k], trace[k + 1], inputs[k], deltas[k]);
    }
}

/// A tick leaves the game in play or over, whatever it started from in play or over.
pub proof fn lemma_tick_ends_in_play_or_over(
    pre: GameView,
    post: GameView,
    input: Input,
    delta: u64,
)
    requires
        pre.state == GameState::Play || pre.state == GameState::GameOver,
        pre.ticks_to(post, input, delta),
    ensures
        post.state == GameState::Play || post.state == GameState::GameOver,
{
}

/// A piece that is brought in and finds itself blocked ends the game.
pub proof fn lemma_blocked_spawn_ends_game(pre: GameView, post: GameView, input: Input, delta: u64)
    requires
        pre.ticks_to(post, input, delta),
        pre.played(input, delta).locked().state == GameState::Advance,
    ensures
        post.state == GameState::GameOver <==> post.active_tetris.blocked(post.blocks),
        post.state == GameState::Play <==> !post.active_tetris.blocked(post.blocks),
{
}

/// A tick of a game that is over changes nothing but the ghost.
pub proof fn lemma_game_over_tick(pre: GameView, post: GameView, input: Input, delta: u64)
    requires
        pre.state == GameState::GameOver,
        pre.ticks_to(post, input, delta),
    ensures
        post == pre.ghosted(),
        post.state == GameState::GameOver,
        post.manager == pre.manager,
        post.blocks == pre.blocks,
        post.active_tetris == pre.active_tetris,
        post.next_tetris == pre.next_tetris,
        post.hold_tetris == pre.hold_tetris,
{
}

/// A game that is over stays over: in every later state of a run the game is
/// over, and the field, the pieces and the manager are what they were.
pub proof fn lemma_game_over_is_final(
    trace: Seq<GameView>,
    inputs: Seq<Input>,
    deltas: Seq<u64>,
    i: int,
)
    requires
        is_run(trace, inputs, deltas),
        trace[0].state == GameState::GameOver,
        0 <= i < trace.len(),
    ensures
        trace[i].state == GameState::GameOver,
        trace[i].manager == trace[0].manager,
        trace[i].blocks == trace[0].blocks,
        trace[i].active_tetris == trace[0].active_tetris,
        trace[i].next_tetris == trace[0].next_tetris,
        trace[i].hold_tetris == trace[0].hold_tetris,
    decreases i,
{
    if i > 0 {
        let k = i - 1;
        lemma_game_over_is_final(trace, inputs, deltas, k);
        assert(trace[k].ticks_to(trace[k + 1], inputs[k], deltas[k]));
        lemma_game_over_tick(trace[k], trace[k + 1], inputs[k], deltas[k]);
    }
}

/// A piece that cannot go lower is left alone as long as the timer that counts
/// does not complete: while the grace flag is clear, a tick in which that timer
/// does not complete changes nothing but the time on the two gravity timers.
pub proof fn lemma_resting_piece_waits_for_timer(state: GameView, delta: u64, fast_fall: bool)
    requires
        state.active_tetris.moved(0, -BLOCK_SIZE).blocked(state.blocks),
        !state.manager.hit_floor,
        !state.gravity_due(delta, fast_fall),
    ensures
        state.fallen(delta, false, fast_fall) == (GameView {
            manager: TetrisManager {
                fall_timer: state.manager.fall_timer.ticked(delta),
                fast_fall_timer: state.manager.fast_fall_timer.ticked(delta),
                ..state.manager
            },
            ..state
        }),
        !state.fallen(delta, false, fast_fall).manager.hit_floor,
{
}

/// The grace period starts when the timer that counts completes over a piece
/// that cannot go lower: the flag is set, the fall timer is wound back, and the
/// piece and the phase of the game stay as they are.
pub proof fn lemma_grace_starts_on_timer(state: GameView, delta: u64, fast_fall: bool)
    requires
        state.active_tetris.moved(0, -BLOCK_SIZE).blocked(state.blocks),
        !state.manager.hit_floor,
        state.gravity_due(delta, fast_fall),
    ensures
        state.fallen(delta, false, fast_fall).manager.hit_floor,
        state.fallen(delta, false, fast_fall).manager.fall_timer
            == state.manager.fall_timer.rewound(),
        state.fallen(delta, false, fast_fall).state == state.state,
        state.fallen(delta, false, fast_fall).active_tetris == state.active_tetris,
{
}

/// The grace period ends when the fall timer completes: a piece that cannot go
/// lower and has the flag set is then called to be locked, and not before.
pub proof fn lemma_grace_ends_on_timer(state: GameView, delta: u64, fast_fall: bool)
    requires
        state.active_tetris.moved(0, -BLOCK_SIZE).blocked(state.blocks),
        state.manager.hit_floor,
        state.state != GameState::Place,
    ensures
        state.fallen(delta, false, fast_fall).state == GameState::Place
            <==> state.manager.fall_timer.ticked(delta).finished,
        state.fallen(delta, false, fast_fall).active_tetris == state.active_tetris,
        state.fallen(delta, false, fast_fall).manager.hit_floor,
{
}

/// The piece stays where it is unless a sideways move is due: with no key or
/// both keys down, in the tick in which the direction changes, and in every tick
/// that leaves the repeat timer unfinished.
pub proof fn lemma_slide_waits_for_timer(state: GameView, delta: u64, left: bool, right: bool)
    requires
        slide_direction(left, right) == 0 || state.manager.slide_dir != slide_direction(
            left,
            right,
        ) || !state.slide_timer_ticked(delta).finished,
    ensures
        state.slid(delta, left, right).active_tetris == state.active_tetris,
{
}

/// A change of direction winds both sideways timers back.
pub proof fn lemma_slide_turns_with_timers_at_zero(
    state: GameView,
    delta: u64,
    left: bool,
    right: bool,
)
    requires
        state.manager.slide_dir != slide_direction(left, right),
    ensures
        state.slid(delta, left, right).manager.slide_dir == slide_direction(left, right),
        state.slid(delta, left, right).manager.slide_start_timer
            == state.manager.slide_start_timer.rewound(),
        state.slid(delta, left, right).manager.slide_timer == state.manager.slide_timer.rewound(),
{
}

/// A sideways key has to be held for the start delay before the piece follows
/// it: as long as the start timer has not finished, a repeat timer that stands
/// unfinished stays as it is, and the piece stays where it is.
pub proof fn lemma_slide_waits_for_start(state: GameView, delta: u64, left: bool, right: bool)
    requires
        !state.manager.slide_start_timer.ticked(delta).finished,
        !state.manager.slide_timer.finished,
    ensures
        state.slid(delta, left, right).active_tetris == state.active_tetris,
        !state.slid(delta, left, right).manager.slide_timer.finished,
        !state.slid(delta, left, right).manager.slide_start_timer.finished,
{
}

/// A sideways move that is due is made if the piece can stand one cell further
/// in the direction held: the direction is that of the tick before, and the
/// repeat timer, as this tick leaves it, has completed.
pub proof fn lemma_slide_moves_when_due(state: GameView, delta: u64, left: bool, right: bool)
    requires
        slide_direction(left, right) != 0,
        state.manager.slide_dir == slide_direction(left, right),
        state.slide_timer_ticked(delta).finished,
    ensures
        state.slid(delta, left, right).active_tetris == if state.active_tetris.moved(
            slide_direction(left, right) * BLOCK_SIZE,
            0,
        ).blocked(state.blocks) {
            state.active_tetris
        } else {
            state.active_tetris.moved(slide_direction(left, right) * BLOCK_SIZE, 0)
        },
{
}

/// Gravity calls for a piece to be locked only if the piece had been found
/// resting before this tick and the fall timer completes in it.
pub proof fn lemma_lock_needs_grace(state: GameView, delta: u64, fast_fall: bool)
    requires
        state.state != GameState::Place,
        state.manager.fall_timer.mode == TimerMode::Repeating,
        state.fallen(delta, false, fast_fall).state == GameState::Place,
    ensures
        state.manager.hit_floor,
        state.active_tetris.moved(0, -BLOCK_SIZE).blocked(state.blocks),
        state.manager.fall_timer.elapsed + delta >= state.manager.fall_timer.duration,
{
}

/// When the grace period starts, the fall timer starts from zero.
pub proof fn lemma_grace_starts_at_zero(state: GameView, delta: u64, fast_fall: bool)
    requires
        !state.manager.hit_floor,
        state.fallen(delta, false, fast_fall).manager.hit_floor,
    ensures
        state.fallen(delta, false, fast_fall).manager.fall_timer.elapsed == 0,
        !state.fallen(delta, false, fast_fall).manager.fall_timer.finished,
        state.fallen(delta, false, fast_fall).state == state.state,
{
}

/// What one tick without a hard drop does to the fall timer: it gains at most
/// the time that passed, and a piece locks only if the timer reaches its duration.
pub proof fn lemma_fall_timer_tick(pre: GameView, post: GameView, input: Input, delta: u64)
    requires
        pre.state == GameState::Play || pre.state == GameState::GameOver,
        pre.manager.fall_timer.mode == TimerMode::Repeating,
        pre.ticks_to(post, input, delta),
        !input.hard_drop,
    ensures
        post.manager.fall_timer.mode == TimerMode::Repeating,
        post.manager.fall_timer.duration == pre.manager.fall_timer.duration,
        post.manager.fall_timer.elapsed <= pre.manager.fall_timer.elapsed + delta,
        pre.played(input, delta).state == GameState::Place ==> pre.manager.hit_floor
            && pre.manager.fall_timer.elapsed + delta >= pre.manager.fall_timer.duration,
{
    let held = pre.held(input.hold);
    if pre.state == GameState::Play && held.state == GameState::Play {
        let slid = held.rotated(input.rotate).slid(delta, input.left, input.right);
        assert(slid.manager.fall_timer == pre.manager.fall_timer);
        assert(slid.manager.hit_floor == pre.manager.hit_floor);
        assert(slid.state == GameState::Play);
    }
}

/// A resting piece is not locked before its grace period is over, whatever the
/// player does short of a hard drop: in a run that starts in play with the fall
/// timer at `elapsed`, no piece locks as long as the time that has passed, added
/// to `elapsed`, stays below the timer's duration. When the grace period starts
/// the timer is wound back, so that `elapsed` is then zero.
pub proof fn lemma_lock_delay_grace(
    trace: Seq<GameView>,
    inputs: Seq<Input>,
    deltas: Seq<u64>,
    i: int,
)
    requires
        is_run(trace, inputs, deltas),
        trace[0].state == GameState::Play,
        trace[0].manager.fall_timer.mode == TimerMode::Repeating,
        forall|k: int| 0 <= k < inputs.len() ==> !(#[trigger] inputs[k]).hard_drop,
        0 <= i < inputs.len(),
        trace[0].manager.fall_timer.elapsed + time_passed(deltas, i + 1)
            < trace[0].manager.fall_timer.duration,
    ensures
        !locks_in(trace, inputs, deltas, i),
        trace[i + 1].state == GameState::Play || trace[i + 1].state == GameState::GameOver,
        trace[i + 1].manager.fall_timer.mode == TimerMode::Repeating,
        trace[i + 1].manager.fall_timer.duration == trace[0].manager.fall_timer.duration,
        trace[i + 1].manager.fall_timer.elapsed <= trace[0].manager.fall_timer.elapsed
            + time_passed(deltas, i + 1),
    decreases i,
{
    assert(time_passed(deltas, i + 1) == time_passed(deltas, i) + deltas[i]);
    if i > 0 {
        lemma_lock_delay_grace(trace, inputs, deltas, i - 1);
    } else {
        assert(time_passed(deltas, 0) == 0);
    }
    assert(trace[i].ticks_to(trace[i + 1], inputs[i], deltas[i]));
    assert(!inputs[i].hard_drop);
    lemma_fall_timer_tick(trace[i], trace[i + 1], inputs[i], deltas[i]);
    lemma_tick_ends_in_play_or_over(trace[i], trace[i + 1], inputs[i], deltas[i]);
}

/// The four cells of a well-formed piece are four different cells.
pub proof fn lemma_cells_apart(piece: ActiveTetris, i: int, j: int)
    requires
        piece.wf(),
        0 <= i < j < 4,
    ensures
        !same_cell(piece.locked_block(i), piece.locked_block(j)),
{
    lemma_locked_blocks_in_grid(piece);
}

/// Locking a piece that is not blocked keeps the locked blocks apart: if no two
/// of them filled the same cell before, no two do after.
pub proof fn lemma_placed_distinct(state: GameView)
    requires
        state.active_tetris.wf(),
        blocks_distinct(state.blocks),
        !state.active_tetris.blocked(state.blocks),
    ensures
        blocks_distinct(state.placed().blocks),
{
    let piece = state.active_tetris;
    let old_blocks = state.blocks;
    let new_blocks = state.placed().blocks;
    let count = old_blocks.len() as int;
    lemma_locked_blocks_in_grid(piece);
    assert(shape_cells(piece.index).len() == 4);
    assert forall|i: int, j: int| 0 <= i < j < new_blocks.len() implies !same_cell(
        #[trigger] new_blocks[i],
        #[trigger] new_blocks[j],
    ) by {
        if j < count {
        } else if i < count {
            let k = j - count;
            assert(new_blocks[j] == piece.locked_block(k));
            assert(!piece_cell_blocked(piece.pose(), shape_cells(piece.index), old_blocks, k));
            assert(!touches(piece.cell(k).0, piece.cell(k).1, old_blocks[i]));
        } else {
            assert(new_blocks[i] == piece.locked_block(i - count));
            assert(new_blocks[j] == piece.locked_block(j - count));
            lemma_cells_apart(piece, i - count, j - count);
        }
    }
}

/// The block is one of the first `count` blocks, from a row that is not full.
pub open spec fn survivor(blocks: Seq<Block>, count: int, block: Block) -> bool {
    exists|k: int|
        0 <= k < count && !row_full(blocks, blocks[k].y as int) && #[trigger] blocks[k] == block
}

/// What a line clear leaves of the first `count` blocks: each is a block of a
/// row that was not full, come down, and no two fill the same cell.
proof fn lemma_cleared_prefix(blocks: Seq<Block>, count: int)
    requires
        blocks_in_grid(blocks),
        blocks_distinct(blocks),
        0 <= count <= blocks.len(),
    ensures
        blocks_distinct(blocks.take(count).filter(survives(blocks)).map_values(settled(blocks))),
        blocks_in_grid(blocks.take(count).filter(survives(blocks)).map_values(settled(blocks))),
        forall|i: int|
            0 <= i < blocks.take(count).filter(survives(blocks)).len() ==> survivor(
                blocks,
                count,
                #[trigger] blocks.take(count).filter(survives(blocks))[i],
            ),
    decreases count,
{
    let keep = survives(blocks);
    let down = settled(blocks);
    if count == 0 {
        blocks.take(0).lemma_filter_len(keep);
    } else {
        lemma_cleared_prefix(blocks, count - 1);
        let before = blocks.take(count - 1);
        let block = blocks[count - 1];
        assert(blocks.take(count) =~= before.push(block));
        before.lemma_filter_push(block, keep);
        let kept_before = before.filter(keep);
        let kept = blocks.take(count).filter(keep);
        assert forall|i: int| 0 <= i < kept_before.len() implies survivor(
            blocks,
            count,
            #[trigger] kept_before[i],
        ) by {
            assert(survivor(blocks, count - 1, kept_before[i]));
            let k = choose|k: int|
                0 <= k < count - 1 && !row_full(blocks, blocks[k].y as int) && #[trigger] blocks[k]
                    == kept_before[i];
            assert(blocks[k] == kept_before[i]);
        }
        if keep(block) {
            assert(kept =~= kept_before.push(block));
            assert(kept.map_values(down) =~= kept_before.map_values(down).push(down(block)));
            assert(survivor(blocks, count, block)) by {
                assert(blocks[count - 1] == block);
            }
            assert(block_in_grid(blocks[count - 1]));
            lemma_settled_in_grid(blocks, block);
            let settled_blocks = kept.map_values(down);
            assert forall|i: int, j: int| 0 <= i < j < settled_blocks.len() implies !same_cell(
                #[trigger] settled_blocks[i],
                #[trigger] settled_blocks[j],
            ) by {
                if j < kept_before.len() {
                    assert(settled_blocks[i] == kept_before.map_values(down)[i]);
                    assert(settled_blocks[j] == kept_before.map_values(down)[j]);
                } else {
                    assert(survivor(blocks, count - 1, kept_before[i]));
                    let k = choose|k: int|
                        0 <= k < count - 1 && !row_full(blocks, blocks[k].y as int)
                            && #[trigger] blocks[k] == kept_before[i];
                    assert(block_in_grid(blocks[k]));
                    assert(!same_cell(blocks[k], blocks[count - 1]));
                    lemma_settled_apart(blocks, blocks[k], block);
                }
            }
            assert forall|i: int| 0 <= i < settled_blocks.len() implies block_in_grid(
                #[trigger] settled_blocks[i],
            ) by {
                if i < kept_before.len() {
                    assert(settled_blocks[i] == kept_before.map_values(down)[i]);
                }
            }
        } else {
            assert(kept =~= kept_before);
        }
    }
}

/// A line clear keeps the locked blocks in the grid and apart: if no two of
/// them filled the same cell before, no two do after.
pub proof fn lemma_cleared_distinct(blocks: Seq<Block>)
    requires
        blocks_in_grid(blocks),
        blocks_distinct(blocks),
    ensures
        blocks_in_grid(cleared_blocks(blocks)),
        blocks_distinct(cleared_blocks(blocks)),
{
    lemma_cleared_prefix(blocks, blocks.len() as int);
    assert(blocks.take(blocks.len() as int) =~= blocks);
}

impl GameView {
    /// The state is well formed, no two locked blocks fill the same cell, and a
    /// piece in play, or called to be locked, can stand where it is.
    pub open spec fn sound(self) -> bool {
        &&& self.wf()
        &&& blocks_distinct(self.blocks)
        &&& self.state == GameState::Play || self.state == GameState::Place
            ==> !self.active_tetris.blocked(self.blocks)
    }

    /// In this tick the hold key does not bring back a held shape into cells that
    /// are taken.
    pub open spec fn swaps_freely(self, input: Input) -> bool {
        self.state == GameState::Play && self.held(input.hold).state == GameState::Play
            ==> !self.held(input.hold).active_tetris.blocked(self.blocks)
    }
}

/// A game starts sound.
pub proof fn lemma_initial_sound(manager: TetrisManager)
    requires
        manager.wf(),
    ensures
        GameView::initial(manager).sound(),
{
    lemma_bag_contents(manager.order@);
    lemma_bag_contents(manager.next_order@);
    let state = GameView::initial(manager);
    lemma_spawned_wf(manager.current());
    let piece = state.active_tetris;
    assert(!piece.blocked(state.blocks)) by {
        assert(piece.cell_in_grid(0) && piece.cell_in_grid(1) && piece.cell_in_grid(2)
            && piece.cell_in_grid(3));
        assert(shape_cells(piece.index).len() == 4);
        assert forall|i: int| 0 <= i < 4 implies !piece_cell_blocked(
            piece.pose(),
            shape_cells(piece.index),
            state.blocks,
            i,
        ) by {
            assert(piece.cell_in_grid(i));
        }
    }
}

/// The turn key keeps a sound state in play sound.
proof fn lemma_rotated_sound(state: GameView, pressed: bool)
    requires
        state.sound(),
        state.state == GameState::Play,
    ensures
        state.rotated(pressed).sound(),
{
    let piece = state.active_tetris;
    let turned = piece.rotated(state.blocks);
    lemma_wf_bounds(piece);
    if turned != piece {
        lemma_moved_wf(piece, turned, state.blocks);
    }
}

/// The sideways keys keep a sound state in play sound.
proof fn lemma_slid_sound(state: GameView, delta: u64, left: bool, right: bool)
    requires
        state.sound(),
        state.state == GameState::Play,
    ensures
        state.slid(delta, left, right).sound(),
{
    let piece = state.active_tetris;
    let slid = state.slid(delta, left, right);
    lemma_wf_bounds(piece);
    state.manager.slide_start_timer.lemma_stays_wf(delta);
    state.manager.slide_timer.lemma_stays_wf(delta);
    state.manager.slide_start_timer.ticked(delta).lemma_stays_wf(delta);
    state.slide_timer_ticked(delta).lemma_stays_wf(delta);
    if slid.active_tetris != piece {
        lemma_moved_wf(piece, slid.active_tetris, state.blocks);
    }
}

/// Gravity and the drop keys keep a sound state in play sound.
proof fn lemma_fallen_sound(state: GameView, delta: u64, hard_drop: bool, fast_fall: bool)
    requires
        state.sound(),
        state.state == GameState::Play,
    ensures
        state.fallen(delta, hard_drop, fast_fall).sound(),
        state.fallen(delta, hard_drop, fast_fall).state == GameState::Play || state.fallen(
            delta,
            hard_drop,
            fast_fall,
        ).state == GameState::Place,
{
    let piece = state.active_tetris;
    let fallen = state.fallen(delta, hard_drop, fast_fall);
    lemma_wf_bounds(piece);
    state.manager.fall_timer.lemma_stays_wf(delta);
    state.manager.fast_fall_timer.lemma_stays_wf(delta);
    state.manager.fall_timer.ticked(delta).lemma_stays_wf(delta);
    if hard_drop {
        lemma_landing(piece, state.blocks);
        assert(fallen.active_tetris == piece.moved(0, piece.landing_y(state.blocks) - piece.y));
    }
    if fallen.active_tetris != piece {
        lemma_moved_wf(piece, fallen.active_tetris, state.blocks);
    }
}

/// Locking and line clearing keep a sound state sound.
proof fn lemma_locked_sound(state: GameView)
    requires
        state.sound(),
    ensures
        state.locked().wf(),
        blocks_distinct(state.locked().blocks),
        state.state == GameState::Place ==> state.locked().state == GameState::Advance,
        state.state != GameState::Place ==> state.locked() == state,
{
    if state.state == GameState::Place {
        let piece = state.active_tetris;
        lemma_placed_distinct(state);
        lemma_locked_blocks_in_grid(piece);
        let placed = state.placed();
        assert forall|i: int| 0 <= i < placed.blocks.len() implies block_in_grid(
            #[trigger] placed.blocks[i],
        ) by {
            if i >= state.blocks.len() {
                assert(placed.blocks[i] == piece.locked_block(i - state.blocks.len()));
            }
        }
        lemma_cleared_distinct(placed.blocks);
    }
}

/// Bringing in the next piece and checking it leaves a sound state.
proof fn lemma_spawned_sound(state: GameView, fresh: [usize; 7])
    requires
        state.wf(),
        blocks_distinct(state.blocks),
        is_bag(fresh@),
    ensures
        state.advanced(fresh).checked().sound(),
        state.advanced(fresh).checked().state == GameState::Play || state.advanced(
            fresh,
        ).checked().state == GameState::GameOver,
{
    let dealt = state.manager.dealt(fresh);
    lemma_dealt_deals_next(state.manager, fresh);
    lemma_bag_contents(dealt.order@);
    lemma_bag_contents(dealt.next_order@);
    dealt.fall_timer.lemma_stays_wf(0);
    dealt.fast_fall_timer.lemma_stays_wf(0);
    dealt.slide_start_timer.lemma_stays_wf(0);
    dealt.slide_timer.lemma_stays_wf(0);
    lemma_spawned_wf(state.advanced(fresh).manager.current());
}

/// The hold key keeps a sound state in play sound, unless it brings back a held
/// shape into cells that are taken.
proof fn lemma_held_sound(state: GameView, input: Input)
    requires
        state.sound(),
        state.state == GameState::Play,
        state.swaps_freely(input),
    ensures
        state.held(input.hold).sound(),
        state.held(input.hold).state == GameState::Play || state.held(input.hold).state
            == GameState::Advance,
{
    if state.hold_tetris.visible && input.hold && !state.manager.hold {
        lemma_spawned_wf(state.hold_tetris.index);
    }
}

/// The moves of the player's turn keep a sound state sound, unless the hold key
/// brings back a held shape into cells that are taken.
proof fn lemma_played_sound(state: GameView, input: Input, delta: u64)
    requires
        state.sound(),
        state.swaps_freely(input),
    ensures
        state.played(input, delta).sound(),
        state.state != GameState::Play ==> state.played(input, delta) == state,
        state.state == GameState::Play ==> state.played(input, delta).state != GameState::GameOver,
{
    if state.state == GameState::Play {
        let held = state.held(input.hold);
        lemma_held_sound(state, input);
        if held.state == GameState::Play {
            let rotated = held.rotated(input.rotate);
            lemma_rotated_sound(held, input.rotate);
            assert(rotated.state == GameState::Play);
            let slid = rotated.slid(delta, input.left, input.right);
            lemma_slid_sound(rotated, delta, input.left, input.right);
            assert(slid.state == GameState::Play);
            lemma_fallen_sound(slid, delta, input.hard_drop, input.soft_drop);
            assert(state.played(input, delta) == slid.fallen(
                delta,
                input.hard_drop,
                input.soft_drop,
            ));
        } else {
            assert(state.played(input, delta) == held);
        }
    }
}

/// One tick keeps the simulation sound, unless the hold key brings back a held
/// shape into cells that are taken: the state stays well formed, and the locked
/// blocks stay apart.
pub proof fn lemma_tick_keeps_sound(pre: GameView, post: GameView, input: Input, delta: u64)
    requires
        pre.sound(),
        pre.swaps_freely(input),
        pre.ticks_to(post, input, delta),
    ensures
        post.sound(),
        pre.state != GameState::Advance ==> post.state == GameState::Play || post.state
            == GameState::GameOver,
{
    let played = pre.played(input, delta);
    lemma_played_sound(pre, input, delta);
    lemma_locked_sound(played);
    let turn = played.locked();
    if turn.state == GameState::Advance {
        lemma_spawned_sound(turn, post.manager.next_order);
    } else {
        assert(post == turn.ghosted());
        assert(turn == played);
    }
}

/// All along a run that starts sound and in which the hold key never brings back
/// a held shape into cells that are taken, the state is well formed and no two
/// locked blocks fill the same cell.
pub proof fn lemma_run_stays_sound(
    trace: Seq<GameView>,
    inputs: Seq<Input>,
    deltas: Seq<u64>,
    i: int,
)
    requires
        is_run(trace, inputs, deltas),
        trace[0].sound(),
        trace[0].state == GameState::Play || trace[0].state == GameState::GameOver,
        forall|k: int| 0 <= k < inputs.len() ==> #[trigger] trace[k].swaps_freely(inputs[k]),
        0 <= i < trace.len(),
    ensures
        trace[i].sound(),
        trace[i].state == GameState::Play || trace[i].state == GameState::GameOver,
    decreases i,
{
    if i > 0 {
        let k = i - 1;
        lemma_run_stays_sound(trace, inputs, deltas, k);
        assert(trace[k].ticks_to(trace[k + 1], inputs[k], deltas[k]));
        assert(trace[k].swaps_freely(inputs[k]));
        lemma_tick_keeps_sound(trace[k], trace[k + 1], inputs[k], deltas[k]);
    }
}

} // verus!
