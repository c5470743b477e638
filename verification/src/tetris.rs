//! The pieces and the moves of the turn: holding, turning, sliding, falling,
//! locking, spawning and the ghost.

use crate::field::{
    block_in_grid, blocks_in_grid, full_row_count, full_rows_below, in_row, is_tetris_colliding,
    lemma_settled_in_grid, out_of_grid, piece_blocked, piece_cell_blocked, row_count, row_full,
    settled, survives, Block, Field, BOTTOM_ROW, DEPTH, GRID_HEIGHT, GRID_WIDTH, HALF_WIDTH,
    TOP_ROW,
};
use crate::game::{Game, GameView};
use crate::manager::{is_bag, GameState, TetrisManager};
use crate::shape::{
    block_positions, get_spawn_position, lemma_turned_cell, shape_cell, shape_cells,
    spawn_position, transform_cell, transform_point, Pose, BLOCK_SIZE, I, O, SHAPE_COUNT,
};
use std::collections::HashMap;
use vstd::prelude::*;

verus! {

/// The piece under the player's control.
#[derive(Clone, Copy, Debug, PartialEq, Eq, Structural)]
pub struct ActiveTetris {
    /// Its shape.
    pub index: usize,
    /// Quarter turns clockwise since it spawned, from 0 to 3.
    pub rotation_index: usize,
    /// Position of its origin.
    pub x: i32,
    pub y: i32,
}

/// The preview of where the active piece would land.
#[derive(Clone, Copy, Debug, PartialEq, Eq, Structural)]
pub struct GhostTetris {
    pub index: usize,
    pub rotation_index: usize,
    pub x: i32,
    pub y: i32,
    pub visible: bool,
}

/// The preview of the piece that comes next.
#[derive(Clone, Copy, Debug, PartialEq, Eq, Structural)]
pub struct NextTetris {
    pub index: usize,
}

/// The hold slot: the shape set aside, once there is one.
#[derive(Clone, Copy, Debug, PartialEq, Eq, Structural)]
pub struct HoldTetris {
    pub index: usize,
    /// Whether a shape has been set aside.
    pub visible: bool,
}

impl ActiveTetris {
    /// Position and orientation of the piece.
    pub open spec fn pose(self) -> Pose {
        Pose { x: self.x, y: self.y, rotation_index: self.rotation_index }
    }

    /// Where the `i`-th cell of the piece lies in the field.
    pub open spec fn cell(self, i: int) -> (int, int) {
        transform_point(self.pose(), shape_cell(self.index, i))
    }

    /// The piece cannot stand where it is: one of its cells is out of the grid or
    /// touches a locked block.
    pub open spec fn blocked(self, blocks: Seq<Block>) -> bool {
        piece_blocked(self.pose(), shape_cells(self.index), blocks)
    }

    /// The piece moved by the given distance.
    pub open spec fn moved(self, dx: int, dy: int) -> ActiveTetris {
        ActiveTetris { x: (self.x + dx) as i32, y: (self.y + dy) as i32, ..self }
    }

    /// The piece after one more quarter turn clockwise, moved sideways by `dx`.
    pub open spec fn turned(self, dx: int) -> ActiveTetris {
        ActiveTetris {
            rotation_index: ((self.rotation_index + 1) % 4) as usize,
            x: (self.x + dx) as i32,
            ..self
        }
    }

    /// A piece of the given shape as it enters the field.
    pub open spec fn spawned(index: usize) -> ActiveTetris {
        ActiveTetris {
            index,
            rotation_index: 0,
            x: spawn_position(index).x,
            y: spawn_position(index).y,
        }
    }

    /// The `i`-th cell lies between the walls and above the floor.
    pub open spec fn cell_in_grid(self, i: int) -> bool {
        !out_of_grid(self.cell(i).0, self.cell(i).1)
    }

    /// The origin lies where the grid wants it: on a corner of the grid for the I
    /// and O pieces, at the centre of a cell for the others.
    pub open spec fn aligned(self) -> bool {
        if self.index == I || self.index == O {
            self.x % 2 == 0 && self.y % 2 == 0
        } else {
            self.x % 2 != 0 && self.y % 2 != 0
        }
    }

    /// The piece has a shape and an orientation, is aligned with the grid, stands
    /// no higher than where it spawned, and has all its cells between the walls and
    /// above the floor.
    pub open spec fn wf(self) -> bool {
        &&& self.index < SHAPE_COUNT
        &&& self.rotation_index < 4
        &&& self.aligned()
        &&& self.y <= spawn_position(self.index).y
        &&& self.cell_in_grid(0)
        &&& self.cell_in_grid(1)
        &&& self.cell_in_grid(2)
        &&& self.cell_in_grid(3)
    }

    /// The block that the `i`-th cell of the piece leaves behind when it locks.
    pub open spec fn locked_block(self, i: int) -> Block {
        Block { x: self.cell(i).0 as i32, y: self.cell(i).1 as i32, index: self.index }
    }

    /// The four blocks that the piece leaves behind when it locks.
    pub open spec fn locked_blocks(self) -> Seq<Block> {
        seq![
            self.locked_block(0),
            self.locked_block(1),
            self.locked_block(2),
            self.locked_block(3),
        ]
    }

    /// The height at which the piece comes to rest when it falls from where it
    /// stands: the first height, going down cell by cell, below which it is blocked.
    pub open spec fn landing_y(self, blocks: Seq<Block>) -> int
        decreases self.y - i32::MIN,
    {
        if self.y - BLOCK_SIZE < i32::MIN || self.moved(0, -BLOCK_SIZE).blocked(blocks) {
            self.y as int
        } else {
            self.moved(0, -BLOCK_SIZE).landing_y(blocks)
        }
    }

    /// The piece after a turn: turned in place if it can stand there, else moved
    /// by one cell to the right, one to the left, two to the right or two to the
    /// left, whichever comes first in that order and lets it stand; unchanged if
    /// none does. The O piece does not turn.
    pub open spec fn rotated(self, blocks: Seq<Block>) -> ActiveTetris {
        if self.index == O {
            self
        } else if !self.turned(0).blocked(blocks) {
            self.turned(0)
        } else if !self.turned(BLOCK_SIZE as int).blocked(blocks) {
            self.turned(BLOCK_SIZE as int)
        } else if !self.turned(-BLOCK_SIZE).blocked(blocks) {
            self.turned(-BLOCK_SIZE)
        } else if !self.turned(2 * BLOCK_SIZE).blocked(blocks) {
            self.turned(2 * BLOCK_SIZE)
        } else if !self.turned(-2 * BLOCK_SIZE).blocked(blocks) {
            self.turned(-2 * BLOCK_SIZE)
        } else {
            self
        }
    }
}

/// A piece that has a shape and an orientation and is not blocked has all its
/// cells between the walls and above the floor.
pub proof fn lemma_unblocked_in_grid(piece: ActiveTetris, blocks: Seq<Block>)
    requires
        piece.index < SHAPE_COUNT,
        !piece.blocked(blocks),
    ensures
        piece.cell_in_grid(0),
        piece.cell_in_grid(1),
        piece.cell_in_grid(2),
        piece.cell_in_grid(3),
        -13 <= piece.x <= 13,
        -43 <= piece.y,
{
    let cells = shape_cells(piece.index);
    assert(cells.len() == 4);
    assert(!piece_cell_blocked(piece.pose(), cells, blocks, 0));
    assert(!piece_cell_blocked(piece.pose(), cells, blocks, 1));
    assert(!piece_cell_blocked(piece.pose(), cells, blocks, 2));
    assert(!piece_cell_blocked(piece.pose(), cells, blocks, 3));
}

/// Where a piece that is not blocked lands: at a whole number of cells below
/// where it stands, at a height where it can stand and below which it cannot.
pub proof fn lemma_landing(piece: ActiveTetris, blocks: Seq<Block>)
    requires
        piece.index < SHAPE_COUNT,
        !piece.blocked(blocks),
    ensures
        -43 <= piece.landing_y(blocks) <= piece.y,
        (piece.y - piece.landing_y(blocks)) % 2 == 0,
        !piece.moved(0, piece.landing_y(blocks) - piece.y).blocked(blocks),
        piece.moved(0, piece.landing_y(blocks) - piece.y - BLOCK_SIZE).blocked(blocks),
    decreases piece.y - i32::MIN,
{
    lemma_unblocked_in_grid(piece, blocks);
    let lower = piece.moved(0, -BLOCK_SIZE);
    if !lower.blocked(blocks) {
        lemma_landing(lower, blocks);
        assert(lower.moved(0, lower.landing_y(blocks) - lower.y) == piece.moved(
            0,
            piece.landing_y(blocks) - piece.y,
        ));
        assert(lower.moved(0, lower.landing_y(blocks) - lower.y - BLOCK_SIZE) == piece.moved(
            0,
            piece.landing_y(blocks) - piece.y - BLOCK_SIZE,
        ));
    } else {
        assert(piece.moved(0, 0) == piece);
    }
}

/// A piece that is not blocked can stand at every height on its way down to
/// where it lands.
pub proof fn lemma_landing_path(piece: ActiveTetris, blocks: Seq<Block>, cells_down: int)
    requires
        piece.index < SHAPE_COUNT,
        !piece.blocked(blocks),
        0 <= cells_down,
        piece.y - BLOCK_SIZE * cells_down >= piece.landing_y(blocks),
    ensures
        !piece.moved(0, -BLOCK_SIZE * cells_down).blocked(blocks),
    decreases cells_down,
{
    lemma_unblocked_in_grid(piece, blocks);
    if cells_down == 0 {
        assert(piece.moved(0, 0) == piece);
    } else {
        let lower = piece.moved(0, -BLOCK_SIZE);
        lemma_landing_path(lower, blocks, cells_down - 1);
        assert(lower.moved(0, -BLOCK_SIZE * (cells_down - 1)) == piece.moved(
            0,
            -BLOCK_SIZE * cells_down,
        ));
    }
}

/// Whether the piece would be blocked if it stood at the given place and orientation.
fn blocked_at(index: usize, x: i32, y: i32, rotation_index: usize, field: &Field) -> (blocked: bool)
    requires
        index < SHAPE_COUNT,
    ensures
        blocked == (ActiveTetris { index, rotation_index, x, y }).blocked(field@),
{
    let cells = block_positions(index);
    let pose = Pose { x, y, rotation_index };
    is_tetris_colliding(&pose, &cells, field)
}

/// The offsets by which a turn may move a piece sideways, in the order in which
/// they are tried: one cell to the right, one to the left, two to the right, two
/// to the left.
pub open spec fn kick(i: int) -> int {
    if i == 0 {
        BLOCK_SIZE as int
    } else if i == 1 {
        -BLOCK_SIZE
    } else if i == 2 {
        2 * BLOCK_SIZE
    } else {
        -2 * BLOCK_SIZE
    }
}

/// A well-formed piece stands within three half cells of the grid.
pub proof fn lemma_wf_bounds(piece: ActiveTetris)
    requires
        piece.wf(),
    ensures
        -13 <= piece.x <= 13,
        -43 <= piece.y <= -2,
{
}

/// A well-formed piece stays well formed where it is turned, moved sideways by
/// whole cells or moved down by whole cells, if it is not blocked there.
pub proof fn lemma_moved_wf(piece: ActiveTetris, target: ActiveTetris, blocks: Seq<Block>)
    requires
        piece.wf(),
        target.index == piece.index,
        target.rotation_index < 4,
        (target.x - piece.x) % 2 == 0,
        (piece.y - target.y) % 2 == 0,
        target.y <= piece.y,
        !target.blocked(blocks),
    ensures
        target.wf(),
{
    lemma_unblocked_in_grid(target, blocks);
    assert(target.aligned());
}

/// A piece of any shape is well formed where it spawns.
pub proof fn lemma_spawned_wf(index: usize)
    requires
        index < SHAPE_COUNT,
    ensures
        ActiveTetris::spawned(index).wf(),
{
}

/// Turns the active piece by a quarter turn clockwise if the key was pressed.
/// Where the turned piece cannot stand, it is tried one cell to the right, one to
/// the left, two to the right and two to the left, and the first place where it
/// can stand is taken. If there is none, nothing changes.
pub fn rotate(game: &mut Game, pressed: bool)
    requires
        old(game).wf(),
    ensures
        final(game)@ == old(game)@.rotated(pressed),
        final(game).wf(),
{
    if !pressed {
        return;
    }
    let piece = game.active_tetris;
    if piece.index == O {
        return;
    }
    proof {
        lemma_wf_bounds(piece);
    }
    let rotation_index = (piece.rotation_index + 1) % 4;
    let mut x = piece.x;
    let mut can_rotate = false;
    if !blocked_at(piece.index, piece.x, piece.y, rotation_index, &game.field) {
        can_rotate = true;
    } else {
        let tests: [i32; 4] = [1, -1, 2, -2];
        let mut i: usize = 0;
        while i < 4 && !can_rotate
            invariant
                i <= 4,
                piece.wf(),
                piece == old(game).active_tetris,
                game.field@ == old(game).field@,
                rotation_index == (piece.rotation_index + 1) % 4,
                forall|j: int| 0 <= j < 4 ==> #[trigger] tests@[j] * BLOCK_SIZE == kick(j),
                !can_rotate ==> x == piece.x,
                !can_rotate ==> forall|j: int|
                    0 <= j < i ==> piece.turned(#[trigger] kick(j)).blocked(game.field@),
                can_rotate ==> 0 < i && x == piece.x + kick(i - 1) && !piece.turned(
                    kick(i - 1),
                ).blocked(game.field@) && forall|j: int|
                    0 <= j < i - 1 ==> piece.turned(#[trigger] kick(j)).blocked(game.field@),
            decreases 4 - i + if can_rotate { 0int } else { 1int },
        {
            assert(tests@[i as int] * BLOCK_SIZE == kick(i as int));
            let test_x = piece.x + tests[i] * BLOCK_SIZE;
            if !blocked_at(piece.index, test_x, piece.y, rotation_index, &game.field) {
                x = test_x;
                can_rotate = true;
            }
            i += 1;
        }
        proof {
            assert(kick(0) == 2 && kick(1) == -2 && kick(2) == 4 && kick(3) == -4);
        }
    }
    if can_rotate {
        proof {
            let turned = ActiveTetris { rotation_index, x, ..piece };
            assert(turned == piece.turned(x - piece.x));
            lemma_moved_wf(piece, turned, game.field@);
        }
        game.active_tetris.x = x;
        game.active_tetris.rotation_index = rotation_index;
    }
}

/// Moves the active piece sideways as the keys ask and the timers allow. A
/// change of direction starts the wait afresh and moves nothing. Once a direction
/// has been held for the start delay, the repeat timer runs, and the piece moves
/// each time it completes. A move into a wall or a block is not made.
pub fn slide(game: &mut Game, delta: u64, left: bool, right: bool)
    requires
        old(game).wf(),
    ensures
        final(game)@ == old(game)@.slid(delta, left, right),
        final(game).wf(),
{
    game.manager.slide_start_timer.tick(delta);
    if game.manager.slide_start_timer.finished() {
        game.manager.slide_timer.tick(delta);
    }
    let mut direction: i32 = 0;
    if left {
        direction -= 1;
    }
    if right {
        direction += 1;
    }
    if game.manager.slide_dir != direction {
        game.manager.slide_dir = direction;
        game.manager.slide_start_timer.reset();
        game.manager.slide_timer.reset();
        return;
    }
    if !game.manager.slide_timer.finished() {
        return;
    }
    if direction == 0 {
        return;
    }
    let piece = game.active_tetris;
    proof {
        lemma_wf_bounds(piece);
    }
    let x = piece.x + direction * BLOCK_SIZE;
    if blocked_at(piece.index, x, piece.y, piece.rotation_index, &game.field) {
        return;
    }
    proof {
        lemma_moved_wf(piece, ActiveTetris { x, ..piece }, game.field@);
    }
    game.active_tetris.x = x;
}

/// Lets the active piece fall. A hard drop brings it down as far as it can go
/// and calls for it to be locked at once. Otherwise the piece goes one cell lower
/// when the timer that counts completes: the fast one while the soft drop key is
/// down, the fall timer otherwise. A piece that is found resting when that timer
/// completes is given a grace period of one run of the fall timer, and is called
/// to be locked when the fall timer completes again. Both timers keep time on
/// every tick, so that the grace period runs on while the soft drop key is down.
pub fn fall(game: &mut Game, delta: u64, hard_drop: bool, fast_fall: bool)
    requires
        old(game).wf(),
    ensures
        final(game)@ == old(game)@.fallen(delta, hard_drop, fast_fall),
        final(game).wf(),
{
    let piece = game.active_tetris;
    proof {
        lemma_wf_bounds(piece);
    }
    if hard_drop {
        let mut y = piece.y;
        let mut fall_y = piece.y;
        while !blocked_at(piece.index, piece.x, fall_y, piece.rotation_index, &game.field)
            invariant
                piece.wf(),
                piece == old(game).active_tetris,
                game.field@ == old(game).field@,
                -43 <= y <= piece.y,
                (piece.y - y) % 2 == 0,
                fall_y == y || fall_y == y - BLOCK_SIZE,
                fall_y == y ==> y == piece.y,
                fall_y != y ==> !piece.blocked(game.field@),
                fall_y != y ==> !(ActiveTetris { y, ..piece }).blocked(game.field@),
                fall_y != y ==> (ActiveTetris { y, ..piece }).landing_y(game.field@)
                    == piece.landing_y(game.field@),
            decreases fall_y - i32::MIN,
        {
            proof {
                lemma_unblocked_in_grid(ActiveTetris { y: fall_y, ..piece }, game.field@);
                assert((ActiveTetris { y, ..piece }).moved(0, -BLOCK_SIZE) == ActiveTetris {
                    y: (y - BLOCK_SIZE) as i32,
                    ..piece
                });
            }
            y = fall_y;
            fall_y -= BLOCK_SIZE;
        }
        proof {
            assert((ActiveTetris { y, ..piece }).moved(0, -BLOCK_SIZE) == ActiveTetris {
                y: (y - BLOCK_SIZE) as i32,
                ..piece
            });
            if fall_y != y {
                lemma_moved_wf(piece, ActiveTetris { y, ..piece }, game.field@);
            }
        }
        game.active_tetris.y = y;
        game.state = GameState::Place;
        return;
    }
    game.manager.fall_timer.tick(delta);
    game.manager.fast_fall_timer.tick(delta);
    let due = fast_fall && game.manager.fast_fall_timer.finished() || !fast_fall
        && game.manager.fall_timer.finished();
    let fall_y = piece.y - BLOCK_SIZE;
    if blocked_at(piece.index, piece.x, fall_y, piece.rotation_index, &game.field) {
        if !game.manager.hit_floor {
            if due {
                game.manager.hit_floor = true;
                game.manager.fall_timer.reset();
            }
        } else if game.manager.fall_timer.finished() {
            game.state = GameState::Place;
        }
        return;
    }
    game.manager.hit_floor = false;
    if due {
        proof {
            lemma_moved_wf(piece, ActiveTetris { y: fall_y, ..piece }, game.field@);
        }
        game.active_tetris.y = fall_y;
    }
}

/// Handles the hold key. It works once between two locks. On an empty slot the
/// active shape is set aside and the next piece is called for; on a full one the
/// active and the held shape change places and the piece starts again from its
/// spawn position.
pub fn hold(game: &mut Game, pressed: bool)
    requires
        old(game).wf(),
    ensures
        final(game)@ == old(game)@.held(pressed),
        final(game).wf(),
{
    if game.manager.hold || !pressed {
        return;
    }
    if game.hold_tetris.visible {
        let index = game.hold_tetris.index;
        game.hold_tetris.index = game.active_tetris.index;
        let position = get_spawn_position(index);
        proof {
            lemma_spawned_wf(index);
        }
        game.active_tetris = ActiveTetris {
            index,
            rotation_index: 0,
            x: position.x,
            y: position.y,
        };
        game.ghost_tetris.index = index;
    } else {
        game.hold_tetris.visible = true;
        game.hold_tetris.index = game.active_tetris.index;
        game.state = GameState::Advance;
    }
    game.manager.hold = true;
}

/// The blocks that a well-formed piece leaves behind fill cells of the grid.
pub proof fn lemma_locked_blocks_in_grid(piece: ActiveTetris)
    requires
        piece.wf(),
    ensures
        forall|i: int| 0 <= i < 4 ==> block_in_grid(#[trigger] piece.locked_block(i)),
        forall|i: int|
            0 <= i < 4 ==> (#[trigger] piece.locked_block(i)).x == piece.cell(i).0
                && piece.locked_block(i).y == piece.cell(i).1,
{
    assert forall|i: int| 0 <= i < 4 implies block_in_grid(#[trigger] piece.locked_block(i))
        && piece.locked_block(i).x == piece.cell(i).0 && piece.locked_block(i).y == piece.cell(
        i,
    ).1 by {
        lemma_turned_cell(piece.index, piece.rotation_index, i);
        assert(piece.cell_in_grid(i));
    }
}

impl ActiveTetris {
    /// Whether the piece is well formed.
    pub fn is_wf(&self) -> (ok: bool)
        ensures
            ok == self.wf(),
    {
        if self.index >= SHAPE_COUNT || self.rotation_index >= 4 {
            return false;
        }
        let spawn = get_spawn_position(self.index);
        if self.y > spawn.y {
            return false;
        }
        let even = self.x % 2 == 0 && self.y % 2 == 0;
        let odd = self.x % 2 != 0 && self.y % 2 != 0;
        if self.index == I || self.index == O {
            if !even {
                return false;
            }
        } else if !odd {
            return false;
        }
        let cells = block_positions(self.index);
        let pose = Pose { x: self.x, y: self.y, rotation_index: self.rotation_index };
        let mut i: usize = 0;
        while i < 4
            invariant
                i <= 4,
                cells@ == shape_cells(self.index),
                pose == self.pose(),
                forall|j: int| 0 <= j < i ==> #[trigger] self.cell_in_grid(j),
            decreases 4 - i,
        {
            let (x, y) = transform_cell(&pose, cells[i]);
            if x > HALF_WIDTH as i64 || x < -(HALF_WIDTH as i64) || y < -(DEPTH as i64) {
                assert(!self.cell_in_grid(i as int));
                return false;
            }
            i += 1;
        }
        true
    }

    /// The four blocks that the piece fills, and leaves behind when it locks.
    pub fn blocks(&self) -> (blocks: [Block; 4])
        requires
            self.wf(),
        ensures
            blocks@ == self.locked_blocks(),
    {
        proof {
            lemma_locked_blocks_in_grid(*self);
        }
        let cells = block_positions(self.index);
        let pose = Pose { x: self.x, y: self.y, rotation_index: self.rotation_index };
        let first = transform_cell(&pose, cells[0]);
        let second = transform_cell(&pose, cells[1]);
        let third = transform_cell(&pose, cells[2]);
        let fourth = transform_cell(&pose, cells[3]);
        assert(block_in_grid(self.locked_block(0)));
        assert(block_in_grid(self.locked_block(1)));
        assert(block_in_grid(self.locked_block(2)));
        assert(block_in_grid(self.locked_block(3)));
        let blocks = [
            Block { x: first.0 as i32, y: first.1 as i32, index: self.index },
            Block { x: second.0 as i32, y: second.1 as i32, index: self.index },
            Block { x: third.0 as i32, y: third.1 as i32, index: self.index },
            Block { x: fourth.0 as i32, y: fourth.1 as i32, index: self.index },
        ];
        assert(blocks@ =~= self.locked_blocks());
        blocks
    }
}

/// Locks the active piece: its four cells join the locked blocks of the field,
/// and the hold key may be used again.
pub fn place(game: &mut Game)
    requires
        old(game).wf(),
    ensures
        final(game)@ == old(game)@.placed(),
        final(game).wf(),
{
    game.manager.hold = false;
    let blocks = game.active_tetris.blocks();
    proof {
        lemma_locked_blocks_in_grid(game.active_tetris);
    }
    let mut i: usize = 0;
    while i < 4
        invariant
            i <= 4,
            old(game).wf(),
            blocks@ == old(game).active_tetris.locked_blocks(),
            forall|j: int| 0 <= j < 4 ==> block_in_grid(#[trigger] blocks@[j]),
            game.state == old(game).state,
            game.manager == (TetrisManager { hold: false, ..old(game).manager }),
            game.active_tetris == old(game).active_tetris,
            game.ghost_tetris == old(game).ghost_tetris,
            game.next_tetris == old(game).next_tetris,
            game.hold_tetris == old(game).hold_tetris,
            game.field@ == old(game).field@ + blocks@.take(i as int),
            blocks_in_grid(game.field@),
        decreases 4 - i,
    {
        game.field.blocks.push(blocks[i]);
        assert(blocks@.take(i + 1) =~= blocks@.take(i as int).push(blocks@[i as int]));
        assert(game.field@ =~= old(game).field@ + blocks@.take(i + 1));
        i += 1;
    }
    assert(blocks@.take(4) =~= blocks@);
}

/// Brings in the next piece, with `fresh` as the bag to be put behind the next
/// one if the bag in use is used up: the randomizer moves on, the active piece
/// takes the new current shape at its spawn position, the ghost and the preview
/// follow, and the timers, the direction and the grace flag start afresh.
pub fn advance_with(game: &mut Game, fresh: [usize; 7])
    requires
        old(game).wf(),
        is_bag(fresh@),
    ensures
        final(game)@ == old(game)@.advanced(fresh),
        final(game).wf(),
{
    game.manager.advance_with(fresh);
    game.manager.fall_timer.reset();
    game.manager.fast_fall_timer.reset();
    game.manager.slide_timer.reset();
    game.manager.slide_start_timer.reset();
    game.manager.slide_dir = 0;
    game.manager.hit_floor = false;
    let index = game.manager.current_tetris();
    let position = get_spawn_position(index);
    proof {
        lemma_spawned_wf(index);
    }
    game.active_tetris = ActiveTetris { index, rotation_index: 0, x: position.x, y: position.y };
    game.ghost_tetris.index = index;
    game.next_tetris.index = game.manager.next_tetris();
}

/// Brings in the next piece, with a freshly shuffled bag where one is needed.
pub fn advance(game: &mut Game)
    requires
        old(game).wf(),
    ensures
        final(game)@ == old(game)@.advanced(final(game).manager.next_order),
        is_bag(final(game).manager.next_order@),
        final(game).wf(),
{
    let fresh = game.manager.fresh_bag();
    advance_with(game, fresh);
}

/// Checks the piece that was just brought in: if it is blocked where it stands,
/// the game is over; otherwise play goes on.
pub fn check_advanced_block(game: &mut Game)
    requires
        old(game).wf(),
    ensures
        final(game)@ == old(game)@.checked(),
        final(game).wf(),
{
    let piece = game.active_tetris;
    if blocked_at(piece.index, piece.x, piece.y, piece.rotation_index, &game.field) {
        game.state = GameState::GameOver;
    } else {
        game.state = GameState::Play;
    }
}

/// Brings the ghost up to date: hidden while a piece is being brought in, and
/// otherwise shown where the active piece would land.
pub fn update_ghost(game: &mut Game)
    requires
        old(game).wf(),
    ensures
        final(game)@ == old(game)@.ghosted(),
        final(game).wf(),
{
    if game.state == GameState::Advance {
        game.ghost_tetris.visible = false;
        return;
    }
    game.ghost_tetris.visible = true;
    let piece = game.active_tetris;
    proof {
        lemma_wf_bounds(piece);
    }
    let mut y = piece.y;
    while !blocked_at(piece.index, piece.x, y, piece.rotation_index, &game.field)
        invariant
            piece.wf(),
            game.field@ == old(game).field@,
            -45 <= y <= piece.y,
            y != piece.y ==> !piece.blocked(game.field@),
            y != piece.y ==> !piece.moved(0, y + BLOCK_SIZE - piece.y).blocked(game.field@),
            y != piece.y ==> piece.moved(0, y + BLOCK_SIZE - piece.y).landing_y(game.field@)
                == piece.landing_y(game.field@),
        decreases y - i32::MIN,
    {
        proof {
            let here = ActiveTetris { y, ..piece };
            lemma_unblocked_in_grid(here, game.field@);
            assert(piece.moved(0, y - piece.y) == here);
            assert(here.moved(0, -BLOCK_SIZE) == piece.moved(0, y - BLOCK_SIZE - piece.y));
            if y != piece.y {
                assert(piece.moved(0, y + BLOCK_SIZE - piece.y).moved(0, -BLOCK_SIZE) == here);
            }
        }
        y -= BLOCK_SIZE;
    }
    proof {
        if y != piece.y {
            assert(piece.moved(0, y + BLOCK_SIZE - piece.y).moved(0, -BLOCK_SIZE)
                == ActiveTetris { y, ..piece });
        }
    }
    game.ghost_tetris.rotation_index = piece.rotation_index;
    game.ghost_tetris.x = piece.x;
    game.ghost_tetris.y = y + BLOCK_SIZE;
}

/// The state at the start of a game: an empty field, the first piece of the
/// manager's bag at its spawn position, the piece after it in the preview, and
/// nothing set aside.
pub fn setup(manager: TetrisManager) -> (game: Game)
    requires
        manager.wf(),
    ensures
        game@ == GameView::initial(manager),
        game.wf(),
{
    let index = manager.current_tetris();
    let position = get_spawn_position(index);
    proof {
        lemma_spawned_wf(index);
    }
    Game {
        state: GameState::Play,
        manager,
        field: Field::new(),
        active_tetris: ActiveTetris { index, rotation_index: 0, x: position.x, y: position.y },
        ghost_tetris: GhostTetris { index, rotation_index: 0, x: 0, y: 0, visible: true },
        next_tetris: NextTetris { index: manager.next_tetris() },
        hold_tetris: HoldTetris { index: 0, visible: false },
    }
}

/// The counter holds, for every row, the number of the given blocks in it; rows
/// without blocks have no entry.
spec fn counts_rows(row_counter: Map<i32, usize>, blocks: Seq<Block>) -> bool {
    forall|y: i32|
        #![trigger row_counter.contains_key(y)]
        #![trigger row_count(blocks, y as int)]
        if row_counter.contains_key(y) {
            row_counter[y] == row_count(blocks, y as int)
        } else {
            row_count(blocks, y as int) == 0
        }
}

/// Counts the blocks of each row.
fn count_rows(field: &Field) -> (row_counter: HashMap<i32, usize>)
    ensures
        counts_rows(row_counter@, field@),
{
    broadcast use vstd::std_specs::hash::group_hash_axioms;

    let mut row_counter: HashMap<i32, usize> = HashMap::with_capacity(GRID_HEIGHT as usize);
    let mut i: usize = 0;
    assert(field@.take(0) =~= Seq::<Block>::empty());
    assert forall|y: int| row_count(Seq::<Block>::empty(), y) == 0 by {
        Seq::<Block>::empty().lemma_filter_len(in_row(y));
    }
    while i < field.blocks.len()
        invariant
            i <= field.blocks.len(),
            counts_rows(row_counter@, field@.take(i as int)),
        decreases field.blocks.len() - i,
    {
        let y = field.blocks[i].y;
        let counter = match row_counter.get(&y) {
            Some(counter) => *counter,
            None => 0,
        };
        proof {
            let before = field@.take(i as int);
            assert(field@.take(i + 1) =~= before.push(field@[i as int]));
            before.lemma_filter_len(in_row(y as int));
            assert forall|row: int|
                row_count(field@.take(i + 1), row) == row_count(before, row) + if row == y {
                    1int
                } else {
                    0int
                } by {
                before.lemma_filter_len_push(in_row(row), field@[i as int]);
            }
        }
        row_counter.insert(y, counter + 1);
        i += 1;
    }
    assert(field@.take(field@.len() as int) =~= field@);
    row_counter
}

/// Number of full rows below height `y`, from the counter of the field's rows.
fn count_full_rows_below(row_counter: &HashMap<i32, usize>, y: i32, Ghost(blocks): Ghost<
    Seq<Block>,
>) -> (rows: i32)
    requires
        counts_rows(row_counter@, blocks),
        BOTTOM_ROW <= y <= TOP_ROW + BLOCK_SIZE,
        (y - BOTTOM_ROW) % 2 == 0,
    ensures
        rows == full_rows_below(blocks, y as int),
        BLOCK_SIZE * rows <= y - BOTTOM_ROW,
{
    broadcast use vstd::std_specs::hash::group_hash_axioms;

    let mut rows: i32 = 0;
    let mut row: i32 = BOTTOM_ROW;
    while row < y
        invariant
            counts_rows(row_counter@, blocks),
            BOTTOM_ROW <= row <= y <= TOP_ROW + BLOCK_SIZE,
            (y - BOTTOM_ROW) % 2 == 0,
            (row - BOTTOM_ROW) % 2 == 0,
            rows == full_rows_below(blocks, row as int),
            BLOCK_SIZE * rows <= row - BOTTOM_ROW,
        decreases y - row,
    {
        let full = match row_counter.get(&row) {
            Some(counter) => *counter >= GRID_WIDTH as usize,
            None => false,
        };
        assert(full == row_full(blocks, row as int));
        if full {
            rows += 1;
        }
        row += BLOCK_SIZE;
    }
    rows
}

/// Clears the full rows after a lock and calls for the next piece: the blocks of
/// every row that holds as many blocks as the grid is wide are removed, and every
/// other block comes down by one cell for each full row that was below it.
/// Returns the number of rows cleared.
pub fn clear_block(game: &mut Game) -> (rows: usize)
    requires
        old(game).wf(),
    ensures
        final(game)@ == old(game)@.cleared(),
        rows == full_row_count(old(game).field@),
        final(game).wf(),
{
    broadcast use vstd::std_specs::hash::group_hash_axioms;

    let row_counter = count_rows(&game.field);
    let ghost blocks = game.field@;
    let mut kept: Vec<Block> = Vec::with_capacity(game.field.blocks.len());
    let mut i: usize = 0;
    assert(blocks.take(0) =~= Seq::<Block>::empty());
    assert(Seq::<Block>::empty().filter(survives(blocks)) =~= Seq::<Block>::empty()) by {
        Seq::<Block>::empty().lemma_filter_len(survives(blocks));
    }
    while i < game.field.blocks.len()
        invariant
            i <= game.field.blocks.len(),
            game.field@ == blocks,
            blocks_in_grid(blocks),
            counts_rows(row_counter@, blocks),
            kept@ == blocks.take(i as int).filter(survives(blocks)).map_values(settled(blocks)),
            blocks_in_grid(kept@),
        decreases game.field.blocks.len() - i,
    {
        let block = game.field.blocks[i];
        let full = match row_counter.get(&block.y) {
            Some(counter) => *counter >= GRID_WIDTH as usize,
            None => false,
        };
        proof {
            let before = blocks.take(i as int);
            assert(blocks.take(i + 1) =~= before.push(block));
            before.lemma_filter_push(block, survives(blocks));
            assert(full == row_full(blocks, block.y as int));
            assert(block_in_grid(blocks[i as int]));
            lemma_settled_in_grid(blocks, block);
        }
        if !full {
            let below = count_full_rows_below(&row_counter, block.y, Ghost(blocks));
            let settled_block = Block { y: block.y - BLOCK_SIZE * below, ..block };
            assert(settled_block == settled(blocks)(block));
            kept.push(settled_block);
            assert(kept@ =~= blocks.take(i + 1).filter(survives(blocks)).map_values(
                settled(blocks),
            ));
        }
        i += 1;
    }
    assert(blocks.take(blocks.len() as int) =~= blocks);
    let rows = count_full_rows_below(&row_counter, TOP_ROW + BLOCK_SIZE, Ghost(blocks));
    game.field.blocks = kept;
    game.state = GameState::Advance;
    rows as usize
}

} // verus!
