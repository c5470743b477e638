//! The playing field: its locked blocks and the collision test against them.

use crate::shape::{transform_cell, transform_point, Point, Pose, BLOCK_SIZE, SHAPE_COUNT};
use vstd::prelude::*;

verus! {

/// Number of columns of the grid.
pub const GRID_WIDTH: u32 = 10;

/// Number of rows of the grid.
pub const GRID_HEIGHT: u32 = 20;

/// Distance from the field's middle to its side walls, in half cells.
pub const HALF_WIDTH: i32 = 10;

/// Distance from the field's top edge to its floor, in half cells.
pub const DEPTH: i32 = 40;

/// Centre of the highest row that a locked block can occupy: a piece turned at its
/// spawn position may reach one row above the field's top edge.
pub const TOP_ROW: i32 = 1;

/// Centre of the lowest row of the grid.
pub const BOTTOM_ROW: i32 = -39;

/// A locked block: the centre of the cell it fills and the shape it came from.
#[derive(Clone, Copy, Debug, PartialEq, Eq, Structural)]
pub struct Block {
    pub x: i32,
    pub y: i32,
    pub index: usize,
}

/// The score of the game in progress and the best score so far.
#[derive(Clone, Copy, Debug, PartialEq, Eq, Structural)]
pub struct Score {
    pub best_score: u64,
    pub current_score: u64,
}

impl Score {
    /// A score sheet for a new game, with the best score so far.
    pub fn new(best_score: u64) -> (score: Score)
        ensures
            score == (Score { best_score, current_score: 0 }),
    {
        Score { best_score, current_score: 0 }
    }
}

/// The locked blocks of the playing field.
#[derive(Clone, Debug)]
pub struct Field {
    pub blocks: Vec<Block>,
}

impl View for Field {
    type V = Seq<Block>;

    open spec fn view(&self) -> Seq<Block> {
        self.blocks@
    }
}

/// The point lies beyond a side wall or below the floor. The field has no ceiling.
pub open spec fn out_of_grid(x: int, y: int) -> bool {
    x > HALF_WIDTH || x < -HALF_WIDTH || y < -DEPTH
}

/// The point lies within half a cell of the block's centre on both axes.
pub open spec fn touches(x: int, y: int, block: Block) -> bool {
    -1 <= x - block.x <= 1 && -1 <= y - block.y <= 1
}

/// The point is out of the grid or touches one of the blocks.
pub open spec fn cell_blocked(x: int, y: int, blocks: Seq<Block>) -> bool {
    out_of_grid(x, y) || exists|i: int| 0 <= i < blocks.len() && #[trigger] touches(x, y, blocks[i])
}

/// The `i`-th cell of a piece with the given cells, standing as `pose` says, is blocked.
pub open spec fn piece_cell_blocked(
    pose: Pose,
    cells: Seq<Point>,
    blocks: Seq<Block>,
    i: int,
) -> bool {
    cell_blocked(transform_point(pose, cells[i]).0, transform_point(pose, cells[i]).1, blocks)
}

/// Some cell of the piece, standing as `pose` says, is blocked.
pub open spec fn piece_blocked(pose: Pose, cells: Seq<Point>, blocks: Seq<Block>) -> bool {
    exists|i: int| 0 <= i < cells.len() && #[trigger] piece_cell_blocked(pose, cells, blocks, i)
}

/// A piece with a cell out of the grid is blocked.
pub proof fn lemma_out_of_grid_blocks(pose: Pose, cells: Seq<Point>, blocks: Seq<Block>, i: int)
    requires
        0 <= i < cells.len(),
        out_of_grid(transform_point(pose, cells[i]).0, transform_point(pose, cells[i]).1),
    ensures
        piece_blocked(pose, cells, blocks),
{
    assert(piece_cell_blocked(pose, cells, blocks, i));
}

/// A piece with a cell on a locked block is blocked.
pub proof fn lemma_overlap_blocks(
    pose: Pose,
    cells: Seq<Point>,
    blocks: Seq<Block>,
    i: int,
    j: int,
)
    requires
        0 <= i < cells.len(),
        0 <= j < blocks.len(),
        touches(transform_point(pose, cells[i]).0, transform_point(pose, cells[i]).1, blocks[j]),
    ensures
        piece_blocked(pose, cells, blocks),
{
    assert(piece_cell_blocked(pose, cells, blocks, i));
}

/// A piece is free, and only then, if all its cells are within the grid and none
/// is on a locked block.
pub proof fn lemma_free_piece(pose: Pose, cells: Seq<Point>, blocks: Seq<Block>)
    ensures
        !piece_blocked(pose, cells, blocks) <==> forall|i: int|
            0 <= i < cells.len() ==> !out_of_grid(
                (#[trigger] transform_point(pose, cells[i])).0,
                transform_point(pose, cells[i]).1,
            ) && forall|j: int|
                0 <= j < blocks.len() ==> !#[trigger] touches(
                    transform_point(pose, cells[i]).0,
                    transform_point(pose, cells[i]).1,
                    blocks[j],
                ),
{
    if !piece_blocked(pose, cells, blocks) {
        assert forall|i: int| 0 <= i < cells.len() implies !out_of_grid(
            (#[trigger] transform_point(pose, cells[i])).0,
            transform_point(pose, cells[i]).1,
        ) && forall|j: int|
            0 <= j < blocks.len() ==> !#[trigger] touches(
                transform_point(pose, cells[i]).0,
                transform_point(pose, cells[i]).1,
                blocks[j],
            ) by {
            assert(!piece_cell_blocked(pose, cells, blocks, i));
        }
    }
}

/// The two blocks fill the same cell.
pub open spec fn same_cell(a: Block, b: Block) -> bool {
    a.x == b.x && a.y == b.y
}

/// The block fills a cell of the grid, or of the row above it.
pub open spec fn block_in_grid(block: Block) -> bool {
    &&& -HALF_WIDTH < block.x < HALF_WIDTH
    &&& BOTTOM_ROW <= block.y <= TOP_ROW
    &&& block.x % 2 != 0
    &&& block.y % 2 != 0
    &&& block.index < SHAPE_COUNT
}

/// Every block fills a cell of the grid.
pub open spec fn blocks_in_grid(blocks: Seq<Block>) -> bool {
    forall|i: int| 0 <= i < blocks.len() ==> block_in_grid(#[trigger] blocks[i])
}

/// No two blocks fill the same cell.
pub open spec fn blocks_distinct(blocks: Seq<Block>) -> bool {
    forall|i: int, j: int|
        0 <= i < j < blocks.len() ==> !same_cell(#[trigger] blocks[i], #[trigger] blocks[j])
}

/// The blocks of the row whose cells have their centres at height `y`.
pub open spec fn in_row(y: int) -> spec_fn(Block) -> bool {
    |block: Block| block.y == y
}

/// Number of blocks in the row at height `y`.
pub open spec fn row_count(blocks: Seq<Block>, y: int) -> nat {
    blocks.filter(in_row(y)).len()
}

/// The row at height `y` holds at least as many blocks as the grid is wide.
pub open spec fn row_full(blocks: Seq<Block>, y: int) -> bool {
    row_count(blocks, y) >= GRID_WIDTH
}

/// Number of full rows of the grid strictly below height `y`, for `y` the height
/// of a row.
pub open spec fn full_rows_below(blocks: Seq<Block>, y: int) -> nat
    decreases y - BOTTOM_ROW,
{
    if y - BLOCK_SIZE < BOTTOM_ROW {
        0
    } else {
        full_rows_below(blocks, y - BLOCK_SIZE) + if row_full(blocks, y - BLOCK_SIZE) {
            1nat
        } else {
            0nat
        }
    }
}

/// Number of full rows.
pub open spec fn full_row_count(blocks: Seq<Block>) -> nat {
    full_rows_below(blocks, TOP_ROW + BLOCK_SIZE)
}

/// The blocks that a line clear leaves: those whose row is not full.
pub open spec fn survives(blocks: Seq<Block>) -> spec_fn(Block) -> bool {
    |block: Block| !row_full(blocks, block.y as int)
}

/// Where a line clear leaves a block: one cell lower for each full row below it.
pub open spec fn settled(blocks: Seq<Block>) -> spec_fn(Block) -> Block {
    |block: Block|
        Block {
            y: (block.y - BLOCK_SIZE * full_rows_below(blocks, block.y as int)) as i32,
            ..block
        }
}

/// The blocks after a line clear: the blocks of full rows are gone, and every
/// other block has come down by one cell for each full row that was below it.
pub open spec fn cleared_blocks(blocks: Seq<Block>) -> Seq<Block> {
    blocks.filter(survives(blocks)).map_values(settled(blocks))
}

/// Below a row of the grid there are at most as many full rows as there are rows.
pub proof fn lemma_full_rows_below_bound(blocks: Seq<Block>, y: int)
    requires
        BOTTOM_ROW <= y,
        (y - BOTTOM_ROW) % 2 == 0,
    ensures
        BLOCK_SIZE * full_rows_below(blocks, y) <= y - BOTTOM_ROW,
    decreases y - BOTTOM_ROW,
{
    if y > BOTTOM_ROW {
        lemma_full_rows_below_bound(blocks, y - BLOCK_SIZE);
    }
}

/// Between a row that is not full and a row above it, fewer rows are full than
/// there are rows from the one to the other.
pub proof fn lemma_full_rows_between(blocks: Seq<Block>, low: int, high: int)
    requires
        BOTTOM_ROW <= low < high,
        (low - BOTTOM_ROW) % 2 == 0,
        (high - low) % 2 == 0,
        !row_full(blocks, low),
    ensures
        full_rows_below(blocks, low) <= full_rows_below(blocks, high),
        BLOCK_SIZE * (full_rows_below(blocks, high) - full_rows_below(blocks, low)) <= high - low
            - BLOCK_SIZE,
    decreases high - low,
{
    if high - BLOCK_SIZE > low {
        lemma_full_rows_between(blocks, low, high - BLOCK_SIZE);
    }
}

/// A line clear keeps apart what it leaves: two blocks of rows that are not full
/// which fill different cells come down to different cells.
pub proof fn lemma_settled_apart(blocks: Seq<Block>, a: Block, b: Block)
    requires
        block_in_grid(a),
        block_in_grid(b),
        !row_full(blocks, a.y as int),
        !row_full(blocks, b.y as int),
        !same_cell(a, b),
    ensures
        !same_cell(settled(blocks)(a), settled(blocks)(b)),
{
    lemma_full_rows_below_bound(blocks, a.y as int);
    lemma_full_rows_below_bound(blocks, b.y as int);
    if a.y < b.y {
        lemma_full_rows_between(blocks, a.y as int, b.y as int);
    } else if b.y < a.y {
        lemma_full_rows_between(blocks, b.y as int, a.y as int);
    }
}

/// Where exactly two rows are full, a line clear brings down by two cells what is
/// above both, by one cell what is between them, and leaves alone what is below.
pub proof fn lemma_two_full_rows(blocks: Seq<Block>, low: int, high: int, y: int)
    requires
        BOTTOM_ROW <= low < high,
        (low - BOTTOM_ROW) % 2 == 0,
        (high - low) % 2 == 0,
        BOTTOM_ROW <= y,
        (y - BOTTOM_ROW) % 2 == 0,
        forall|row: int| row_full(blocks, row) <==> row == low || row == high,
    ensures
        full_rows_below(blocks, y) == if y > high {
            2nat
        } else if y > low {
            1nat
        } else {
            0nat
        },
    decreases y - BOTTOM_ROW,
{
    if y - BLOCK_SIZE >= BOTTOM_ROW {
        lemma_two_full_rows(blocks, low, high, y - BLOCK_SIZE);
    }
}

/// A line clear leaves every block in a cell of the grid.
pub proof fn lemma_settled_in_grid(blocks: Seq<Block>, block: Block)
    requires
        block_in_grid(block),
    ensures
        block_in_grid(settled(blocks)(block)),
{
    lemma_full_rows_below_bound(blocks, block.y as int);
}

impl Field {
    /// Every block fills a cell of the grid.
    pub open spec fn wf(&self) -> bool {
        blocks_in_grid(self@)
    }

    /// Whether every block fills a cell of the grid.
    pub fn is_wf(&self) -> (ok: bool)
        ensures
            ok == self.wf(),
    {
        let mut i: usize = 0;
        while i < self.blocks.len()
            invariant
                i <= self.blocks.len(),
                forall|j: int| 0 <= j < i ==> block_in_grid(#[trigger] self@[j]),
            decreases self.blocks.len() - i,
        {
            let block = self.blocks[i];
            if !(-HALF_WIDTH < block.x && block.x < HALF_WIDTH && BOTTOM_ROW <= block.y && block.y
                <= TOP_ROW && block.x % 2 != 0 && block.y % 2 != 0 && block.index < SHAPE_COUNT) {
                assert(!block_in_grid(self@[i as int]));
                return false;
            }
            i += 1;
        }
        true
    }

    /// An empty field.
    pub fn new() -> (field: Field)
        ensures
            field@ == Seq::<Block>::empty(),
            field.wf(),
    {
        Field { blocks: Vec::new() }
    }
}

fn is_colliding_at(x: i64, y: i64, field: &Field) -> (blocked: bool)
    requires
        -0x1_0000_0000 <= x <= 0x1_0000_0000,
        -0x1_0000_0000 <= y <= 0x1_0000_0000,
    ensures
        blocked == cell_blocked(x as int, y as int, field@),
{
    if x > HALF_WIDTH as i64 || x < -(HALF_WIDTH as i64) || y < -(DEPTH as i64) {
        return true;
    }
    let mut i: usize = 0;
    while i < field.blocks.len()
        invariant
            i <= field.blocks.len(),
            -0x1_0000_0000 <= x <= 0x1_0000_0000,
            -0x1_0000_0000 <= y <= 0x1_0000_0000,
            forall|j: int| 0 <= j < i ==> !#[trigger] touches(x as int, y as int, field@[j]),
        decreases field.blocks.len() - i,
    {
        let block = field.blocks[i];
        let x_diff = x - block.x as i64;
        let y_diff = y - block.y as i64;
        if -1 <= x_diff && x_diff <= 1 && -1 <= y_diff && y_diff <= 1 {
            assert(touches(x as int, y as int, field@[i as int]));
            return true;
        }
        i += 1;
    }
    false
}

/// Whether a point of the field is taken: it lies beyond a wall or below the
/// floor, or within half a cell of a locked block on both axes.
pub fn is_colliding(point: Point, field: &Field) -> (blocked: bool)
    ensures
        blocked == cell_blocked(point.x as int, point.y as int, field@),
{
    is_colliding_at(point.x as i64, point.y as i64, field)
}

/// Whether a piece with the given cells would be blocked if it stood as
/// `transform` says: whether any of its cells, turned and moved, is taken.
pub fn is_tetris_colliding(transform: &Pose, cells: &[Point; 4], field: &Field) -> (blocked: bool)
    ensures
        blocked == piece_blocked(*transform, cells@, field@),
{
    let mut i: usize = 0;
    while i < 4
        invariant
            i <= 4,
            forall|j: int|
                0 <= j < i ==> !#[trigger] piece_cell_blocked(*transform, cells@, field@, j),
        decreases 4 - i,
    {
        let (x, y) = transform_cell(transform, cells[i]);
        if is_colliding_at(x, y, field) {
            assert(piece_cell_blocked(*transform, cells@, field@, i as int));
            return true;
        }
        i += 1;
    }
    false
}

} // verus!
