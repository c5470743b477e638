//! The seven tetrominoes: their cells, their spawn positions and how they turn.
//!
//! Every position in this crate is an integer number of half cells, so that the
//! centre of a cell and the origin of every piece fall on whole numbers. The
//! playing field has its origin at the middle of its top edge, with `y` growing
//! upwards: cell centres lie at odd coordinates, from -9 to 9 across and from -1
//! down to -39.

use vstd::prelude::*;

verus! {

/// The shapes, by the numbers under which the randomizer deals them.
pub const I: usize = 0;
pub const O: usize = 1;
pub const T: usize = 2;
pub const S: usize = 3;
pub const Z: usize = 4;
pub const J: usize = 5;
pub const L: usize = 6;

/// Number of distinct shapes.
pub const SHAPE_COUNT: usize = 7;

/// Side of one cell, in half cells.
pub const BLOCK_SIZE: i32 = 2;

/// A position or an offset, in half cells.
#[derive(Clone, Copy, Debug, PartialEq, Eq, Structural)]
pub struct Point {
    pub x: i32,
    pub y: i32,
}

/// Where a piece stands: the position of its origin and the number of quarter
/// turns clockwise that it has made since it spawned.
#[derive(Clone, Copy, Debug, PartialEq, Eq, Structural)]
pub struct Pose {
    pub x: i32,
    pub y: i32,
    pub rotation_index: usize,
}

/// The point with the given coordinates.
pub open spec fn point(x: int, y: int) -> Point {
    Point { x: x as i32, y: y as i32 }
}

/// The `i`-th of four points.
pub open spec fn one_of(a: Point, b: Point, c: Point, d: Point, i: int) -> Point {
    if i == 0 {
        a
    } else if i == 1 {
        b
    } else if i == 2 {
        c
    } else {
        d
    }
}

/// The `i`-th cell of a shape in its spawn orientation, relative to its origin.
pub open spec fn shape_cell(index: usize, i: int) -> Point {
    if index == I {
        one_of(point(-3, 1), point(-1, 1), point(1, 1), point(3, 1), i)
    } else if index == O {
        one_of(point(-1, 1), point(1, 1), point(1, -1), point(-1, -1), i)
    } else if index == T {
        one_of(point(0, 2), point(0, 0), point(-2, 0), point(2, 0), i)
    } else if index == S {
        one_of(point(2, 2), point(0, 2), point(0, 0), point(-2, 0), i)
    } else if index == Z {
        one_of(point(-2, 2), point(0, 2), point(0, 0), point(2, 0), i)
    } else if index == J {
        one_of(point(-2, 2), point(-2, 0), point(0, 0), point(2, 0), i)
    } else {
        one_of(point(-2, 0), point(0, 0), point(2, 0), point(2, 2), i)
    }
}

/// The four cells of a shape in its spawn orientation, relative to its origin.
pub open spec fn shape_cells(index: usize) -> Seq<Point> {
    Seq::new(4, |i: int| shape_cell(index, i))
}

/// Where the origin of a freshly spawned piece lies: the I and O pieces, whose
/// cells sit around their origin, spawn half a cell higher and further right than
/// the others, whose origin is the centre of a cell.
pub open spec fn spawn_position(index: usize) -> Point {
    if index == I || index == O {
        point(0, -2)
    } else {
        point(-1, -3)
    }
}

/// The offset `p` after `turns` quarter turns clockwise about the origin.
pub open spec fn turned(p: Point, turns: usize) -> (int, int) {
    if turns % 4 == 0 {
        (p.x as int, p.y as int)
    } else if turns % 4 == 1 {
        (p.y as int, -p.x)
    } else if turns % 4 == 2 {
        (-p.x, -p.y)
    } else {
        (-p.y, p.x as int)
    }
}

/// However a shape is turned, each of its cells lies within a cell and a half of
/// its origin: the cells of the I and O pieces at odd offsets, those of the others
/// at even ones.
pub proof fn lemma_turned_cell(index: usize, turns: usize, i: int)
    requires
        index < SHAPE_COUNT,
        0 <= i < 4,
    ensures
        -3 <= turned(shape_cell(index, i), turns).0 <= 3,
        -3 <= turned(shape_cell(index, i), turns).1 <= 3,
        index == I || index == O ==> turned(shape_cell(index, i), turns).0 % 2 != 0 && turned(
            shape_cell(index, i),
            turns,
        ).1 % 2 != 0,
        index != I && index != O ==> turned(shape_cell(index, i), turns).0 % 2 == 0 && turned(
            shape_cell(index, i),
            turns,
        ).1 % 2 == 0,
{
}

/// Where a cell of a piece lies in the field: its offset, turned as the pose says
/// and moved to the pose's origin.
pub open spec fn transform_point(pose: Pose, cell: Point) -> (int, int) {
    let t = turned(cell, pose.rotation_index);
    (pose.x + t.0, pose.y + t.1)
}

/// Where a cell of a piece lies in the field when the piece stands as `pose` says.
pub fn transform_cell(pose: &Pose, cell: Point) -> (p: (i64, i64))
    ensures
        (p.0 as int, p.1 as int) == transform_point(*pose, cell),
{
    let turns = pose.rotation_index % 4;
    let (dx, dy) = if turns == 0 {
        (cell.x as i64, cell.y as i64)
    } else if turns == 1 {
        (cell.y as i64, -(cell.x as i64))
    } else if turns == 2 {
        (-(cell.x as i64), -(cell.y as i64))
    } else {
        (-(cell.y as i64), cell.x as i64)
    };
    (pose.x as i64 + dx, pose.y as i64 + dy)
}

/// The four cells of a shape in its spawn orientation.
pub fn block_positions(index: usize) -> (cells: [Point; 4])
    requires
        index < SHAPE_COUNT,
    ensures
        cells@ == shape_cells(index),
{
    let cells = if index == I {
        [
            Point { x: -3, y: 1 },
            Point { x: -1, y: 1 },
            Point { x: 1, y: 1 },
            Point { x: 3, y: 1 },
        ]
    } else if index == O {
        [
            Point { x: -1, y: 1 },
            Point { x: 1, y: 1 },
            Point { x: 1, y: -1 },
            Point { x: -1, y: -1 },
        ]
    } else if index == T {
        [
            Point { x: 0, y: 2 },
            Point { x: 0, y: 0 },
            Point { x: -2, y: 0 },
            Point { x: 2, y: 0 },
        ]
    } else if index == S {
        [
            Point { x: 2, y: 2 },
            Point { x: 0, y: 2 },
            Point { x: 0, y: 0 },
            Point { x: -2, y: 0 },
        ]
    } else if index == Z {
        [
            Point { x: -2, y: 2 },
            Point { x: 0, y: 2 },
            Point { x: 0, y: 0 },
            Point { x: 2, y: 0 },
        ]
    } else if index == J {
        [
            Point { x: -2, y: 2 },
            Point { x: -2, y: 0 },
            Point { x: 0, y: 0 },
            Point { x: 2, y: 0 },
        ]
    } else {
        [
            Point { x: -2, y: 0 },
            Point { x: 0, y: 0 },
            Point { x: 2, y: 0 },
            Point { x: 2, y: 2 },
        ]
    };
    assert(cells@ =~= shape_cells(index));
    cells
}

/// Where the origin of a freshly spawned piece of the given shape lies.
pub fn get_spawn_position(tetris_index: usize) -> (p: Point)
    ensures
        p == spawn_position(tetris_index),
{
    if tetris_index == I || tetris_index == O {
        Point { x: 0, y: -2 }
    } else {
        Point { x: -1, y: -3 }
    }
}

} // verus!
