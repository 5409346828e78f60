use vstd::prelude::*;
use crate::constants::{
    COLS, FIELD_LIMIT, GRID_BOTTOM, GRID_LEFT, GRID_ORIGIN_X, GRID_ORIGIN_Y, ROWS, TILE_SIZE,
};

verus! {

/// A point of the play field, in sub-pixels; x grows to the right, y upwards.
#[derive(Clone, Copy, Debug, PartialEq, Eq, Structural)]
pub struct Position {
    pub x: i64,
    pub y: i64,
}

/// A cell of the grid: `x` is the column, `y` the row.
#[derive(Clone, Copy, Debug, PartialEq, Eq, Structural)]
pub struct GridCell {
    pub x: i32,
    pub y: i32,
}

pub open spec fn in_field(p: Position) -> bool {
    -FIELD_LIMIT <= p.x <= FIELD_LIMIT && -FIELD_LIMIT <= p.y <= FIELD_LIMIT
}

/// Squared euclidean distance.
pub open spec fn dist2(a: Position, b: Position) -> int {
    (a.x - b.x) * (a.x - b.x) + (a.y - b.y) * (a.y - b.y)
}

pub open spec fn closer_than(a: Position, b: Position, radius: i64) -> bool {
    dist2(a, b) < radius * radius
}

pub open spec fn not_farther_than(a: Position, b: Position, radius: i64) -> bool {
    dist2(a, b) <= radius * radius
}

impl GridCell {
    pub open spec fn in_bounds(self) -> bool {
        0 <= self.x < COLS && 0 <= self.y < ROWS
    }
}

pub open spec fn row_center_y(row: int) -> int {
    GRID_ORIGIN_Y + row * TILE_SIZE
}

/// The centre of a cell in world coordinates.
pub open spec fn cell_center(c: GridCell) -> Position {
    Position {
        x: (GRID_ORIGIN_X + c.x * TILE_SIZE) as i64,
        y: row_center_y(c.y as int) as i64,
    }
}

/// The cell under a world point, if the point lies on the grid.
pub open spec fn cell_at(wx: int, wy: int) -> Option<GridCell> {
    let dx = wx - GRID_LEFT;
    let dy = wy - GRID_BOTTOM;
    if 0 <= dx < COLS * TILE_SIZE && 0 <= dy < ROWS * TILE_SIZE {
        Some(GridCell { x: (dx / (TILE_SIZE as int)) as i32, y: (dy / (TILE_SIZE as int)) as i32 })
    } else {
        None
    }
}

/// Squares of differences of field coordinates fit comfortably in an `i64`.
pub proof fn lemma_square_bound(d: int)
    requires
        -2 * FIELD_LIMIT <= d <= 2 * FIELD_LIMIT,
    ensures
        0 <= d * d <= 4 * FIELD_LIMIT * FIELD_LIMIT,
{
    assert(0 <= d * d <= 4 * FIELD_LIMIT * FIELD_LIMIT) by (nonlinear_arith)
        requires
            -2 * FIELD_LIMIT <= d <= 2 * FIELD_LIMIT,
            FIELD_LIMIT == 1000000,
    ;
}

/// Squared distance between two points of the field.
pub fn distance_squared(a: Position, b: Position) -> (r: i64)
    requires
        in_field(a),
        in_field(b),
    ensures
        r == dist2(a, b),
        r >= 0,
{
    let dx = a.x - b.x;
    let dy = a.y - b.y;
    proof {
        lemma_square_bound(dx as int);
        lemma_square_bound(dy as int);
    }
    dx * dx + dy * dy
}

/// Whether two points are strictly closer than `radius`.
pub fn is_closer_than(a: Position, b: Position, radius: i64) -> (r: bool)
    requires
        in_field(a),
        in_field(b),
        0 <= radius <= FIELD_LIMIT,
    ensures
        r == closer_than(a, b, radius),
{
    proof {
        lemma_square_bound(radius as int);
    }
    distance_squared(a, b) < radius * radius
}

/// Whether two points are at most `radius` apart.
pub fn is_within(a: Position, b: Position, radius: i64) -> (r: bool)
    requires
        in_field(a),
        in_field(b),
        0 <= radius <= FIELD_LIMIT,
    ensures
        r == not_farther_than(a, b, radius),
{
    proof {
        lemma_square_bound(radius as int);
    }
    distance_squared(a, b) <= radius * radius
}

/// The y coordinate of a row's centre.
pub fn row_center(row: i32) -> (r: i64)
    requires
        0 <= row < ROWS,
    ensures
        r == row_center_y(row as int),
{
    GRID_ORIGIN_Y + row as i64 * TILE_SIZE
}

/// The centre of a cell in world coordinates.
pub fn cell_center_of(c: GridCell) -> (r: Position)
    requires
        c.in_bounds(),
    ensures
        r == cell_center(c),
        in_field(r),
{
    Position { x: GRID_ORIGIN_X + c.x as i64 * TILE_SIZE, y: row_center(c.y) }
}

/// Inverse grid mapping: the cell under a world point, or `None` off the grid.
pub fn world_to_cell(wx: i64, wy: i64) -> (r: Option<GridCell>)
    ensures
        r == cell_at(wx as int, wy as int),
        r matches Some(c) ==> c.in_bounds(),
{
    if wx < GRID_LEFT || wy < GRID_BOTTOM {
        return None;
    }
    if wx >= GRID_LEFT + COLS as i64 * TILE_SIZE || wy >= GRID_BOTTOM + ROWS as i64 * TILE_SIZE {
        return None;
    }
    let dx = wx - GRID_LEFT;
    let dy = wy - GRID_BOTTOM;
    Some(GridCell { x: (dx / TILE_SIZE) as i32, y: (dy / TILE_SIZE) as i32 })
}

} // verus!
