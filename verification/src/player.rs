//! The camera and the fixed-point coordinates it lives in.

use vstd::prelude::*;
use crate::maze::{cell, grid_of, in_grid, Maze, Tile};
use crate::trig::{cosine, normalized, quarter, wave, TrigTable, ONE};

verus! {

/// A point of the world. Each coordinate counts `1 / ONE` of a world unit.
#[derive(Clone, Copy, Debug, PartialEq, Eq, Structural)]
pub struct Vector2 {
    pub x: i64,
    pub y: i64,
}

impl Vector2 {
    pub fn new(x: i64, y: i64) -> (v: Vector2)
        ensures
            v == (Vector2 { x, y }),
    {
        Vector2 { x, y }
    }

    /// The point at the whole world units `(x, y)`.
    pub fn from_units(x: i32, y: i32) -> (v: Vector2)
        ensures
            v.x == x * ONE,
            v.y == y * ONE,
    {
        Vector2 { x: (x as i64) * ONE, y: (y as i64) * ONE }
    }
}

/// The whole world unit that the fixed-point coordinate `v` falls in.
pub open spec fn whole(v: int) -> int {
    v / (ONE as int)
}

/// The camera: where it stands, where it looks and how wide it sees.
/// Angles count steps of the trig table in use.
#[derive(Clone, Copy, Debug, PartialEq, Eq, Structural)]
pub struct Player {
    pub pos: Vector2,
    pub a: i64,
    pub fov: i64,
}

/// The index along one axis of the cell that the fixed-point coordinate
/// `pos` falls in. A coordinate before the grid counts as on its first
/// world unit.
pub open spec fn grid_index(pos: int, block_size: int) -> int {
    (if whole(pos) < 0 {
        0
    } else {
        whole(pos)
    }) / block_size
}

/// The index along one axis of the cell that the fixed-point coordinate
/// `pos` falls in.
pub fn grid_cell(pos: i64, block_size: usize) -> (index: u64)
    requires
        block_size > 0,
    ensures
        index == grid_index(pos as int, block_size as int),
        index <= 0x8000_0000_0000,
{
    let w: i64 = match pos.checked_div_euclid(ONE) {
        Some(v) => v,
        None => 0,
    };
    let unit: u128 = if w < 0 { 0 } else { w as u128 };
    proof {
        assert(0 <= (unit as int) / (block_size as int) <= unit) by (nonlinear_arith)
            requires
                0 <= unit,
                block_size > 0,
        ;
    }
    (unit / block_size as u128) as u64
}

/// How far the camera moves in one step, in world units.
pub const MOVE_SPEED: i64 = 8;

/// The part of a quarter turn that the camera turns in one step.
pub const ROTATION_DIVISOR: i64 = 20;

/// What the player asks for in one frame: a turn by `turn` angle steps
/// from the pointer, and the keys held.
#[derive(Clone, Copy, Debug, PartialEq, Eq, Structural)]
pub struct Controls {
    pub turn: i64,
    pub left: bool,
    pub right: bool,
    pub forward: bool,
    pub back: bool,
}

/// An angle moved once by a full turn toward zero when it lies more than
/// `half` a turn from it, and left as it is when it does not.
pub open spec fn adjusted(a: int, half: int) -> int {
    if a > half {
        a - 2 * half
    } else if a < -half {
        a + 2 * half
    } else {
        a
    }
}

/// The facing after the turns that `input` asks for: the sum of the old
/// facing and the turns, adjusted once by a full turn. Only a sum that
/// would then still lie beyond the angles there are is brought all the
/// way within half a turn of zero.
pub open spec fn turned(table: Seq<i64>, a: int, input: Controls) -> int {
    let step = quarter(table) / (ROTATION_DIVISOR as int);
    let sum = a + input.turn - (if input.left { step } else { 0 }) + (if input.right {
        step
    } else {
        0
    });
    let once = adjusted(sum, 2 * quarter(table));
    if i64::MIN <= once <= i64::MAX {
        once
    } else {
        normalized(sum, 2 * quarter(table))
    }
}

/// How far along one axis the camera goes in a step, where `scaled` is the
/// cosine or the sine of its facing.
pub open spec fn stride(scaled: int, input: Controls) -> int {
    (if input.forward { MOVE_SPEED * scaled } else { 0 }) - (if input.back {
        MOVE_SPEED * scaled
    } else {
        0
    })
}

/// Whether the camera may stand at the fixed-point position `(x, y)`: in
/// a cell of the grid that is open floor or the goal.
pub open spec fn can_enter(grid: Seq<Seq<char>>, block_size: int, x: int, y: int) -> bool {
    let i = grid_index(x, block_size);
    let j = grid_index(y, block_size);
    &&& i64::MIN <= x <= i64::MAX
    &&& i64::MIN <= y <= i64::MAX
    &&& in_grid(grid, i, j)
    &&& (grid[j][i] == ' ' || grid[j][i] == 'g')
}

/// Applies one frame of input to the camera. It turns first, then steps
/// along its new facing; the step is taken only into a cell that the
/// camera may enter. Tells whether the camera moved.
pub fn process_events(
    input: &Controls,
    player: &mut Player,
    maze: &Maze,
    block_size: usize,
    trig: &TrigTable,
) -> (moved: bool)
    requires
        block_size > 0,
    ensures
        final(player).a == turned(trig@, old(player).a as int, *input),
        final(player).fov == old(player).fov,
        moved == ((input.forward || input.back) && can_enter(
            grid_of(maze),
            block_size as int,
            old(player).pos.x + stride(cosine(trig@, final(player).a as int), *input),
            old(player).pos.y + stride(wave(trig@, final(player).a as int), *input),
        )),
        moved ==> final(player).pos.x == old(player).pos.x + stride(
            cosine(trig@, final(player).a as int),
            *input,
        ) && final(player).pos.y == old(player).pos.y + stride(
            wave(trig@, final(player).a as int),
            *input,
        ),
        !moved ==> final(player).pos == old(player).pos,
{
    let step: i128 = (trig.quarter_turn() / ROTATION_DIVISOR) as i128;
    let mut a: i128 = player.a as i128 + input.turn as i128;
    if input.left {
        a = a - step;
    }
    if input.right {
        a = a + step;
    }
    let half: i128 = 2 * (trig.quarter_turn() as i128);
    let once: i128 = if a > half {
        a - 2 * half
    } else if a < -half {
        a + 2 * half
    } else {
        a
    };
    player.a = if i64::MIN as i128 <= once && once <= i64::MAX as i128 {
        once as i64
    } else {
        trig.normalize(a)
    };
    if !(input.forward || input.back) {
        return false;
    }
    let cos = trig.cos(player.a);
    let sin = trig.sin(player.a);
    let mut next_x: i128 = player.pos.x as i128;
    let mut next_y: i128 = player.pos.y as i128;
    if input.forward {
        next_x = next_x + (MOVE_SPEED * cos) as i128;
        next_y = next_y + (MOVE_SPEED * sin) as i128;
    }
    if input.back {
        next_x = next_x - (MOVE_SPEED * cos) as i128;
        next_y = next_y - (MOVE_SPEED * sin) as i128;
    }
    if next_x < i64::MIN as i128 || next_x > i64::MAX as i128 || next_y < i64::MIN as i128 || next_y
        > i64::MAX as i128 {
        return false;
    }
    let grid_x = grid_cell(next_x as i64, block_size);
    let grid_y = grid_cell(next_y as i64, block_size);
    match cell(maze, grid_x, grid_y) {
        Some(symbol) => match Tile::from_symbol(symbol) {
            Tile::Empty | Tile::Goal => {
                player.pos = Vector2 { x: next_x as i64, y: next_y as i64 };
                true
            },
            Tile::Wall(_) | Tile::KeySpawn => false,
        },
        None => false,
    }
}

} // verus!
