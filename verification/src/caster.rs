//! The ray marcher: from a camera and an angle to the first cell that
//! stops the ray.

use vstd::prelude::*;
use crate::color::Color;
use crate::framebuffer::Framebuffer;
use crate::maze::{grid_of, in_grid, Maze};
use crate::player::Player;
use crate::trig::{cosine, wave, TrigTable, ONE};

verus! {

/// How far the ray advances per step, in world units.
pub const RAY_STEP: i64 = 1;

/// The most steps a ray takes before it is given up as hitting nothing.
pub const MAX_RAY_STEPS: i64 = 4096;

/// The distance given for a ray that hit nothing within range.
pub const MAX_RAY_DISTANCE: i64 = 4096;

/// The width and height of every texture, in texels.
pub const TEXTURE_SIZE: usize = 128;

/// What a ray ran into.
#[derive(Clone, Copy, Debug, PartialEq, Eq, Structural)]
pub struct Intersect {
    /// The distance travelled along the ray, in world units.
    pub distance: i64,
    /// The symbol of the cell that stopped the ray; a space when the ray
    /// left the grid or went out of range.
    pub impact: char,
    /// The texture column at the point of impact.
    pub tx: usize,
}

/// A ray: its origin in fixed-point coordinates and its direction as a
/// cosine and a sine scaled by `ONE`.
pub struct Ray {
    pub x: int,
    pub y: int,
    pub cos: int,
    pub sin: int,
}

impl Ray {
    /// The world unit that the ray is in after `k` steps.
    pub open spec fn at(self, k: int) -> (int, int) {
        (
            (self.x + k * RAY_STEP * self.cos) / (ONE as int),
            (self.y + k * RAY_STEP * self.sin) / (ONE as int),
        )
    }
}

/// The ray that leaves the camera at `angle_offset` from its facing.
pub open spec fn ray_of(table: Seq<i64>, player: Player, angle_offset: int) -> Ray {
    Ray {
        x: player.pos.x as int,
        y: player.pos.y as int,
        cos: cosine(table, player.a + angle_offset),
        sin: wave(table, player.a + angle_offset),
    }
}

/// Whether the world unit `(wx, wy)` stops a ray: it lies outside the grid
/// or in a cell that is not open floor.
pub open spec fn blocked(grid: Seq<Seq<char>>, block_size: int, wx: int, wy: int) -> bool {
    wx < 0 || wy < 0 || !in_grid(grid, wx / block_size, wy / block_size) || grid[wy
        / block_size][wx / block_size] != ' '
}

/// The first step from `k` on at which the ray is stopped, or
/// `MAX_RAY_STEPS` when it is not stopped within range.
pub open spec fn first_blocked(grid: Seq<Seq<char>>, block_size: int, ray: Ray, k: int) -> int
    decreases MAX_RAY_STEPS - k,
{
    if k >= MAX_RAY_STEPS {
        MAX_RAY_STEPS as int
    } else if blocked(grid, block_size, ray.at(k).0, ray.at(k).1) {
        k
    } else {
        first_blocked(grid, block_size, ray, k + 1)
    }
}

/// How close the offset `h` within a cell is to the nearer edge of the cell.
pub open spec fn edge_distance(h: int, block_size: int) -> int {
    if h < block_size - 1 - h {
        h
    } else {
        block_size - 1 - h
    }
}

/// The texture column for a hit at offset `(hit_x, hit_y)` within a cell.
/// The coordinate nearer to an edge of the cell tells which face was hit;
/// the other one runs along that face and is scaled to the texture width.
/// When both are equally near, `hit_y` runs along the face.
pub open spec fn texture_u(hit_x: int, hit_y: int, block_size: int) -> int {
    let along = if edge_distance(hit_x, block_size) <= edge_distance(hit_y, block_size) {
        hit_y
    } else {
        hit_x
    };
    along * TEXTURE_SIZE / block_size
}

/// What the ray runs into: the first sample, one per step, that is
/// outside the grid or in a cell that is not open floor.
pub open spec fn ray_hit(grid: Seq<Seq<char>>, block_size: int, ray: Ray) -> Intersect {
    let k = first_blocked(grid, block_size, ray, 0);
    let (wx, wy) = ray.at(k);
    if k >= MAX_RAY_STEPS {
        Intersect { distance: MAX_RAY_DISTANCE, impact: ' ', tx: 0 }
    } else if wx < 0 || wy < 0 || !in_grid(grid, wx / block_size, wy / block_size) {
        Intersect { distance: (k * RAY_STEP) as i64, impact: ' ', tx: 0 }
    } else {
        Intersect {
            distance: (k * RAY_STEP) as i64,
            impact: grid[wy / block_size][wx / block_size],
            tx: texture_u(wx % block_size, wy % block_size, block_size) as usize,
        }
    }
}

/// The texture column for a hit at offset `(hit_x, hit_y)` within a cell.
pub fn texture_column(hit_x: usize, hit_y: usize, block_size: usize) -> (tx: usize)
    requires
        hit_x < block_size,
        hit_y < block_size,
    ensures
        tx == texture_u(hit_x as int, hit_y as int, block_size as int),
        tx < TEXTURE_SIZE,
{
    let ex = if hit_x < block_size - 1 - hit_x { hit_x } else { block_size - 1 - hit_x };
    let ey = if hit_y < block_size - 1 - hit_y { hit_y } else { block_size - 1 - hit_y };
    let along = if ex <= ey { hit_y } else { hit_x };
    let scaled: u128 = (along as u128) * (TEXTURE_SIZE as u128) / (block_size as u128);
    proof {
        assert(along * TEXTURE_SIZE / (block_size as int) < TEXTURE_SIZE) by (nonlinear_arith)
            requires
                0 <= along < block_size,
                TEXTURE_SIZE == 128,
        ;
    }
    scaled as usize
}

/// Marches a ray from the camera at `angle_offset` from its facing and
/// reports what it runs into.
pub fn cast(
    maze: &Maze,
    player: &Player,
    angle_offset: i64,
    block_size: usize,
    trig: &TrigTable,
) -> (hit: Intersect)
    requires
        block_size > 0,
    ensures
        hit == ray_hit(
            grid_of(maze),
            block_size as int,
            ray_of(trig@, *player, angle_offset as int),
        ),
        0 <= hit.distance <= MAX_RAY_DISTANCE,
        hit.tx < TEXTURE_SIZE,
{
    let a = trig.turn(player.a, angle_offset);
    let cos = trig.cos(a);
    let sin = trig.sin(a);
    let ghost grid = grid_of(maze);
    let ghost ray = ray_of(trig@, *player, angle_offset as int);
    let bs: i128 = block_size as i128;
    let mut k: i64 = 0;
    while k < MAX_RAY_STEPS
        invariant
            0 <= k <= MAX_RAY_STEPS,
            block_size > 0,
            bs == block_size,
            grid == grid_of(maze),
            ray == ray_of(trig@, *player, angle_offset as int),
            ray.x == player.pos.x,
            ray.y == player.pos.y,
            ray.cos == cos,
            ray.sin == sin,
            -ONE <= cos <= ONE,
            -ONE <= sin <= ONE,
            first_blocked(grid, block_size as int, ray, 0) == first_blocked(
                grid,
                block_size as int,
                ray,
                k as int,
            ),
        decreases MAX_RAY_STEPS - k,
    {
        let d: i64 = k * RAY_STEP;
        proof {
            assert(-0x1000_0000 <= d * cos <= 0x1000_0000) by (nonlinear_arith)
                requires
                    0 <= d <= 4096,
                    -65536 <= cos <= 65536,
            ;
            assert(-0x1000_0000 <= d * sin <= 0x1000_0000) by (nonlinear_arith)
                requires
                    0 <= d <= 4096,
                    -65536 <= sin <= 65536,
            ;
        }
        let fx: i128 = player.pos.x as i128 + (d as i128) * (cos as i128);
        let fy: i128 = player.pos.y as i128 + (d as i128) * (sin as i128);
        proof {
            assert(ray.at(k as int) == ((fx as int) / (ONE as int), (fy as int) / (ONE as int)));
        }
        if fx < 0 || fy < 0 {
            return Intersect { distance: d, impact: ' ', tx: 0 };
        }
        let wx: i128 = fx / (ONE as i128);
        let wy: i128 = fy / (ONE as i128);
        let i: i128 = wx / bs;
        let j: i128 = wy / bs;
        proof {
            assert(0 <= wx / bs <= wx) by (nonlinear_arith)
                requires
                    0 <= wx,
                    0 < bs,
            ;
            assert(0 <= wy / bs <= wy) by (nonlinear_arith)
                requires
                    0 <= wy,
                    0 < bs,
            ;
        }
        if j >= maze.len() as i128 {
            return Intersect { distance: d, impact: ' ', tx: 0 };
        }
        let row = &maze[j as usize];
        if i >= row.len() as i128 {
            return Intersect { distance: d, impact: ' ', tx: 0 };
        }
        let c = row[i as usize];
        if c != ' ' {
            proof {
                vstd::arithmetic::div_mod::lemma_mod_bound(wx as int, bs as int);
                vstd::arithmetic::div_mod::lemma_mod_bound(wy as int, bs as int);
            }
            let hit_x = (wx % bs) as usize;
            let hit_y = (wy % bs) as usize;
            let tx = texture_column(hit_x, hit_y, block_size);
            return Intersect { distance: d, impact: c, tx };
        }
        k = k + 1;
    }
    Intersect { distance: MAX_RAY_DISTANCE, impact: ' ', tx: 0 }
}

/// Where a world coordinate falls on a surface that shows the grid from
/// `origin` on with `cell` pixels to the cell.
pub open spec fn on_screen(origin: int, cell: int, block_size: int, w: int) -> int {
    origin + w * cell / block_size
}

/// The pixels under the first `steps` samples of a ray, on a surface that
/// shows the grid from `(origin_x, origin_y)` on with `cell` pixels to the cell.
pub open spec fn trace_points(
    ray: Ray,
    steps: int,
    origin_x: int,
    origin_y: int,
    cell: int,
    block_size: int,
) -> Seq<(int, int)> {
    Seq::new(
        (if steps > 0 { steps } else { 0 }) as nat,
        |k: int|
            (
                on_screen(origin_x, cell, block_size, ray.at(k).0),
                on_screen(origin_y, cell, block_size, ray.at(k).1),
            ),
    )
}

/// The world units under the first `steps` samples of a ray.
pub open spec fn ray_trace(ray: Ray, steps: int) -> Seq<(int, int)> {
    Seq::new((if steps > 0 { steps } else { 0 }) as nat, |k: int| ray.at(k))
}

/// Drawn at one pixel to the world unit from the corner of the surface, a
/// trace is the run of the ray's samples themselves.
pub proof fn lemma_trace_unscaled(ray: Ray, steps: int, block_size: int)
    requires
        block_size > 0,
    ensures
        trace_points(ray, steps, 0, 0, block_size, block_size) == ray_trace(ray, steps),
{
    assert forall|w: int| on_screen(0, block_size, block_size, w) == w by {
        vstd::arithmetic::div_mod::lemma_div_multiples_vanish(w, block_size);
    }
    assert(trace_points(ray, steps, 0, 0, block_size, block_size) =~= ray_trace(ray, steps));
}

/// Marks in off-white the first `steps` samples of the ray that leaves the
/// camera at `angle_offset` from its facing, on a surface that shows the
/// grid from `(origin_x, origin_y)` on with `cell` pixels to the cell.
pub fn trace_ray(
    framebuffer: &mut Framebuffer,
    player: &Player,
    angle_offset: i64,
    steps: i64,
    trig: &TrigTable,
    origin_x: i32,
    origin_y: i32,
    cell: usize,
    block_size: usize,
)
    requires
        block_size > 0,
        steps <= MAX_RAY_STEPS,
    ensures
        final(framebuffer)@ == old(framebuffer)@.with_brush(Color::white_smoke()).plot_seq(
            trace_points(
                ray_of(trig@, *player, angle_offset as int),
                steps as int,
                origin_x as int,
                origin_y as int,
                cell as int,
                block_size as int,
            ),
        ),
{
    let a = trig.turn(player.a, angle_offset);
    let cos = trig.cos(a);
    let sin = trig.sin(a);
    let ghost ray = ray_of(trig@, *player, angle_offset as int);
    let ghost points = trace_points(
        ray,
        steps as int,
        origin_x as int,
        origin_y as int,
        cell as int,
        block_size as int,
    );
    framebuffer.set_current_color(Color::white_smoke());
    let ghost start = framebuffer@;
    proof {
        assert(points.take(0) =~= Seq::<(int, int)>::empty());
    }
    let mut k: i64 = 0;
    while k < steps
        invariant
            0 <= k,
            0 < steps ==> k <= steps,
            steps <= 0 ==> k == 0,
            steps <= MAX_RAY_STEPS,
            block_size > 0,
            ray == ray_of(trig@, *player, angle_offset as int),
            ray.cos == cos,
            ray.sin == sin,
            -ONE <= cos <= ONE,
            -ONE <= sin <= ONE,
            points == trace_points(
                ray,
                steps as int,
                origin_x as int,
                origin_y as int,
                cell as int,
                block_size as int,
            ),
            framebuffer@ == start.plot_seq(points.take(k as int)),
        decreases steps - k,
    {
        proof {
            assert(-0x1000_0000 <= k * RAY_STEP * cos <= 0x1000_0000) by (nonlinear_arith)
                requires
                    0 <= k <= 4096,
                    RAY_STEP == 1,
                    -0x1_0000 <= cos <= 0x1_0000,
            ;
            assert(-0x1000_0000 <= k * RAY_STEP * sin <= 0x1000_0000) by (nonlinear_arith)
                requires
                    0 <= k <= 4096,
                    RAY_STEP == 1,
                    -0x1_0000 <= sin <= 0x1_0000,
            ;
        }
        let fx: i128 = player.pos.x as i128 + (k as i128) * (RAY_STEP as i128) * (cos as i128);
        let fy: i128 = player.pos.y as i128 + (k as i128) * (RAY_STEP as i128) * (sin as i128);
        let wx: i128 = match fx.checked_div_euclid(ONE as i128) {
            Some(v) => v,
            None => 0,
        };
        let wy: i128 = match fy.checked_div_euclid(ONE as i128) {
            Some(v) => v,
            None => 0,
        };
        proof {
            assert(ray.at(k as int) == (wx as int, wy as int));
            assert(-0x1_0000_0000_0000 * 0x1_0000_0000_0000_0000 <= wx * cell <= 0x1_0000_0000_0000
                * 0x1_0000_0000_0000_0000) by (nonlinear_arith)
                requires
                    -0x1_0000_0000_0000 <= wx <= 0x1_0000_0000_0000,
                    0 <= cell <= 0x1_0000_0000_0000_0000,
            ;
            assert(-0x1_0000_0000_0000 * 0x1_0000_0000_0000_0000 <= wy * cell <= 0x1_0000_0000_0000
                * 0x1_0000_0000_0000_0000) by (nonlinear_arith)
                requires
                    -0x1_0000_0000_0000 <= wy <= 0x1_0000_0000_0000,
                    0 <= cell <= 0x1_0000_0000_0000_0000,
            ;
            assert(-0x1_0000_0000_0000 * 0x1_0000_0000_0000_0000 <= (wx * cell) / (block_size as int)
                <= 0x1_0000_0000_0000 * 0x1_0000_0000_0000_0000) by (nonlinear_arith)
                requires
                    -0x1_0000_0000_0000 * 0x1_0000_0000_0000_0000 <= wx * cell <= 0x1_0000_0000_0000
                        * 0x1_0000_0000_0000_0000,
                    block_size > 0,
            ;
            assert(-0x1_0000_0000_0000 * 0x1_0000_0000_0000_0000 <= (wy * cell) / (block_size as int)
                <= 0x1_0000_0000_0000 * 0x1_0000_0000_0000_0000) by (nonlinear_arith)
                requires
                    -0x1_0000_0000_0000 * 0x1_0000_0000_0000_0000 <= wy * cell <= 0x1_0000_0000_0000
                        * 0x1_0000_0000_0000_0000,
                    block_size > 0,
            ;
        }
        let sx: i128 = origin_x as i128 + match (wx * (cell as i128)).checked_div_euclid(
            block_size as i128,
        ) {
            Some(v) => v,
            None => 0,
        };
        let sy: i128 = origin_y as i128 + match (wy * (cell as i128)).checked_div_euclid(
            block_size as i128,
        ) {
            Some(v) => v,
            None => 0,
        };
        proof {
            assert(points[k as int] == (sx as int, sy as int));
            assert(points.take(k + 1) =~= points.take(k as int).push((sx as int, sy as int)));
            start.lemma_plot_seq_push(points.take(k as int), sx as int, sy as int);
        }
        framebuffer.plot_at(sx, sy);
        k = k + 1;
    }
    proof {
        assert(points.take(points.len() as int) =~= points);
    }
}

/// Marches a ray from the camera at `angle_offset` from its facing and
/// reports what it runs into. With `draw_line` set, the world units that
/// the ray crossed before it was stopped are marked on the surface, one
/// pixel to the world unit.
pub fn cast_ray(
    framebuffer: &mut Framebuffer,
    maze: &Maze,
    player: &Player,
    angle_offset: i64,
    block_size: usize,
    draw_line: bool,
    trig: &TrigTable,
) -> (hit: Intersect)
    requires
        block_size > 0,
    ensures
        hit == ray_hit(
            grid_of(maze),
            block_size as int,
            ray_of(trig@, *player, angle_offset as int),
        ),
        0 <= hit.distance <= MAX_RAY_DISTANCE,
        hit.tx < TEXTURE_SIZE,
        final(framebuffer)@ == (if draw_line {
            old(framebuffer)@.with_brush(Color::white_smoke()).plot_seq(
                ray_trace(
                    ray_of(trig@, *player, angle_offset as int),
                    first_blocked(
                        grid_of(maze),
                        block_size as int,
                        ray_of(trig@, *player, angle_offset as int),
                        0,
                    ),
                ),
            )
        } else {
            old(framebuffer)@
        }),
{
    let hit = cast(maze, player, angle_offset, block_size, trig);
    if draw_line {
        proof {
            lemma_trace_unscaled(
                ray_of(trig@, *player, angle_offset as int),
                hit.distance as int,
                block_size as int,
            );
            lemma_first_blocked_bounds(
                grid_of(maze),
                block_size as int,
                ray_of(trig@, *player, angle_offset as int),
                0,
            );
        }
        trace_ray(
            framebuffer,
            player,
            angle_offset,
            hit.distance / RAY_STEP,
            trig,
            0,
            0,
            block_size,
            block_size,
        );
    }
    hit
}

/// The ray is stopped at a step between where the search starts and the
/// end of the range; no sample before that step stops it, and within range
/// the sample at that step does.
pub proof fn lemma_first_blocked_bounds(
    grid: Seq<Seq<char>>,
    block_size: int,
    ray: Ray,
    k: int,
)
    requires
        0 <= k <= MAX_RAY_STEPS,
    ensures
        k <= first_blocked(grid, block_size, ray, k) <= MAX_RAY_STEPS,
        forall|m: int|
            k <= m < first_blocked(grid, block_size, ray, k) ==> !#[trigger] blocked(
                grid,
                block_size,
                ray.at(m).0,
                ray.at(m).1,
            ),
        first_blocked(grid, block_size, ray, k) < MAX_RAY_STEPS ==> blocked(
            grid,
            block_size,
            ray.at(first_blocked(grid, block_size, ray, k)).0,
            ray.at(first_blocked(grid, block_size, ray, k)).1,
        ),
    decreases MAX_RAY_STEPS - k,
{
    if k < MAX_RAY_STEPS && !blocked(grid, block_size, ray.at(k).0, ray.at(k).1) {
        lemma_first_blocked_bounds(grid, block_size, ray, k + 1);
    }
}

} // verus!
