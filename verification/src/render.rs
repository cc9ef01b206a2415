//! The first-person view: one textured wall stripe per screen column.

use vstd::prelude::*;
use crate::canvas::Canvas;
use crate::caster::{cast, ray_hit, ray_of, Intersect, TEXTURE_SIZE};
use crate::color::Color;
use crate::framebuffer::Framebuffer;
use crate::maze::{grid_of, Maze, Tile};
use crate::player::Player;
use crate::textures::{sample, TextureData, TextureManager};
use crate::trig::{cosine, TrigTable, ONE};

verus! {

/// The height of a wall stripe at distance 1, as a multiple of half the
/// screen height.
pub const WALL_SCALE: i64 = 100;

/// The angle of the ray for column `i` of `n`, measured from the facing:
/// the columns sweep the field of view from its left edge.
pub open spec fn column_offset(fov: int, i: int, n: int) -> int {
    fov * i / n - fov / 2
}

/// The distance to a hit measured along the facing rather than along the
/// ray, in fixed point: the ray's length times the cosine of its offset,
/// and never less than the smallest positive distance.
pub open spec fn corrected_distance(distance: int, cos: int) -> int {
    if distance * cos < 1 {
        1
    } else {
        distance * cos
    }
}

/// The height in pixels of the wall stripe at the corrected distance `cd`
/// on a screen `height` pixels high.
pub open spec fn stake_height(height: int, cd: int) -> int {
    height * WALL_SCALE * ONE / (2 * cd)
}

/// The first row of a stripe `stake` pixels high that is centered on the
/// horizon, clipped to the screen.
pub open spec fn stake_top(height: int, stake: int) -> int {
    if stake >= height {
        0
    } else {
        (height - stake) / 2
    }
}

/// The row after the last of a stripe `stake` pixels high that is centered
/// on the horizon, clipped to the screen.
pub open spec fn stake_bottom(height: int, stake: int) -> int {
    if stake >= height {
        height
    } else {
        (height + stake) / 2
    }
}

/// The texture row for screen row `y` of a stripe over `[top, bottom)`.
pub open spec fn texture_v(y: int, top: int, bottom: int) -> int {
    (y - top) * TEXTURE_SIZE / (bottom - top)
}

/// Whether a hit on `impact` is drawn as a wall stripe: not where the ray
/// hit nothing, and not on the goal, which is drawn as a sprite.
pub open spec fn draws_wall(impact: char) -> bool {
    match Tile::from_symbol(impact) {
        Tile::Empty => false,
        Tile::Goal => false,
        Tile::Wall(_) => true,
        Tile::KeySpawn => true,
    }
}

/// The first row of the stripe that `hit` gives on a screen `height` pixels
/// high, for a ray whose offset from the facing has cosine `cos`.
pub open spec fn stripe_top(height: int, hit: Intersect, cos: int) -> int {
    stake_top(height, stake_height(height, corrected_distance(hit.distance as int, cos)))
}

/// The row after the last of that stripe.
pub open spec fn stripe_bottom(height: int, hit: Intersect, cos: int) -> int {
    stake_bottom(height, stake_height(height, corrected_distance(hit.distance as int, cos)))
}

/// The color of row `y` of the stripe that `hit` gives.
pub open spec fn stripe_color(
    height: int,
    hit: Intersect,
    cos: int,
    textures: Seq<TextureData>,
    y: int,
) -> Color {
    sample(
        textures,
        hit.impact,
        hit.tx as int,
        texture_v(y, stripe_top(height, hit, cos), stripe_bottom(height, hit, cos)),
    )
}

/// The surface after the stripe for `hit` is drawn in `column`: the rows of
/// the stripe hold their texels, and the draw color is that of its last row.
pub open spec fn column_canvas(
    c: Canvas,
    column: int,
    hit: Intersect,
    cos: int,
    textures: Seq<TextureData>,
) -> Canvas {
    let top = stripe_top(c.height, hit, cos);
    let bottom = stripe_bottom(c.height, hit, cos);
    if !draws_wall(hit.impact) || bottom <= top {
        c
    } else {
        Canvas {
            pixels: Map::new(
                |p: (int, int)| c.pixels.dom().contains(p),
                |p: (int, int)|
                    if p.0 == column && top <= p.1 < bottom {
                        stripe_color(c.height, hit, cos, textures, p.1)
                    } else {
                        c.pixels[p]
                    },
            ),
            brush: stripe_color(c.height, hit, cos, textures, bottom - 1),
            ..c
        }
    }
}

/// The surface after the first `n` of `rays` columns are drawn.
pub open spec fn first_person(
    c: Canvas,
    grid: Seq<Seq<char>>,
    block_size: int,
    player: Player,
    textures: Seq<TextureData>,
    table: Seq<i64>,
    rays: int,
    n: int,
) -> Canvas
    decreases n,
{
    if n <= 0 {
        c
    } else {
        let offset = column_offset(player.fov as int, n - 1, rays);
        column_canvas(
            first_person(c, grid, block_size, player, textures, table, rays, n - 1),
            n - 1,
            ray_hit(grid, block_size, ray_of(table, player, offset)),
            cosine(table, offset),
            textures,
        )
    }
}

/// What the ray for column `x` of `rays` runs into.
pub open spec fn column_hit(
    grid: Seq<Seq<char>>,
    block_size: int,
    player: Player,
    table: Seq<i64>,
    rays: int,
    x: int,
) -> Intersect {
    ray_hit(grid, block_size, ray_of(table, player, column_offset(player.fov as int, x, rays)))
}

/// The color that the first-person view gives the pixel `(x, y)` of a
/// screen `height` pixels high, or `None` where it draws nothing: each
/// column shows the stripe of the wall that its own ray runs into.
pub open spec fn wall_pixel(
    height: int,
    grid: Seq<Seq<char>>,
    block_size: int,
    player: Player,
    textures: Seq<TextureData>,
    table: Seq<i64>,
    rays: int,
    x: int,
    y: int,
) -> Option<Color> {
    let hit = column_hit(grid, block_size, player, table, rays, x);
    let cos = cosine(table, column_offset(player.fov as int, x, rays));
    if draws_wall(hit.impact) && stripe_top(height, hit, cos) <= y < stripe_bottom(
        height,
        hit,
        cos,
    ) {
        Some(stripe_color(height, hit, cos, textures, y))
    } else {
        None
    }
}

/// After the first `n` columns are drawn the surface has its size and
/// background, each pixel in those columns that a stripe covers holds the
/// stripe's texel, and every other pixel is as it was.
pub proof fn lemma_first_person_pixels(
    c: Canvas,
    grid: Seq<Seq<char>>,
    block_size: int,
    player: Player,
    textures: Seq<TextureData>,
    table: Seq<i64>,
    rays: int,
    n: int,
)
    requires
        c.wf(),
    ensures
        first_person(c, grid, block_size, player, textures, table, rays, n).wf(),
        first_person(c, grid, block_size, player, textures, table, rays, n).width == c.width,
        first_person(c, grid, block_size, player, textures, table, rays, n).height == c.height,
        first_person(c, grid, block_size, player, textures, table, rays, n).background
            == c.background,
        forall|p: (int, int)|
            c.contains(p.0, p.1) ==> #[trigger] first_person(
                c,
                grid,
                block_size,
                player,
                textures,
                table,
                rays,
                n,
            ).pixels[p] == (match wall_pixel(
                c.height,
                grid,
                block_size,
                player,
                textures,
                table,
                rays,
                p.0,
                p.1,
            ) {
                Some(color) if 0 <= p.0 < n => color,
                _ => c.pixels[p],
            }),
    decreases n,
{
    if n > 0 {
        lemma_first_person_pixels(c, grid, block_size, player, textures, table, rays, n - 1);
    }
}

/// The draw color after the first `n` columns are drawn on a surface
/// `height` pixels high whose draw color was `brush`: the texel of the
/// last row of the last stripe drawn, or `brush` when none was.
pub open spec fn first_person_brush(
    brush: Color,
    height: int,
    grid: Seq<Seq<char>>,
    block_size: int,
    player: Player,
    textures: Seq<TextureData>,
    table: Seq<i64>,
    rays: int,
    n: int,
) -> Color
    decreases n,
{
    if n <= 0 {
        brush
    } else {
        let hit = column_hit(grid, block_size, player, table, rays, n - 1);
        let cos = cosine(table, column_offset(player.fov as int, n - 1, rays));
        if draws_wall(hit.impact) && stripe_top(height, hit, cos) < stripe_bottom(height, hit, cos) {
            stripe_color(height, hit, cos, textures, stripe_bottom(height, hit, cos) - 1)
        } else {
            first_person_brush(
                brush,
                height,
                grid,
                block_size,
                player,
                textures,
                table,
                rays,
                n - 1,
            )
        }
    }
}

/// The draw color that the first-person view leaves is that of the last
/// stripe it drew.
pub proof fn lemma_first_person_brush(
    c: Canvas,
    grid: Seq<Seq<char>>,
    block_size: int,
    player: Player,
    textures: Seq<TextureData>,
    table: Seq<i64>,
    rays: int,
    n: int,
)
    ensures
        first_person(c, grid, block_size, player, textures, table, rays, n).height == c.height,
        first_person(c, grid, block_size, player, textures, table, rays, n).brush
            == first_person_brush(
            c.brush,
            c.height,
            grid,
            block_size,
            player,
            textures,
            table,
            rays,
            n,
        ),
    decreases n,
{
    if n > 0 {
        lemma_first_person_brush(c, grid, block_size, player, textures, table, rays, n - 1);
    }
}

/// Where the first-person view draws at all, the draw color that it
/// leaves does not depend on the one it found.
pub proof fn lemma_first_person_brush_settles(
    a: Color,
    b: Color,
    height: int,
    grid: Seq<Seq<char>>,
    block_size: int,
    player: Player,
    textures: Seq<TextureData>,
    table: Seq<i64>,
    rays: int,
    n: int,
)
    ensures
        ({
            let from_a = first_person_brush(
                a,
                height,
                grid,
                block_size,
                player,
                textures,
                table,
                rays,
                n,
            );
            let from_b = first_person_brush(
                b,
                height,
                grid,
                block_size,
                player,
                textures,
                table,
                rays,
                n,
            );
            from_a == from_b || (from_a == a && from_b == b)
        }),
    decreases n,
{
    if n > 0 {
        lemma_first_person_brush_settles(
            a,
            b,
            height,
            grid,
            block_size,
            player,
            textures,
            table,
            rays,
            n - 1,
        );
    }
}

/// The angle of the ray for column `i` of `n`, measured from the facing.
pub fn column_angle(fov: i64, i: i32, n: i32) -> (offset: i64)
    requires
        0 <= i < n,
    ensures
        offset == column_offset(fov as int, i as int, n as int),
{
    proof {
        assert(-0x4000_0000_0000_0000_0000_0000 <= fov * i <= 0x4000_0000_0000_0000_0000_0000)
            by (nonlinear_arith)
            requires
                -0x8000_0000_0000_0000 <= fov <= 0x8000_0000_0000_0000,
                0 <= i <= 0x8000_0000,
        ;
        if fov >= 0 {
            assert(0 <= fov * i / (n as int) <= fov) by (nonlinear_arith)
                requires
                    0 <= fov,
                    0 <= i < n,
            ;
        } else {
            assert(fov <= fov * i / (n as int) <= 0) by (nonlinear_arith)
                requires
                    fov < 0,
                    0 <= i < n,
            ;
        }
    }
    let num: i128 = (fov as i128) * (i as i128);
    let swept: i128 = match num.checked_div_euclid(n as i128) {
        Some(v) => v,
        None => 0,
    };
    let half: i64 = match fov.checked_div_euclid(2) {
        Some(v) => v,
        None => 0,
    };
    (swept - half as i128) as i64
}

/// Draws the wall stripe for `hit` in `column`. The ray that gave the hit
/// left the facing at `angle_offset`.
pub fn project_column(
    framebuffer: &mut Framebuffer,
    column: i32,
    hit: &Intersect,
    angle_offset: i64,
    texture_cache: &TextureManager,
    trig: &TrigTable,
)
    ensures
        final(framebuffer)@ == column_canvas(
            old(framebuffer)@,
            column as int,
            *hit,
            cosine(trig@, angle_offset as int),
            texture_cache@,
        ),
{
    let c = hit.impact;
    match Tile::from_symbol(c) {
        Tile::Empty => {
            return ;
        },
        Tile::Goal => {
            return ;
        },
        Tile::Wall(_) => {},
        Tile::KeySpawn => {},
    }
    let h: i64 = framebuffer.height() as i64;
    if h <= 0 {
        return ;
    }
    let cos = trig.cos(angle_offset);
    proof {
        assert(-0x8000_0000_0000_0000 * 0x1_0000 <= hit.distance * cos <= 0x8000_0000_0000_0000
            * 0x1_0000) by (nonlinear_arith)
            requires
                -0x8000_0000_0000_0000 <= hit.distance <= 0x8000_0000_0000_0000,
                -0x1_0000 <= cos <= 0x1_0000,
        ;
    }
    let raw: i128 = (hit.distance as i128) * (cos as i128);
    let cd: i128 = if raw < 1 { 1 } else { raw };
    let stake: i128 = (h as i128) * (WALL_SCALE as i128) * (ONE as i128) / (2 * cd);
    proof {
        assert(0 <= h * WALL_SCALE * ONE / (2 * cd) <= h * WALL_SCALE * ONE) by (nonlinear_arith)
            requires
                0 <= h,
                1 <= cd,
                WALL_SCALE == 100,
                ONE == 65536,
        ;
    }
    let top: i64 = if stake >= h as i128 { 0 } else { (h - stake as i64) / 2 };
    let bottom: i64 = if stake >= h as i128 { h } else { (h + stake as i64) / 2 };
    let ghost before = framebuffer@;
    let ghost table_cos = cosine(trig@, angle_offset as int);
    proof {
        assert(top == stripe_top(before.height, *hit, table_cos));
        assert(bottom == stripe_bottom(before.height, *hit, table_cos));
        framebuffer.lemma_view_wf();
    }
    let mut y: i64 = top;
    while y < bottom
        invariant
            0 <= top <= y,
            top < bottom ==> y <= bottom,
            top >= bottom ==> y == top,
            bottom <= h,
            h == before.height,
            h <= i32::MAX,
            c == hit.impact,
            top == stripe_top(before.height, *hit, table_cos),
            bottom == stripe_bottom(before.height, *hit, table_cos),
            framebuffer@.width == before.width,
            framebuffer@.height == before.height,
            framebuffer@.background == before.background,
            framebuffer@.brush == (if y > top {
                stripe_color(before.height, *hit, table_cos, texture_cache@, y - 1)
            } else {
                before.brush
            }),
            framebuffer@.wf(),
            before.wf(),
            forall|p: (int, int)|
                before.contains(p.0, p.1) ==> #[trigger] framebuffer@.pixels[p] == (if p.0
                    == column && top <= p.1 < y {
                    stripe_color(before.height, *hit, table_cos, texture_cache@, p.1)
                } else {
                    before.pixels[p]
                }),
        decreases bottom - y,
    {
        let span: i64 = bottom - top;
        let ty: i64 = (y - top) * (TEXTURE_SIZE as i64) / span;
        proof {
            assert(0 <= (y - top) * TEXTURE_SIZE / (span as int) < TEXTURE_SIZE) by (nonlinear_arith)
                requires
                    0 <= y - top < span,
                    TEXTURE_SIZE == 128,
            ;
        }
        let color = texture_cache.get_pixel_color(c, hit.tx, ty as usize);
        framebuffer.set_current_color(color);
        framebuffer.set_pixel(column, y as i32);
        proof {
            framebuffer.lemma_view_wf();
        }
        y = y + 1;
    }
    proof {
        let after = column_canvas(before, column as int, *hit, table_cos, texture_cache@);
        if top < bottom {
            assert(framebuffer@.pixels =~= after.pixels);
            Canvas::lemma_eq(framebuffer@, after);
        } else {
            assert(framebuffer@.pixels =~= before.pixels);
            Canvas::lemma_eq(framebuffer@, before);
        }
    }
}

/// Draws the first-person view: for every screen column, the stripe of
/// the wall that the column's ray runs into.
pub fn render_3d(
    framebuffer: &mut Framebuffer,
    maze: &Maze,
    block_size: usize,
    player: &Player,
    texture_cache: &TextureManager,
    trig: &TrigTable,
)
    requires
        block_size > 0,
    ensures
        final(framebuffer)@ == first_person(
            old(framebuffer)@,
            grid_of(maze),
            block_size as int,
            *player,
            texture_cache@,
            trig@,
            old(framebuffer)@.width,
            old(framebuffer)@.width,
        ),
{
    let num_rays: i32 = framebuffer.width();
    let ghost before = framebuffer@;
    let mut i: i32 = 0;
    while i < num_rays
        invariant
            0 <= i,
            0 < num_rays ==> i <= num_rays,
            num_rays <= 0 ==> i == 0,
            num_rays == before.width,
            block_size > 0,
            framebuffer@ == first_person(
                before,
                grid_of(maze),
                block_size as int,
                *player,
                texture_cache@,
                trig@,
                num_rays as int,
                i as int,
            ),
        decreases num_rays - i,
    {
        let offset = column_angle(player.fov, i, num_rays);
        let intersect = cast(maze, player, offset, block_size, trig);
        project_column(framebuffer, i, &intersect, offset, texture_cache, trig);
        i = i + 1;
    }
}

} // verus!
