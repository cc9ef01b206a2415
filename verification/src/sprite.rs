//! Billboards: point sprites drawn facing the camera, sized by distance.

use vstd::prelude::*;
use crate::canvas::Canvas;
use crate::caster::TEXTURE_SIZE;
use crate::color::Color;
use crate::framebuffer::{max0, Framebuffer};
use crate::key::Key;
use crate::maze::{grid_of, Maze};
use crate::math::{integer_sqrt, is_sqrt, isqrt};
use crate::player::{Player, Vector2};
use crate::textures::{sample, TextureData, TextureManager};
use crate::trig::{bearing, normalized, quarter, TrigTable, ONE};

verus! {

/// Sprites nearer than this many world units are not drawn.
pub const NEAR_PLANE: i64 = 50;

/// Sprites farther than this many world units are not drawn.
pub const FAR_PLANE: i64 = 1000;

/// The size in pixels of a sprite at distance 1, as a multiple of the
/// screen height.
pub const SPRITE_SCALE: i64 = 70;

/// The angle from the camera's facing round to the point that lies
/// `(dx, dy)` from the camera, within half a turn of zero.
pub open spec fn sprite_angle(table: Seq<i64>, facing: int, dx: int, dy: int) -> int {
    normalized(bearing(table, dy, dx) - facing, 2 * quarter(table))
}

/// Whether a point at `angle_diff` from the facing is within the field of view.
pub open spec fn in_view(fov: int, angle_diff: int) -> bool {
    fov > 0 && -fov <= 2 * angle_diff <= fov
}

/// Whether a point `(dx, dy)` away, in fixed point, lies between the near
/// and the far plane.
pub open spec fn in_range(dx: int, dy: int) -> bool {
    (NEAR_PLANE * ONE) * (NEAR_PLANE * ONE) <= dx * dx + dy * dy <= (FAR_PLANE * ONE) * (FAR_PLANE
        * ONE)
}

/// Whether the sprite `(dx, dy)` away from the camera is drawn at all.
pub open spec fn sprite_visible(table: Seq<i64>, player: Player, dx: int, dy: int) -> bool {
    in_range(dx, dy) && in_view(player.fov as int, sprite_angle(table, player.a as int, dx, dy))
}

/// The side in pixels of the square that a sprite `(dx, dy)` away covers
/// on a screen `height` pixels high.
pub open spec fn sprite_size(height: int, dx: int, dy: int) -> int {
    height * SPRITE_SCALE * ONE / isqrt(dx * dx + dy * dy)
}

/// The screen column under the middle of a sprite at `angle_diff` from
/// the facing.
pub open spec fn sprite_center(width: int, fov: int, angle_diff: int) -> int {
    (2 * angle_diff + fov) * width / (2 * fov)
}

/// The first column of a sprite `size` pixels wide around `center`. It
/// lies off the screen, to the left, when the sprite overlaps that edge.
pub open spec fn sprite_left(center: int, size: int) -> int {
    (2 * center - size) / 2
}

/// The first row of a sprite `size` pixels high that is centered on the
/// horizon. It lies off the screen, above, when the sprite is higher than
/// the screen.
pub open spec fn sprite_top(height: int, size: int) -> int {
    (height - size) / 2
}

pub open spec fn min(a: int, b: int) -> int {
    if a < b {
        a
    } else {
        b
    }
}

/// Where on the screen a sprite goes: its first column and row, which may
/// lie off the screen; the column and row after the last that it covers
/// on the screen; and its side.
pub struct Quad {
    pub left: int,
    pub top: int,
    pub right: int,
    pub bottom: int,
    pub size: int,
}

/// The place of the sprite `(dx, dy)` away from the camera on a screen of
/// the given size.
pub open spec fn sprite_quad(
    width: int,
    height: int,
    table: Seq<i64>,
    player: Player,
    dx: int,
    dy: int,
) -> Quad {
    let size = sprite_size(height, dx, dy);
    let center = sprite_center(
        width,
        player.fov as int,
        sprite_angle(table, player.a as int, dx, dy),
    );
    let left = sprite_left(center, size);
    let top = sprite_top(height, size);
    Quad { left, top, right: min(left + size, width), bottom: min(top + size, height), size }
}

/// The image of a sprite as it falls on the screen: each pixel of the
/// quad takes the texel that scales to it, counted from the first column
/// and row of the quad wherever they lie, and a texel of the transparent
/// color gives no color.
pub open spec fn sprite_image(textures: Seq<TextureData>, id: char, quad: Quad) -> spec_fn(
    int,
    int,
) -> Option<Color> {
    |x: int, y: int|
        {
            let c = sample(
                textures,
                id,
                (x - quad.left) * TEXTURE_SIZE / quad.size,
                (y - quad.top) * TEXTURE_SIZE / quad.size,
            );
            if c == Color::transparent() {
                None
            } else {
                Some(c)
            }
        }
}

/// The surface after the sprite with image `id` that lies `(dx, dy)` from
/// the camera is drawn over it: the part of its quad that is on the
/// screen. A sprite that overlaps an edge is cropped, not moved.
pub open spec fn sprite_canvas(
    c: Canvas,
    textures: Seq<TextureData>,
    table: Seq<i64>,
    player: Player,
    dx: int,
    dy: int,
    id: char,
) -> Canvas {
    if sprite_visible(table, player, dx, dy) {
        let quad = sprite_quad(c.width, c.height, table, player, dx, dy);
        c.blit(
            max0(quad.left),
            max0(quad.top),
            quad.right,
            quad.bottom,
            sprite_image(textures, id, quad),
        )
    } else {
        c
    }
}

/// Draws the sprite with image `id` that lies `(dx, dy)` from the camera.
pub fn draw_billboard(
    framebuffer: &mut Framebuffer,
    player: &Player,
    dx: i128,
    dy: i128,
    id: char,
    texture_manager: &TextureManager,
    trig: &TrigTable,
)
    ensures
        final(framebuffer)@ == sprite_canvas(
            old(framebuffer)@,
            texture_manager@,
            trig@,
            *player,
            dx as int,
            dy as int,
            id,
        ),
{
    let far: i128 = (FAR_PLANE as i128) * (ONE as i128);
    let near: i128 = (NEAR_PLANE as i128) * (ONE as i128);
    if dx > far || dx < -far || dy > far || dy < -far {
        proof {
            assert(dx * dx + dy * dy > far * far) by (nonlinear_arith)
                requires
                    dx > far || dx < -far || dy > far || dy < -far,
                    far > 0,
            ;
        }
        return ;
    }
    proof {
        assert(0 <= dx * dx <= far * far && 0 <= dy * dy <= far * far) by (nonlinear_arith)
            requires
                -far <= dx <= far,
                -far <= dy <= far,
        ;
    }
    let d2: i128 = dx * dx + dy * dy;
    if d2 < near * near || d2 > far * far {
        return ;
    }
    if player.fov <= 0 {
        return ;
    }
    let sprite_a = trig.atan2(dy as i64, dx as i64);
    let angle_diff = trig.angle_diff(sprite_a, player.a);
    if 2 * (angle_diff as i128) > player.fov as i128 || 2 * (angle_diff as i128) < -(player.fov
        as i128) {
        return ;
    }
    let sprite_d: u64 = integer_sqrt(d2 as u128);
    proof {
        assert(sprite_d >= near) by (nonlinear_arith)
            requires
                near * near <= d2,
                d2 < (sprite_d + 1) * (sprite_d + 1),
                0 <= sprite_d,
                0 < near,
        ;
        assert(sprite_d <= far) by (nonlinear_arith)
            requires
                sprite_d * sprite_d <= d2,
                d2 <= far * far,
                0 <= sprite_d,
                0 < far,
        ;
    }
    let width: i64 = framebuffer.width() as i64;
    let height: i64 = framebuffer.height() as i64;
    let ghost before = framebuffer@;
    let ghost quad = sprite_quad(before.width, before.height, trig@, *player, dx as int, dy as int);
    let ghost image = sprite_image(texture_manager@, id, quad);
    if width <= 0 || height <= 0 {
        proof {
            assert(sprite_d >= 1);
            assert(quad.size <= 0 || quad.right <= 0) by {
                if height <= 0 {
                    assert(height * SPRITE_SCALE * ONE / (sprite_d as int) <= 0) by (nonlinear_arith)
                        requires
                            height <= 0,
                            SPRITE_SCALE == 70,
                            ONE == 65536,
                            sprite_d >= 1,
                    ;
                } else {
                    assert((2 * angle_diff + player.fov) * width / (2 * player.fov) <= 0)
                        by (nonlinear_arith)
                        requires
                            width <= 0,
                            0 <= 2 * angle_diff + player.fov,
                            player.fov > 0,
                    ;
                    assert(height * SPRITE_SCALE * ONE / (sprite_d as int) >= 0) by (nonlinear_arith)
                        requires
                            height > 0,
                            SPRITE_SCALE == 70,
                            ONE == 65536,
                            sprite_d >= 1,
                    ;
                }
            }
            assert(quad.right <= max0(quad.left));
        }
        return ;
    }
    proof {
        assert(0 <= height * SPRITE_SCALE * ONE / (sprite_d as int) <= height * SPRITE_SCALE)
            by (nonlinear_arith)
            requires
                height > 0,
                SPRITE_SCALE == 70,
                ONE == 65536,
                sprite_d >= 50 * 65536,
        ;
        assert(0 <= (2 * angle_diff + player.fov) * width <= 2 * player.fov * width)
            by (nonlinear_arith)
            requires
                width > 0,
                0 <= 2 * angle_diff + player.fov <= 2 * player.fov,
        ;
        assert(0 <= (2 * angle_diff + player.fov) * width / (2 * player.fov) <= width)
            by (nonlinear_arith)
            requires
                width > 0,
                0 <= (2 * angle_diff + player.fov) * width <= 2 * player.fov * width,
                player.fov > 0,
        ;
        assert(2 * player.fov * width <= 0x7fff_ffff_ffff_ffff * 2 * 0x7fff_ffff) by (nonlinear_arith)
            requires
                0 < width <= 0x7fff_ffff,
                0 < player.fov <= 0x7fff_ffff_ffff_ffff,
        ;
    }
    let size: i64 = (height * SPRITE_SCALE * ONE) / (sprite_d as i64);
    let center: i64 = ((2 * (angle_diff as i128) + player.fov as i128) * (width as i128) / (2
        * (player.fov as i128))) as i64;
    let left: i64 = match (2 * center - size).checked_div_euclid(2) {
        Some(v) => v,
        None => 0,
    };
    let top: i64 = match (height - size).checked_div_euclid(2) {
        Some(v) => v,
        None => 0,
    };
    let right: i64 = if left + size < width { left + size } else { width };
    let bottom: i64 = if top + size < height { top + size } else { height };
    let first_x: i64 = if left < 0 { 0 } else { left };
    let first_y: i64 = if top < 0 { 0 } else { top };
    proof {
        assert(quad.size == size);
        assert(quad.left == left);
        assert(quad.top == top);
        assert(quad.right == right);
        assert(quad.bottom == bottom);
    }
    let mut x: i64 = first_x;
    while x < right
        invariant
            0 <= first_x <= x,
            left <= first_x,
            first_x < right ==> x <= right,
            first_x >= right ==> x == first_x,
            right <= width <= i32::MAX,
            0 <= first_y,
            top <= first_y,
            bottom <= height <= i32::MAX,
            size > 0 || right <= first_x,
            0 <= size <= height * SPRITE_SCALE,
            right <= left + size,
            bottom <= top + size,
            quad.left == left,
            quad.top == top,
            quad.size == size,
            image == sprite_image(texture_manager@, id, quad),
            framebuffer@ == before.blit(first_x as int, first_y as int, x as int, bottom as int, image),
        decreases right - x,
    {
        let ghost column_start = framebuffer@;
        let mut y: i64 = first_y;
        while y < bottom
            invariant
                0 <= first_x <= x < right,
                left <= first_x,
                right <= width <= i32::MAX,
                0 <= first_y <= y,
                top <= first_y,
                first_y < bottom ==> y <= bottom,
                first_y >= bottom ==> y == first_y,
                bottom <= height <= i32::MAX,
                0 < size <= height * SPRITE_SCALE,
                right <= left + size,
                bottom <= top + size,
                quad.left == left,
                quad.top == top,
                quad.size == size,
                image == sprite_image(texture_manager@, id, quad),
                framebuffer@ == column_start.blit_column(x as int, first_y as int, y as int, image),
            decreases bottom - y,
        {
            proof {
                assert(0 <= (x - left) * TEXTURE_SIZE / (size as int) < TEXTURE_SIZE)
                    by (nonlinear_arith)
                    requires
                        0 <= x - left < size,
                        TEXTURE_SIZE == 128,
                ;
                assert(0 <= (y - top) * TEXTURE_SIZE / (size as int) < TEXTURE_SIZE)
                    by (nonlinear_arith)
                    requires
                        0 <= y - top < size,
                        TEXTURE_SIZE == 128,
                ;
                assert(0 <= (x - left) * TEXTURE_SIZE <= 0x7fff_ffff * 70 * 128) by (nonlinear_arith)
                    requires
                        0 <= x - left <= 0x7fff_ffff * 70,
                        TEXTURE_SIZE == 128,
                ;
                assert(0 <= (y - top) * TEXTURE_SIZE <= 0x7fff_ffff * 70 * 128) by (nonlinear_arith)
                    requires
                        0 <= y - top <= 0x7fff_ffff * 70,
                        TEXTURE_SIZE == 128,
                ;
            }
            let tx: i64 = (x - left) * (TEXTURE_SIZE as i64) / size;
            let ty: i64 = (y - top) * (TEXTURE_SIZE as i64) / size;
            let color = texture_manager.get_pixel_color(id, tx as usize, ty as usize);
            if color != Color::transparent() {
                framebuffer.set_current_color(color);
                framebuffer.set_pixel(x as i32, y as i32);
            }
            y = y + 1;
        }
        x = x + 1;
    }
}

/// Draws `key` as a billboard: culled outside the field of view and
/// outside the near and far planes, else scaled by distance, centered on
/// the horizon, with texels of the transparent color left out.
pub fn draw_sprite(
    framebuffer: &mut Framebuffer,
    player: &Player,
    key: &Key,
    texture_manager: &TextureManager,
    trig: &TrigTable,
)
    ensures
        final(framebuffer)@ == sprite_canvas(
            old(framebuffer)@,
            texture_manager@,
            trig@,
            *player,
            key.pos.x - player.pos.x,
            key.pos.y - player.pos.y,
            key.texture_key,
        ),
{
    let dx: i128 = key.pos.x as i128 - player.pos.x as i128;
    let dy: i128 = key.pos.y as i128 - player.pos.y as i128;
    draw_billboard(framebuffer, player, dx, dy, key.texture_key, texture_manager, trig);
}

/// The keys of a level: one, at world unit (250, 250).
pub open spec fn level_keys() -> Seq<Key> {
    seq![Key { pos: Vector2 { x: 16384000, y: 16384000 }, texture_key: 'k' }]
}

/// The keys of a level.
pub fn get_keys() -> (keys: Vec<Key>)
    ensures
        keys@ == level_keys(),
{
    let mut keys = Vec::new();
    keys.push(Key::new(250 * ONE, 250 * ONE, 'k'));
    assert(keys@ =~= level_keys());
    keys
}

/// The surface after the first `n` of `keys` are drawn as billboards.
pub open spec fn keys_canvas(
    c: Canvas,
    textures: Seq<TextureData>,
    table: Seq<i64>,
    player: Player,
    keys: Seq<Key>,
    n: int,
) -> Canvas
    decreases n,
{
    if n <= 0 {
        c
    } else {
        sprite_canvas(
            keys_canvas(c, textures, table, player, keys, n - 1),
            textures,
            table,
            player,
            keys[n - 1].pos.x - player.pos.x,
            keys[n - 1].pos.y - player.pos.y,
            keys[n - 1].texture_key,
        )
    }
}

/// Draws the keys of the level as billboards.
pub fn render_key(
    framebuffer: &mut Framebuffer,
    player: &Player,
    texture_cache: &TextureManager,
    trig: &TrigTable,
)
    ensures
        final(framebuffer)@ == keys_canvas(
            old(framebuffer)@,
            texture_cache@,
            trig@,
            *player,
            level_keys(),
            level_keys().len() as int,
        ),
{
    let keys = get_keys();
    let ghost before = framebuffer@;
    let mut i: usize = 0;
    while i < keys.len()
        invariant
            i <= keys.len(),
            keys@ == level_keys(),
            framebuffer@ == keys_canvas(before, texture_cache@, trig@, *player, keys@, i as int),
        decreases keys.len() - i,
    {
        draw_sprite(framebuffer, player, &keys[i], texture_cache, trig);
        i = i + 1;
    }
}

/// The fixed-point coordinate of the middle of cell `index` along one axis.
pub open spec fn cell_center(index: int, block_size: int) -> int {
    (index * block_size + block_size / 2) * ONE
}

/// The surface after the goal cells among the first `n` cells of row `j`
/// are drawn as billboards that stand in the middle of their cells.
pub open spec fn goal_row(
    c: Canvas,
    textures: Seq<TextureData>,
    table: Seq<i64>,
    player: Player,
    row: Seq<char>,
    j: int,
    block_size: int,
    n: int,
) -> Canvas
    decreases n,
{
    if n <= 0 {
        c
    } else {
        let before = goal_row(c, textures, table, player, row, j, block_size, n - 1);
        if row[n - 1] == 'g' {
            sprite_canvas(
                before,
                textures,
                table,
                player,
                cell_center(n - 1, block_size) - player.pos.x,
                cell_center(j, block_size) - player.pos.y,
                'g',
            )
        } else {
            before
        }
    }
}

/// The surface after the goal cells of the first `m` rows are drawn as
/// billboards.
pub open spec fn goals_canvas(
    c: Canvas,
    textures: Seq<TextureData>,
    table: Seq<i64>,
    player: Player,
    grid: Seq<Seq<char>>,
    block_size: int,
    m: int,
) -> Canvas
    decreases m,
{
    if m <= 0 {
        c
    } else {
        goal_row(
            goals_canvas(c, textures, table, player, grid, block_size, m - 1),
            textures,
            table,
            player,
            grid[m - 1],
            m - 1,
            block_size,
            grid[m - 1].len() as int,
        )
    }
}

/// The fixed-point coordinate of the middle of cell `index` along one
/// axis, or `None` when that is beyond the coordinates there are.
pub fn cell_center_of(index: usize, block_size: usize) -> (center: Option<i64>)
    ensures
        center == (if cell_center(index as int, block_size as int) <= i64::MAX {
            Some(cell_center(index as int, block_size as int) as i64)
        } else {
            None
        }),
{
    let unit = center_unit(index, block_size);
    if unit > 0x7fff_ffff_ffff {
        None
    } else {
        Some((unit as i64) * ONE)
    }
}

/// The world unit in the middle of cell `index` along one axis.
fn center_unit(index: usize, block_size: usize) -> (u: u128)
    ensures
        u == index * block_size + block_size / 2,
{
    proof {
        assert(0 <= index * block_size <= 0xffff_ffff_ffff_ffff * 0xffff_ffff_ffff_ffff)
            by (nonlinear_arith)
            requires
                0 <= index <= 0xffff_ffff_ffff_ffff,
                0 <= block_size <= 0xffff_ffff_ffff_ffff,
        ;
    }
    (index as u128) * (block_size as u128) + (block_size as u128) / 2
}

/// Draws every goal cell of the grid as a billboard that stands in the
/// middle of the cell.
pub fn draw_goal_sprite(
    framebuffer: &mut Framebuffer,
    player: &Player,
    maze: &Maze,
    texture_manager: &TextureManager,
    block_size: usize,
    trig: &TrigTable,
)
    ensures
        final(framebuffer)@ == goals_canvas(
            old(framebuffer)@,
            texture_manager@,
            trig@,
            *player,
            grid_of(maze),
            block_size as int,
            maze.len() as int,
        ),
{
    let ghost before = framebuffer@;
    let ghost grid = grid_of(maze);
    let mut j: usize = 0;
    while j < maze.len()
        invariant
            j <= maze.len(),
            grid == grid_of(maze),
            framebuffer@ == goals_canvas(
                before,
                texture_manager@,
                trig@,
                *player,
                grid,
                block_size as int,
                j as int,
            ),
        decreases maze.len() - j,
    {
        let row = &maze[j];
        let ghost row_start = framebuffer@;
        let mut i: usize = 0;
        while i < row.len()
            invariant
                i <= row.len(),
                j < maze.len(),
                row@ == grid[j as int],
                framebuffer@ == goal_row(
                    row_start,
                    texture_manager@,
                    trig@,
                    *player,
                    row@,
                    j as int,
                    block_size as int,
                    i as int,
                ),
            decreases row.len() - i,
        {
            if row[i] == 'g' {
                let ux = center_unit(i, block_size);
                let uy = center_unit(j, block_size);
                if ux > 0x1_0000_0000_0000 || uy > 0x1_0000_0000_0000 {
                    proof {
                        let dx = cell_center(i as int, block_size as int) - player.pos.x;
                        let dy = cell_center(j as int, block_size as int) - player.pos.y;
                        assert(dx * dx + dy * dy > (FAR_PLANE * ONE) * (FAR_PLANE * ONE))
                            by (nonlinear_arith)
                            requires
                                dx >= 0x8000_0000_0000_0000 || dy >= 0x8000_0000_0000_0000,
                                FAR_PLANE == 1000,
                                ONE == 65536,
                        ;
                    }
                } else {
                    let dx: i128 = (ux as i128) * (ONE as i128) - player.pos.x as i128;
                    let dy: i128 = (uy as i128) * (ONE as i128) - player.pos.y as i128;
                    draw_billboard(framebuffer, player, dx, dy, 'g', texture_manager, trig);
                }
            }
            i = i + 1;
        }
        j = j + 1;
    }
}

} // verus!
