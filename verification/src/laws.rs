//! What holds of the renderer as a whole, stated over the same models that
//! the contracts of its functions use.

use vstd::prelude::*;
use crate::canvas::Canvas;
use crate::color::Color;
use crate::framebuffer::max0;
use crate::caster::{blocked, first_blocked, ray_hit, texture_u, Ray};
use crate::caster::lemma_first_blocked_bounds;
use crate::caster::{MAX_RAY_DISTANCE, MAX_RAY_STEPS, RAY_STEP};
use crate::math::lemma_cell_between;
use crate::maze::in_grid;
use crate::minimap::minimap_canvas;
use crate::player::{turned, Controls, Player};
use crate::render::{corrected_distance, first_person, lemma_first_person_pixels, stake_height};
use crate::render::{lemma_first_person_brush, lemma_first_person_brush_settles};
use crate::sprite::{cell_center, in_range, sprite_visible, in_view, sprite_angle, sprite_canvas, sprite_image, sprite_quad};
use crate::textures::TextureData;
use crate::topdown::{grid_canvas, lemma_grid_canvas_pixels, top_down};
use crate::trig::{bearing, cosine, lemma_last_not_past, not_past, quarter, valid_quarter_wave, wave, ONE};
use crate::trig::lemma_wave_bound;

verus! {

/// A ray is stopped, or given up, within the range: the march takes at
/// most `MAX_RAY_STEPS` steps, wherever the camera stands and whatever
/// the grid holds, and the distance of the hit is the steps taken.
pub proof fn law_cast_within_range(grid: Seq<Seq<char>>, block_size: int, ray: Ray)
    ensures
        0 <= first_blocked(grid, block_size, ray, 0) <= MAX_RAY_STEPS,
        ray_hit(grid, block_size, ray).distance == first_blocked(grid, block_size, ray, 0)
            * RAY_STEP,
        0 <= ray_hit(grid, block_size, ray).distance <= MAX_RAY_DISTANCE,
{
    lemma_first_blocked_bounds(grid, block_size, ray, 0);
}

/// Straight ahead the cosine is `ONE`, so the corrected distance of a hit
/// is its raw distance.
pub proof fn law_fisheye_ahead(table: Seq<i64>, distance: int)
    requires
        valid_quarter_wave(table),
        distance >= 1,
    ensures
        cosine(table, 0) == ONE,
        corrected_distance(distance, cosine(table, 0)) == distance * ONE,
{
    lemma_cosine_first_quadrant(table, 0);
}

/// Within a quarter turn of the facing, the cosine of an offset is read
/// from the table at the offset's size, counted back from the table's end.
pub proof fn lemma_cosine_first_quadrant(table: Seq<i64>, a: int)
    requires
        valid_quarter_wave(table),
        -quarter(table) <= a <= quarter(table),
    ensures
        cosine(table, a) == table[quarter(table) - (if a < 0 { -a } else { a })],
{
    let q = quarter(table);
    vstd::arithmetic::div_mod::lemma_small_mod((a + q) as nat, (4 * q) as nat);
}

/// The farther a ray's offset is from the facing, up to a quarter turn on
/// either side, the smaller the corrected distance of a hit at the same
/// raw distance; and strictly smaller where the cosine is.
pub proof fn law_fisheye_monotonic(table: Seq<i64>, distance: int, a: int, b: int)
    requires
        valid_quarter_wave(table),
        distance >= 0,
        -quarter(table) <= a <= quarter(table),
        -quarter(table) <= b <= quarter(table),
        (if a < 0 { -a } else { a }) <= (if b < 0 { -b } else { b }),
    ensures
        cosine(table, b) <= cosine(table, a),
        corrected_distance(distance, cosine(table, b)) <= corrected_distance(
            distance,
            cosine(table, a),
        ),
        cosine(table, b) < cosine(table, a) && distance * cosine(table, b) >= 1
            ==> corrected_distance(distance, cosine(table, b)) < corrected_distance(
            distance,
            cosine(table, a),
        ),
{
    lemma_cosine_first_quadrant(table, a);
    lemma_cosine_first_quadrant(table, b);
    let ca = cosine(table, a);
    let cb = cosine(table, b);
    assert(distance * cb <= distance * ca) by (nonlinear_arith)
        requires
            distance >= 0,
            cb <= ca,
    ;
    if cb < ca && distance * cb >= 1 {
        assert(distance * cb < distance * ca) by (nonlinear_arith)
            requires
                distance * cb >= 1,
                distance >= 0,
                cb < ca,
        ;
    }
}

/// A sprite whose bearing is more than half the field of view away from
/// the facing is not drawn.
pub proof fn law_sprite_culled_outside_view(
    c: Canvas,
    textures: Seq<TextureData>,
    table: Seq<i64>,
    player: Player,
    dx: int,
    dy: int,
    id: char,
)
    requires
        2 * sprite_angle(table, player.a as int, dx, dy) > player.fov || 2 * sprite_angle(
            table,
            player.a as int,
            dx,
            dy,
        ) < -player.fov,
    ensures
        sprite_canvas(c, textures, table, player, dx, dy, id) == c,
{
}

/// A sprite nearer than the near plane or farther than the far plane is
/// not drawn.
pub proof fn law_sprite_culled_outside_range(
    c: Canvas,
    textures: Seq<TextureData>,
    table: Seq<i64>,
    player: Player,
    dx: int,
    dy: int,
    id: char,
)
    requires
        dx * dx + dy * dy < (crate::sprite::NEAR_PLANE * ONE) * (crate::sprite::NEAR_PLANE * ONE)
            || dx * dx + dy * dy > (crate::sprite::FAR_PLANE * ONE) * (crate::sprite::FAR_PLANE
            * ONE),
    ensures
        sprite_canvas(c, textures, table, player, dx, dy, id) == c,
{
}

/// A sprite straight ahead of a camera that sees at all, between the near
/// and the far plane, is drawn: its image is stamped on the part of its
/// quad that is on the screen.
pub proof fn law_sprite_drawn_ahead(
    c: Canvas,
    textures: Seq<TextureData>,
    table: Seq<i64>,
    player: Player,
    dx: int,
    dy: int,
    id: char,
)
    requires
        player.fov > 0,
        sprite_angle(table, player.a as int, dx, dy) == 0,
        in_range(dx, dy),
    ensures
        sprite_canvas(c, textures, table, player, dx, dy, id) == ({
            let quad = sprite_quad(c.width, c.height, table, player, dx, dy);
            c.blit(
                max0(quad.left),
                max0(quad.top),
                quad.right,
                quad.bottom,
                sprite_image(textures, id, quad),
            )
        }),
{
}

/// The ray is stopped at step `at` when no sample from step `k` up to
/// there stops it and the sample there does.
pub proof fn lemma_first_blocked_at(
    grid: Seq<Seq<char>>,
    block_size: int,
    ray: Ray,
    k: int,
    at: int,
)
    requires
        0 <= k <= at < MAX_RAY_STEPS,
        forall|m: int| k <= m < at ==> !#[trigger] blocked(grid, block_size, ray.at(m).0, ray.at(m).1),
        blocked(grid, block_size, ray.at(at).0, ray.at(at).1),
    ensures
        first_blocked(grid, block_size, ray, k) == at,
    decreases at - k,
{
    if k < at {
        assert(!blocked(grid, block_size, ray.at(k).0, ray.at(k).1));
        lemma_first_blocked_at(grid, block_size, ray, k + 1, at);
    }
}

/// A camera in the middle of an open cell that looks east along a row of
/// `n - 1` more open cells at a wall is told of that wall: the ray is
/// stopped by the cell `n` cells on, at the first whole world unit inside
/// it, half way along its face.
pub proof fn law_wall_ahead_east(
    grid: Seq<Seq<char>>,
    block_size: int,
    ray: Ray,
    ci: int,
    cj: int,
    n: int,
)
    requires
        block_size > 0,
        0 <= ci,
        0 <= cj,
        1 <= n,
        ray.x == cell_center(ci, block_size),
        ray.y == cell_center(cj, block_size),
        ray.cos == ONE,
        ray.sin == 0,
        forall|i: int|
            #![trigger in_grid(grid, i, cj)]
            #![trigger grid[cj][i]]
            ci <= i < ci + n ==> in_grid(grid, i, cj) && grid[cj][i] == ' ',
        in_grid(grid, ci + n, cj),
        grid[cj][ci + n] != ' ',
        n * block_size - block_size / 2 < MAX_RAY_STEPS,
    ensures
        ray_hit(grid, block_size, ray).distance == n * block_size - block_size / 2,
        ray_hit(grid, block_size, ray).impact == grid[cj][ci + n],
        ray_hit(grid, block_size, ray).tx == texture_u(0, block_size / 2, block_size),
{
    let half = block_size / 2;
    let cx = ci * block_size + half;
    let cy = cj * block_size + half;
    let at = n * block_size - half;
    assert((ci + n) * block_size == ci * block_size + n * block_size) by (nonlinear_arith);
    assert((cj + 1) * block_size == cj * block_size + block_size) by (nonlinear_arith);
    assert(n * block_size >= block_size) by (nonlinear_arith)
        requires
            n >= 1,
            block_size > 0,
    ;
    assert(0 <= ci * block_size && 0 <= cj * block_size) by (nonlinear_arith)
        requires
            0 <= ci,
            0 <= cj,
            block_size > 0,
    ;
    lemma_cell_between(cy, block_size, cj, cj + 1);
    assert forall|m: int| 0 <= m <= at implies #[trigger] ray.at(m) == (cx + m, cy) by {
        assert(ray.x + m * RAY_STEP * ray.cos == (cx + m) * ONE);
        assert(ray.y + m * RAY_STEP * ray.sin == cy * ONE);
    }
    assert forall|m: int| 0 <= m < at implies !#[trigger] blocked(
        grid,
        block_size,
        ray.at(m).0,
        ray.at(m).1,
    ) by {
        lemma_cell_between(cx + m, block_size, ci, ci + n);
        let i = (cx + m) / block_size;
        assert(grid[cj][i] == ' ');
    }
    assert((ci + n + 1) * block_size == (ci + n) * block_size + block_size) by (nonlinear_arith);
    lemma_cell_between(cx + at, block_size, ci + n, ci + n + 1);
    assert(ray.at(at) == (cx + at, cy));
    lemma_first_blocked_at(grid, block_size, ray, 0, at);
    vstd::arithmetic::div_mod::lemma_fundamental_div_mod_converse(
        cx + at,
        block_size,
        ci + n,
        0,
    );
    vstd::arithmetic::div_mod::lemma_fundamental_div_mod_converse(cy, block_size, cj, half);
}

/// The same looking south: down a column of open cells at a wall.
pub proof fn law_wall_ahead_south(
    grid: Seq<Seq<char>>,
    block_size: int,
    ray: Ray,
    ci: int,
    cj: int,
    n: int,
)
    requires
        block_size > 0,
        0 <= ci,
        0 <= cj,
        1 <= n,
        ray.x == cell_center(ci, block_size),
        ray.y == cell_center(cj, block_size),
        ray.cos == 0,
        ray.sin == ONE,
        forall|j: int|
            #![trigger in_grid(grid, ci, j)]
            #![trigger grid[j]]
            cj <= j < cj + n ==> in_grid(grid, ci, j) && grid[j][ci] == ' ',
        in_grid(grid, ci, cj + n),
        grid[cj + n][ci] != ' ',
        n * block_size - block_size / 2 < MAX_RAY_STEPS,
    ensures
        ray_hit(grid, block_size, ray).distance == n * block_size - block_size / 2,
        ray_hit(grid, block_size, ray).impact == grid[cj + n][ci],
        ray_hit(grid, block_size, ray).tx == texture_u(block_size / 2, 0, block_size),
{
    let half = block_size / 2;
    let cx = ci * block_size + half;
    let cy = cj * block_size + half;
    let at = n * block_size - half;
    assert((cj + n) * block_size == cj * block_size + n * block_size) by (nonlinear_arith);
    assert((ci + 1) * block_size == ci * block_size + block_size) by (nonlinear_arith);
    assert(n * block_size >= block_size) by (nonlinear_arith)
        requires
            n >= 1,
            block_size > 0,
    ;
    assert(0 <= ci * block_size && 0 <= cj * block_size) by (nonlinear_arith)
        requires
            0 <= ci,
            0 <= cj,
            block_size > 0,
    ;
    lemma_cell_between(cx, block_size, ci, ci + 1);
    assert forall|m: int| 0 <= m <= at implies #[trigger] ray.at(m) == (cx, cy + m) by {
        assert(ray.x + m * RAY_STEP * ray.cos == cx * ONE);
        assert(ray.y + m * RAY_STEP * ray.sin == (cy + m) * ONE);
    }
    assert forall|m: int| 0 <= m < at implies !#[trigger] blocked(
        grid,
        block_size,
        ray.at(m).0,
        ray.at(m).1,
    ) by {
        lemma_cell_between(cy + m, block_size, cj, cj + n);
        let j = (cy + m) / block_size;
        assert(grid[j][ci] == ' ');
    }
    assert((cj + n + 1) * block_size == (cj + n) * block_size + block_size) by (nonlinear_arith);
    lemma_cell_between(cy + at, block_size, cj + n, cj + n + 1);
    assert(ray.at(at) == (cx, cy + at));
    lemma_first_blocked_at(grid, block_size, ray, 0, at);
    vstd::arithmetic::div_mod::lemma_fundamental_div_mod_converse(
        cy + at,
        block_size,
        cj + n,
        0,
    );
    vstd::arithmetic::div_mod::lemma_fundamental_div_mod_converse(cx, block_size, ci, half);
}

/// The same looking west. The ray is stopped one step later than it is
/// looking east: at the last whole world unit of the wall's cell.
pub proof fn law_wall_ahead_west(
    grid: Seq<Seq<char>>,
    block_size: int,
    ray: Ray,
    ci: int,
    cj: int,
    n: int,
)
    requires
        block_size > 0,
        0 <= cj,
        1 <= n <= ci,
        ray.x == cell_center(ci, block_size),
        ray.y == cell_center(cj, block_size),
        ray.cos == -ONE,
        ray.sin == 0,
        forall|i: int|
            #![trigger in_grid(grid, i, cj)]
            #![trigger grid[cj][i]]
            ci - n < i <= ci ==> in_grid(grid, i, cj) && grid[cj][i] == ' ',
        in_grid(grid, ci - n, cj),
        grid[cj][ci - n] != ' ',
        n * block_size - block_size + block_size / 2 + 1 < MAX_RAY_STEPS,
    ensures
        ray_hit(grid, block_size, ray).distance == n * block_size - block_size + block_size / 2
            + 1,
        ray_hit(grid, block_size, ray).impact == grid[cj][ci - n],
        ray_hit(grid, block_size, ray).tx == texture_u(
            block_size - 1,
            block_size / 2,
            block_size,
        ),
{
    let half = block_size / 2;
    let cx = ci * block_size + half;
    let cy = cj * block_size + half;
    let at = n * block_size - block_size + half + 1;
    assert((ci - n + 1) * block_size == ci * block_size - n * block_size + block_size)
        by (nonlinear_arith);
    assert((ci - n) * block_size == ci * block_size - n * block_size) by (nonlinear_arith);
    assert((ci + 1) * block_size == ci * block_size + block_size) by (nonlinear_arith);
    assert((cj + 1) * block_size == cj * block_size + block_size) by (nonlinear_arith);
    assert(n * block_size >= block_size) by (nonlinear_arith)
        requires
            n >= 1,
            block_size > 0,
    ;
    assert(0 <= (ci - n) * block_size && 0 <= cj * block_size) by (nonlinear_arith)
        requires
            0 <= ci - n,
            0 <= cj,
            block_size > 0,
    ;
    lemma_cell_between(cy, block_size, cj, cj + 1);
    assert forall|m: int| 0 <= m <= at implies #[trigger] ray.at(m) == (cx - m, cy) by {
        assert(m * RAY_STEP * ray.cos == -(m * ONE)) by (nonlinear_arith)
            requires
                ray.cos == -ONE,
                RAY_STEP == 1,
        ;
        assert(ray.x + m * RAY_STEP * ray.cos == (cx - m) * ONE);
        assert(ray.y + m * RAY_STEP * ray.sin == cy * ONE);
    }
    assert forall|m: int| 0 <= m < at implies !#[trigger] blocked(
        grid,
        block_size,
        ray.at(m).0,
        ray.at(m).1,
    ) by {
        lemma_cell_between(cx - m, block_size, ci - n + 1, ci + 1);
        let i = (cx - m) / block_size;
        assert(grid[cj][i] == ' ');
    }
    lemma_cell_between(cx - at, block_size, ci - n, ci - n + 1);
    assert(ray.at(at) == (cx - at, cy));
    lemma_first_blocked_at(grid, block_size, ray, 0, at);
    vstd::arithmetic::div_mod::lemma_fundamental_div_mod_converse(
        cx - at,
        block_size,
        ci - n,
        block_size - 1,
    );
    vstd::arithmetic::div_mod::lemma_fundamental_div_mod_converse(cy, block_size, cj, half);
}

/// The same looking north, up a column of open cells; as looking west,
/// the ray is stopped at the last whole world unit of the wall's cell.
pub proof fn law_wall_ahead_north(
    grid: Seq<Seq<char>>,
    block_size: int,
    ray: Ray,
    ci: int,
    cj: int,
    n: int,
)
    requires
        block_size > 0,
        0 <= ci,
        1 <= n <= cj,
        ray.x == cell_center(ci, block_size),
        ray.y == cell_center(cj, block_size),
        ray.cos == 0,
        ray.sin == -ONE,
        forall|j: int|
            #![trigger in_grid(grid, ci, j)]
            #![trigger grid[j]]
            cj - n < j <= cj ==> in_grid(grid, ci, j) && grid[j][ci] == ' ',
        in_grid(grid, ci, cj - n),
        grid[cj - n][ci] != ' ',
        n * block_size - block_size + block_size / 2 + 1 < MAX_RAY_STEPS,
    ensures
        ray_hit(grid, block_size, ray).distance == n * block_size - block_size + block_size / 2
            + 1,
        ray_hit(grid, block_size, ray).impact == grid[cj - n][ci],
        ray_hit(grid, block_size, ray).tx == texture_u(
            block_size / 2,
            block_size - 1,
            block_size,
        ),
{
    let half = block_size / 2;
    let cx = ci * block_size + half;
    let cy = cj * block_size + half;
    let at = n * block_size - block_size + half + 1;
    assert((cj - n + 1) * block_size == cj * block_size - n * block_size + block_size)
        by (nonlinear_arith);
    assert((cj - n) * block_size == cj * block_size - n * block_size) by (nonlinear_arith);
    assert((ci + 1) * block_size == ci * block_size + block_size) by (nonlinear_arith);
    assert((cj + 1) * block_size == cj * block_size + block_size) by (nonlinear_arith);
    assert(n * block_size >= block_size) by (nonlinear_arith)
        requires
            n >= 1,
            block_size > 0,
    ;
    assert(0 <= (cj - n) * block_size && 0 <= ci * block_size) by (nonlinear_arith)
        requires
            0 <= cj - n,
            0 <= ci,
            block_size > 0,
    ;
    lemma_cell_between(cx, block_size, ci, ci + 1);
    assert forall|m: int| 0 <= m <= at implies #[trigger] ray.at(m) == (cx, cy - m) by {
        assert(ray.x + m * RAY_STEP * ray.cos == cx * ONE);
        assert(m * RAY_STEP * ray.sin == -(m * ONE)) by (nonlinear_arith)
            requires
                ray.sin == -ONE,
                RAY_STEP == 1,
        ;
        assert(ray.y + m * RAY_STEP * ray.sin == (cy - m) * ONE);
    }
    assert forall|m: int| 0 <= m < at implies !#[trigger] blocked(
        grid,
        block_size,
        ray.at(m).0,
        ray.at(m).1,
    ) by {
        lemma_cell_between(cy - m, block_size, cj - n + 1, cj + 1);
        let j = (cy - m) / block_size;
        assert(grid[j][ci] == ' ');
    }
    lemma_cell_between(cy - at, block_size, cj - n, cj - n + 1);
    assert(ray.at(at) == (cx, cy - at));
    lemma_first_blocked_at(grid, block_size, ray, 0, at);
    vstd::arithmetic::div_mod::lemma_fundamental_div_mod_converse(
        cy - at,
        block_size,
        cj - n,
        block_size - 1,
    );
    vstd::arithmetic::div_mod::lemma_fundamental_div_mod_converse(cx, block_size, ci, half);
}

/// The directions of the four axes: a ray at no angle runs east, a quarter
/// turn on south, half a turn on west, and three quarters on north.
pub proof fn law_axis_directions(table: Seq<i64>)
    requires
        valid_quarter_wave(table),
    ensures
        cosine(table, 0) == ONE && wave(table, 0) == 0,
        cosine(table, quarter(table)) == 0 && wave(table, quarter(table)) == ONE,
        cosine(table, 2 * quarter(table)) == -ONE && wave(table, 2 * quarter(table)) == 0,
        cosine(table, 3 * quarter(table)) == 0 && wave(table, 3 * quarter(table)) == -ONE,
{
    let q = quarter(table);
    vstd::arithmetic::div_mod::lemma_small_mod(0, (4 * q) as nat);
    vstd::arithmetic::div_mod::lemma_small_mod(q as nat, (4 * q) as nat);
    vstd::arithmetic::div_mod::lemma_small_mod((2 * q) as nat, (4 * q) as nat);
    vstd::arithmetic::div_mod::lemma_small_mod((3 * q) as nat, (4 * q) as nat);
    vstd::arithmetic::div_mod::lemma_mod_self_0(4 * q);
}

/// A frame drawn twice is the same frame: after the first-person view
/// is drawn on a cleared surface, clearing the surface and drawing the
/// view again from the same grid, camera and textures gives the same
/// pixels and the same draw color.
pub proof fn law_first_person_repeats(
    c: Canvas,
    grid: Seq<Seq<char>>,
    block_size: int,
    player: Player,
    textures: Seq<TextureData>,
    table: Seq<i64>,
)
    requires
        c.wf(),
    ensures
        ({
            let first = first_person(
                c.cleared(),
                grid,
                block_size,
                player,
                textures,
                table,
                c.width,
                c.width,
            );
            let second = first_person(
                first.cleared(),
                grid,
                block_size,
                player,
                textures,
                table,
                first.width,
                first.width,
            );
            second == first
        }),
{
    let first = first_person(c.cleared(), grid, block_size, player, textures, table, c.width, c.width);
    lemma_first_person_pixels(
        c.cleared(),
        grid,
        block_size,
        player,
        textures,
        table,
        c.width,
        c.width,
    );
    lemma_first_person_brush(c.cleared(), grid, block_size, player, textures, table, c.width, c.width);
    let second = first_person(
        first.cleared(),
        grid,
        block_size,
        player,
        textures,
        table,
        first.width,
        first.width,
    );
    lemma_first_person_pixels(
        first.cleared(),
        grid,
        block_size,
        player,
        textures,
        table,
        first.width,
        first.width,
    );
    lemma_first_person_brush(
        first.cleared(),
        grid,
        block_size,
        player,
        textures,
        table,
        first.width,
        first.width,
    );
    lemma_first_person_brush_settles(
        c.brush,
        first.brush,
        c.height,
        grid,
        block_size,
        player,
        textures,
        table,
        c.width,
        c.width,
    );
    assert forall|p: (int, int)| first.pixels.dom().contains(p) implies first.pixels[p]
        == second.pixels[p] by {
        assert(c.cleared().contains(p.0, p.1));
        assert(first.cleared().contains(p.0, p.1));
    }
    assert(second.pixels =~= first.pixels);
    Canvas::lemma_eq(second, first);
}

/// What was on the surface before it was cleared leaves no trace in the
/// pixels of the first-person view drawn after.
pub proof fn law_first_person_forgets(
    a: Canvas,
    b: Canvas,
    grid: Seq<Seq<char>>,
    block_size: int,
    player: Player,
    textures: Seq<TextureData>,
    table: Seq<i64>,
)
    requires
        a.wf(),
        b.wf(),
        a.width == b.width,
        a.height == b.height,
        a.background == b.background,
    ensures
        first_person(a.cleared(), grid, block_size, player, textures, table, a.width, a.width).pixels
            == first_person(
            b.cleared(),
            grid,
            block_size,
            player,
            textures,
            table,
            b.width,
            b.width,
        ).pixels,
{
    let from_a = first_person(
        a.cleared(),
        grid,
        block_size,
        player,
        textures,
        table,
        a.width,
        a.width,
    );
    let from_b = first_person(
        b.cleared(),
        grid,
        block_size,
        player,
        textures,
        table,
        b.width,
        b.width,
    );
    lemma_first_person_pixels(
        a.cleared(),
        grid,
        block_size,
        player,
        textures,
        table,
        a.width,
        a.width,
    );
    lemma_first_person_pixels(
        b.cleared(),
        grid,
        block_size,
        player,
        textures,
        table,
        b.width,
        b.width,
    );
    assert forall|p: (int, int)| from_a.pixels.dom().contains(p) implies from_a.pixels[p]
        == from_b.pixels[p] by {
        assert(a.cleared().contains(p.0, p.1));
        assert(b.cleared().contains(p.0, p.1));
    }
    assert(from_a.pixels =~= from_b.pixels);
}

/// The bearings of the four axes: a vector that points east lies at no
/// angle, one that points south a quarter turn on, one that points west
/// half a turn on, and one that points north a quarter turn back.
pub proof fn law_axis_bearings(table: Seq<i64>, d: int)
    requires
        valid_quarter_wave(table),
        d > 0,
    ensures
        bearing(table, 0, d) == 0,
        bearing(table, d, 0) == quarter(table),
        bearing(table, 0, -d) == 2 * quarter(table),
        bearing(table, -d, 0) == -quarter(table),
{
    let q = quarter(table);
    assert(not_past(table, d, 0, q)) by {
        assert(table[q] * 0 == 0) by (nonlinear_arith);
        assert(table[0] * d == 0) by (nonlinear_arith)
            requires
                table[0] == 0,
        ;
    }
    lemma_last_not_past(table, d, 0, q, q);
    assert(not_past(table, 0, d, 0)) by {
        assert(table[0] * d == 0) by (nonlinear_arith)
            requires
                table[0] == 0,
        ;
        assert(table[q] * 0 == 0) by (nonlinear_arith);
    }
    assert(!not_past(table, 0, d, 1)) by {
        assert(table[1] * d > 0) by (nonlinear_arith)
            requires
                table[1] > 0,
                d > 0,
        ;
        assert(table[q - 1] * 0 == 0) by (nonlinear_arith);
    }
    lemma_last_not_past(table, 0, d, 0, q);
}

/// The top-down view does not depend on the draw color that it finds.
pub proof fn law_top_down_ignores_draw_color(
    c: Canvas,
    color: Color,
    grid: Seq<Seq<char>>,
    block_size: int,
    player: Player,
    table: Seq<i64>,
)
    requires
        c.wf(),
        block_size > 0,
    ensures
        top_down(c.with_brush(color), grid, block_size, player, table) == top_down(
            c,
            grid,
            block_size,
            player,
            table,
        ),
{
    let m = grid.len() as int;
    let drawn = grid_canvas(c, grid, block_size, m);
    let recolored = grid_canvas(c.with_brush(color), grid, block_size, m);
    lemma_grid_canvas_pixels(c, grid, block_size, m);
    lemma_grid_canvas_pixels(c.with_brush(color), grid, block_size, m);
    assert forall|p: (int, int)| drawn.pixels.dom().contains(p) implies drawn.pixels[p]
        == recolored.pixels[p] by {
        assert(c.contains(p.0, p.1));
        assert(c.with_brush(color).contains(p.0, p.1));
    }
    assert(drawn.pixels =~= recolored.pixels);
    Canvas::lemma_eq(drawn.with_brush(Color::white()), recolored.with_brush(Color::white()));
}

/// The top-down view drawn twice is the same view: after it is drawn on
/// a cleared surface, clearing the surface and drawing it again from the
/// same grid and camera gives the same surface.
pub proof fn law_top_down_repeats(
    c: Canvas,
    grid: Seq<Seq<char>>,
    block_size: int,
    player: Player,
    table: Seq<i64>,
)
    requires
        c.wf(),
        block_size > 0,
    ensures
        ({
            let first = top_down(c.cleared(), grid, block_size, player, table);
            top_down(first.cleared(), grid, block_size, player, table) == first
        }),
{
    let first = top_down(c.cleared(), grid, block_size, player, table);
    crate::topdown::lemma_top_down_frame(c.cleared(), grid, block_size, player, table);
    assert(first.cleared().pixels =~= c.cleared().pixels);
    Canvas::lemma_eq(first.cleared(), c.cleared().with_brush(first.brush));
    law_top_down_ignores_draw_color(c.cleared(), first.brush, grid, block_size, player, table);
}

/// The minimap does not depend on the draw color that it finds, so that
/// the minimap drawn twice on a cleared surface is the same minimap.
pub proof fn law_minimap_ignores_draw_color(
    c: Canvas,
    color: Color,
    grid: Seq<Seq<char>>,
    block_size: int,
    player: Player,
    table: Seq<i64>,
    size: int,
    x: int,
    y: int,
    rays: int,
)
    ensures
        minimap_canvas(c.with_brush(color), grid, block_size, player, table, size, x, y, rays)
            == minimap_canvas(c, grid, block_size, player, table, size, x, y, rays),
{
}

/// With no key held and the pointer at rest, a facing within half a
/// turn of zero, either end included, stays as it is.
pub proof fn law_no_input_keeps_facing(table: Seq<i64>, player: Player, input: Controls)
    requires
        -2 * quarter(table) <= player.a <= 2 * quarter(table),
        input.turn == 0,
        !input.left,
        !input.right,
    ensures
        turned(table, player.a as int, input) == player.a,
{
}

/// Correcting a distance never enlarges it: whatever the offset of the
/// ray, the corrected distance of a hit is at most its raw distance.
pub proof fn law_fisheye_never_enlarges(table: Seq<i64>, distance: int, a: int)
    requires
        valid_quarter_wave(table),
        distance >= 1,
    ensures
        corrected_distance(distance, cosine(table, a)) <= distance * ONE,
{
    lemma_wave_bound(table, a + quarter(table));
    let c = cosine(table, a);
    assert(distance * c <= distance * ONE) by (nonlinear_arith)
        requires
            distance >= 1,
            c <= ONE,
    ;
}

/// Whether every sample of the table is greater than the one before it.
pub open spec fn strictly_rising(table: Seq<i64>) -> bool {
    forall|i: int, j: int| 0 <= i < j < table.len() ==> table[i] < table[j]
}

/// Read from a table that rises at every step, the cosine is strictly
/// smaller the farther the offset is from the facing, up to a quarter
/// turn on either side, and with it the corrected distance of a hit at
/// the same raw distance, as long as that has not reached the smallest
/// distance there is.
pub proof fn law_fisheye_strict(table: Seq<i64>, distance: int, a: int, b: int)
    requires
        valid_quarter_wave(table),
        strictly_rising(table),
        distance >= 1,
        -quarter(table) <= a <= quarter(table),
        -quarter(table) <= b <= quarter(table),
        (if a < 0 { -a } else { a }) < (if b < 0 { -b } else { b }),
    ensures
        cosine(table, b) < cosine(table, a),
        distance * cosine(table, b) >= 1 ==> corrected_distance(distance, cosine(table, b))
            < corrected_distance(distance, cosine(table, a)),
{
    lemma_cosine_first_quadrant(table, a);
    lemma_cosine_first_quadrant(table, b);
    law_fisheye_monotonic(table, distance, a, b);
}

/// The nearer the wall, the taller its stripe: a smaller corrected
/// distance never gives a lower stripe.
pub proof fn law_nearer_is_taller(height: int, near: int, far: int)
    requires
        0 <= height,
        1 <= near <= far,
    ensures
        stake_height(height, far) <= stake_height(height, near),
{
    let scaled = height * crate::render::WALL_SCALE * ONE;
    assert(0 <= scaled) by (nonlinear_arith)
        requires
            0 <= height,
            scaled == height * crate::render::WALL_SCALE * ONE,
            crate::render::WALL_SCALE == 100,
            ONE == 65536,
    ;
    vstd::arithmetic::div_mod::lemma_div_is_ordered_by_denominator(scaled, 2 * near, 2 * far);
}

/// A sprite that lies along an axis from a camera that faces along that
/// axis lies straight ahead of it: the angle between them is none. Seen
/// by a camera that sees at all, between the near and the far plane, it is
/// drawn.
pub proof fn law_sprite_dead_ahead(table: Seq<i64>, player: Player, d: int)
    requires
        valid_quarter_wave(table),
        d > 0,
    ensures
        player.a == 0 ==> sprite_angle(table, player.a as int, d, 0) == 0,
        player.a == quarter(table) ==> sprite_angle(table, player.a as int, 0, d) == 0,
        player.a == 2 * quarter(table) ==> sprite_angle(table, player.a as int, -d, 0) == 0,
        player.a == -quarter(table) ==> sprite_angle(table, player.a as int, 0, -d) == 0,
        player.a == 0 && player.fov > 0 && in_range(d, 0) ==> sprite_visible(table, player, d, 0),
{
    law_axis_bearings(table, d);
    vstd::arithmetic::div_mod::lemma_small_mod(0, (4 * quarter(table)) as nat);
}

} // verus!
