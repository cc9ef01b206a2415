//! The top-down view: the grid at one pixel to the world unit, the camera
//! and a fan of traced rays.

use vstd::prelude::*;
use crate::canvas::Canvas;
use crate::caster::{cast_ray, first_blocked, ray_of, ray_trace};
use crate::color::Color;
use crate::framebuffer::Framebuffer;
use crate::math::{div_toward_zero, lemma_in_cell, toward_zero};
use crate::maze::{grid_of, in_grid, Maze, Tile};
use crate::player::Player;
use crate::render::{column_angle, column_offset};
use crate::trig::{TrigTable, ONE};

verus! {

/// The number of rays traced in the top-down view.
pub const TOP_DOWN_RAYS: i32 = 20;

/// The color that the top-down view gives a cell that is not open floor.
pub open spec fn cell_color(cell: char) -> Color {
    match Tile::from_symbol(cell) {
        Tile::Goal => Color::green(),
        Tile::KeySpawn => Color::gold(),
        _ => Color::red(),
    }
}

/// The surface after the cell `cell` is drawn as a square of side
/// `block_size` with its corner at `(xo, yo)`. Open floor is not drawn.
pub open spec fn cell_canvas(c: Canvas, xo: int, yo: int, block_size: int, cell: char) -> Canvas {
    if cell == ' ' {
        c
    } else {
        c.with_brush(cell_color(cell)).fill_rect(xo, yo, xo + block_size, yo + block_size)
    }
}

/// The surface after the first `n` cells of row `j` are drawn.
pub open spec fn row_canvas(c: Canvas, row: Seq<char>, j: int, block_size: int, n: int) -> Canvas
    decreases n,
{
    if n <= 0 {
        c
    } else {
        cell_canvas(
            row_canvas(c, row, j, block_size, n - 1),
            (n - 1) * block_size,
            j * block_size,
            block_size,
            row[n - 1],
        )
    }
}

/// The surface after the first `m` rows of the grid are drawn.
pub open spec fn grid_canvas(c: Canvas, grid: Seq<Seq<char>>, block_size: int, m: int) -> Canvas
    decreases m,
{
    if m <= 0 {
        c
    } else {
        row_canvas(
            grid_canvas(c, grid, block_size, m - 1),
            grid[m - 1],
            m - 1,
            block_size,
            grid[m - 1].len() as int,
        )
    }
}

/// The color that the cells of the grid give the pixel `(x, y)`, or `None`
/// where no cell is drawn: each pixel shows the cell that its world unit
/// falls in, unless that is open floor.
pub open spec fn grid_pixel(grid: Seq<Seq<char>>, block_size: int, x: int, y: int) -> Option<Color> {
    let i = x / block_size;
    let j = y / block_size;
    if in_grid(grid, i, j) && grid[j][i] != ' ' {
        Some(cell_color(grid[j][i]))
    } else {
        None
    }
}

/// After the first `n` cells of row `j` are drawn, each pixel that falls
/// in one of them that is not open floor has the color of that cell, and
/// every other pixel is as it was.
pub proof fn lemma_row_canvas_pixels(c: Canvas, row: Seq<char>, j: int, block_size: int, n: int)
    requires
        c.wf(),
        block_size > 0,
        0 <= n <= row.len(),
    ensures
        row_canvas(c, row, j, block_size, n).wf(),
        row_canvas(c, row, j, block_size, n).width == c.width,
        row_canvas(c, row, j, block_size, n).height == c.height,
        row_canvas(c, row, j, block_size, n).background == c.background,
        forall|p: (int, int)|
            c.contains(p.0, p.1) ==> #[trigger] row_canvas(c, row, j, block_size, n).pixels[p] == (
            if p.1 / block_size == j && 0 <= p.0 / block_size < n && row[p.0 / block_size] != ' ' {
                cell_color(row[p.0 / block_size])
            } else {
                c.pixels[p]
            }),
    decreases n,
{
    if n > 0 {
        lemma_row_canvas_pixels(c, row, j, block_size, n - 1);
        let before = row_canvas(c, row, j, block_size, n - 1);
        let after = row_canvas(c, row, j, block_size, n);
        assert forall|p: (int, int)| c.contains(p.0, p.1) implies #[trigger] after.pixels[p] == (
        if p.1 / block_size == j && 0 <= p.0 / block_size < n && row[p.0 / block_size] != ' ' {
            cell_color(row[p.0 / block_size])
        } else {
            c.pixels[p]
        }) by {
            lemma_in_cell(p.0, block_size, n - 1);
            lemma_in_cell(p.1, block_size, j);
            assert(before.pixels.dom().contains(p));
        }
    }
}

/// After the first `m` rows of the grid are drawn, each pixel that falls
/// in a cell of those rows that is not open floor has the color of that
/// cell, and every other pixel is as it was.
pub proof fn lemma_grid_canvas_pixels(c: Canvas, grid: Seq<Seq<char>>, block_size: int, m: int)
    requires
        c.wf(),
        block_size > 0,
        0 <= m <= grid.len(),
    ensures
        grid_canvas(c, grid, block_size, m).wf(),
        grid_canvas(c, grid, block_size, m).width == c.width,
        grid_canvas(c, grid, block_size, m).height == c.height,
        grid_canvas(c, grid, block_size, m).background == c.background,
        forall|p: (int, int)|
            c.contains(p.0, p.1) ==> #[trigger] grid_canvas(c, grid, block_size, m).pixels[p] == (
            match grid_pixel(grid, block_size, p.0, p.1) {
                Some(color) if p.1 / block_size < m => color,
                _ => c.pixels[p],
            }),
    decreases m,
{
    if m > 0 {
        lemma_grid_canvas_pixels(c, grid, block_size, m - 1);
        let before = grid_canvas(c, grid, block_size, m - 1);
        lemma_row_canvas_pixels(before, grid[m - 1], m - 1, block_size, grid[m - 1].len() as int);
        assert forall|p: (int, int)| c.contains(p.0, p.1) implies #[trigger] grid_canvas(
            c,
            grid,
            block_size,
            m,
        ).pixels[p] == (match grid_pixel(grid, block_size, p.0, p.1) {
            Some(color) if p.1 / block_size < m => color,
            _ => c.pixels[p],
        }) by {
            assert(before.contains(p.0, p.1));
            lemma_in_cell(p.1, block_size, 0);
            vstd::arithmetic::div_mod::lemma_div_pos_is_pos(p.1, block_size);
            vstd::arithmetic::div_mod::lemma_div_pos_is_pos(p.0, block_size);
        }
    }
}

/// The surface after the first `n` of `rays` rays that fan out over the
/// field of view are traced on it, each up to where it is stopped.
pub open spec fn rays_canvas(
    c: Canvas,
    grid: Seq<Seq<char>>,
    block_size: int,
    player: Player,
    table: Seq<i64>,
    rays: int,
    n: int,
) -> Canvas
    decreases n,
{
    if n <= 0 {
        c
    } else {
        let ray = ray_of(table, player, column_offset(player.fov as int, n - 1, rays));
        rays_canvas(c, grid, block_size, player, table, rays, n - 1).with_brush(
            Color::white_smoke(),
        ).plot_seq(ray_trace(ray, first_blocked(grid, block_size, ray, 0)))
    }
}

/// The surface after the top-down view is drawn: the cells, then the
/// camera as one white pixel at its world unit, rounded toward zero, then
/// the rays.
pub open spec fn top_down(
    c: Canvas,
    grid: Seq<Seq<char>>,
    block_size: int,
    player: Player,
    table: Seq<i64>,
) -> Canvas {
    rays_canvas(
        grid_canvas(c, grid, block_size, grid.len() as int).with_brush(Color::white()).plot(
            toward_zero(player.pos.x as int, ONE as int),
            toward_zero(player.pos.y as int, ONE as int),
        ),
        grid,
        block_size,
        player,
        table,
        TOP_DOWN_RAYS as int,
        TOP_DOWN_RAYS as int,
    )
}

/// Tracing rays keeps the size of the surface and its background.
pub proof fn lemma_rays_canvas_frame(
    c: Canvas,
    grid: Seq<Seq<char>>,
    block_size: int,
    player: Player,
    table: Seq<i64>,
    rays: int,
    n: int,
)
    ensures
        rays_canvas(c, grid, block_size, player, table, rays, n).width == c.width,
        rays_canvas(c, grid, block_size, player, table, rays, n).height == c.height,
        rays_canvas(c, grid, block_size, player, table, rays, n).background == c.background,
    decreases n,
{
    if n > 0 {
        lemma_rays_canvas_frame(c, grid, block_size, player, table, rays, n - 1);
        let ray = ray_of(table, player, column_offset(player.fov as int, n - 1, rays));
        rays_canvas(c, grid, block_size, player, table, rays, n - 1).with_brush(
            Color::white_smoke(),
        ).lemma_plot_seq(ray_trace(ray, first_blocked(grid, block_size, ray, 0)));
    }
}

/// The top-down view keeps the size of the surface and its background.
pub proof fn lemma_top_down_frame(
    c: Canvas,
    grid: Seq<Seq<char>>,
    block_size: int,
    player: Player,
    table: Seq<i64>,
)
    requires
        c.wf(),
        block_size > 0,
    ensures
        top_down(c, grid, block_size, player, table).width == c.width,
        top_down(c, grid, block_size, player, table).height == c.height,
        top_down(c, grid, block_size, player, table).background == c.background,
{
    lemma_grid_canvas_pixels(c, grid, block_size, grid.len() as int);
    lemma_rays_canvas_frame(
        grid_canvas(c, grid, block_size, grid.len() as int).with_brush(Color::white()).plot(
            toward_zero(player.pos.x as int, ONE as int),
            toward_zero(player.pos.y as int, ONE as int),
        ),
        grid,
        block_size,
        player,
        table,
        TOP_DOWN_RAYS as int,
        TOP_DOWN_RAYS as int,
    );
}

fn draw_cell_at(framebuffer: &mut Framebuffer, xo: u128, yo: u128, block_size: usize, cell: char)
    ensures
        final(framebuffer)@ == cell_canvas(
            old(framebuffer)@,
            xo as int,
            yo as int,
            block_size as int,
            cell,
        ),
{
    if cell == ' ' {
        return ;
    }
    let color = match Tile::from_symbol(cell) {
        Tile::Goal => Color::green(),
        Tile::KeySpawn => Color::gold(),
        _ => Color::red(),
    };
    framebuffer.set_current_color(color);
    if xo > 0x7fff_ffff || yo > 0x7fff_ffff {
        proof {
            framebuffer.lemma_view_wf();
            let filled = framebuffer@.fill_rect(
                xo as int,
                yo as int,
                xo + block_size,
                yo + block_size,
            );
            assert(filled.pixels =~= framebuffer@.pixels);
        }
        return ;
    }
    framebuffer.fill_block(
        xo as i128,
        yo as i128,
        xo as i128 + block_size as i128,
        yo as i128 + block_size as i128,
    );
}

/// Draws one cell of the grid as a square of side `block_size` with its
/// corner at `(xo, yo)`: the goal green, the key spawn gold, a wall red,
/// open floor not at all.
pub fn draw_cell(framebuffer: &mut Framebuffer, xo: usize, yo: usize, block_size: usize, cell: char)
    ensures
        final(framebuffer)@ == cell_canvas(
            old(framebuffer)@,
            xo as int,
            yo as int,
            block_size as int,
            cell,
        ),
{
    draw_cell_at(framebuffer, xo as u128, yo as u128, block_size, cell);
}

/// Draws the top-down view: every cell of the grid, the camera as one
/// white pixel, and a fan of rays traced from the camera over its field of
/// view up to where each is stopped.
pub fn render_maze(
    framebuffer: &mut Framebuffer,
    maze: &Maze,
    block_size: usize,
    player: &Player,
    trig: &TrigTable,
)
    requires
        block_size > 0,
    ensures
        final(framebuffer)@ == top_down(
            old(framebuffer)@,
            grid_of(maze),
            block_size as int,
            *player,
            trig@,
        ),
{
    let ghost before = framebuffer@;
    let ghost grid = grid_of(maze);
    let mut j: usize = 0;
    while j < maze.len()
        invariant
            j <= maze.len(),
            grid == grid_of(maze),
            framebuffer@ == grid_canvas(before, grid, block_size as int, j as int),
        decreases maze.len() - j,
    {
        let row = &maze[j];
        let ghost row_start = framebuffer@;
        let mut i: usize = 0;
        while i < row.len()
            invariant
                i <= row.len(),
                j < maze.len(),
                row@ == grid[j as int],
                framebuffer@ == row_canvas(row_start, row@, j as int, block_size as int, i as int),
            decreases row.len() - i,
        {
            proof {
                assert(i * block_size <= 0xffff_ffff_ffff_ffff * 0xffff_ffff_ffff_ffff)
                    by (nonlinear_arith)
                    requires
                        0 <= i <= 0xffff_ffff_ffff_ffff,
                        0 <= block_size <= 0xffff_ffff_ffff_ffff,
                ;
                assert(j * block_size <= 0xffff_ffff_ffff_ffff * 0xffff_ffff_ffff_ffff)
                    by (nonlinear_arith)
                    requires
                        0 <= j <= 0xffff_ffff_ffff_ffff,
                        0 <= block_size <= 0xffff_ffff_ffff_ffff,
                ;
            }
            let xo: u128 = (i as u128) * (block_size as u128);
            let yo: u128 = (j as u128) * (block_size as u128);
            draw_cell_at(framebuffer, xo, yo, block_size, row[i]);
            i = i + 1;
        }
        j = j + 1;
    }
    framebuffer.set_current_color(Color::white());
    let px: i64 = div_toward_zero(player.pos.x, ONE);
    let py: i64 = div_toward_zero(player.pos.y, ONE);
    framebuffer.plot_at(px as i128, py as i128);
    let ghost dotted = framebuffer@;
    let mut r: i32 = 0;
    while r < TOP_DOWN_RAYS
        invariant
            0 <= r <= TOP_DOWN_RAYS,
            block_size > 0,
            grid == grid_of(maze),
            framebuffer@ == rays_canvas(
                dotted,
                grid,
                block_size as int,
                *player,
                trig@,
                TOP_DOWN_RAYS as int,
                r as int,
            ),
        decreases TOP_DOWN_RAYS - r,
    {
        let a = column_angle(player.fov, r, TOP_DOWN_RAYS);
        cast_ray(framebuffer, maze, player, a, block_size, true, trig);
        r = r + 1;
    }
}

} // verus!
