//! The minimap: the grid, the camera and a fan of traced rays, scaled into
//! a square region of the surface.

use vstd::prelude::*;
use crate::canvas::Canvas;
use crate::caster::{cast, first_blocked, ray_of, trace_points, trace_ray, RAY_STEP};
use crate::caster::lemma_first_blocked_bounds;
use crate::color::Color;
use crate::framebuffer::Framebuffer;
use crate::line::line_points;
use crate::math::{lemma_in_cell, toward_zero};
use crate::maze::{grid_of, in_grid, Maze, Tile};
use crate::player::{grid_cell, grid_index, Player};
use crate::render::{column_angle, column_offset};
use crate::trig::{cosine, wave, TrigTable, ONE};

verus! {

/// The length in pixels of the line that shows where the camera looks.
pub const FACING_LENGTH: i64 = 8;

/// The translucent black behind the minimap.
pub open spec fn backdrop_color() -> Color {
    Color { r: 0, g: 0, b: 0, a: 180 }
}

/// The color that the minimap gives a cell.
pub open spec fn minimap_cell_color(cell: char) -> Color {
    match Tile::from_symbol(cell) {
        Tile::Empty => Color::dark_gray(),
        Tile::Goal => Color::green(),
        Tile::KeySpawn => Color::gold(),
        Tile::Wall(_) => Color::red(),
    }
}

/// The surface after the backdrop of the minimap and its white border,
/// one pixel wide, are drawn over the square of side `size` at `(x, y)`.
pub open spec fn panel_canvas(c: Canvas, x: int, y: int, size: int) -> Canvas {
    c.with_brush(backdrop_color()).fill_rect(x, y, x + size, y + size).with_brush(
        Color::white(),
    ).fill_rect(x, y, x + size, y + 1).fill_rect(x, y + size - 1, x + size, y + size).fill_rect(
        x,
        y,
        x + 1,
        y + size,
    ).fill_rect(x + size - 1, y, x + size, y + size)
}

/// The surface after one cell is drawn as a square of side `cell_size`
/// with its corner at `(x, y)`.
pub open spec fn mini_cell(c: Canvas, x: int, y: int, cell_size: int, cell: char) -> Canvas {
    c.with_brush(minimap_cell_color(cell)).fill_rect(x, y, x + cell_size, y + cell_size)
}

/// The surface after the first `n` cells of row `j` are drawn.
pub open spec fn mini_row(
    c: Canvas,
    row: Seq<char>,
    j: int,
    x: int,
    y: int,
    cell_size: int,
    n: int,
) -> Canvas
    decreases n,
{
    if n <= 0 {
        c
    } else {
        mini_cell(
            mini_row(c, row, j, x, y, cell_size, n - 1),
            x + (n - 1) * cell_size,
            y + j * cell_size,
            cell_size,
            row[n - 1],
        )
    }
}

/// The surface after the first `m` rows of the grid are drawn.
pub open spec fn mini_grid(
    c: Canvas,
    grid: Seq<Seq<char>>,
    x: int,
    y: int,
    cell_size: int,
    m: int,
) -> Canvas
    decreases m,
{
    if m <= 0 {
        c
    } else {
        mini_row(
            mini_grid(c, grid, x, y, cell_size, m - 1),
            grid[m - 1],
            m - 1,
            x,
            y,
            cell_size,
            grid[m - 1].len() as int,
        )
    }
}

/// The color that the cells of the minimap give the pixel `(px, py)`, or
/// `None` where no cell is drawn: each pixel of the region shows the cell
/// that it falls in.
pub open spec fn mini_pixel(
    grid: Seq<Seq<char>>,
    x: int,
    y: int,
    cell_size: int,
    px: int,
    py: int,
) -> Option<Color> {
    let i = (px - x) / cell_size;
    let j = (py - y) / cell_size;
    if cell_size > 0 && in_grid(grid, i, j) {
        Some(minimap_cell_color(grid[j][i]))
    } else {
        None
    }
}

/// After the first `n` cells of row `j` are drawn, each pixel that falls
/// in one of them has the color of that cell, and every other pixel is
/// as it was.
pub proof fn lemma_mini_row_pixels(
    c: Canvas,
    row: Seq<char>,
    j: int,
    x: int,
    y: int,
    cell_size: int,
    n: int,
)
    requires
        c.wf(),
        0 <= n <= row.len(),
    ensures
        mini_row(c, row, j, x, y, cell_size, n).wf(),
        mini_row(c, row, j, x, y, cell_size, n).width == c.width,
        mini_row(c, row, j, x, y, cell_size, n).height == c.height,
        mini_row(c, row, j, x, y, cell_size, n).background == c.background,
        forall|p: (int, int)|
            c.contains(p.0, p.1) ==> #[trigger] mini_row(c, row, j, x, y, cell_size, n).pixels[p]
                == (if cell_size > 0 && (p.1 - y) / cell_size == j && 0 <= (p.0 - x) / cell_size
                < n {
                minimap_cell_color(row[(p.0 - x) / cell_size])
            } else {
                c.pixels[p]
            }),
    decreases n,
{
    if n > 0 {
        lemma_mini_row_pixels(c, row, j, x, y, cell_size, n - 1);
        let before = mini_row(c, row, j, x, y, cell_size, n - 1);
        let after = mini_row(c, row, j, x, y, cell_size, n);
        assert forall|p: (int, int)| c.contains(p.0, p.1) implies #[trigger] after.pixels[p] == (
        if cell_size > 0 && (p.1 - y) / cell_size == j && 0 <= (p.0 - x) / cell_size < n {
            minimap_cell_color(row[(p.0 - x) / cell_size])
        } else {
            c.pixels[p]
        }) by {
            if cell_size > 0 {
                lemma_in_cell(p.0 - x, cell_size, n - 1);
                lemma_in_cell(p.1 - y, cell_size, j);
            }
            assert(before.pixels.dom().contains(p));
        }
    }
}

/// After the first `m` rows of the grid are drawn, each pixel that falls
/// in a cell of those rows has the color of that cell, and every other
/// pixel is as it was.
pub proof fn lemma_mini_grid_pixels(
    c: Canvas,
    grid: Seq<Seq<char>>,
    x: int,
    y: int,
    cell_size: int,
    m: int,
)
    requires
        c.wf(),
        0 <= m <= grid.len(),
    ensures
        mini_grid(c, grid, x, y, cell_size, m).wf(),
        mini_grid(c, grid, x, y, cell_size, m).width == c.width,
        mini_grid(c, grid, x, y, cell_size, m).height == c.height,
        mini_grid(c, grid, x, y, cell_size, m).background == c.background,
        forall|p: (int, int)|
            c.contains(p.0, p.1) ==> #[trigger] mini_grid(c, grid, x, y, cell_size, m).pixels[p]
                == (match mini_pixel(grid, x, y, cell_size, p.0, p.1) {
                Some(color) if (p.1 - y) / cell_size < m => color,
                _ => c.pixels[p],
            }),
    decreases m,
{
    if m > 0 {
        lemma_mini_grid_pixels(c, grid, x, y, cell_size, m - 1);
        let before = mini_grid(c, grid, x, y, cell_size, m - 1);
        lemma_mini_row_pixels(before, grid[m - 1], m - 1, x, y, cell_size, grid[m - 1].len() as int);
        assert forall|p: (int, int)| c.contains(p.0, p.1) implies #[trigger] mini_grid(
            c,
            grid,
            x,
            y,
            cell_size,
            m,
        ).pixels[p] == (match mini_pixel(grid, x, y, cell_size, p.0, p.1) {
            Some(color) if (p.1 - y) / cell_size < m => color,
            _ => c.pixels[p],
        }) by {
            assert(before.contains(p.0, p.1));
        }
    }
}

/// Where along one axis the minimap marks the camera: at the corner of
/// the cell that the camera stands in.
pub open spec fn marker_at(origin: int, pos: int, block_size: int, cell_size: int) -> int {
    origin + grid_index(pos, block_size) * cell_size
}

/// The surface after the camera is marked with a blue square of side 3
/// around `(mx, my)` and a yellow line from there toward where it looks.
pub open spec fn marker_canvas(c: Canvas, mx: int, my: int, table: Seq<i64>, facing: int) -> Canvas {
    c.with_brush(Color::blue()).fill_rect(mx - 1, my - 1, mx + 2, my + 2).with_brush(
        Color::yellow(),
    ).plot_seq(
        line_points(
            mx,
            my,
            mx + toward_zero(cosine(table, facing) * FACING_LENGTH, ONE as int),
            my + toward_zero(wave(table, facing) * FACING_LENGTH, ONE as int),
        ),
    )
}

/// The surface after the first `n` of `rays` rays that fan out over the
/// field of view are traced on the minimap, each up to where it is stopped.
pub open spec fn mini_rays(
    c: Canvas,
    grid: Seq<Seq<char>>,
    block_size: int,
    player: Player,
    table: Seq<i64>,
    x: int,
    y: int,
    cell_size: int,
    rays: int,
    n: int,
) -> Canvas
    decreases n,
{
    if n <= 0 {
        c
    } else {
        let ray = ray_of(table, player, column_offset(player.fov as int, n - 1, rays));
        mini_rays(c, grid, block_size, player, table, x, y, cell_size, rays, n - 1).with_brush(
            Color::white_smoke(),
        ).plot_seq(
            trace_points(ray, first_blocked(grid, block_size, ray, 0), x, y, cell_size, block_size),
        )
    }
}

/// The side in pixels of one cell of the minimap: the side of the region
/// shared out among the cells of the first row of the grid. A grid with
/// no row, or with nothing in its first row, has cells of no size.
pub open spec fn minimap_cell_size(grid: Seq<Seq<char>>, size: int) -> int {
    if grid.len() > 0 && grid[0].len() > 0 {
        size / (grid[0].len() as int)
    } else {
        0
    }
}

/// The surface after the minimap is drawn in the square of side `size`
/// at `(x, y)`: backdrop and border, the cells, the camera and the rays.
pub open spec fn minimap_canvas(
    c: Canvas,
    grid: Seq<Seq<char>>,
    block_size: int,
    player: Player,
    table: Seq<i64>,
    size: int,
    x: int,
    y: int,
    rays: int,
) -> Canvas {
    let cell_size = minimap_cell_size(grid, size);
    mini_rays(
        marker_canvas(
            mini_grid(panel_canvas(c, x, y, size), grid, x, y, cell_size, grid.len() as int),
            marker_at(x, player.pos.x as int, block_size, cell_size),
            marker_at(y, player.pos.y as int, block_size, cell_size),
            table,
            player.a as int,
        ),
        grid,
        block_size,
        player,
        table,
        x,
        y,
        cell_size,
        rays,
        rays,
    )
}

fn marker_coordinate(origin: i32, pos: i64, block_size: usize, cell_size: usize) -> (m: i128)
    requires
        block_size > 0,
    ensures
        m == marker_at(origin as int, pos as int, block_size as int, cell_size as int),
        -0x8000_0000 <= m <= 0x8000_0000 + 0x1_0000_0000_0000 * 0x1_0000_0000_0000_0000,
{
    let index: i128 = grid_cell(pos, block_size) as i128;
    proof {
        assert(0 <= index * cell_size <= 0x1_0000_0000_0000 * 0x1_0000_0000_0000_0000)
            by (nonlinear_arith)
            requires
                0 <= index <= 0x1_0000_0000_0000,
                0 <= cell_size <= 0x1_0000_0000_0000_0000,
        ;
    }
    origin as i128 + index * (cell_size as i128)
}

fn facing_extent(scaled: i64) -> (e: i64)
    requires
        -ONE <= scaled <= ONE,
    ensures
        e == toward_zero(scaled * FACING_LENGTH, ONE as int),
        -FACING_LENGTH <= e <= FACING_LENGTH,
{
    let v: i64 = scaled * FACING_LENGTH;
    if v >= 0 {
        v / ONE
    } else {
        -((-v) / ONE)
    }
}

/// Draws the minimap in the square of side `minimap_size` at `position`:
/// a translucent backdrop with a white border; every cell of the grid,
/// colored by its kind; the camera as a blue square with a yellow line
/// toward where it looks; and `sample_rays` rays traced from the camera
/// over its field of view, each up to where it is stopped. A grid with no
/// row, or with nothing in its first row, is drawn with cells of no size.
pub fn render_minimap(
    framebuffer: &mut Framebuffer,
    maze: &Maze,
    block_size: usize,
    player: &Player,
    minimap_size: usize,
    position: (i32, i32),
    sample_rays: i32,
    trig: &TrigTable,
)
    requires
        block_size > 0,
    ensures
        final(framebuffer)@ == minimap_canvas(
            old(framebuffer)@,
            grid_of(maze),
            block_size as int,
            *player,
            trig@,
            minimap_size as int,
            position.0 as int,
            position.1 as int,
            sample_rays as int,
        ),
{
    let cell_size: usize = if maze.len() > 0 && maze[0].len() > 0 {
        minimap_size / maze[0].len()
    } else {
        0
    };
    let pos_x: i128 = position.0 as i128;
    let pos_y: i128 = position.1 as i128;
    let size: i128 = minimap_size as i128;
    let ghost before = framebuffer@;
    let ghost grid = grid_of(maze);

    framebuffer.set_current_color(Color::new(0, 0, 0, 180));
    framebuffer.fill_block(pos_x, pos_y, pos_x + size, pos_y + size);
    framebuffer.set_current_color(Color::white());
    framebuffer.fill_block(pos_x, pos_y, pos_x + size, pos_y + 1);
    framebuffer.fill_block(pos_x, pos_y + size - 1, pos_x + size, pos_y + size);
    framebuffer.fill_block(pos_x, pos_y, pos_x + 1, pos_y + size);
    framebuffer.fill_block(pos_x + size - 1, pos_y, pos_x + size, pos_y + size);
    let ghost framed = framebuffer@;
    assert(framed == panel_canvas(before, pos_x as int, pos_y as int, size as int));

    let mut j: usize = 0;
    while j < maze.len()
        invariant
            j <= maze.len(),
            grid == grid_of(maze),
            pos_x == position.0,
            pos_y == position.1,
            framebuffer@ == mini_grid(
                framed,
                grid,
                pos_x as int,
                pos_y as int,
                cell_size as int,
                j as int,
            ),
        decreases maze.len() - j,
    {
        let row = &maze[j];
        let ghost row_start = framebuffer@;
        let mut i: usize = 0;
        while i < row.len()
            invariant
                i <= row.len(),
                j < maze.len(),
                row@ == grid[j as int],
                pos_x == position.0,
                pos_y == position.1,
                framebuffer@ == mini_row(
                    row_start,
                    row@,
                    j as int,
                    pos_x as int,
                    pos_y as int,
                    cell_size as int,
                    i as int,
                ),
            decreases row.len() - i,
        {
            proof {
                assert(0 <= i * cell_size <= 0xffff_ffff_ffff_ffff * 0xffff_ffff_ffff_ffff)
                    by (nonlinear_arith)
                    requires
                        0 <= i <= 0xffff_ffff_ffff_ffff,
                        0 <= cell_size <= 0xffff_ffff_ffff_ffff,
                ;
                assert(0 <= j * cell_size <= 0xffff_ffff_ffff_ffff * 0xffff_ffff_ffff_ffff)
                    by (nonlinear_arith)
                    requires
                        0 <= j <= 0xffff_ffff_ffff_ffff,
                        0 <= cell_size <= 0xffff_ffff_ffff_ffff,
                ;
            }
            let across: u128 = (i as u128) * (cell_size as u128);
            let down: u128 = (j as u128) * (cell_size as u128);
            let cell = row[i];
            let color = match Tile::from_symbol(cell) {
                Tile::Empty => Color::dark_gray(),
                Tile::Goal => Color::green(),
                Tile::KeySpawn => Color::gold(),
                Tile::Wall(_) => Color::red(),
            };
            framebuffer.set_current_color(color);
            if across > 0xffff_ffff || down > 0xffff_ffff {
                proof {
                    framebuffer.lemma_view_wf();
                    let filled = framebuffer@.fill_rect(
                        pos_x + across,
                        pos_y + down,
                        pos_x + across + cell_size,
                        pos_y + down + cell_size,
                    );
                    assert(filled.pixels =~= framebuffer@.pixels);
                }
            } else {
                let xo: i128 = pos_x + across as i128;
                let yo: i128 = pos_y + down as i128;
                framebuffer.fill_block(xo, yo, xo + cell_size as i128, yo + cell_size as i128);
            }
            i = i + 1;
        }
        j = j + 1;
    }

    let mx = marker_coordinate(position.0, player.pos.x, block_size, cell_size);
    let my = marker_coordinate(position.1, player.pos.y, block_size, cell_size);
    framebuffer.set_current_color(Color::blue());
    framebuffer.fill_block(mx - 1, my - 1, mx + 2, my + 2);
    let ex = facing_extent(trig.cos(player.a));
    let ey = facing_extent(trig.sin(player.a));
    framebuffer.set_current_color(Color::yellow());
    framebuffer.draw_line_from(mx, my, ex, ey);

    let ghost marked = framebuffer@;
    let mut r: i32 = 0;
    while r < sample_rays
        invariant
            0 <= r,
            0 < sample_rays ==> r <= sample_rays,
            sample_rays <= 0 ==> r == 0,
            block_size > 0,
            grid == grid_of(maze),
            pos_x == position.0,
            pos_y == position.1,
            framebuffer@ == mini_rays(
                marked,
                grid,
                block_size as int,
                *player,
                trig@,
                pos_x as int,
                pos_y as int,
                cell_size as int,
                sample_rays as int,
                r as int,
            ),
        decreases sample_rays - r,
    {
        let a = column_angle(player.fov, r, sample_rays);
        let hit = cast(maze, player, a, block_size, trig);
        proof {
            lemma_first_blocked_bounds(
                grid,
                block_size as int,
                ray_of(trig@, *player, a as int),
                0,
            );
        }
        trace_ray(
            framebuffer,
            player,
            a,
            hit.distance / RAY_STEP,
            trig,
            position.0,
            position.1,
            cell_size,
            block_size,
        );
        r = r + 1;
    }
}

} // verus!
