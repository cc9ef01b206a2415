//! The screens of the game, the rules that lead from one to the next, and
//! the frame of a round in play.

use vstd::prelude::*;
use crate::canvas::Canvas;
use crate::color::Color;
use crate::effects::{apply_flashlight_effect, apply_general_darkness};
use crate::effects::{darkness_canvas, flashlight_canvas};
use crate::framebuffer::Framebuffer;
use crate::game::GameState;
use crate::maze::{grid_of, Maze};
use crate::minimap::{minimap_canvas, render_minimap};
use crate::player::{Player, Vector2};
use crate::render::{first_person, render_3d};
use crate::sprite::{cell_center, draw_goal_sprite, goals_canvas, keys_canvas, level_keys, render_key};
use crate::text::Font;
use crate::textures::{TextureData, TextureManager};
use crate::topdown::{render_maze, top_down};
use crate::trig::{TrigTable, ONE};
use crate::ui::{draw_life_bar, life_bar_canvas};

verus! {

/// Which screen is shown.
#[derive(Clone, Copy, Debug, PartialEq, Eq, Structural)]
pub enum ScreenState {
    MainMenu,
    Playing,
    Win,
    Lose,
}

/// The number of levels that the menu offers.
pub const LEVELS: i32 = 3;

/// The time that must pass between two step sounds, in milliseconds.
pub const STEP_COOLDOWN: u64 = 250;

/// The level that the menu points at after the keys of one frame: up
/// goes to the level before and from the first to the last, down to the
/// level after and from the last to the first.
pub fn menu_select(selected: i32, up: bool, down: bool) -> (level: i32)
    ensures
        level == ({
            let raised = if up {
                if selected > 1 {
                    selected - 1
                } else {
                    LEVELS as int
                }
            } else {
                selected as int
            };
            if down {
                if raised < LEVELS {
                    raised + 1
                } else {
                    1
                }
            } else {
                raised
            }
        }),
{
    let mut level = selected;
    if up {
        level = if level > 1 { level - 1 } else { LEVELS };
    }
    if down {
        level = if level < LEVELS { level + 1 } else { 1 };
    }
    level
}

/// The number of the maze that is played at `level`: the level's own for
/// a level that the menu offers, the first for any other.
pub fn maze_number(level: i32) -> (number: i32)
    ensures
        number == (if 1 <= level <= LEVELS { level } else { 1 }),
{
    if 1 <= level && level <= LEVELS {
        level
    } else {
        1
    }
}

/// Whether `(i, j)` is where a round starts: the first open cell of the
/// last row that has one.
pub open spec fn is_spawn(grid: Seq<Seq<char>>, i: int, j: int) -> bool {
    &&& 0 <= j < grid.len()
    &&& 0 <= i < grid[j].len()
    &&& grid[j][i] == ' '
    &&& forall|k: int| 0 <= k < i ==> grid[j][k] != ' '
    &&& forall|m: int, k: int| j < m < grid.len() && 0 <= k < grid[m].len() ==> grid[m][k] != ' '
}

/// Whether the grid has any open cell.
pub open spec fn has_open(grid: Seq<Seq<char>>) -> bool {
    exists|m: int, k: int| 0 <= m < grid.len() && 0 <= k < grid[m].len() && grid[m][k] == ' '
}

/// The cell where a round starts: the first open cell of the last row
/// that has one, or `None` in a grid with no open cell.
pub fn spawn_cell(maze: &Maze) -> (cell: Option<(usize, usize)>)
    ensures
        cell.is_some() == has_open(grid_of(maze)),
        cell matches Some((i, j)) ==> is_spawn(grid_of(maze), i as int, j as int),
{
    let ghost grid = grid_of(maze);
    let mut j: usize = maze.len();
    while j > 0
        invariant
            j <= maze.len(),
            grid == grid_of(maze),
            forall|m: int, k: int|
                j <= m < grid.len() && 0 <= k < grid[m].len() ==> grid[m][k] != ' ',
        decreases j,
    {
        j = j - 1;
        let row = &maze[j];
        let mut i: usize = 0;
        while i < row.len()
            invariant
                i <= row.len(),
                j < maze.len(),
                grid == grid_of(maze),
                row@ == grid[j as int],
                forall|k: int| 0 <= k < i ==> row@[k] != ' ',
                forall|m: int, k: int|
                    j < m < grid.len() && 0 <= k < grid[m].len() ==> grid[m][k] != ' ',
            decreases row.len() - i,
        {
            if row[i] == ' ' {
                return Some((i, j));
            }
            i = i + 1;
        }
    }
    None
}

/// The screen after a frame of the menu: the round begins when a level
/// is chosen.
pub fn after_menu(enter: bool) -> (next: ScreenState)
    ensures
        next == (if enter { ScreenState::Playing } else { ScreenState::MainMenu }),
{
    if enter {
        ScreenState::Playing
    } else {
        ScreenState::MainMenu
    }
}

/// The screen after a frame of a round: a round out of time is lost; one
/// that reached the goal with the key is won; else escape leads back to
/// the menu.
pub fn after_playing(alive: bool, won: bool, escape: bool) -> (next: ScreenState)
    ensures
        next == (if !alive {
            ScreenState::Lose
        } else if won {
            ScreenState::Win
        } else if escape {
            ScreenState::MainMenu
        } else {
            ScreenState::Playing
        }),
{
    if !alive {
        ScreenState::Lose
    } else if won {
        ScreenState::Win
    } else if escape {
        ScreenState::MainMenu
    } else {
        ScreenState::Playing
    }
}

/// The screen after a frame of the screen `shown` that ends a round:
/// space or escape lead back to the menu.
pub fn after_round(shown: ScreenState, space: bool, escape: bool) -> (next: ScreenState)
    ensures
        next == (if space || escape { ScreenState::MainMenu } else { shown }),
{
    if space || escape {
        ScreenState::MainMenu
    } else {
        shown
    }
}

/// Whether a step is heard: the camera moved, a walking key is held, and
/// the last step was heard long enough ago.
pub fn step_sound_due(moved: bool, walking_key: bool, since_last: u64) -> (due: bool)
    ensures
        due == (moved && walking_key && since_last >= STEP_COOLDOWN),
{
    moved && walking_key && since_last >= STEP_COOLDOWN
}

/// The color of the sky.
pub open spec fn sky_color() -> Color {
    Color { r: 20, g: 20, b: 20, a: 255 }
}

/// The color of the floor.
pub open spec fn floor_color() -> Color {
    Color { r: 10, g: 10, b: 10, a: 255 }
}

/// The surface after sky and floor are drawn over a window of the given
/// size: the sky down to the middle row, the floor from there on.
pub open spec fn backdrop_canvas(c: Canvas, width: int, height: int) -> Canvas {
    c.with_brush(sky_color()).fill_rect(0, 0, width, height / 2).with_brush(
        floor_color(),
    ).fill_rect(0, height / 2, width, height)
}

/// Draws sky and floor over a window of the given size.
pub fn draw_backdrop(framebuffer: &mut Framebuffer, window_width: i32, window_height: i32)
    ensures
        final(framebuffer)@ == backdrop_canvas(
            old(framebuffer)@,
            window_width as int,
            window_height as int,
        ),
{
    let half_height: i32 = match window_height.checked_div_euclid(2) {
        Some(h) => h,
        None => 0,
    };
    framebuffer.set_current_color(Color::new(20, 20, 20, 255));
    framebuffer.fill_block(0, 0, window_width as i128, half_height as i128);
    framebuffer.set_current_color(Color::new(10, 10, 10, 255));
    framebuffer.fill_block(0, half_height as i128, window_width as i128, window_height as i128);
}

/// The surface after the world is drawn: seen from above, or seen from
/// the camera with the sprites drawn after the walls and so over them,
/// the keys only while none is held.
pub open spec fn world_canvas(
    c: Canvas,
    grid: Seq<Seq<char>>,
    block_size: int,
    player: Player,
    textures: Seq<TextureData>,
    table: Seq<i64>,
    has_key: bool,
    map_view: bool,
) -> Canvas {
    if map_view {
        top_down(c, grid, block_size, player, table)
    } else {
        let walls = first_person(c, grid, block_size, player, textures, table, c.width, c.width);
        let keyed = if has_key {
            walls
        } else {
            keys_canvas(walls, textures, table, player, level_keys(), level_keys().len() as int)
        };
        goals_canvas(keyed, textures, table, player, grid, block_size, grid.len() as int)
    }
}

/// The surface after the lighting pass over a window of the given size.
pub open spec fn lit_canvas(c: Canvas, flashlight_on: bool, width: int, height: int) -> Canvas {
    if flashlight_on {
        flashlight_canvas(c, width, height)
    } else {
        darkness_canvas(c, width, height)
    }
}

/// The surface after a frame of a round is drawn on it: sky and floor,
/// the world, the lighting, the life bar, and, unless the world is seen
/// from above, the minimap.
pub open spec fn frame_canvas(
    c: Canvas,
    grid: Seq<Seq<char>>,
    block_size: int,
    player: Player,
    textures: Seq<TextureData>,
    table: Seq<i64>,
    state: GameState,
    map_view: bool,
    window: (int, int),
    minimap_size: int,
    minimap_position: (int, int),
    sample_rays: int,
) -> Canvas {
    let world = world_canvas(
        backdrop_canvas(c, window.0, window.1),
        grid,
        block_size,
        player,
        textures,
        table,
        state.has_key,
        map_view,
    );
    let hud = life_bar_canvas(lit_canvas(world, state.flashlight_on, window.0, window.1), state);
    if map_view {
        hud
    } else {
        minimap_canvas(
            hud,
            grid,
            block_size,
            player,
            table,
            minimap_size,
            minimap_position.0,
            minimap_position.1,
            sample_rays,
        )
    }
}

/// Draws a frame of a round over whatever the surface holds.
pub fn render_frame(
    framebuffer: &mut Framebuffer,
    maze: &Maze,
    block_size: usize,
    player: &Player,
    texture_cache: &TextureManager,
    trig: &TrigTable,
    font: &Font,
    game_state: &GameState,
    map_view: bool,
    window: (i32, i32),
    minimap_size: usize,
    minimap_position: (i32, i32),
    sample_rays: i32,
)
    requires
        block_size > 0,
    ensures
        final(framebuffer)@ == frame_canvas(
            old(framebuffer)@,
            grid_of(maze),
            block_size as int,
            *player,
            texture_cache@,
            trig@,
            *game_state,
            map_view,
            (window.0 as int, window.1 as int),
            minimap_size as int,
            (minimap_position.0 as int, minimap_position.1 as int),
            sample_rays as int,
        ),
{
    draw_backdrop(framebuffer, window.0, window.1);
    if map_view {
        render_maze(framebuffer, maze, block_size, player, trig);
    } else {
        render_3d(framebuffer, maze, block_size, player, texture_cache, trig);
        if !game_state.has_key {
            render_key(framebuffer, player, texture_cache, trig);
        }
        draw_goal_sprite(framebuffer, player, maze, texture_cache, block_size, trig);
    }
    if game_state.flashlight_on {
        apply_flashlight_effect(framebuffer, window.0, window.1);
    } else {
        apply_general_darkness(framebuffer, window.0, window.1);
    }
    draw_life_bar(framebuffer, game_state, font);
    if !map_view {
        render_minimap(
            framebuffer,
            maze,
            block_size,
            player,
            minimap_size,
            minimap_position,
            sample_rays,
            trig,
        );
    }
}

} // verus!
