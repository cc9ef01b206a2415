use raycaster::color::Color;
use raycaster::effects::{apply_flashlight_effect, apply_general_darkness};
use raycaster::framebuffer::Framebuffer;
use raycaster::game::{check_goal_collision, check_key_collision, GameState, MAX_LIFE};
use raycaster::key::Key;
use raycaster::maze::Maze;
use raycaster::player::{grid_cell, process_events, Controls, Player, Vector2, MOVE_SPEED};
use raycaster::screen::{
    after_menu, after_playing, after_round, draw_backdrop, maze_number, menu_select, render_frame,
    spawn_cell, step_sound_due, ScreenState,
};
use raycaster::text::Font;
use raycaster::textures::{Texture, TextureManager};
use raycaster::trig::{TrigTable, ONE};

fn table(quarter: usize) -> TrigTable {
    let mut samples = Vec::new();
    for k in 0..=quarter {
        let angle = std::f64::consts::FRAC_PI_2 * (k as f64) / (quarter as f64);
        samples.push((angle.sin() * (ONE as f64)).round() as i64);
    }
    TrigTable::new(samples).unwrap()
}

fn maze_of(rows: &[&str]) -> Maze {
    rows.iter().map(|r| r.chars().collect()).collect()
}

fn still() -> Controls {
    Controls { turn: 0, left: false, right: false, forward: false, back: false }
}

fn snapshot(fb: &Framebuffer) -> Vec<Option<Color>> {
    let mut out = Vec::new();
    for y in 0..fb.height() {
        for x in 0..fb.width() {
            out.push(fb.get_pixel_color(x, y));
        }
    }
    out
}

#[test]
fn darkness_halves_every_channel_but_alpha() {
    let mut fb = Framebuffer::new(4, 3, Color::new(100, 51, 25, 200));
    fb.set_current_color(Color::new(255, 0, 1, 7));
    fb.set_pixel(3, 2);
    apply_general_darkness(&mut fb, 4, 3);
    assert_eq!(fb.get_pixel_color(0, 0), Some(Color::new(50, 25, 12, 200)));
    assert_eq!(fb.get_pixel_color(3, 2), Some(Color::new(127, 0, 0, 7)));
    assert_eq!(fb.current_color(), Color::new(127, 0, 0, 7));
}

#[test]
fn darkness_covers_only_the_window() {
    let mut fb = Framebuffer::new(4, 3, Color::new(100, 100, 100, 255));
    apply_general_darkness(&mut fb, 2, 5);
    for y in 0..3 {
        for x in 0..4 {
            let v = if x < 2 { 50 } else { 100 };
            assert_eq!(fb.get_pixel_color(x, y), Some(Color::new(v, v, v, 255)));
        }
    }
    apply_general_darkness(&mut fb, -1, 3);
    apply_general_darkness(&mut fb, 4, 0);
    assert_eq!(fb.get_pixel_color(3, 0), Some(Color::new(100, 100, 100, 255)));
}

#[test]
fn flashlight_fades_with_the_distance_from_the_middle() {
    let mut fb = Framebuffer::new(100, 100, Color::new(200, 100, 40, 9));
    apply_flashlight_effect(&mut fb, 100, 100);
    // inner radius 18, outer radius 60
    assert_eq!(fb.get_pixel_color(50, 50), Some(Color::new(200, 100, 40, 9)));
    assert_eq!(fb.get_pixel_color(68, 50), Some(Color::new(200, 100, 40, 9)));
    assert_eq!(fb.get_pixel_color(50, 32), Some(Color::new(200, 100, 40, 9)));
    // 39 from the middle: ((60 - 39) / 42)^2 = 1 / 4
    assert_eq!(fb.get_pixel_color(89, 50), Some(Color::new(50, 25, 10, 9)));
    assert_eq!(fb.get_pixel_color(50, 11), Some(Color::new(50, 25, 10, 9)));
    // 30 from the middle: ((60 - 30) / 42)^2 = 0.5102
    assert_eq!(fb.get_pixel_color(20, 50), Some(Color::new(102, 51, 20, 9)));
    // (30, 40) from the middle is 50 away: ((60 - 50) / 42)^2 = 0.0567
    assert_eq!(fb.get_pixel_color(80, 90), Some(Color::new(11, 5, 2, 9)));
    // the corner is 70.7 away
    assert_eq!(fb.get_pixel_color(0, 0), Some(Color::new(0, 0, 0, 9)));
    assert_eq!(fb.get_pixel_color(99, 99), Some(Color::new(0, 0, 0, 9)));
}

#[test]
fn flashlight_follows_the_shorter_side() {
    let mut fb = Framebuffer::new(200, 50, Color::new(100, 100, 100, 255));
    apply_flashlight_effect(&mut fb, 200, 50);
    // inner radius 9, outer radius 30, middle (100, 25)
    assert_eq!(fb.get_pixel_color(109, 25), Some(Color::new(100, 100, 100, 255)));
    assert_eq!(fb.get_pixel_color(131, 25), Some(Color::new(0, 0, 0, 255)));
    // 19.5 from the middle is half way down the fade
    assert_eq!(fb.get_pixel_color(100, 5), Some(Color::new(22, 22, 22, 255)));
}

#[test]
fn a_round_starts_with_full_life_and_no_key() {
    let state = GameState::new();
    assert_eq!(state, GameState { life: MAX_LIFE, has_key: false, flashlight_on: false });
    assert_eq!(MAX_LIFE, 999_000);
    assert!(state.is_alive());
}

#[test]
fn life_runs_down_to_zero() {
    let mut state = GameState::new();
    state.flashlight_on = true;
    state.update_life(1500);
    assert_eq!(state.life, 997_500);
    state.update_life(998_999);
    assert_eq!(state.life, 1);
    assert!(state.is_alive());
    state.update_life(999_000);
    assert_eq!(state.life, 0);
    assert!(!state.is_alive());
    state.update_life(u64::MAX);
    assert_eq!(state.life, 0);
    assert!(state.flashlight_on);
    state.collect_key();
    assert!(state.has_key);
    state.reset();
    assert_eq!(state, GameState::new());
}

#[test]
fn key_is_taken_in_its_cell() {
    let keys = vec![Key::new(250 * ONE, 250 * ONE, 'k')];
    let mut state = GameState::new();
    let away = Player { pos: Vector2::from_units(150, 250), a: 0, fov: 0 };
    assert!(!check_key_collision(&away, &keys, &mut state, 100));
    assert!(!state.has_key);
    let here = Player { pos: Vector2::from_units(299, 200), a: 0, fov: 0 };
    assert!(check_key_collision(&here, &keys, &mut state, 100));
    assert!(state.has_key);
    assert!(!check_key_collision(&here, &keys, &mut state, 100));
    assert!(state.has_key);
    assert_eq!(state.life, MAX_LIFE);
    let mut none = GameState::new();
    assert!(!check_key_collision(&here, &[], &mut none, 100));
}

#[test]
fn second_key_counts_too() {
    let keys = vec![Key::new(50 * ONE, 50 * ONE, 'k'), Key::new(250 * ONE, 50 * ONE, 'k')];
    let mut state = GameState::new();
    let here = Player { pos: Vector2::from_units(210, 10), a: 0, fov: 0 };
    assert!(check_key_collision(&here, &keys, &mut state, 100));
}

#[test]
fn goal_wins_only_with_the_key() {
    let maze = maze_of(&["# g", "   "]);
    let mut state = GameState::new();
    let on_goal = Player { pos: Vector2::from_units(250, 50), a: 0, fov: 0 };
    let off_goal = Player { pos: Vector2::from_units(150, 50), a: 0, fov: 0 };
    let outside = Player { pos: Vector2::from_units(350, 50), a: 0, fov: 0 };
    assert!(!check_goal_collision(&on_goal, &maze, &state, 100));
    state.collect_key();
    assert!(check_goal_collision(&on_goal, &maze, &state, 100));
    assert!(!check_goal_collision(&off_goal, &maze, &state, 100));
    assert!(!check_goal_collision(&outside, &maze, &state, 100));
}

#[test]
fn grid_cell_of_a_position() {
    assert_eq!(grid_cell(0, 100), 0);
    assert_eq!(grid_cell(99 * ONE + 65535, 100), 0);
    assert_eq!(grid_cell(100 * ONE, 100), 1);
    assert_eq!(grid_cell(-1, 100), 0);
    assert_eq!(grid_cell(i64::MIN, 100), 0);
    assert_eq!(grid_cell(i64::MAX, 1), (i64::MAX / ONE) as u64);
}

#[test]
fn camera_turns_by_keys_and_pointer() {
    let trig = table(80);
    let maze = maze_of(&["   "]);
    let mut player = Player { pos: Vector2::from_units(150, 50), a: 0, fov: 53 };
    assert!(!process_events(&Controls { right: true, ..still() }, &mut player, &maze, 100, &trig));
    assert_eq!(player.a, 4);
    process_events(&Controls { left: true, ..still() }, &mut player, &maze, 100, &trig);
    process_events(&Controls { left: true, ..still() }, &mut player, &maze, 100, &trig);
    assert_eq!(player.a, -4);
    process_events(&Controls { left: true, right: true, turn: 10, ..still() }, &mut player, &maze, 100, &trig);
    assert_eq!(player.a, 6);
    process_events(&Controls { turn: 160, ..still() }, &mut player, &maze, 100, &trig);
    assert_eq!(player.a, -154);
    // a turn is adjusted once by a full turn
    process_events(&Controls { turn: 1000, ..still() }, &mut player, &maze, 100, &trig);
    assert_eq!(player.a, -154 + 1000 - 320);
    process_events(&Controls { turn: -2000, ..still() }, &mut player, &maze, 100, &trig);
    assert_eq!(player.a, 526 - 2000 + 320);
    assert_eq!(player.pos, Vector2::from_units(150, 50));
    assert_eq!(player.fov, 53);
}

#[test]
fn camera_steps_along_its_facing() {
    let trig = table(90);
    let maze = maze_of(&["   ", "   ", "   "]);
    let mut player = Player { pos: Vector2::from_units(150, 150), a: 0, fov: 60 };
    assert!(process_events(&Controls { forward: true, ..still() }, &mut player, &maze, 100, &trig));
    assert_eq!(player.pos, Vector2::from_units(158, 150));
    assert!(process_events(&Controls { back: true, ..still() }, &mut player, &maze, 100, &trig));
    assert_eq!(player.pos, Vector2::from_units(150, 150));
    player.a = 30;
    assert!(process_events(&Controls { forward: true, ..still() }, &mut player, &maze, 100, &trig));
    assert_eq!(player.pos, Vector2::new(150 * ONE + MOVE_SPEED * trig.cos(30), 150 * ONE + 4 * ONE));
    // forward and back cancel; the camera still counts as moved
    let before = player.pos;
    assert!(process_events(&Controls { forward: true, back: true, ..still() }, &mut player, &maze, 100, &trig));
    assert_eq!(player.pos, before);
}

#[test]
fn camera_turns_before_it_steps() {
    let trig = table(80);
    let maze = maze_of(&["   ", "   ", "   "]);
    let mut player = Player { pos: Vector2::from_units(150, 150), a: 76, fov: 60 };
    assert!(process_events(&Controls { forward: true, right: true, ..still() }, &mut player, &maze, 100, &trig));
    assert_eq!(player.a, 80);
    assert_eq!(player.pos, Vector2::from_units(150, 158));
}

#[test]
fn walls_and_the_edge_of_the_grid_stop_the_camera() {
    let trig = table(90);
    let maze = maze_of(&["#g", " k"]);
    let forward = Controls { forward: true, ..still() };
    // into the goal: allowed
    let mut player = Player { pos: Vector2::from_units(5, 15), a: -45, fov: 60 };
    assert!(process_events(&forward, &mut player, &maze, 10, &trig));
    assert_eq!(grid_cell(player.pos.x, 10), 1);
    assert_eq!(grid_cell(player.pos.y, 10), 0);
    // into a wall, into the key spawn, past the last row: refused
    for a in [-90i64, 0, 90] {
        let mut player = Player { pos: Vector2::from_units(5, 15), a, fov: 60 };
        assert!(!process_events(&forward, &mut player, &maze, 10, &trig));
        assert_eq!(player.pos, Vector2::from_units(5, 15));
        assert_eq!(player.a, a);
    }
    // a position before the grid counts as on its first world unit
    let mut player = Player { pos: Vector2::from_units(5, 15), a: 180, fov: 60 };
    assert!(process_events(&forward, &mut player, &maze, 10, &trig));
    assert_eq!(player.pos, Vector2::from_units(-3, 15));
    let mut blocked = Player { pos: Vector2::from_units(5, 5), a: 180, fov: 60 };
    assert!(!process_events(&forward, &mut blocked, &maze, 10, &trig));
}

#[test]
fn step_beyond_the_coordinates_is_refused() {
    let trig = table(90);
    let maze = maze_of(&[" "]);
    let mut player = Player { pos: Vector2::new(i64::MAX, 0), a: 0, fov: 60 };
    assert!(!process_events(&Controls { forward: true, ..still() }, &mut player, &maze, usize::MAX, &trig));
    assert_eq!(player.pos, Vector2::new(i64::MAX, 0));
    assert!(process_events(&Controls { back: true, ..still() }, &mut player, &maze, usize::MAX, &trig));
    assert_eq!(player.pos, Vector2::new(i64::MAX - 8 * ONE, 0));
}

#[test]
fn menu_selection_wraps_around() {
    assert_eq!(menu_select(1, false, false), 1);
    assert_eq!(menu_select(2, true, false), 1);
    assert_eq!(menu_select(1, true, false), 3);
    assert_eq!(menu_select(2, false, true), 3);
    assert_eq!(menu_select(3, false, true), 1);
    assert_eq!(menu_select(2, true, true), 2);
    assert_eq!(menu_select(1, true, true), 1);
    assert_eq!(menu_select(3, true, true), 3);
    assert_eq!(menu_select(i32::MAX, false, true), 1);
    assert_eq!(menu_select(i32::MIN, true, false), 3);
}

#[test]
fn each_level_has_its_maze() {
    assert_eq!(maze_number(1), 1);
    assert_eq!(maze_number(2), 2);
    assert_eq!(maze_number(3), 3);
    assert_eq!(maze_number(0), 1);
    assert_eq!(maze_number(4), 1);
    assert_eq!(maze_number(-7), 1);
}

#[test]
fn round_starts_in_the_first_open_cell_of_the_last_open_row() {
    assert_eq!(spawn_cell(&maze_of(&["####", "#  #", "# g#", "####"])), Some((1, 2)));
    assert_eq!(spawn_cell(&maze_of(&["# ", "##"])), Some((1, 0)));
    assert_eq!(spawn_cell(&maze_of(&["##", "gk"])), None);
    assert_eq!(spawn_cell(&maze_of(&[])), None);
    assert_eq!(spawn_cell(&maze_of(&["", "   ", ""])), Some((0, 1)));
}

#[test]
fn screens_follow_one_another() {
    assert_eq!(after_menu(false), ScreenState::MainMenu);
    assert_eq!(after_menu(true), ScreenState::Playing);
    assert_eq!(after_playing(true, false, false), ScreenState::Playing);
    assert_eq!(after_playing(false, false, false), ScreenState::Lose);
    assert_eq!(after_playing(false, true, true), ScreenState::Lose);
    assert_eq!(after_playing(true, true, false), ScreenState::Win);
    assert_eq!(after_playing(true, true, true), ScreenState::Win);
    assert_eq!(after_playing(true, false, true), ScreenState::MainMenu);
    for shown in [ScreenState::Win, ScreenState::Lose] {
        assert_eq!(after_round(shown, false, false), shown);
        assert_eq!(after_round(shown, true, false), ScreenState::MainMenu);
        assert_eq!(after_round(shown, false, true), ScreenState::MainMenu);
    }
}

#[test]
fn steps_are_heard_a_quarter_second_apart() {
    assert!(step_sound_due(true, true, 250));
    assert!(step_sound_due(true, true, 10_000));
    assert!(!step_sound_due(true, true, 249));
    assert!(!step_sound_due(false, true, 250));
    assert!(!step_sound_due(true, false, 250));
}

#[test]
fn sky_over_floor() {
    let mut fb = Framebuffer::new(6, 9, Color::black());
    draw_backdrop(&mut fb, 4, 7);
    for y in 0..9 {
        for x in 0..6 {
            let expected = if x >= 4 || y >= 7 {
                Color::black()
            } else if y < 3 {
                Color::new(20, 20, 20, 255)
            } else {
                Color::new(10, 10, 10, 255)
            };
            assert_eq!(fb.get_pixel_color(x, y), Some(expected));
        }
    }
}

fn scene() -> (Maze, TextureManager, TrigTable, Font) {
    let maze = maze_of(&["#####", "#  g#", "# # #", "#   #", "#####"]);
    let mut textures = TextureManager::new();
    let mut texels = Vec::new();
    for v in 0..128 {
        for u in 0..128 {
            texels.push(if (u + v) % 7 == 0 { Color::transparent() } else { Color::new(u as u8, v as u8, 200, 255) });
        }
    }
    textures.insert(Texture::new('#', 128, 128, texels.clone()).unwrap());
    textures.insert(Texture::new('g', 128, 128, texels.clone()).unwrap());
    textures.insert(Texture::new('k', 128, 128, texels).unwrap());
    (maze, textures, table(1024), Font::new())
}

#[test]
fn frame_is_the_same_when_drawn_again() {
    let (maze, textures, trig, font) = scene();
    let player = Player { pos: Vector2::from_units(150, 150), a: 100, fov: 683 };
    for map_view in [false, true] {
        for flashlight_on in [false, true] {
            let state = GameState { life: 500_000, has_key: false, flashlight_on };
            let mut fb = Framebuffer::new(320, 240, Color::new(80, 80, 200, 255));
            render_frame(&mut fb, &maze, 100, &player, &textures, &trig, &font, &state, map_view, (320, 240), 60, (250, 10), 5);
            let first = snapshot(&fb);
            fb.clear();
            render_frame(&mut fb, &maze, 100, &player, &textures, &trig, &font, &state, map_view, (320, 240), 60, (250, 10), 5);
            assert_eq!(first, snapshot(&fb));
        }
    }
}

#[test]
fn sprites_are_drawn_over_walls() {
    let (_, textures, trig, font) = scene();
    // the goal lies behind a wall: it is drawn all the same
    let maze = maze_of(&["     ", " #g  ", "     "]);
    let player = Player { pos: Vector2::from_units(50, 150), a: 0, fov: 683 };
    let state = GameState { life: MAX_LIFE, has_key: true, flashlight_on: true };
    let mut with_goal = Framebuffer::new(200, 200, Color::black());
    render_frame(&mut with_goal, &maze, 100, &player, &textures, &trig, &font, &state, false, (200, 200), 0, (0, 0), 0);
    let plain = maze_of(&["     ", " #   ", "     "]);
    let mut without = Framebuffer::new(200, 200, Color::black());
    render_frame(&mut without, &plain, 100, &player, &textures, &trig, &font, &state, false, (200, 200), 0, (0, 0), 0);
    assert_ne!(snapshot(&with_goal), snapshot(&without));
    // size 200 * 70 / 200 = 70 around the middle; the texel at (0, 1) is opaque
    assert_ne!(with_goal.get_pixel_color(65, 66), without.get_pixel_color(65, 66));
}

#[test]
fn held_key_is_not_drawn() {
    let (maze, textures, trig, font) = scene();
    let player = Player { pos: Vector2::from_units(150, 350), a: -512, fov: 683 };
    let mut frames = Vec::new();
    for has_key in [false, true] {
        let state = GameState { life: MAX_LIFE, has_key, flashlight_on: true };
        let mut fb = Framebuffer::new(200, 200, Color::black());
        render_frame(&mut fb, &maze, 100, &player, &textures, &trig, &font, &state, false, (200, 200), 40, (150, 150), 0);
        // the key indicator differs too: compare above the life bar's text only
        let mut rows = Vec::new();
        for y in 100..150 {
            for x in 0..150 {
                rows.push(fb.get_pixel_color(x, y));
            }
        }
        frames.push(rows);
    }
    assert_ne!(frames[0], frames[1]);
}

#[test]
fn no_input_leaves_the_camera_as_it_is() {
    let trig = table(80);
    let maze = maze_of(&["###", "###"]);
    for a in [-160i64, -159, -1, 0, 1, 77, 160] {
        let mut player = Player { pos: Vector2::from_units(150, 50), a, fov: 53 };
        assert!(!process_events(&still(), &mut player, &maze, 100, &trig));
        assert_eq!(player, Player { pos: Vector2::from_units(150, 50), a, fov: 53 });
    }
}

#[test]
fn facing_beyond_half_a_turn_is_adjusted_once() {
    let trig = table(80);
    let maze = maze_of(&["   "]);
    for (a, after) in [(161i64, -159i64), (-161, 159), (480, 160), (481, 161), (-1000, -680)] {
        let mut player = Player { pos: Vector2::from_units(150, 50), a, fov: 53 };
        process_events(&still(), &mut player, &maze, 100, &trig);
        assert_eq!(player.a, after);
    }
    let mut player = Player { pos: Vector2::from_units(150, 50), a: i64::MAX, fov: 53 };
    process_events(&Controls { turn: 5, ..still() }, &mut player, &maze, 100, &trig);
    assert_eq!(player.a, i64::MAX - 315);
    // a sum too far out to hold after one adjustment is brought all the way in
    let mut player = Player { pos: Vector2::from_units(150, 50), a: i64::MAX, fov: 53 };
    process_events(&Controls { turn: i64::MAX, ..still() }, &mut player, &maze, 100, &trig);
    assert_eq!(player.a as i128, {
        let r = (2 * (i64::MAX as i128)).rem_euclid(320);
        if r > 160 { r - 320 } else { r }
    });
}
