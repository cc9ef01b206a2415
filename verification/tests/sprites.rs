use raycaster::color::Color;
use raycaster::framebuffer::Framebuffer;
use raycaster::key::{Battery, Key};
use raycaster::maze::Maze;
use raycaster::player::{Player, Vector2};
use raycaster::sprite::{cell_center_of, draw_goal_sprite, draw_sprite, get_keys, render_key};
use raycaster::textures::{Texture, TextureManager};
use raycaster::trig::{TrigTable, ONE};

fn table(quarter: usize) -> TrigTable {
    let mut samples = Vec::new();
    for k in 0..=quarter {
        let angle = std::f64::consts::FRAC_PI_2 * (k as f64) / (quarter as f64);
        samples.push((angle.sin() * (ONE as f64)).round() as i64);
    }
    TrigTable::new(samples).unwrap()
}

fn maze_of(rows: &[&str]) -> Maze {
    rows.iter().map(|r| r.chars().collect()).collect()
}

/// A 128 by 128 image whose texel at (u, v) is the color (u, v, 9, 255),
/// but transparent in its left half when `holes` is set.
fn texture(id: char, holes: bool) -> Texture {
    let mut texels = Vec::new();
    for v in 0..128 {
        for u in 0..128 {
            if holes && u < 64 {
                texels.push(Color::transparent());
            } else {
                texels.push(Color::new(u as u8, v as u8, 9, 255));
            }
        }
    }
    Texture::new(id, 128, 128, texels).unwrap()
}

fn store(holes: bool) -> TextureManager {
    let mut m = TextureManager::new();
    m.insert(texture('k', holes));
    m.insert(texture('g', holes));
    m
}

fn count_drawn(fb: &Framebuffer, background: Color) -> usize {
    let mut n = 0;
    for y in 0..fb.height() {
        for x in 0..fb.width() {
            if fb.get_pixel_color(x, y) != Some(background) {
                n += 1;
            }
        }
    }
    n
}

fn camera(x: i32, y: i32, a: i64, fov: i64) -> Player {
    Player { pos: Vector2::from_units(x, y), a, fov }
}

fn sprite_at(x: i32, y: i32) -> Key {
    Key::new((x as i64) * ONE, (y as i64) * ONE, 'k')
}

#[test]
fn sprite_straight_ahead_is_scaled_and_centered() {
    let trig = table(90);
    let textures = store(false);
    let player = camera(1000, 1000, 0, 60);
    let mut fb = Framebuffer::new(200, 100, Color::black());
    fb.set_current_color(Color::red());
    draw_sprite(&mut fb, &player, &sprite_at(1200, 1000), &textures, &trig);
    // size 100 * 70 / 200 = 35, center 100, left (200 - 35) / 2 = 82, top (100 - 35) / 2 = 32
    for y in 0..100 {
        for x in 0..200 {
            let expected = if (82..117).contains(&x) && (32..67).contains(&y) {
                Color::new(((x - 82) * 128 / 35) as u8, ((y - 32) * 128 / 35) as u8, 9, 255)
            } else {
                Color::black()
            };
            assert_eq!(fb.get_pixel_color(x, y), Some(expected));
        }
    }
    assert_eq!(fb.current_color(), Color::new(124, 124, 9, 255));
}

#[test]
fn transparent_texels_are_left_out() {
    let trig = table(90);
    let textures = store(true);
    let player = camera(1000, 1000, 0, 60);
    let mut fb = Framebuffer::new(200, 100, Color::blue());
    draw_sprite(&mut fb, &player, &sprite_at(1200, 1000), &textures, &trig);
    for y in 32..67 {
        for x in 82..117 {
            let u = (x - 82) * 128 / 35;
            let expected = if u < 64 {
                Color::blue()
            } else {
                Color::new(u as u8, ((y - 32) * 128 / 35) as u8, 9, 255)
            };
            assert_eq!(fb.get_pixel_color(x, y), Some(expected));
        }
    }
}

#[test]
fn fully_transparent_sprite_leaves_the_draw_color() {
    let trig = table(90);
    let mut textures = TextureManager::new();
    textures.insert(Texture::new('k', 1, 1, vec![Color::transparent()]).unwrap());
    let player = camera(1000, 1000, 0, 60);
    let mut fb = Framebuffer::new(200, 100, Color::blue());
    fb.set_current_color(Color::red());
    draw_sprite(&mut fb, &player, &sprite_at(1200, 1000), &textures, &trig);
    assert_eq!(count_drawn(&fb, Color::blue()), 0);
    assert_eq!(fb.current_color(), Color::red());
}

#[test]
fn sprite_outside_the_field_of_view_is_culled() {
    let trig = table(90);
    let textures = store(false);
    for (a, drawn) in [(0i64, true), (30, true), (-30, true), (31, false), (-31, false), (180, false), (90, false)] {
        // the camera turns away from a sprite that lies due east
        let player = camera(1000, 1000, a, 60);
        let mut fb = Framebuffer::new(200, 100, Color::black());
        draw_sprite(&mut fb, &player, &sprite_at(1200, 1000), &textures, &trig);
        assert_eq!(count_drawn(&fb, Color::black()) > 0, drawn);
    }
}

#[test]
fn sprite_outside_the_near_and_far_planes_is_culled() {
    let trig = table(90);
    let textures = store(false);
    let player = camera(2000, 2000, 0, 60);
    for (d, drawn) in [(49, false), (50, true), (51, true), (999, true), (1000, true), (1001, false), (5000, false)] {
        let mut fb = Framebuffer::new(300, 300, Color::black());
        draw_sprite(&mut fb, &player, &sprite_at(2000 + d, 2000), &textures, &trig);
        assert_eq!(count_drawn(&fb, Color::black()) > 0, drawn);
    }
    let just_in = Key::new(2050 * ONE, 2000 * ONE, 'k');
    let just_out = Key::new(2050 * ONE - 1, 2000 * ONE, 'k');
    let mut fb = Framebuffer::new(300, 300, Color::black());
    draw_sprite(&mut fb, &player, &just_out, &textures, &trig);
    assert_eq!(count_drawn(&fb, Color::black()), 0);
    draw_sprite(&mut fb, &player, &just_in, &textures, &trig);
    assert!(count_drawn(&fb, Color::black()) > 0);
}

#[test]
fn sprite_far_beyond_any_range_is_culled() {
    let trig = table(90);
    let textures = store(false);
    let player = Player { pos: Vector2::new(i64::MIN, i64::MIN), a: 0, fov: 60 };
    let mut fb = Framebuffer::new(50, 50, Color::black());
    draw_sprite(&mut fb, &player, &Key::new(i64::MAX, i64::MAX, 'k'), &textures, &trig);
    draw_sprite(&mut fb, &player, &Key::new(i64::MIN, i64::MAX, 'k'), &textures, &trig);
    assert_eq!(count_drawn(&fb, Color::black()), 0);
}

#[test]
fn camera_without_a_field_of_view_sees_no_sprite() {
    let trig = table(90);
    let textures = store(false);
    for fov in [0, -60] {
        let player = camera(1000, 1000, 0, fov);
        let mut fb = Framebuffer::new(200, 100, Color::black());
        draw_sprite(&mut fb, &player, &sprite_at(1200, 1000), &textures, &trig);
        assert_eq!(count_drawn(&fb, Color::black()), 0);
    }
}

#[test]
fn sprite_to_the_side_moves_across_the_screen() {
    let trig = table(90);
    let textures = store(false);
    let mut fb = Framebuffer::new(240, 100, Color::black());
    // bearing 15 degrees to the right of a camera that sees 60 degrees:
    // the center is at (2 * 15 + 60) * 240 / 120 = 180
    let player = camera(1000, 1000, -15, 60);
    draw_sprite(&mut fb, &player, &sprite_at(1200, 1000), &textures, &trig);
    let columns: Vec<i32> = (0..240).filter(|&x| fb.get_pixel_color(x, 50) != Some(Color::black())).collect();
    // left (2 * 180 - 35) / 2 = 162
    assert_eq!(columns.first(), Some(&162));
    assert_eq!(columns.len(), 35);
}

#[test]
fn sprite_at_the_edge_is_clipped() {
    let trig = table(90);
    let textures = store(false);
    let mut fb = Framebuffer::new(240, 100, Color::black());
    // at the right edge of the view the center is column 240
    let player = camera(1000, 1000, -30, 60);
    draw_sprite(&mut fb, &player, &sprite_at(1200, 1000), &textures, &trig);
    let columns: Vec<i32> = (0..240).filter(|&x| fb.get_pixel_color(x, 50) != Some(Color::black())).collect();
    // left (2 * 240 - 35) / 2 = 222
    assert_eq!(columns, (222..240).collect::<Vec<i32>>());
    assert_eq!(fb.get_pixel_color(222, 50).unwrap().r, 0);
}

#[test]
fn near_sprite_is_larger_than_the_screen() {
    let trig = table(90);
    let textures = store(false);
    let mut fb = Framebuffer::new(40, 30, Color::black());
    let player = camera(1000, 1000, 0, 60);
    // size 30 * 70 / 50 = 42 around column 20 and row 15: the quad starts
    // at column -1 and row -6 and is cropped to the screen
    draw_sprite(&mut fb, &player, &sprite_at(1050, 1000), &textures, &trig);
    assert_eq!(count_drawn(&fb, Color::black()), 40 * 30);
    for y in 0..30 {
        for x in 0..40 {
            let expected = Color::new(((x + 1) * 128 / 42) as u8, ((y + 6) * 128 / 42) as u8, 9, 255);
            assert_eq!(fb.get_pixel_color(x, y), Some(expected));
        }
    }
    assert_eq!(fb.get_pixel_color(0, 0), Some(Color::new(3, 18, 9, 255)));
    assert_eq!(fb.get_pixel_color(39, 29), Some(Color::new(121, 106, 9, 255)));
}

#[test]
fn the_level_has_one_key() {
    let keys = get_keys();
    assert_eq!(keys, vec![Key::new(250 * ONE, 250 * ONE, 'k')]);
}

#[test]
fn render_key_draws_the_keys_of_the_level() {
    let trig = table(90);
    let textures = store(false);
    let player = camera(150, 250, 0, 60);
    let mut by_hand = Framebuffer::new(80, 60, Color::black());
    draw_sprite(&mut by_hand, &player, &sprite_at(250, 250), &textures, &trig);
    let mut fb = Framebuffer::new(80, 60, Color::black());
    render_key(&mut fb, &player, &textures, &trig);
    assert!(count_drawn(&fb, Color::black()) > 0);
    for y in 0..60 {
        for x in 0..80 {
            assert_eq!(fb.get_pixel_color(x, y), by_hand.get_pixel_color(x, y));
        }
    }
}

#[test]
fn goal_cells_are_drawn_in_their_middle() {
    let trig = table(90);
    let textures = store(false);
    let maze = maze_of(&["# g", "   "]);
    let player = camera(50, 50, 0, 60);
    let mut by_hand = Framebuffer::new(80, 60, Color::black());
    let goal = Key::new(250 * ONE, 50 * ONE, 'g');
    draw_sprite(&mut by_hand, &player, &goal, &textures, &trig);
    let mut fb = Framebuffer::new(80, 60, Color::black());
    draw_goal_sprite(&mut fb, &player, &maze, &textures, 100, &trig);
    assert!(count_drawn(&fb, Color::black()) > 0);
    for y in 0..60 {
        for x in 0..80 {
            assert_eq!(fb.get_pixel_color(x, y), by_hand.get_pixel_color(x, y));
        }
    }
    let no_goal = maze_of(&["# k", "   "]);
    let mut empty = Framebuffer::new(80, 60, Color::black());
    draw_goal_sprite(&mut empty, &player, &no_goal, &textures, 100, &trig);
    assert_eq!(count_drawn(&empty, Color::black()), 0);
}

#[test]
fn goal_cells_of_a_huge_grid_are_out_of_range() {
    let trig = table(90);
    let textures = store(false);
    let maze = maze_of(&[" g"]);
    let player = camera(50, 50, 0, 60);
    let mut fb = Framebuffer::new(20, 20, Color::black());
    draw_goal_sprite(&mut fb, &player, &maze, &textures, usize::MAX, &trig);
    assert_eq!(count_drawn(&fb, Color::black()), 0);
}

#[test]
fn battery_starts_at_rest() {
    let b = Battery::new(7, 9, ['a', 'b', 'c']);
    assert_eq!(b.pos, Vector2::new(7, 9));
    assert_eq!(b.target_pos, Vector2::new(7, 9));
    assert_eq!(b.texture_keys, ['a', 'b', 'c']);
    assert_eq!((b.current_frame, b.frame_timer, b.move_timer), (0, 0, 0));
    assert_eq!((b.frame_duration, b.move_duration), (200, 2000));
}

#[test]
fn middle_of_a_cell() {
    assert_eq!(cell_center_of(0, 100), Some(50 * ONE));
    assert_eq!(cell_center_of(2, 100), Some(250 * ONE));
    assert_eq!(cell_center_of(3, 7), Some(24 * ONE));
    assert_eq!(cell_center_of(0, 0), Some(0));
    assert_eq!(cell_center_of((1 << 47) - 1, 1), Some(((1 << 47) - 1) * ONE));
    assert_eq!(cell_center_of(1 << 47, 1), None);
    assert_eq!(cell_center_of(usize::MAX, usize::MAX), None);
}

#[test]
fn sprite_over_the_left_edge_is_cropped_not_moved() {
    let trig = table(90);
    let textures = store(false);
    let mut fb = Framebuffer::new(240, 100, Color::black());
    // at the left edge of the view the center is column 0: the quad of
    // side 35 starts at column (0 - 35) / 2 = -18 and ends before column 17
    let player = camera(1000, 1000, 30, 60);
    draw_sprite(&mut fb, &player, &sprite_at(1200, 1000), &textures, &trig);
    let columns: Vec<i32> = (0..240).filter(|&x| fb.get_pixel_color(x, 50) != Some(Color::black())).collect();
    assert_eq!(columns, (0..17).collect::<Vec<i32>>());
    for x in 0..17 {
        for y in 32..67 {
            let expected = Color::new(((x + 18) * 128 / 35) as u8, ((y - 32) * 128 / 35) as u8, 9, 255);
            assert_eq!(fb.get_pixel_color(x, y), Some(expected));
        }
    }
    assert_eq!(fb.get_pixel_color(0, 50).unwrap().r, 65);
}

#[test]
fn sprite_higher_than_the_screen_stays_centered() {
    let trig = table(90);
    let textures = store(false);
    // size 20 * 70 / 100 = 14 on a screen 20 high would fit; at distance 50
    // it is 28 high: rows -4 to 23, of which rows 0 to 19 are on the screen
    let player = camera(1000, 1000, 0, 60);
    let mut fb = Framebuffer::new(100, 20, Color::black());
    draw_sprite(&mut fb, &player, &sprite_at(1050, 1000), &textures, &trig);
    // columns (100 - 28) / 2 = 36 to 63
    for y in 0..20 {
        for x in 0..100 {
            let expected = if (36..64).contains(&x) {
                Color::new(((x - 36) * 128 / 28) as u8, ((y + 4) * 128 / 28) as u8, 9, 255)
            } else {
                Color::black()
            };
            assert_eq!(fb.get_pixel_color(x, y), Some(expected));
        }
    }
    // the middle row of the screen shows the middle row of the image
    assert_eq!(fb.get_pixel_color(50, 10).unwrap().g, 64);
}
