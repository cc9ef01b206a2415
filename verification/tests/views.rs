use raycaster::caster::trace_ray;
use raycaster::color::Color;
use raycaster::framebuffer::Framebuffer;
use raycaster::maze::Maze;
use raycaster::minimap::render_minimap;
use raycaster::player::{Player, Vector2};
use raycaster::topdown::{draw_cell, render_maze};
use raycaster::trig::{TrigTable, ONE};

fn table(quarter: usize) -> TrigTable {
    let mut samples = Vec::new();
    for k in 0..=quarter {
        let angle = std::f64::consts::FRAC_PI_2 * (k as f64) / (quarter as f64);
        samples.push((angle.sin() * (ONE as f64)).round() as i64);
    }
    TrigTable::new(samples).unwrap()
}

fn maze_of(rows: &[&str]) -> Maze {
    rows.iter().map(|r| r.chars().collect()).collect()
}

fn backdrop() -> Color {
    Color::new(0, 0, 0, 180)
}

#[test]
fn cells_are_colored_by_kind() {
    for (symbol, color) in [('g', Some(Color::green())), ('k', Some(Color::gold())), ('#', Some(Color::red())), ('+', Some(Color::red())), (' ', None)] {
        let mut fb = Framebuffer::new(12, 12, Color::black());
        fb.set_current_color(Color::blue());
        draw_cell(&mut fb, 4, 6, 5, symbol);
        for y in 0..12 {
            for x in 0..12 {
                let inside = (4..9).contains(&x) && (6..11).contains(&y);
                let expected = match color {
                    Some(c) if inside => c,
                    _ => Color::black(),
                };
                assert_eq!(fb.get_pixel_color(x, y), Some(expected));
            }
        }
        assert_eq!(fb.current_color(), color.unwrap_or(Color::blue()));
    }
}

#[test]
fn cell_far_off_the_surface_only_sets_the_draw_color() {
    let mut fb = Framebuffer::new(12, 12, Color::black());
    draw_cell(&mut fb, usize::MAX, 0, usize::MAX, '#');
    draw_cell(&mut fb, 0, usize::MAX, 3, 'g');
    for y in 0..12 {
        for x in 0..12 {
            assert_eq!(fb.get_pixel_color(x, y), Some(Color::black()));
        }
    }
    assert_eq!(fb.current_color(), Color::green());
}

#[test]
fn top_down_view_shows_cells_camera_and_rays() {
    let trig = table(256);
    let maze = maze_of(&["#g", "k "]);
    let player = Player { pos: Vector2::from_units(15, 15), a: 0, fov: 0 };
    let mut fb = Framebuffer::new(30, 30, Color::black());
    render_maze(&mut fb, &maze, 10, &player, &trig);
    for y in 0..30 {
        for x in 0..30 {
            let expected = if y == 15 && (15..20).contains(&x) {
                Color::white_smoke()
            } else if x < 10 && y < 10 {
                Color::red()
            } else if (10..20).contains(&x) && y < 10 {
                Color::green()
            } else if x < 10 && (10..20).contains(&y) {
                Color::gold()
            } else {
                Color::black()
            };
            assert_eq!(fb.get_pixel_color(x, y), Some(expected));
        }
    }
    assert_eq!(fb.current_color(), Color::white_smoke());
}

#[test]
fn top_down_camera_in_a_wall_is_a_white_pixel() {
    let trig = table(256);
    let maze = maze_of(&["##", "##"]);
    let player = Player { pos: Vector2::new(15 * ONE + 40000, 5 * ONE + 65535), a: 77, fov: 300 };
    let mut fb = Framebuffer::new(20, 20, Color::black());
    render_maze(&mut fb, &maze, 10, &player, &trig);
    for y in 0..20 {
        for x in 0..20 {
            let expected = if (x, y) == (15, 5) { Color::white() } else { Color::red() };
            assert_eq!(fb.get_pixel_color(x, y), Some(expected));
        }
    }
}

#[test]
fn top_down_rays_fan_over_the_field_of_view() {
    let trig = table(90);
    let maze = maze_of(&["     ", "     ", "     ", "     ", "     "]);
    let player = Player { pos: Vector2::from_units(25, 25), a: 0, fov: 180 };
    let mut fb = Framebuffer::new(50, 50, Color::black());
    render_maze(&mut fb, &maze, 10, &player, &trig);
    // the first ray runs north, the eleventh east; none runs west
    assert_eq!(fb.get_pixel_color(25, 0), Some(Color::white_smoke()));
    assert_eq!(fb.get_pixel_color(25, 12), Some(Color::white_smoke()));
    assert_eq!(fb.get_pixel_color(49, 25), Some(Color::white_smoke()));
    assert_eq!(fb.get_pixel_color(24, 25), Some(Color::black()));
    assert_eq!(fb.get_pixel_color(0, 25), Some(Color::black()));
    // the last ray runs at 81 degrees, short of south
    assert_eq!(fb.get_pixel_color(25, 40), Some(Color::black()));
}

#[test]
fn minimap_without_rays() {
    let trig = table(256);
    let maze = maze_of(&["# ", " g"]);
    let player = Player { pos: Vector2::from_units(15, 5), a: 0, fov: 100 };
    let mut fb = Framebuffer::new(40, 40, Color::black());
    render_minimap(&mut fb, &maze, 10, &player, 20, (5, 5), 0, &trig);
    for y in 0..40 {
        for x in 0..40 {
            let expected = if y == 5 && (15..24).contains(&x) {
                Color::yellow()
            } else if (14..17).contains(&x) && (4..7).contains(&y) {
                Color::blue()
            } else if (5..15).contains(&x) && (5..15).contains(&y) {
                Color::red()
            } else if (15..25).contains(&x) && (15..25).contains(&y) {
                Color::green()
            } else if (5..25).contains(&x) && (5..25).contains(&y) {
                Color::dark_gray()
            } else {
                Color::black()
            };
            assert_eq!(fb.get_pixel_color(x, y), Some(expected));
        }
    }
    assert_eq!(fb.current_color(), Color::yellow());
}

#[test]
fn minimap_backdrop_and_border_show_where_cells_do_not_cover() {
    let trig = table(256);
    let maze = maze_of(&["###"]);
    let player = Player { pos: Vector2::from_units(500, 500), a: 0, fov: 100 };
    let mut fb = Framebuffer::new(40, 40, Color::black());
    // cells of 20 / 3 = 6 pixels: the row covers 18 by 6 of the 20 by 20
    render_minimap(&mut fb, &maze, 10, &player, 20, (10, 10), 0, &trig);
    assert_eq!(fb.get_pixel_color(10, 10), Some(Color::red()));
    assert_eq!(fb.get_pixel_color(27, 15), Some(Color::red()));
    assert_eq!(fb.get_pixel_color(28, 10), Some(Color::white()));
    assert_eq!(fb.get_pixel_color(29, 10), Some(Color::white()));
    assert_eq!(fb.get_pixel_color(28, 11), Some(backdrop()));
    assert_eq!(fb.get_pixel_color(29, 11), Some(Color::white()));
    assert_eq!(fb.get_pixel_color(10, 16), Some(Color::white()));
    assert_eq!(fb.get_pixel_color(11, 16), Some(backdrop()));
    assert_eq!(fb.get_pixel_color(20, 29), Some(Color::white()));
    assert_eq!(fb.get_pixel_color(20, 28), Some(backdrop()));
    assert_eq!(fb.get_pixel_color(30, 20), Some(Color::black()));
    assert_eq!(fb.get_pixel_color(9, 20), Some(Color::black()));
}

#[test]
fn minimap_rays_are_scaled_into_the_region() {
    let trig = table(256);
    let maze = maze_of(&["# ", " g"]);
    let player = Player { pos: Vector2::from_units(15, 5), a: 0, fov: 0 };
    let mut fb = Framebuffer::new(40, 40, Color::black());
    render_minimap(&mut fb, &maze, 10, &player, 20, (5, 5), 3, &trig);
    // the ray crosses world units 15 to 19 of row 5: pixels 20 to 24 of row 10
    for x in 0..40 {
        let expected = if (20..25).contains(&x) {
            Color::white_smoke()
        } else if (5..15).contains(&x) {
            Color::red()
        } else if (15..20).contains(&x) {
            Color::dark_gray()
        } else {
            Color::black()
        };
        assert_eq!(fb.get_pixel_color(x, 10), Some(expected));
    }
    assert_eq!(fb.current_color(), Color::white_smoke());
}

#[test]
fn minimap_at_half_scale() {
    let trig = table(256);
    let maze = maze_of(&["  ", "  "]);
    let player = Player { pos: Vector2::from_units(5, 5), a: 0, fov: 0 };
    let mut fb = Framebuffer::new(40, 40, Color::black());
    // cells of 10 world units are 5 pixels: two world units to the pixel
    render_minimap(&mut fb, &maze, 10, &player, 10, (20, 20), 1, &trig);
    let marked: Vec<i32> = (0..40).filter(|&x| fb.get_pixel_color(x, 22) == Some(Color::white_smoke())).collect();
    assert_eq!(marked, vec![22, 23, 24, 25, 26, 27, 28, 29]);
}

#[test]
fn minimap_marks_the_facing() {
    let trig = table(90);
    let maze = maze_of(&["   ", "   ", "   "]);
    for (a, end) in [(0i64, (23, 15)), (90, (15, 23)), (180, (7, 15)), (270, (15, 7)), (45, (20, 20)), (30, (21, 19))] {
        let player = Player { pos: Vector2::from_units(15, 15), a, fov: 0 };
        let mut fb = Framebuffer::new(40, 40, Color::black());
        render_minimap(&mut fb, &maze, 10, &player, 30, (5, 5), 0, &trig);
        assert_eq!(fb.get_pixel_color(15, 15), Some(Color::yellow()));
        assert_eq!(fb.get_pixel_color(end.0, end.1), Some(Color::yellow()));
        let yellow = (0..40)
            .flat_map(|y| (0..40).map(move |x| (x, y)))
            .filter(|&(x, y)| fb.get_pixel_color(x, y) == Some(Color::yellow()))
            .count();
        assert_eq!(yellow as i32, (end.0 - 15).abs().max((end.1 - 15).abs()) + 1);
    }
}

#[test]
fn minimap_far_off_the_surface_draws_nothing() {
    let trig = table(90);
    let maze = maze_of(&["# ", "  "]);
    let player = Player { pos: Vector2::new(i64::MAX, i64::MAX), a: 0, fov: 60 };
    let mut fb = Framebuffer::new(10, 10, Color::black());
    render_minimap(&mut fb, &maze, 1, &player, usize::MAX, (i32::MAX, i32::MAX), 2, &trig);
    render_minimap(&mut fb, &maze, 1, &player, 4, (i32::MIN, i32::MIN), 2, &trig);
    for y in 0..10 {
        for x in 0..10 {
            assert_eq!(fb.get_pixel_color(x, y), Some(Color::black()));
        }
    }
}

#[test]
fn trace_marks_the_first_steps_of_a_ray() {
    let trig = table(90);
    let player = Player { pos: Vector2::from_units(3, 4), a: 90, fov: 0 };
    let mut fb = Framebuffer::new(10, 10, Color::black());
    trace_ray(&mut fb, &player, 0, 3, &trig, 1, 0, 7, 7);
    let marked: Vec<(i32, i32)> = (0..10)
        .flat_map(|y| (0..10).map(move |x| (x, y)))
        .filter(|&(x, y)| fb.get_pixel_color(x, y) == Some(Color::white_smoke()))
        .collect();
    assert_eq!(marked, vec![(4, 4), (4, 5), (4, 6)]);
    let mut none = Framebuffer::new(10, 10, Color::black());
    trace_ray(&mut none, &player, 0, -5, &trig, 0, 0, 1, 1);
    assert_eq!(none.get_pixel_color(3, 4), Some(Color::black()));
    assert_eq!(none.current_color(), Color::white_smoke());
}

fn snapshot(fb: &Framebuffer) -> (Vec<Option<Color>>, Color) {
    let mut out = Vec::new();
    for y in 0..fb.height() {
        for x in 0..fb.width() {
            out.push(fb.get_pixel_color(x, y));
        }
    }
    (out, fb.current_color())
}

#[test]
fn top_down_view_and_minimap_are_the_same_when_drawn_again() {
    let trig = table(1024);
    let maze = maze_of(&["#####", "# g #", "#k  #", "#####"]);
    let player = Player { pos: Vector2::from_units(25, 15), a: 300, fov: 700 };
    let mut fb = Framebuffer::new(60, 50, Color::blue());
    fb.set_current_color(Color::gold());
    render_maze(&mut fb, &maze, 10, &player, &trig);
    let first = snapshot(&fb);
    fb.clear();
    render_maze(&mut fb, &maze, 10, &player, &trig);
    assert_eq!(first, snapshot(&fb));
    fb.clear();
    fb.set_current_color(Color::gold());
    render_minimap(&mut fb, &maze, 10, &player, 40, (10, 5), 7, &trig);
    let first = snapshot(&fb);
    fb.clear();
    render_minimap(&mut fb, &maze, 10, &player, 40, (10, 5), 7, &trig);
    assert_eq!(first, snapshot(&fb));
}

#[test]
fn top_down_camera_is_marked_rounded_toward_zero() {
    let trig = table(256);
    let maze: Maze = Vec::new();
    for (x, y, at) in [
        (-1i64, 3 * ONE + 5, Some((0, 3))),
        (-ONE + 1, -ONE + 1, Some((0, 0))),
        (2 * ONE + 65535, -40000, Some((2, 0))),
        (-ONE, 3 * ONE, None),
        (3 * ONE, -ONE, None),
        (-5 * ONE - 1, 0, None),
    ] {
        let player = Player { pos: Vector2::new(x, y), a: 0, fov: 0 };
        let mut fb = Framebuffer::new(6, 6, Color::black());
        render_maze(&mut fb, &maze, 10, &player, &trig);
        for py in 0..6 {
            for px in 0..6 {
                let expected = if Some((px, py)) == at { Color::white() } else { Color::black() };
                assert_eq!(fb.get_pixel_color(px, py), Some(expected));
            }
        }
    }
}

#[test]
fn minimap_of_an_empty_grid_is_drawn_with_cells_of_no_size() {
    let trig = table(90);
    let player = Player { pos: Vector2::from_units(25, 35), a: 0, fov: 60 };
    for maze in [maze_of(&[]), maze_of(&["", "###"]), maze_of(&["#####"])] {
        let mut fb = Framebuffer::new(30, 30, Color::black());
        // the last grid has more cells in its row than the region has pixels
        render_minimap(&mut fb, &maze, 10, &player, 4, (10, 10), 3, &trig);
        for y in 0..30 {
            for x in 0..30 {
                let expected = if y == 10 && (10..19).contains(&x) {
                    Color::yellow()
                } else if (9..12).contains(&x) && (9..12).contains(&y) {
                    Color::blue()
                } else if (10..14).contains(&x) && (10..14).contains(&y) {
                    if x == 10 || x == 13 || y == 10 || y == 13 { Color::white() } else { backdrop() }
                } else {
                    Color::black()
                };
                assert_eq!(fb.get_pixel_color(x, y), Some(expected), "{} {}", x, y);
            }
        }
    }
}

#[test]
fn cells_have_the_colors_of_their_kinds_channel_by_channel() {
    let trig = table(90);
    let maze = maze_of(&["#g", "k "]);
    let mut fb = Framebuffer::new(4, 4, Color::black());
    draw_cell(&mut fb, 1, 1, 2, 'g');
    for y in 0..4 {
        for x in 0..4 {
            let inside = (1..3).contains(&x) && (1..3).contains(&y);
            let expected = if inside { Color::new(0, 128, 0, 255) } else { Color::new(0, 0, 0, 255) };
            assert_eq!(fb.get_pixel_color(x, y), Some(expected));
        }
    }
    let far = Player { pos: Vector2::from_units(500, 500), a: 0, fov: 0 };
    let mut top = Framebuffer::new(20, 20, Color::black());
    render_maze(&mut top, &maze, 10, &far, &trig);
    assert_eq!(top.get_pixel_color(5, 5), Some(Color::new(255, 0, 0, 255)));
    assert_eq!(top.get_pixel_color(15, 5), Some(Color::new(0, 128, 0, 255)));
    assert_eq!(top.get_pixel_color(5, 15), Some(Color::new(255, 215, 0, 255)));
    assert_eq!(top.get_pixel_color(15, 15), Some(Color::new(0, 0, 0, 255)));
    let mut mini = Framebuffer::new(40, 40, Color::black());
    let player = Player { pos: Vector2::from_units(15, 15), a: 0, fov: 0 };
    render_minimap(&mut mini, &maze, 10, &player, 20, (10, 10), 0, &trig);
    assert_eq!(mini.get_pixel_color(12, 12), Some(Color::new(255, 0, 0, 255)));
    assert_eq!(mini.get_pixel_color(25, 15), Some(Color::new(0, 128, 0, 255)));
    assert_eq!(mini.get_pixel_color(15, 25), Some(Color::new(255, 215, 0, 255)));
    assert_eq!(mini.get_pixel_color(25, 25), Some(Color::new(169, 169, 169, 255)));
    assert_eq!(mini.get_pixel_color(19, 19), Some(Color::new(0, 0, 255, 255)));
    assert_eq!(mini.get_pixel_color(24, 20), Some(Color::new(255, 255, 0, 255)));
    assert_eq!(mini.current_color(), Color::new(255, 255, 0, 255));
}
