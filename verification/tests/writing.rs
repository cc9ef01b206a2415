use raycaster::color::Color;
use raycaster::framebuffer::Framebuffer;
use raycaster::game::{GameState, MAX_LIFE};
use raycaster::text::{characters_of, glyph_rows, push_digits, push_seconds, Font};
use raycaster::ui::{
    draw_life_bar, draw_lose_screen, draw_main_menu, draw_simple_text, draw_title_screen, draw_win_screen,
};

fn picture(fb: &Framebuffer, ink: Color) -> Vec<String> {
    (0..fb.height())
        .map(|y| {
            (0..fb.width())
                .map(|x| if fb.get_pixel_color(x, y) == Some(ink) { '#' } else { '.' })
                .collect()
        })
        .collect()
}

fn seconds(ms: i128) -> String {
    let mut out = Vec::new();
    push_seconds(&mut out, ms);
    out.into_iter().collect()
}

fn digits(n: u128) -> String {
    let mut out = vec!['x'];
    push_digits(&mut out, n);
    out.into_iter().collect()
}

#[test]
fn bitmaps_of_the_font() {
    assert_eq!(glyph_rows('A'), [0b01110, 0b10001, 0b11111, 0b10001, 0b10001]);
    assert_eq!(glyph_rows('Z'), [0b11111, 0b00010, 0b00100, 0b01000, 0b11111]);
    assert_eq!(glyph_rows('0'), [0b01110, 0b10001, 0b10001, 0b10001, 0b01110]);
    assert_eq!(glyph_rows('9'), [0b01110, 0b10001, 0b01111, 0b00001, 0b01110]);
    assert_eq!(glyph_rows('>'), [0b10000, 0b01000, 0b00111, 0b01000, 0b10000]);
    assert_eq!(glyph_rows('<'), [0b00001, 0b00010, 0b11100, 0b00010, 0b00001]);
    for c in [' ', 'a', 'z', '!', ':', '.', '\u{e9}', '\u{2713}'] {
        assert_eq!(glyph_rows(c), [0, 0, 0, 0, 0]);
    }
}

#[test]
fn one_letter_at_scale_one() {
    let font = Font::new();
    let mut fb = Framebuffer::new(7, 7, Color::black());
    fb.set_current_color(Color::red());
    font.draw_text(&mut fb, "A", 1, 1, 1, Color::white());
    assert_eq!(
        picture(&fb, Color::white()),
        vec![".......", "..###..", ".#...#.", ".#####.", ".#...#.", ".#...#.", "......."]
    );
    assert_eq!(fb.current_color(), Color::red());
}

#[test]
fn letters_stand_six_cells_apart() {
    let font = Font::new();
    let mut fb = Framebuffer::new(17, 5, Color::black());
    font.draw_text(&mut fb, "L1>", 0, 0, 1, Color::gold());
    assert_eq!(
        picture(&fb, Color::gold()),
        vec![
            "#.......#...#....",
            "#......##....#...",
            "#.......#.....###",
            "#.......#....#...",
            "#####..###..#....",
        ]
    );
}

#[test]
fn scale_enlarges_cells_and_spacing() {
    let font = Font::new();
    let mut fb = Framebuffer::new(22, 10, Color::black());
    font.draw_text(&mut fb, "TI", 0, 0, 2, Color::green());
    assert_eq!(
        picture(&fb, Color::green()),
        vec![
            "##########..##########",
            "##########..##########",
            "....##..........##....",
            "....##..........##....",
            "....##..........##....",
            "....##..........##....",
            "....##..........##....",
            "....##..........##....",
            "....##......##########",
            "....##......##########",
        ]
    );
}

#[test]
fn characters_without_a_bitmap_leave_a_gap() {
    let font = Font::new();
    let mut spaced = Framebuffer::new(30, 5, Color::black());
    font.draw_text(&mut spaced, "Aa\u{2713} A", 0, 0, 1, Color::white());
    let mut by_hand = Framebuffer::new(30, 5, Color::black());
    font.draw_text(&mut by_hand, "A", 0, 0, 1, Color::white());
    font.draw_text(&mut by_hand, "A", 24, 0, 1, Color::white());
    assert_eq!(picture(&spaced, Color::white()), picture(&by_hand, Color::white()));
}

#[test]
fn text_is_clipped_and_scale_zero_draws_nothing() {
    let font = Font::new();
    let mut fb = Framebuffer::new(4, 3, Color::black());
    font.draw_text(&mut fb, "H", -2, -1, 1, Color::white());
    assert_eq!(picture(&fb, Color::white()), vec!["..#.", "###.", "..#."]);
    let mut none = Framebuffer::new(4, 3, Color::black());
    font.draw_text(&mut none, "HHH", 0, 0, 0, Color::white());
    font.draw_text(&mut none, "HHH", 0, 0, -2, Color::white());
    font.draw_text(&mut none, "", 0, 0, 1, Color::white());
    font.draw_text(&mut none, "H", i32::MAX, i32::MIN, i32::MAX, Color::white());
    assert_eq!(picture(&none, Color::white()), vec!["....", "....", "...."]);
}

#[test]
fn characters_can_be_drawn_from_a_buffer() {
    let font = Font::new();
    let mut a = Framebuffer::new(40, 6, Color::black());
    let mut b = Framebuffer::new(40, 6, Color::black());
    font.draw_text(&mut a, "NIVEL 2", 1, 0, 1, Color::white());
    font.draw_chars(&mut b, &characters_of("NIVEL 2"), 1, 0, 1, Color::white());
    assert_eq!(picture(&a, Color::white()), picture(&b, Color::white()));
    assert_eq!(characters_of("a\u{e9}z"), vec!['a', '\u{e9}', 'z']);
}

#[test]
fn numbers_in_decimal() {
    assert_eq!(digits(0), "x0");
    assert_eq!(digits(7), "x7");
    assert_eq!(digits(10), "x10");
    assert_eq!(digits(1234567890), "x1234567890");
    assert_eq!(digits(u128::MAX), format!("x{}", u128::MAX));
}

#[test]
fn times_in_seconds_with_one_decimal() {
    assert_eq!(seconds(0), "0.0");
    assert_eq!(seconds(49), "0.0");
    assert_eq!(seconds(50), "0.1");
    assert_eq!(seconds(1234), "1.2");
    assert_eq!(seconds(1250), "1.3");
    assert_eq!(seconds(999_000), "999.0");
    assert_eq!(seconds(998_949), "998.9");
    assert_eq!(seconds(998_950), "999.0");
    assert_eq!(seconds(-1), "0.0");
    assert_eq!(seconds(i128::MIN), "0.0");
    assert_eq!(seconds(i128::MAX), {
        let tenths = (i128::MAX as u128 + 50) / 100;
        format!("{}.{}", tenths / 10, tenths % 10)
    });
}

#[test]
fn placeholder_text_is_a_block_of_dots_per_character() {
    let mut fb = Framebuffer::new(30, 17, Color::black());
    fb.set_current_color(Color::red());
    draw_simple_text(&mut fb, "ab", 1, 1, 2);
    let rows = picture(&fb, Color::red());
    for (y, row) in rows.iter().enumerate() {
        for (x, c) in row.chars().enumerate() {
            let in_first = (1..13).contains(&x) && (x - 1) % 2 == 0;
            let in_second = (17..29).contains(&x) && (x - 17) % 2 == 0;
            let in_rows = (1..17).contains(&y) && (y - 1) % 2 == 0;
            assert_eq!(c == '#', (in_first || in_second) && in_rows);
        }
    }
    assert_eq!(fb.current_color(), Color::red());
    let mut solid = Framebuffer::new(16, 10, Color::black());
    draw_simple_text(&mut solid, "ab", 0, 1, 1);
    assert_eq!(picture(&solid, Color::white())[1], "######..######..");
    assert_eq!(picture(&solid, Color::white())[8], "######..######..");
    assert_eq!(picture(&solid, Color::white())[9], "................");
    let mut none = Framebuffer::new(16, 10, Color::black());
    draw_simple_text(&mut none, "ab", 0, 1, 0);
    draw_simple_text(&mut none, "ab", 0, 1, -3);
    assert_eq!(picture(&none, Color::white())[1], "................");
}

#[test]
fn menu_picks_out_the_selected_level() {
    let mut fb = Framebuffer::new(200, 450, Color::blue());
    draw_main_menu(&mut fb, 2);
    for y in 0..450 {
        for x in 0..200 {
            let title = (20..180).contains(&x) && ((90..95).contains(&y) || (105..110).contains(&y));
            let level = |n: i32| (200 + (n - 1) * 50..205 + (n - 1) * 50).contains(&y);
            let bar = (70..130).contains(&x) || (135..140).contains(&x);
            let pointer = (60..65).contains(&x);
            let expected = if title {
                Color::red()
            } else if level(2) && (bar || pointer) {
                Color::green()
            } else if (level(1) || level(3)) && bar {
                Color::white()
            } else if ((40..160).contains(&x) && (380..385).contains(&y))
                || ((20..180).contains(&x) && (430..435).contains(&y))
            {
                Color::gray()
            } else {
                Color::black()
            };
            assert_eq!(fb.get_pixel_color(x, y), Some(expected));
        }
    }
    assert_eq!(fb.current_color(), Color::gray());
}

#[test]
fn menu_with_no_level_selected() {
    let mut fb = Framebuffer::new(201, 450, Color::blue());
    draw_main_menu(&mut fb, 0);
    for n in 0..3 {
        assert_eq!(fb.get_pixel_color(62, 202 + n * 50), Some(Color::black()));
        assert_eq!(fb.get_pixel_color(70, 202 + n * 50), Some(Color::white()));
        assert_eq!(fb.get_pixel_color(139, 202 + n * 50), Some(Color::white()));
    }
}

#[test]
fn life_bar_shows_the_life_left() {
    let font = Font::new();
    for (life, width, color) in [
        (MAX_LIFE, 200, Color::green()),
        (499_501, 100, Color::green()),
        (499_500, 100, Color::yellow()),
        (249_751, 50, Color::yellow()),
        (249_750, 50, Color::red()),
        (4_995, 1, Color::red()),
        (4_994, 0, Color::red()),
        (0, 0, Color::red()),
    ] {
        let state = GameState { life, has_key: false, flashlight_on: false };
        let mut fb = Framebuffer::new(240, 80, Color::black());
        draw_life_bar(&mut fb, &state, &font);
        for y in 18..42 {
            for x in 18..222 {
                let inside = (20..220).contains(&x) && (20..40).contains(&y);
                let border = inside && (x == 20 || x == 219 || y == 20 || y == 39);
                let expected = if border {
                    Color::white()
                } else if inside && x < 20 + width {
                    color
                } else if inside {
                    Color::dark_gray()
                } else {
                    Color::black()
                };
                assert_eq!(fb.get_pixel_color(x, y), Some(expected));
            }
        }
        assert_eq!(fb.current_color(), Color::white());
    }
}

#[test]
fn life_bar_tells_time_and_key() {
    let font = Font::new();
    let state = GameState { life: 12_340, has_key: true, flashlight_on: false };
    let mut fb = Framebuffer::new(240, 80, Color::black());
    draw_life_bar(&mut fb, &state, &font);
    let mut expected = Framebuffer::new(240, 80, Color::black());
    font.draw_text(&mut expected, "TIEMPO: 12.3s", 20, 45, 1, Color::white());
    font.draw_text(&mut expected, "LLAVE: \u{2713}", 20, 60, 1, Color::gold());
    for y in 41..80 {
        for x in 0..240 {
            assert_eq!(fb.get_pixel_color(x, y), expected.get_pixel_color(x, y));
        }
    }
    let without = GameState { life: 12_340, has_key: false, flashlight_on: false };
    let mut gray = Framebuffer::new(240, 80, Color::black());
    draw_life_bar(&mut gray, &without, &font);
    assert_eq!(gray.get_pixel_color(20, 60), Some(Color::gray()));
    assert_eq!(fb.get_pixel_color(20, 60), Some(Color::gold()));
}

#[test]
fn win_screen_tells_the_time_used() {
    let font = Font::new();
    let state = GameState { life: MAX_LIFE - 83_449, has_key: true, flashlight_on: false };
    let mut fb = Framebuffer::new(400, 300, Color::black());
    fb.set_current_color(Color::red());
    draw_win_screen(&mut fb, &font, &state);
    let mut expected = Framebuffer::new(400, 300, Color::new(0, 100, 0, 255));
    font.draw_text(&mut expected, "VICTORIA", 200 - 60 + 18, 150 - 50, 3, Color::gold());
    font.draw_text(&mut expected, "E", 200 - 120, 150, 1, Color::white());
    font.draw_text(&mut expected, "T       83.4", 200 - 80, 150 + 30, 1, Color::yellow());
    font.draw_text(&mut expected, "P        ESPACIO", 200 - 140, 150 + 80, 1, Color::light_gray());
    font.draw_text(&mut expected, "P        ESC", 200 - 120, 150 + 110, 1, Color::light_gray());
    for y in 0..300 {
        for x in 0..400 {
            assert_eq!(fb.get_pixel_color(x, y), expected.get_pixel_color(x, y));
        }
    }
    assert_eq!(fb.current_color(), Color::new(0, 100, 0, 255));
}

#[test]
fn lose_screen() {
    let font = Font::new();
    let mut fb = Framebuffer::new(401, 301, Color::black());
    draw_lose_screen(&mut fb, &font);
    let mut expected = Framebuffer::new(401, 301, Color::new(100, 0, 0, 255));
    font.draw_text(&mut expected, " GAME OVER", 200 - 60, 150 - 50, 3, Color::red());
    font.draw_text(&mut expected, "S", 200 - 80, 150, 1, Color::white());
    font.draw_text(&mut expected, "N", 200 - 140, 150 + 30, 1, Color::white());
    font.draw_text(&mut expected, "P        ESPACIO", 200 - 160, 150 + 80, 1, Color::light_gray());
    font.draw_text(&mut expected, "P        ESC", 200 - 120, 150 + 110, 1, Color::light_gray());
    for y in 0..301 {
        for x in 0..401 {
            assert_eq!(fb.get_pixel_color(x, y), expected.get_pixel_color(x, y));
        }
    }
}

#[test]
fn title_screen_lists_the_levels() {
    let font = Font::new();
    let mut fb = Framebuffer::new(400, 500, Color::black());
    fb.set_current_color(Color::red());
    draw_title_screen(&mut fb, &font, 3);
    let mut expected = Framebuffer::new(400, 500, Color::new(20, 20, 40, 255));
    font.draw_text(&mut expected, "RAYCASTING GAME", 200 - 45, 100, 2, Color::yellow());
    font.draw_text(&mut expected, "ENCUENTRA LA LLAVE A TIEMPO!", 200 - 80, 150, 1, Color::gold());
    font.draw_text(&mut expected, "SELECCIONA NIVEL", 200 - 45, 220, 1, Color::white());
    font.draw_text(&mut expected, "  NIVEL 1  ", 200 - 35, 280, 1, Color::light_gray());
    font.draw_text(&mut expected, "  NIVEL 2  ", 200 - 35, 330, 1, Color::light_gray());
    font.draw_text(&mut expected, "> NIVEL 3 <", 200 - 35, 380, 1, Color::green());
    font.draw_text(&mut expected, "T      60", 200 - 150, 450, 1, Color::light_gray());
    for y in 0..500 {
        for x in 0..400 {
            assert_eq!(fb.get_pixel_color(x, y), expected.get_pixel_color(x, y));
        }
    }
    assert_eq!(fb.current_color(), Color::new(20, 20, 40, 255));
    assert_eq!(fb.get_pixel_color(200 - 35, 382), Some(Color::new(20, 20, 40, 255)));
    assert_eq!(fb.get_pixel_color(200 - 35 + 2, 382), Some(Color::green()));
}

#[test]
fn menu_and_life_bar_colors_channel_by_channel() {
    let mut fb = Framebuffer::new(1300, 900, Color::blue());
    draw_main_menu(&mut fb, 2);
    let red = Color::new(255, 0, 0, 255);
    let green = Color::new(0, 128, 0, 255);
    let gray = Color::new(128, 128, 128, 255);
    let white = Color::new(255, 255, 255, 255);
    let black = Color::new(0, 0, 0, 255);
    assert_eq!(fb.get_pixel_color(612, 252), Some(green));
    assert_eq!(fb.get_pixel_color(650, 252), Some(green));
    assert_eq!(fb.get_pixel_color(612, 202), Some(black));
    assert_eq!(fb.get_pixel_color(650, 202), Some(white));
    assert_eq!(fb.get_pixel_color(687, 302), Some(white));
    assert_eq!(fb.get_pixel_color(650, 92), Some(red));
    assert_eq!(fb.get_pixel_color(650, 382), Some(gray));
    assert_eq!(fb.get_pixel_color(0, 0), Some(black));
    for y in 0..900 {
        for x in 0..1300 {
            let c = fb.get_pixel_color(x, y).unwrap();
            assert!(c == black || c == red || c == green || c == white || c == gray);
        }
    }
    let font = Font::new();
    for (life, fill) in [
        (MAX_LIFE, Color::new(0, 128, 0, 255)),
        (400_000, Color::new(255, 255, 0, 255)),
        (200_000, Color::new(255, 0, 0, 255)),
    ] {
        let state = GameState { life, has_key: false, flashlight_on: false };
        let mut bar = Framebuffer::new(240, 80, Color::black());
        draw_life_bar(&mut bar, &state, &font);
        assert_eq!(bar.get_pixel_color(21, 21), Some(fill));
        assert_eq!(bar.get_pixel_color(218, 38), Some(if life == MAX_LIFE { fill } else { Color::new(169, 169, 169, 255) }));
        assert_eq!(bar.get_pixel_color(20, 20), Some(white));
    }
}
