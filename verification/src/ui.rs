//! The screens around the game: the menu, the life bar, and the screens
//! that end a round.

use vstd::prelude::*;
use vstd::string::*;
use crate::canvas::Canvas;
use crate::color::Color;
use crate::framebuffer::Framebuffer;
use crate::game::{GameState, MAX_LIFE};
use crate::text::{digits, lemma_text_canvas_frame, push_digits, push_seconds, seconds_text};
use crate::text::{text_canvas, Font};

verus! {

/// The dots that stand for one character of placeholder text: every
/// `scale`-th pixel along both axes from `(cx, y)` on.
pub open spec fn dots_image(cx: int, y: int, scale: int, ink: Color) -> spec_fn(int, int) -> Option<
    Color,
> {
    |px: int, py: int|
        if (px - cx) % scale == 0 && (py - y) % scale == 0 {
            Some(ink)
        } else {
            None
        }
}

/// The surface after the first `n` characters of a placeholder text are
/// drawn from `(x, y)` on: each is a block of 6 by 8 dots, `scale` pixels
/// from dot to dot, and the blocks stand 8 dots apart.
pub open spec fn simple_text_canvas(c: Canvas, x: int, y: int, scale: int, n: int) -> Canvas
    decreases n,
{
    if n <= 0 {
        c
    } else {
        let cx = x + (n - 1) * 8 * scale;
        simple_text_canvas(c, x, y, scale, n - 1).blit(
            cx,
            y,
            cx + 6 * scale,
            y + 8 * scale,
            dots_image(cx, y, scale, c.brush),
        )
    }
}

/// Draws a block of dots in the current draw color for each character of
/// `text`.
pub fn draw_simple_text(framebuffer: &mut Framebuffer, text: &str, x: i32, y: i32, scale: i32)
    ensures
        final(framebuffer)@ == simple_text_canvas(
            old(framebuffer)@,
            x as int,
            y as int,
            scale as int,
            text@.len() as int,
        ),
{
    let n = text.unicode_len();
    let ghost before = framebuffer@;
    let ink = framebuffer.current_color();
    let wide: i64 = 6 * (scale as i64);
    let high: i64 = 8 * (scale as i64);
    let mut i: usize = 0;
    while i < n
        invariant
            i <= n,
            n == text@.len(),
            wide == 6 * scale,
            high == 8 * scale,
            ink == before.brush,
            framebuffer@.brush == ink,
            framebuffer@ == simple_text_canvas(before, x as int, y as int, scale as int, i as int),
        decreases n - i,
    {
        proof {
            assert(i * 8 * scale == (i * 8) * scale) by (nonlinear_arith);
            assert(-0x8_0000_0000_0000_0000 * 0x8000_0000 <= (i * 8) * scale
                <= 0x8_0000_0000_0000_0000 * 0x8000_0000) by (nonlinear_arith)
                requires
                    0 <= i * 8 <= 0x8_0000_0000_0000_0000,
                    -0x8000_0000 <= scale <= 0x8000_0000,
            ;
        }
        let cx: i128 = x as i128 + (i as i128) * 8 * (scale as i128);
        let ghost image = dots_image(cx as int, y as int, scale as int, ink);
        let ghost block_start = framebuffer@;
        let mut dx: i64 = 0;
        while dx < wide
            invariant
                0 <= dx,
                0 < wide ==> dx <= wide,
                wide <= 0 ==> dx == 0,
                wide == 6 * scale,
                high == 8 * scale,
                -0x1000_0000_0000_0000_0000_0000_0000 <= cx <= 0x1000_0000_0000_0000_0000_0000_0000,
                image == dots_image(cx as int, y as int, scale as int, ink),
                framebuffer@.brush == ink,
                framebuffer@ == block_start.blit(
                    cx as int,
                    y as int,
                    cx + dx,
                    y + high,
                    image,
                ),
            decreases wide - dx,
        {
            let ghost column_start = framebuffer@;
            let mut dy: i64 = 0;
            while dy < high
                invariant
                    0 <= dx < wide,
                    0 <= dy,
                    0 < high ==> dy <= high,
                    high <= 0 ==> dy == 0,
                    wide == 6 * scale,
                    high == 8 * scale,
                    -0x1000_0000_0000_0000_0000_0000_0000 <= cx
                        <= 0x1000_0000_0000_0000_0000_0000_0000,
                    image == dots_image(cx as int, y as int, scale as int, ink),
                    framebuffer@.brush == ink,
                    framebuffer@ == column_start.blit_column(cx + dx, y as int, y + dy, image),
                decreases high - dy,
            {
                if dx % (scale as i64) == 0 && dy % (scale as i64) == 0 {
                    framebuffer.plot_at(cx + dx as i128, y as i128 + dy as i128);
                }
                dy = dy + 1;
            }
            dx = dx + 1;
        }
        i = i + 1;
    }
}

/// The surface after the line of the menu for `level` is drawn: a bar and
/// a mark to its right, green with a pointer to its left when the level
/// is the selected one, white without when it is not.
pub open spec fn menu_level(c: Canvas, level: int, selected: int) -> Canvas {
    let mid = c.width / 2;
    let y = 200 + (level - 1) * 50;
    let ink = if level == selected { Color::green() } else { Color::white() };
    let pointed = if level == selected {
        c.with_brush(ink).fill_rect(mid - 40, y, mid - 35, y + 5)
    } else {
        c.with_brush(ink)
    };
    pointed.fill_rect(mid - 30, y, mid + 30, y + 5).fill_rect(mid + 35, y, mid + 40, y + 5)
}

/// The surface after the menu is drawn over all of it: a black ground,
/// two red bars for the title, a line for each of the three levels, and
/// two gray bars for the instructions.
pub open spec fn menu_canvas(c: Canvas, selected: int) -> Canvas {
    let mid = c.width / 2;
    let titled = c.with_brush(Color::black()).fill_rect(0, 0, c.width, c.height).with_brush(
        Color::red(),
    ).fill_rect(mid - 80, 90, mid + 80, 95).fill_rect(mid - 80, 105, mid + 80, 110);
    menu_level(menu_level(menu_level(titled, 1, selected), 2, selected), 3, selected).with_brush(
        Color::gray(),
    ).fill_rect(mid - 60, 380, mid + 60, 385).fill_rect(mid - 80, 430, mid + 80, 435)
}

fn half_of(v: i32) -> (h: i128)
    ensures
        h == v as int / 2,
{
    match v.checked_div_euclid(2) {
        Some(h) => h as i128,
        None => 0,
    }
}

/// Draws the menu with the line of `selected_level` picked out.
pub fn draw_main_menu(framebuffer: &mut Framebuffer, selected_level: i32)
    ensures
        final(framebuffer)@ == menu_canvas(old(framebuffer)@, selected_level as int),
{
    let width = framebuffer.width();
    let height = framebuffer.height();
    let mid = half_of(width);
    let ghost before = framebuffer@;
    framebuffer.set_current_color(Color::black());
    framebuffer.fill_block(0, 0, width as i128, height as i128);
    framebuffer.set_current_color(Color::red());
    framebuffer.fill_block(mid - 80, 90, mid + 80, 95);
    framebuffer.fill_block(mid - 80, 105, mid + 80, 110);
    let ghost titled = framebuffer@;
    let mut level: i32 = 1;
    while level <= 3
        invariant
            1 <= level <= 4,
            mid == before.width / 2,
            -0x8000_0000 <= mid <= 0x8000_0000,
            framebuffer@.width == before.width,
            framebuffer@ == (if level == 1 {
                titled
            } else if level == 2 {
                menu_level(titled, 1, selected_level as int)
            } else if level == 3 {
                menu_level(menu_level(titled, 1, selected_level as int), 2, selected_level as int)
            } else {
                menu_level(
                    menu_level(menu_level(titled, 1, selected_level as int), 2, selected_level as int),
                    3,
                    selected_level as int,
                )
            }),
        decreases 4 - level,
    {
        let y_pos: i128 = 200 + ((level - 1) * 50) as i128;
        if level == selected_level {
            framebuffer.set_current_color(Color::green());
            framebuffer.fill_block(mid - 40, y_pos, mid - 35, y_pos + 5);
        } else {
            framebuffer.set_current_color(Color::white());
        }
        framebuffer.fill_block(mid - 30, y_pos, mid + 30, y_pos + 5);
        framebuffer.set_current_color(
            if level == selected_level {
                Color::green()
            } else {
                Color::white()
            },
        );
        framebuffer.fill_block(mid + 35, y_pos, mid + 40, y_pos + 5);
        level = level + 1;
    }
    framebuffer.set_current_color(Color::gray());
    framebuffer.fill_block(mid - 60, 380, mid + 60, 385);
    framebuffer.fill_block(mid - 80, 430, mid + 80, 435);
}

/// The dark blue behind the title screen.
pub open spec fn title_ground() -> Color {
    Color { r: 20, g: 20, b: 40, a: 255 }
}

/// The line of the title screen for `level`: between angle brackets when
/// it is the selected one.
pub open spec fn level_text(level: int, selected: bool) -> Seq<char> {
    seq![if selected { '>' } else { ' ' }, ' ', 'N', 'I', 'V', 'E', 'L', ' '] + digits(
        level as nat,
    ) + seq![' ', if selected { '<' } else { ' ' }]
}

/// The surface after the line of the title screen for `level` is written.
pub open spec fn level_line(c: Canvas, level: int, selected: int) -> Canvas {
    written(
        c,
        level_text(level, level == selected),
        c.width / 2 - 35,
        280 + (level - 1) * 50,
        1,
        if level == selected { Color::green() } else { Color::light_gray() },
    )
}

/// The surface after the title screen is drawn over all of it: the name
/// of the game, what to do, and a line for each of the three levels.
pub open spec fn title_canvas(c: Canvas, selected: int) -> Canvas {
    let mx = c.width / 2;
    let ground = c.with_brush(title_ground()).fill_rect(0, 0, c.width, c.height);
    let named = written(ground, "RAYCASTING GAME"@, mx - 45, 100, 2, Color::yellow());
    let told = written(named, "ENCUENTRA LA LLAVE A TIEMPO!"@, mx - 80, 150, 1, Color::gold());
    let asked = written(told, "SELECCIONA NIVEL"@, mx - 45, 220, 1, Color::white());
    let listed = level_line(level_line(level_line(asked, 1, selected), 2, selected), 3, selected);
    let timed = written(
        listed,
        "Tienes 60 segundos para encontrar la llave"@,
        mx - 150,
        450,
        1,
        Color::light_gray(),
    );
    written(timed, "y llegar a la salida (casilla verde)"@, mx - 120, 470, 1, Color::light_gray())
}

/// Draws the title screen with the line of `selected_level` picked out.
pub fn draw_title_screen(framebuffer: &mut Framebuffer, font: &Font, selected_level: i32)
    ensures
        final(framebuffer)@ == title_canvas(old(framebuffer)@, selected_level as int),
{
    let width = framebuffer.width();
    let height = framebuffer.height();
    let mx: i32 = half_of(width) as i32;
    let ghost before = framebuffer@;
    framebuffer.set_current_color(Color::new(20, 20, 40, 255));
    framebuffer.fill_block(0, 0, width as i128, height as i128);
    proof {
        let ground = framebuffer@;
        lemma_text_canvas_frame(
            ground,
            "RAYCASTING GAME"@,
            mx - 45,
            100,
            2,
            Color::yellow(),
            "RAYCASTING GAME"@.len() as int,
        );
    }
    font.draw_text(framebuffer, "RAYCASTING GAME", mx - 45, 100, 2, Color::yellow());
    proof {
        lemma_text_canvas_frame(
            framebuffer@,
            "ENCUENTRA LA LLAVE A TIEMPO!"@,
            mx - 80,
            150,
            1,
            Color::gold(),
            "ENCUENTRA LA LLAVE A TIEMPO!"@.len() as int,
        );
    }
    font.draw_text(framebuffer, "ENCUENTRA LA LLAVE A TIEMPO!", mx - 80, 150, 1, Color::gold());
    proof {
        lemma_text_canvas_frame(
            framebuffer@,
            "SELECCIONA NIVEL"@,
            mx - 45,
            220,
            1,
            Color::white(),
            "SELECCIONA NIVEL"@.len() as int,
        );
    }
    font.draw_text(framebuffer, "SELECCIONA NIVEL", mx - 45, 220, 1, Color::white());
    let ghost asked = framebuffer@;
    let mut level: i32 = 1;
    while level <= 3
        invariant
            1 <= level <= 4,
            mx == before.width / 2,
            -0x4000_0001 <= mx <= 0x4000_0000,
            framebuffer@.width == before.width,
            framebuffer@ == (if level == 1 {
                asked
            } else if level == 2 {
                level_line(asked, 1, selected_level as int)
            } else if level == 3 {
                level_line(level_line(asked, 1, selected_level as int), 2, selected_level as int)
            } else {
                level_line(
                    level_line(level_line(asked, 1, selected_level as int), 2, selected_level as int),
                    3,
                    selected_level as int,
                )
            }),
        decreases 4 - level,
    {
        let selected = level == selected_level;
        let mut line: Vec<char> = Vec::new();
        line.push(if selected { '>' } else { ' ' });
        line.push(' ');
        line.push('N');
        line.push('I');
        line.push('V');
        line.push('E');
        line.push('L');
        line.push(' ');
        push_digits(&mut line, level as u128);
        line.push(' ');
        line.push(if selected { '<' } else { ' ' });
        proof {
            assert(line@ =~= level_text(level as int, selected));
            lemma_text_canvas_frame(
                framebuffer@,
                line@,
                mx - 35,
                280 + (level - 1) * 50,
                1,
                if selected { Color::green() } else { Color::light_gray() },
                line@.len() as int,
            );
        }
        let y_pos: i32 = 280 + (level - 1) * 50;
        if selected {
            font.draw_chars(framebuffer, &line, mx - 35, y_pos, 1, Color::green());
        } else {
            font.draw_chars(framebuffer, &line, mx - 35, y_pos, 1, Color::light_gray());
        }
        level = level + 1;
    }
    font.draw_text(
        framebuffer,
        "Tienes 60 segundos para encontrar la llave",
        mx - 150,
        450,
        1,
        Color::light_gray(),
    );
    font.draw_text(
        framebuffer,
        "y llegar a la salida (casilla verde)",
        mx - 120,
        470,
        1,
        Color::light_gray(),
    );
}

/// The width in pixels of the life bar.
pub const BAR_WIDTH: i64 = 200;

/// The width in pixels of the part of the life bar that stands for a
/// life of `life` milliseconds.
pub open spec fn life_width(life: int) -> int {
    BAR_WIDTH * life / (MAX_LIFE as int)
}

/// The color of the life bar: green above half of the full life, yellow
/// above a quarter, red below.
pub open spec fn life_color(life: int) -> Color {
    if 2 * life > MAX_LIFE {
        Color::green()
    } else if 4 * life > MAX_LIFE {
        Color::yellow()
    } else {
        Color::red()
    }
}

/// The line of text that tells the time left.
pub open spec fn life_text(life: int) -> Seq<char> {
    seq!['T', 'I', 'E', 'M', 'P', 'O', ':', ' '] + seconds_text(life) + seq!['s']
}

/// The line of text that tells whether the key is held.
pub open spec fn key_text(has_key: bool) -> Seq<char> {
    if has_key {
        seq!['L', 'L', 'A', 'V', 'E', ':', ' ', '\u{2713}']
    } else {
        seq!['L', 'L', 'A', 'V', 'E', ':', ' ', '\u{2717}']
    }
}

/// The surface after the life bar is drawn at the top left: a dark gray
/// ground, the life left in its color, a white border, and below it the
/// time left and whether the key is held.
pub open spec fn life_bar_canvas(c: Canvas, state: GameState) -> Canvas {
    let ground = c.with_brush(Color::dark_gray()).fill_rect(20, 20, 220, 40);
    let filled = if life_width(state.life as int) > 0 {
        ground.with_brush(life_color(state.life as int)).fill_rect(
            20,
            20,
            20 + life_width(state.life as int),
            40,
        )
    } else {
        ground
    };
    let framed = filled.with_brush(Color::white()).fill_rect(20, 20, 220, 21).fill_rect(
        20,
        39,
        220,
        40,
    ).fill_rect(20, 20, 21, 40).fill_rect(219, 20, 220, 40);
    let timed = text_canvas(
        framed,
        life_text(state.life as int),
        20,
        45,
        1,
        Color::white(),
        life_text(state.life as int).len() as int,
    );
    text_canvas(
        timed,
        key_text(state.has_key),
        20,
        60,
        1,
        if state.has_key { Color::gold() } else { Color::gray() },
        key_text(state.has_key).len() as int,
    )
}

/// Draws the life bar with the time left and the key indicator below it.
pub fn draw_life_bar(framebuffer: &mut Framebuffer, game_state: &GameState, font: &Font)
    ensures
        final(framebuffer)@ == life_bar_canvas(old(framebuffer)@, *game_state),
{
    framebuffer.set_current_color(Color::dark_gray());
    framebuffer.fill_block(20, 20, 220, 40);
    let width: i128 = match ((BAR_WIDTH as i128) * (game_state.life as i128)).checked_div_euclid(
        MAX_LIFE as i128,
    ) {
        Some(v) => v,
        None => 0,
    };
    if width > 0 {
        let life_color = if 2 * (game_state.life as i128) > MAX_LIFE as i128 {
            Color::green()
        } else if 4 * (game_state.life as i128) > MAX_LIFE as i128 {
            Color::yellow()
        } else {
            Color::red()
        };
        framebuffer.set_current_color(life_color);
        framebuffer.fill_block(20, 20, 20 + width, 40);
    }
    framebuffer.set_current_color(Color::white());
    framebuffer.fill_block(20, 20, 220, 21);
    framebuffer.fill_block(20, 39, 220, 40);
    framebuffer.fill_block(20, 20, 21, 40);
    framebuffer.fill_block(219, 20, 220, 40);

    let mut life_line: Vec<char> = Vec::new();
    life_line.push('T');
    life_line.push('I');
    life_line.push('E');
    life_line.push('M');
    life_line.push('P');
    life_line.push('O');
    life_line.push(':');
    life_line.push(' ');
    push_seconds(&mut life_line, game_state.life as i128);
    life_line.push('s');
    proof {
        assert(life_line@ =~= life_text(game_state.life as int));
    }
    font.draw_chars(framebuffer, &life_line, 20, 45, 1, Color::white());

    let mut key_line: Vec<char> = Vec::new();
    key_line.push('L');
    key_line.push('L');
    key_line.push('A');
    key_line.push('V');
    key_line.push('E');
    key_line.push(':');
    key_line.push(' ');
    if game_state.has_key {
        key_line.push('\u{2713}');
        proof {
            assert(key_line@ =~= key_text(true));
        }
        font.draw_chars(framebuffer, &key_line, 20, 60, 1, Color::gold());
    } else {
        key_line.push('\u{2717}');
        proof {
            assert(key_line@ =~= key_text(false));
        }
        font.draw_chars(framebuffer, &key_line, 20, 60, 1, Color::gray());
    }
}

/// The dark green behind the screen that tells of a win.
pub open spec fn win_ground() -> Color {
    Color { r: 0, g: 100, b: 0, a: 255 }
}

/// The dark red behind the screen that tells of a loss.
pub open spec fn lose_ground() -> Color {
    Color { r: 100, g: 0, b: 0, a: 255 }
}

/// The line of text that tells how long the round took.
pub open spec fn time_used_text(life: int) -> Seq<char> {
    seq!['T', 'i', 'e', 'm', 'p', 'o', ':', ' '] + seconds_text(MAX_LIFE - life) + seq![
        ' ',
        's',
        'e',
        'g',
        'u',
        'n',
        'd',
        'o',
        's',
    ]
}

/// The surface with `text` written on it in full.
pub open spec fn written(c: Canvas, text: Seq<char>, x: int, y: int, scale: int, color: Color) -> Canvas {
    text_canvas(c, text, x, y, scale, color, text.len() as int)
}

/// The surface after the screen that tells of a win is drawn over all
/// of it.
pub open spec fn win_canvas(c: Canvas, state: GameState) -> Canvas {
    let mx = c.width / 2;
    let my = c.height / 2;
    let ground = c.with_brush(win_ground()).fill_rect(0, 0, c.width, c.height);
    let headed = written(ground, "¡VICTORIA!"@, mx - 60, my - 50, 3, Color::gold());
    let told = written(
        headed,
        "Encontraste la llave y escapaste!"@,
        mx - 120,
        my,
        1,
        Color::white(),
    );
    let timed = written(
        told,
        time_used_text(state.life as int),
        mx - 80,
        my + 30,
        1,
        Color::yellow(),
    );
    let again = written(
        timed,
        "Presiona ESPACIO para jugar otra vez"@,
        mx - 140,
        my + 80,
        1,
        Color::light_gray(),
    );
    written(again, "Presiona ESC para salir al menu"@, mx - 120, my + 110, 1, Color::light_gray())
}

/// Draws the screen that tells of a win, with the time the round took.
pub fn draw_win_screen(framebuffer: &mut Framebuffer, font: &Font, game_state: &GameState)
    ensures
        final(framebuffer)@ == win_canvas(old(framebuffer)@, *game_state),
{
    let width = framebuffer.width();
    let height = framebuffer.height();
    let mx: i32 = half_of(width) as i32;
    let my: i32 = half_of(height) as i32;
    framebuffer.set_current_color(Color::new(0, 100, 0, 255));
    framebuffer.fill_block(0, 0, width as i128, height as i128);
    font.draw_text(framebuffer, "¡VICTORIA!", mx - 60, my - 50, 3, Color::gold());
    font.draw_text(
        framebuffer,
        "Encontraste la llave y escapaste!",
        mx - 120,
        my,
        1,
        Color::white(),
    );
    let mut line: Vec<char> = Vec::new();
    line.push('T');
    line.push('i');
    line.push('e');
    line.push('m');
    line.push('p');
    line.push('o');
    line.push(':');
    line.push(' ');
    push_seconds(&mut line, MAX_LIFE as i128 - game_state.life as i128);
    line.push(' ');
    line.push('s');
    line.push('e');
    line.push('g');
    line.push('u');
    line.push('n');
    line.push('d');
    line.push('o');
    line.push('s');
    proof {
        assert(line@ =~= time_used_text(game_state.life as int));
    }
    font.draw_chars(framebuffer, &line, mx - 80, my + 30, 1, Color::yellow());
    font.draw_text(
        framebuffer,
        "Presiona ESPACIO para jugar otra vez",
        mx - 140,
        my + 80,
        1,
        Color::light_gray(),
    );
    font.draw_text(
        framebuffer,
        "Presiona ESC para salir al menu",
        mx - 120,
        my + 110,
        1,
        Color::light_gray(),
    );
}

/// The surface after the screen that tells of a loss is drawn over all
/// of it.
pub open spec fn lose_canvas(c: Canvas) -> Canvas {
    let mx = c.width / 2;
    let my = c.height / 2;
    let ground = c.with_brush(lose_ground()).fill_rect(0, 0, c.width, c.height);
    let headed = written(ground, "¡GAME OVER!"@, mx - 60, my - 50, 3, Color::red());
    let told = written(headed, "Se te acabó el tiempo..."@, mx - 80, my, 1, Color::white());
    let why = written(
        told,
        "No lograste encontrar la llave a tiempo"@,
        mx - 140,
        my + 30,
        1,
        Color::white(),
    );
    let again = written(
        why,
        "Presiona ESPACIO para intentar otra vez"@,
        mx - 160,
        my + 80,
        1,
        Color::light_gray(),
    );
    written(again, "Presiona ESC para salir al menu"@, mx - 120, my + 110, 1, Color::light_gray())
}

/// Draws the screen that tells of a loss.
pub fn draw_lose_screen(framebuffer: &mut Framebuffer, font: &Font)
    ensures
        final(framebuffer)@ == lose_canvas(old(framebuffer)@),
{
    let width = framebuffer.width();
    let height = framebuffer.height();
    let mx: i32 = half_of(width) as i32;
    let my: i32 = half_of(height) as i32;
    framebuffer.set_current_color(Color::new(100, 0, 0, 255));
    framebuffer.fill_block(0, 0, width as i128, height as i128);
    font.draw_text(framebuffer, "¡GAME OVER!", mx - 60, my - 50, 3, Color::red());
    font.draw_text(framebuffer, "Se te acabó el tiempo...", mx - 80, my, 1, Color::white());
    font.draw_text(
        framebuffer,
        "No lograste encontrar la llave a tiempo",
        mx - 140,
        my + 30,
        1,
        Color::white(),
    );
    font.draw_text(
        framebuffer,
        "Presiona ESPACIO para intentar otra vez",
        mx - 160,
        my + 80,
        1,
        Color::light_gray(),
    );
    font.draw_text(
        framebuffer,
        "Presiona ESC para salir al menu",
        mx - 120,
        my + 110,
        1,
        Color::light_gray(),
    );
}

} // verus!
