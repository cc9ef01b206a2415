//! A 5 by 5 bitmap font and the text drawn with it.

use vstd::prelude::*;
use vstd::string::*;
use crate::canvas::Canvas;
use crate::color::Color;
use crate::framebuffer::Framebuffer;

verus! {

/// The number of characters that the font has room for.
pub const FONT_SIZE: usize = 128;

/// How far one character stands from the next, in cells.
pub const GLYPH_ADVANCE: i64 = 6;

/// The bitmap of `c`: five rows, top to bottom, each of five cells, the
/// leftmost cell in the highest of the five bits. A character that the
/// font does not draw has an empty bitmap.
pub open spec fn glyph(c: char) -> [u8; 5] {
    match c {
        'A' => [0b01110, 0b10001, 0b11111, 0b10001, 0b10001],
        'B' => [0b11110, 0b10001, 0b11110, 0b10001, 0b11110],
        'C' => [0b01110, 0b10001, 0b10000, 0b10001, 0b01110],
        'D' => [0b11110, 0b10001, 0b10001, 0b10001, 0b11110],
        'E' => [0b11111, 0b10000, 0b11110, 0b10000, 0b11111],
        'F' => [0b11111, 0b10000, 0b11110, 0b10000, 0b10000],
        'G' => [0b01110, 0b10000, 0b10111, 0b10001, 0b01110],
        'H' => [0b10001, 0b10001, 0b11111, 0b10001, 0b10001],
        'I' => [0b11111, 0b00100, 0b00100, 0b00100, 0b11111],
        'J' => [0b00111, 0b00010, 0b00010, 0b10010, 0b01100],
        'K' => [0b10001, 0b10010, 0b11100, 0b10010, 0b10001],
        'L' => [0b10000, 0b10000, 0b10000, 0b10000, 0b11111],
        'M' => [0b10001, 0b11011, 0b10101, 0b10001, 0b10001],
        'N' => [0b10001, 0b11001, 0b10101, 0b10011, 0b10001],
        'O' => [0b01110, 0b10001, 0b10001, 0b10001, 0b01110],
        'P' => [0b11110, 0b10001, 0b11110, 0b10000, 0b10000],
        'Q' => [0b01110, 0b10001, 0b10001, 0b10011, 0b01111],
        'R' => [0b11110, 0b10001, 0b11110, 0b10010, 0b10001],
        'S' => [0b01111, 0b10000, 0b01110, 0b00001, 0b11110],
        'T' => [0b11111, 0b00100, 0b00100, 0b00100, 0b00100],
        'U' => [0b10001, 0b10001, 0b10001, 0b10001, 0b01110],
        'V' => [0b10001, 0b10001, 0b10001, 0b01010, 0b00100],
        'W' => [0b10001, 0b10001, 0b10101, 0b11011, 0b10001],
        'X' => [0b10001, 0b01010, 0b00100, 0b01010, 0b10001],
        'Y' => [0b10001, 0b01010, 0b00100, 0b00100, 0b00100],
        'Z' => [0b11111, 0b00010, 0b00100, 0b01000, 0b11111],
        '0' => [0b01110, 0b10001, 0b10001, 0b10001, 0b01110],
        '1' => [0b00100, 0b01100, 0b00100, 0b00100, 0b01110],
        '2' => [0b01110, 0b10001, 0b00110, 0b01000, 0b11111],
        '3' => [0b11110, 0b00001, 0b01110, 0b00001, 0b11110],
        '4' => [0b00010, 0b00110, 0b01010, 0b11111, 0b00010],
        '5' => [0b11111, 0b10000, 0b11110, 0b00001, 0b11110],
        '6' => [0b01110, 0b10000, 0b11110, 0b10001, 0b01110],
        '7' => [0b11111, 0b00001, 0b00010, 0b00100, 0b00100],
        '8' => [0b01110, 0b10001, 0b01110, 0b10001, 0b01110],
        '9' => [0b01110, 0b10001, 0b01111, 0b00001, 0b01110],
        '>' => [0b10000, 0b01000, 0b00111, 0b01000, 0b10000],
        '<' => [0b00001, 0b00010, 0b11100, 0b00010, 0b00001],
        _ => [0, 0, 0, 0, 0],
    }
}

/// The bitmap of `c`.
pub fn glyph_rows(c: char) -> (rows: [u8; 5])
    ensures
        rows == glyph(c),
{
    match c {
        'A' => [0b01110, 0b10001, 0b11111, 0b10001, 0b10001],
        'B' => [0b11110, 0b10001, 0b11110, 0b10001, 0b11110],
        'C' => [0b01110, 0b10001, 0b10000, 0b10001, 0b01110],
        'D' => [0b11110, 0b10001, 0b10001, 0b10001, 0b11110],
        'E' => [0b11111, 0b10000, 0b11110, 0b10000, 0b11111],
        'F' => [0b11111, 0b10000, 0b11110, 0b10000, 0b10000],
        'G' => [0b01110, 0b10000, 0b10111, 0b10001, 0b01110],
        'H' => [0b10001, 0b10001, 0b11111, 0b10001, 0b10001],
        'I' => [0b11111, 0b00100, 0b00100, 0b00100, 0b11111],
        'J' => [0b00111, 0b00010, 0b00010, 0b10010, 0b01100],
        'K' => [0b10001, 0b10010, 0b11100, 0b10010, 0b10001],
        'L' => [0b10000, 0b10000, 0b10000, 0b10000, 0b11111],
        'M' => [0b10001, 0b11011, 0b10101, 0b10001, 0b10001],
        'N' => [0b10001, 0b11001, 0b10101, 0b10011, 0b10001],
        'O' => [0b01110, 0b10001, 0b10001, 0b10001, 0b01110],
        'P' => [0b11110, 0b10001, 0b11110, 0b10000, 0b10000],
        'Q' => [0b01110, 0b10001, 0b10001, 0b10011, 0b01111],
        'R' => [0b11110, 0b10001, 0b11110, 0b10010, 0b10001],
        'S' => [0b01111, 0b10000, 0b01110, 0b00001, 0b11110],
        'T' => [0b11111, 0b00100, 0b00100, 0b00100, 0b00100],
        'U' => [0b10001, 0b10001, 0b10001, 0b10001, 0b01110],
        'V' => [0b10001, 0b10001, 0b10001, 0b01010, 0b00100],
        'W' => [0b10001, 0b10001, 0b10101, 0b11011, 0b10001],
        'X' => [0b10001, 0b01010, 0b00100, 0b01010, 0b10001],
        'Y' => [0b10001, 0b01010, 0b00100, 0b00100, 0b00100],
        'Z' => [0b11111, 0b00010, 0b00100, 0b01000, 0b11111],
        '0' => [0b01110, 0b10001, 0b10001, 0b10001, 0b01110],
        '1' => [0b00100, 0b01100, 0b00100, 0b00100, 0b01110],
        '2' => [0b01110, 0b10001, 0b00110, 0b01000, 0b11111],
        '3' => [0b11110, 0b00001, 0b01110, 0b00001, 0b11110],
        '4' => [0b00010, 0b00110, 0b01010, 0b11111, 0b00010],
        '5' => [0b11111, 0b10000, 0b11110, 0b00001, 0b11110],
        '6' => [0b01110, 0b10000, 0b11110, 0b10001, 0b01110],
        '7' => [0b11111, 0b00001, 0b00010, 0b00100, 0b00100],
        '8' => [0b01110, 0b10001, 0b01110, 0b10001, 0b01110],
        '9' => [0b01110, 0b10001, 0b01111, 0b00001, 0b01110],
        '>' => [0b10000, 0b01000, 0b00111, 0b01000, 0b10000],
        '<' => [0b00001, 0b00010, 0b11100, 0b00010, 0b00001],
        _ => [0, 0, 0, 0, 0],
    }
}

/// The value of the bit that stands for column `col` of a row.
pub open spec fn column_weight(col: int) -> int {
    if col == 0 {
        16
    } else if col == 1 {
        8
    } else if col == 2 {
        4
    } else if col == 3 {
        2
    } else {
        1
    }
}

/// Whether the cell at `row` and `col` of a bitmap is set.
pub open spec fn cell_set(rows: [u8; 5], row: int, col: int) -> bool {
    (rows[row] as int) / column_weight(col) % 2 == 1
}

/// Whether the font has room for `c`.
pub open spec fn has_glyph(c: char) -> bool {
    0 <= (c as int) < FONT_SIZE
}

/// The surface after the first `k` cells of a bitmap, counted row by row,
/// are drawn with `scale` pixels to the cell from `(gx, gy)` on: each cell
/// that is set becomes a square of `color`.
pub open spec fn cells_canvas(
    c: Canvas,
    rows: [u8; 5],
    gx: int,
    gy: int,
    scale: int,
    color: Color,
    k: int,
) -> Canvas
    decreases k,
{
    if k <= 0 {
        c
    } else {
        let before = cells_canvas(c, rows, gx, gy, scale, color, k - 1);
        let row = (k - 1) / 5;
        let col = (k - 1) % 5;
        if cell_set(rows, row, col) {
            before.paint(
                gx + col * scale,
                gy + row * scale,
                gx + col * scale + scale,
                gy + row * scale + scale,
                color,
            )
        } else {
            before
        }
    }
}

/// The surface after the first `n` characters of `text` are drawn from
/// `(x, y)` on, left to right. A character that the font has no room for
/// leaves a gap.
pub open spec fn text_canvas(
    c: Canvas,
    text: Seq<char>,
    x: int,
    y: int,
    scale: int,
    color: Color,
    n: int,
) -> Canvas
    decreases n,
{
    if n <= 0 {
        c
    } else {
        let before = text_canvas(c, text, x, y, scale, color, n - 1);
        if has_glyph(text[n - 1]) {
            cells_canvas(
                before,
                glyph(text[n - 1]),
                x + (n - 1) * GLYPH_ADVANCE * scale,
                y,
                scale,
                color,
                25,
            )
        } else {
            before
        }
    }
}

/// Drawing the cells of a bitmap keeps the size of the surface and both
/// of its colors.
pub proof fn lemma_cells_canvas_frame(
    c: Canvas,
    rows: [u8; 5],
    gx: int,
    gy: int,
    scale: int,
    color: Color,
    k: int,
)
    ensures
        cells_canvas(c, rows, gx, gy, scale, color, k).width == c.width,
        cells_canvas(c, rows, gx, gy, scale, color, k).height == c.height,
        cells_canvas(c, rows, gx, gy, scale, color, k).brush == c.brush,
        cells_canvas(c, rows, gx, gy, scale, color, k).background == c.background,
    decreases k,
{
    if k > 0 {
        lemma_cells_canvas_frame(c, rows, gx, gy, scale, color, k - 1);
    }
}

/// Drawing text keeps the size of the surface and both of its colors.
pub proof fn lemma_text_canvas_frame(
    c: Canvas,
    text: Seq<char>,
    x: int,
    y: int,
    scale: int,
    color: Color,
    n: int,
)
    ensures
        text_canvas(c, text, x, y, scale, color, n).width == c.width,
        text_canvas(c, text, x, y, scale, color, n).height == c.height,
        text_canvas(c, text, x, y, scale, color, n).brush == c.brush,
        text_canvas(c, text, x, y, scale, color, n).background == c.background,
    decreases n,
{
    if n > 0 {
        lemma_text_canvas_frame(c, text, x, y, scale, color, n - 1);
        lemma_cells_canvas_frame(
            text_canvas(c, text, x, y, scale, color, n - 1),
            glyph(text[n - 1]),
            x + (n - 1) * GLYPH_ADVANCE * scale,
            y,
            scale,
            color,
            25,
        );
    }
}

/// The code of `c`.
pub fn char_code(c: char) -> (code: u32)
    ensures
        code as int == c as int,
{
    c as u32
}

/// The characters of `text`, in order.
pub fn characters_of(text: &str) -> (chars: Vec<char>)
    ensures
        chars@ == text@,
{
    let n = text.unicode_len();
    let mut chars: Vec<char> = Vec::new();
    let mut i: usize = 0;
    while i < n
        invariant
            i <= n,
            n == text@.len(),
            chars@ == text@.take(i as int),
        decreases n - i,
    {
        chars.push(text.get_char(i));
        proof {
            assert(chars@ =~= text@.take(i + 1));
        }
        i = i + 1;
    }
    proof {
        assert(text@.take(n as int) =~= text@);
    }
    chars
}

/// The character for the digit `d`.
pub open spec fn digit_char(d: int) -> char {
    if d == 0 {
        '0'
    } else if d == 1 {
        '1'
    } else if d == 2 {
        '2'
    } else if d == 3 {
        '3'
    } else if d == 4 {
        '4'
    } else if d == 5 {
        '5'
    } else if d == 6 {
        '6'
    } else if d == 7 {
        '7'
    } else if d == 8 {
        '8'
    } else {
        '9'
    }
}

/// The decimal digits of `n`, most significant first.
pub open spec fn digits(n: nat) -> Seq<char>
    decreases n,
{
    if n < 10 {
        seq![digit_char(n as int)]
    } else {
        digits(n / 10).push(digit_char((n % 10) as int))
    }
}

/// A time of `ms` milliseconds as seconds with one decimal, rounded to
/// the nearest tenth; a time before zero reads as zero.
pub open spec fn seconds_text(ms: int) -> Seq<char> {
    let tenths = if ms < 0 { 0 } else { (ms + 50) / 100 };
    digits((tenths / 10) as nat).push('.').push(digit_char(tenths % 10))
}

fn digit(d: u128) -> (c: char)
    requires
        d < 10,
    ensures
        c == digit_char(d as int),
{
    if d == 0 {
        '0'
    } else if d == 1 {
        '1'
    } else if d == 2 {
        '2'
    } else if d == 3 {
        '3'
    } else if d == 4 {
        '4'
    } else if d == 5 {
        '5'
    } else if d == 6 {
        '6'
    } else if d == 7 {
        '7'
    } else if d == 8 {
        '8'
    } else {
        '9'
    }
}

/// Appends the decimal digits of `n` to `out`.
pub fn push_digits(out: &mut Vec<char>, n: u128)
    ensures
        final(out)@ == old(out)@ + digits(n as nat),
    decreases n,
{
    if n >= 10 {
        push_digits(out, n / 10);
    }
    out.push(digit(n % 10));
    proof {
        if n >= 10 {
            assert(out@ =~= old(out)@ + digits(n as nat));
        } else {
            assert(out@ =~= old(out)@ + digits(n as nat));
        }
    }
}

/// Appends to `out` a time of `ms` milliseconds as seconds with one decimal.
pub fn push_seconds(out: &mut Vec<char>, ms: i128)
    ensures
        final(out)@ == old(out)@ + seconds_text(ms as int),
{
    let tenths: u128 = if ms < 0 { 0 } else { (ms as u128 / 100) + ((ms as u128 % 100) + 50) / 100 };
    push_digits(out, tenths / 10);
    out.push('.');
    out.push(digit(tenths % 10));
    proof {
        assert(out@ =~= old(out)@ + seconds_text(ms as int));
    }
}

/// The bitmaps of the font, one for each of its characters.
pub struct Font {
    characters: Vec<[u8; 5]>,
}

impl View for Font {
    type V = Seq<[u8; 5]>;

    closed spec fn view(&self) -> Seq<[u8; 5]> {
        self.characters@
    }
}

/// Whether `table` holds the bitmap of every character that the font has
/// room for, at the character's code.
pub open spec fn is_font(table: Seq<[u8; 5]>) -> bool {
    &&& table.len() == FONT_SIZE
    &&& forall|c: char| has_glyph(c) ==> #[trigger] table[c as int] == glyph(c)
}

impl Font {
    #[verifier::type_invariant]
    spec fn inv(&self) -> bool {
        &&& self.characters@.len() == FONT_SIZE
        &&& forall|c: char| has_glyph(c) ==> #[trigger] self.characters@[c as int] == glyph(c)
    }

    /// The font: capitals, digits and the two angle brackets.
    pub fn new() -> (font: Font)
        ensures
            is_font(font@),
    {
        let mut characters: Vec<[u8; 5]> = Vec::new();
        let mut code: u8 = 0;
        while code < 128
            invariant
                code <= 128,
                characters@.len() == code,
                forall|k: int| 0 <= k < code ==> #[trigger] characters@[k] == glyph(k as u8 as char),
            decreases 128 - code,
        {
            characters.push(glyph_rows(code as char));
            code = code + 1;
        }
        proof {
            assert forall|c: char| has_glyph(c) implies #[trigger] characters@[c as int]
                == glyph(c) by {
                let k = c as int;
                assert(characters@[k] == glyph(k as u8 as char));
                assert(k as u8 as char == c);
            }
        }
        Font { characters }
    }

    /// Draws one character from `(gx, gy)` on with `scale` pixels to the cell.
    fn draw_glyph(
        framebuffer: &mut Framebuffer,
        rows: [u8; 5],
        gx: i128,
        gy: i128,
        scale: i32,
        color: Color,
    )
        requires
            -0x10_0000_0000_0000_0000_0000_0000 <= gx <= 0x10_0000_0000_0000_0000_0000_0000,
            -0x10_0000_0000_0000_0000_0000_0000 <= gy <= 0x10_0000_0000_0000_0000_0000_0000,
        ensures
            final(framebuffer)@ == cells_canvas(
                old(framebuffer)@,
                rows,
                gx as int,
                gy as int,
                scale as int,
                color,
                25,
            ),
    {
        let ghost before = framebuffer@;
        let mut row: usize = 0;
        while row < 5
            invariant
                row <= 5,
                -0x10_0000_0000_0000_0000_0000_0000 <= gx <= 0x10_0000_0000_0000_0000_0000_0000,
                -0x10_0000_0000_0000_0000_0000_0000 <= gy <= 0x10_0000_0000_0000_0000_0000_0000,
                framebuffer@ == cells_canvas(
                    before,
                    rows,
                    gx as int,
                    gy as int,
                    scale as int,
                    color,
                    5 * row,
                ),
            decreases 5 - row,
        {
            let bits = rows[row];
            let mut col: usize = 0;
            while col < 5
                invariant
                    row < 5,
                    col <= 5,
                    bits == rows[row as int],
                    -0x10_0000_0000_0000_0000_0000_0000 <= gx <= 0x10_0000_0000_0000_0000_0000_0000,
                    -0x10_0000_0000_0000_0000_0000_0000 <= gy <= 0x10_0000_0000_0000_0000_0000_0000,
                    framebuffer@ == cells_canvas(
                        before,
                        rows,
                        gx as int,
                        gy as int,
                        scale as int,
                        color,
                        5 * row + col,
                    ),
                decreases 5 - col,
            {
                let weight: u8 = if col == 0 {
                    16
                } else if col == 1 {
                    8
                } else if col == 2 {
                    4
                } else if col == 3 {
                    2
                } else {
                    1
                };
                if bits / weight % 2 == 1 {
                    proof {
                        assert(-0x2_0000_0000 <= col * scale <= 0x2_0000_0000) by (nonlinear_arith)
                            requires
                                0 <= col < 5,
                                -0x8000_0000 <= scale <= 0x8000_0000,
                        ;
                        assert(-0x2_0000_0000 <= row * scale <= 0x2_0000_0000) by (nonlinear_arith)
                            requires
                                0 <= row < 5,
                                -0x8000_0000 <= scale <= 0x8000_0000,
                        ;
                    }
                    let left: i128 = gx + (col as i128) * (scale as i128);
                    let top: i128 = gy + (row as i128) * (scale as i128);
                    framebuffer.paint_block(
                        left,
                        top,
                        left + scale as i128,
                        top + scale as i128,
                        color,
                    );
                }
                col = col + 1;
            }
            row = row + 1;
        }
    }

    /// Draws the characters `text` in `color` from `(x, y)` on, with `scale`
    /// pixels to the cell and six cells from one character to the next. The
    /// draw color of the surface is left as it was.
    pub fn draw_chars(
        &self,
        framebuffer: &mut Framebuffer,
        text: &Vec<char>,
        x: i32,
        y: i32,
        scale: i32,
        color: Color,
    )
        ensures
            final(framebuffer)@ == text_canvas(
                old(framebuffer)@,
                text@,
                x as int,
                y as int,
                scale as int,
                color,
                text@.len() as int,
            ),
    {
        proof {
            use_type_invariant(self);
        }
        let n = text.len();
        let ghost before = framebuffer@;
        let mut i: usize = 0;
        while i < n
            invariant
                i <= n,
                n == text@.len(),
                self.characters@.len() == FONT_SIZE,
                forall|c: char|
                    has_glyph(c) ==> #[trigger] self.characters@[c as int] == glyph(c),
                framebuffer@ == text_canvas(
                    before,
                    text@,
                    x as int,
                    y as int,
                    scale as int,
                    color,
                    i as int,
                ),
            decreases n - i,
        {
            let c = text[i];
            let code = char_code(c);
            if code < 128 {
                let rows = self.characters[code as usize];
                proof {
                    assert(i * GLYPH_ADVANCE * scale == (i * 6) * scale) by (nonlinear_arith)
                        requires
                            GLYPH_ADVANCE == 6,
                    ;
                    assert(-0x6_0000_0000_0000_0000 * 0x8000_0000 <= (i * 6) * scale
                        <= 0x6_0000_0000_0000_0000 * 0x8000_0000) by (nonlinear_arith)
                        requires
                            0 <= i * 6 <= 0x6_0000_0000_0000_0000,
                            -0x8000_0000 <= scale <= 0x8000_0000,
                    ;
                }
                let gx: i128 = x as i128 + (i as i128) * 6 * (scale as i128);
                Font::draw_glyph(framebuffer, rows, gx, y as i128, scale, color);
            }
            i = i + 1;
        }
    }

    /// Draws `text` in `color` from `(x, y)` on, with `scale` pixels to the
    /// cell and six cells from one character to the next. The draw color of
    /// the surface is left as it was.
    pub fn draw_text(
        &self,
        framebuffer: &mut Framebuffer,
        text: &str,
        x: i32,
        y: i32,
        scale: i32,
        color: Color,
    )
        ensures
            final(framebuffer)@ == text_canvas(
                old(framebuffer)@,
                text@,
                x as int,
                y as int,
                scale as int,
                color,
                text@.len() as int,
            ),
    {
        let chars = characters_of(text);
        self.draw_chars(framebuffer, &chars, x, y, scale, color);
    }
}

} // verus!
