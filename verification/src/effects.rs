//! Lighting passes over a finished frame: a flashlight that fades with
//! the distance from the middle of the screen, and a general darkness.

use vstd::prelude::*;
use crate::canvas::Canvas;
use crate::color::Color;
use crate::framebuffer::Framebuffer;
use crate::math::{integer_sqrt, is_sqrt, isqrt};

verus! {

/// A color at half its brightness; its transparency is kept.
pub open spec fn darkened(c: Color) -> Color {
    Color { r: c.r / 2, g: c.g / 2, b: c.b / 2, a: c.a }
}

/// For each pixel of `c`, its color darkened.
pub open spec fn darkness_image(c: Canvas) -> spec_fn(int, int) -> Option<Color> {
    |x: int, y: int|
        match c.get(x, y) {
            Some(color) => Some(darkened(color)),
            None => None,
        }
}

/// The surface with every pixel of its first `width` columns and `height`
/// rows darkened.
pub open spec fn darkness_canvas(c: Canvas, width: int, height: int) -> Canvas {
    c.blit(0, 0, width, height, darkness_image(c))
}

/// The distance of `(dx, dy)` from the origin in hundredths, rounded down.
pub open spec fn distance_hundredths(dx: int, dy: int) -> int {
    isqrt(10000 * (dx * dx + dy * dy))
}

/// The radius in hundredths within which the flashlight is at full
/// strength, for a window whose shorter side is `side`.
pub open spec fn inner_radius(side: int) -> int {
    18 * side
}

/// The radius in hundredths beyond which the flashlight gives no light.
pub open spec fn outer_radius(side: int) -> int {
    60 * side
}

/// The channel value `v` under the flashlight, at `d` hundredths from
/// the middle: whole within the inner radius, nothing beyond the outer
/// one, and between them scaled by the square of what is left of the way
/// to the outer radius.
pub open spec fn lit_channel(v: int, d: int, side: int) -> int {
    let fade = outer_radius(side) - inner_radius(side);
    if d <= inner_radius(side) {
        v
    } else if d <= outer_radius(side) {
        v * ((outer_radius(side) - d) * (outer_radius(side) - d)) / (fade * fade)
    } else {
        0
    }
}

/// The color `c` of pixel `(x, y)` under the flashlight of a window of
/// the given size; its transparency is kept.
pub open spec fn lit(c: Color, x: int, y: int, width: int, height: int) -> Color {
    let side = if width < height { width } else { height };
    let d = distance_hundredths(x - width / 2, y - height / 2);
    Color {
        r: lit_channel(c.r as int, d, side) as u8,
        g: lit_channel(c.g as int, d, side) as u8,
        b: lit_channel(c.b as int, d, side) as u8,
        a: c.a,
    }
}

/// For each pixel of `c`, its color under the flashlight.
pub open spec fn flashlight_image(c: Canvas, width: int, height: int) -> spec_fn(
    int,
    int,
) -> Option<Color> {
    |x: int, y: int|
        match c.get(x, y) {
            Some(color) => Some(lit(color, x, y, width, height)),
            None => None,
        }
}

/// The surface with every pixel of its first `width` columns and `height`
/// rows put under the flashlight.
pub open spec fn flashlight_canvas(c: Canvas, width: int, height: int) -> Canvas {
    c.blit(0, 0, width, height, flashlight_image(c, width, height))
}

fn light_channel(v: u8, d: u64, side: i32) -> (r: u8)
    requires
        side > 0,
    ensures
        r == lit_channel(v as int, d as int, side as int),
{
    let inner: u128 = 18 * (side as u128);
    let outer: u128 = 60 * (side as u128);
    if d as u128 <= inner {
        v
    } else if d as u128 <= outer {
        let left: u128 = outer - d as u128;
        let fade: u128 = outer - inner;
        proof {
            assert(0 <= left * left <= fade * fade) by (nonlinear_arith)
                requires
                    0 <= left <= fade,
            ;
            assert(fade * fade <= 0x2a_0000_0000 * 0x2a_0000_0000) by (nonlinear_arith)
                requires
                    0 <= fade <= 0x2a_0000_0000,
            ;
            assert(fade * fade > 0) by (nonlinear_arith)
                requires
                    fade > 0,
            ;
            assert(0 <= v * (left * left) <= 255 * (0x2a_0000_0000 * 0x2a_0000_0000))
                by (nonlinear_arith)
                requires
                    0 <= v <= 255,
                    0 <= left * left <= 0x2a_0000_0000 * 0x2a_0000_0000,
            ;
            assert(v * (left * left) / ((fade * fade) as int) <= v) by (nonlinear_arith)
                requires
                    0 <= v,
                    0 <= left * left <= fade * fade,
                    fade * fade > 0,
            ;
        }
        ((v as u128) * (left * left) / (fade * fade)) as u8
    } else {
        0
    }
}

fn light(c: Color, x: i32, y: i32, width: i32, height: i32) -> (r: Color)
    requires
        0 <= x < width,
        0 <= y < height,
    ensures
        r == lit(c, x as int, y as int, width as int, height as int),
{
    let side: i32 = if width < height { width } else { height };
    let dx: i64 = x as i64 - (width / 2) as i64;
    let dy: i64 = y as i64 - (height / 2) as i64;
    proof {
        assert(0 <= dx * dx <= 0x8000_0000 * 0x8000_0000) by (nonlinear_arith)
            requires
                -0x8000_0000 <= dx <= 0x8000_0000,
        ;
        assert(0 <= dy * dy <= 0x8000_0000 * 0x8000_0000) by (nonlinear_arith)
            requires
                -0x8000_0000 <= dy <= 0x8000_0000,
        ;
    }
    let d: u64 = integer_sqrt(10000 * ((dx * dx) as u128 + (dy * dy) as u128));
    Color {
        r: light_channel(c.r, d, side),
        g: light_channel(c.g, d, side),
        b: light_channel(c.b, d, side),
        a: c.a,
    }
}

/// Puts every pixel of the first `window_width` columns and
/// `window_height` rows under a flashlight held at the middle of the
/// window: see `lit`.
pub fn apply_flashlight_effect(framebuffer: &mut Framebuffer, window_width: i32, window_height: i32)
    ensures
        final(framebuffer)@ == flashlight_canvas(
            old(framebuffer)@,
            window_width as int,
            window_height as int,
        ),
{
    let ghost before = framebuffer@;
    let ghost image = flashlight_image(before, window_width as int, window_height as int);
    proof {
        framebuffer.lemma_view_wf();
    }
    let mut x: i32 = 0;
    while x < window_width
        invariant
            0 <= x,
            0 < window_width ==> x <= window_width,
            window_width <= 0 ==> x == 0,
            before.wf(),
            image == flashlight_image(before, window_width as int, window_height as int),
            framebuffer@ == before.blit(0, 0, x as int, window_height as int, image),
        decreases window_width - x,
    {
        let ghost column_start = framebuffer@;
        proof {
            before.lemma_blit(0, 0, x as int, window_height as int, image);
        }
        let mut y: i32 = 0;
        while y < window_height
            invariant
                0 <= x < window_width,
                0 <= y,
                0 < window_height ==> y <= window_height,
                window_height <= 0 ==> y == 0,
                before.wf(),
                column_start.wf(),
                column_start.width == before.width,
                column_start.height == before.height,
                forall|p: (int, int)|
                    before.contains(p.0, p.1) && p.0 >= x ==> #[trigger] column_start.pixels[p]
                        == before.pixels[p],
                image == flashlight_image(before, window_width as int, window_height as int),
                framebuffer@ == column_start.blit_column(x as int, 0, y as int, image),
            decreases window_height - y,
        {
            proof {
                column_start.lemma_blit_column(x as int, 0, y as int, image);
            }
            match framebuffer.get_pixel_color(x, y) {
                Some(current_color) => {
                    let color = light(current_color, x, y, window_width, window_height);
                    framebuffer.set_current_color(color);
                    framebuffer.set_pixel(x, y);
                },
                None => {},
            }
            y = y + 1;
        }
        x = x + 1;
    }
}

/// Halves the brightness of every pixel of the first `window_width`
/// columns and `window_height` rows.
pub fn apply_general_darkness(framebuffer: &mut Framebuffer, window_width: i32, window_height: i32)
    ensures
        final(framebuffer)@ == darkness_canvas(
            old(framebuffer)@,
            window_width as int,
            window_height as int,
        ),
{
    let ghost before = framebuffer@;
    let ghost image = darkness_image(before);
    proof {
        framebuffer.lemma_view_wf();
    }
    let mut x: i32 = 0;
    while x < window_width
        invariant
            0 <= x,
            0 < window_width ==> x <= window_width,
            window_width <= 0 ==> x == 0,
            before.wf(),
            image == darkness_image(before),
            framebuffer@ == before.blit(0, 0, x as int, window_height as int, image),
        decreases window_width - x,
    {
        let ghost column_start = framebuffer@;
        proof {
            before.lemma_blit(0, 0, x as int, window_height as int, image);
        }
        let mut y: i32 = 0;
        while y < window_height
            invariant
                0 <= x < window_width,
                0 <= y,
                0 < window_height ==> y <= window_height,
                window_height <= 0 ==> y == 0,
                before.wf(),
                column_start.wf(),
                column_start.width == before.width,
                column_start.height == before.height,
                forall|p: (int, int)|
                    before.contains(p.0, p.1) && p.0 >= x ==> #[trigger] column_start.pixels[p]
                        == before.pixels[p],
                image == darkness_image(before),
                framebuffer@ == column_start.blit_column(x as int, 0, y as int, image),
            decreases window_height - y,
        {
            proof {
                column_start.lemma_blit_column(x as int, 0, y as int, image);
            }
            match framebuffer.get_pixel_color(x, y) {
                Some(current_color) => {
                    let color = Color::new(
                        current_color.r / 2,
                        current_color.g / 2,
                        current_color.b / 2,
                        current_color.a,
                    );
                    framebuffer.set_current_color(color);
                    framebuffer.set_pixel(x, y);
                },
                None => {},
            }
            y = y + 1;
        }
        x = x + 1;
    }
}

} // verus!
