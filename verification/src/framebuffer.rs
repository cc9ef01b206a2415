//! The pixel surface every renderer component draws into.

use vstd::prelude::*;
use crate::canvas::Canvas;
use crate::color::Color;
use crate::line::{abs_diff, line_point, line_points, line_steps, toward};
use crate::line::{lemma_line_end_points, lemma_minor_offset_unique};

verus! {

/// A width x height grid of colors with one stateful draw color.
pub struct Framebuffer {
    width: i32,
    height: i32,
    pixels: Vec<Color>,
    background_color: Color,
    current_color: Color,
}

/// `v`, or 0 when `v` is negative.
pub open spec fn max0(v: int) -> int {
    if v < 0 { 0 } else { v }
}

/// The coordinate nearest to `v` that a pixel of a surface, or the end of
/// a run of pixels, can have.
fn clamp_to_screen(v: i128) -> (r: i32)
    ensures
        r == (if v < 0 {
            0
        } else if v > i32::MAX {
            i32::MAX as int
        } else {
            v as int
        }),
{
    if v < 0 {
        0
    } else if v > 0x7fff_ffff {
        0x7fff_ffff
    } else {
        v as i32
    }
}

proof fn lemma_index_in_range(w: int, h: int, x: int, y: int)
    requires
        0 <= x < w,
        0 <= y < h,
    ensures
        0 <= y * w <= y * w + x < w * h,
{
    assert(y * w + x < w * h) by (nonlinear_arith)
        requires 0 <= x < w, 0 <= y < h;
    assert(0 <= y * w) by (nonlinear_arith)
        requires 0 <= y, 0 <= w;
}

proof fn lemma_index_injective(w: int, x1: int, y1: int, x2: int, y2: int)
    requires
        0 <= x1 < w,
        0 <= x2 < w,
        y1 * w + x1 == y2 * w + x2,
    ensures
        x1 == x2,
        y1 == y2,
{
    assert(y1 == y2) by (nonlinear_arith)
        requires 0 <= x1 < w, 0 <= x2 < w, y1 * w + x1 == y2 * w + x2;
}

impl View for Framebuffer {
    type V = Canvas;

    closed spec fn view(&self) -> Canvas {
        Canvas {
            width: self.width as int,
            height: self.height as int,
            pixels: Map::new(
                |p: (int, int)| 0 <= p.0 < self.width && 0 <= p.1 < self.height,
                |p: (int, int)| self.pixels@[p.1 * self.width + p.0],
            ),
            background: self.background_color,
            brush: self.current_color,
        }
    }
}

impl Framebuffer {
    #[verifier::type_invariant]
    spec fn inv(&self) -> bool {
        self.pixels@.len() == max0(self.width as int) * max0(self.height as int)
    }

    /// A surface of the given size filled with `background_color`; the draw color starts white.
    pub fn new(width: i32, height: i32, background_color: Color) -> (fb: Framebuffer)
        requires
            width > 0 && height > 0 ==> width * height <= usize::MAX,
        ensures
            fb@ == Canvas::blank(width as int, height as int, background_color),
    {
        let w: usize = if width < 0 { 0 } else { width as usize };
        let h: usize = if height < 0 { 0 } else { height as usize };
        proof {
            assert(w * h == max0(width as int) * max0(height as int));
            if width <= 0 || height <= 0 {
                assert(w * h == 0) by (nonlinear_arith)
                    requires
                        w == 0 || h == 0,
                ;
            }
        }
        let pixels = vec![background_color; w * h];
        let fb = Framebuffer { width, height, pixels, background_color, current_color: Color::white() };
        proof {
            assert forall|p: (int, int)| 0 <= p.0 < width && 0 <= p.1 < height implies
                #[trigger] fb.pixels@[p.1 * width + p.0] == background_color by {
                lemma_index_in_range(width as int, height as int, p.0, p.1);
            }
            assert(fb@.pixels =~= Canvas::blank(width as int, height as int, background_color).pixels);
        }
        fb
    }

    pub fn width(&self) -> (w: i32)
        ensures
            w == self@.width,
    {
        self.width
    }

    pub fn height(&self) -> (h: i32)
        ensures
            h == self@.height,
    {
        self.height
    }

    /// Paints the current draw color at `(x, y)`; a point off the surface is silently dropped.
    pub fn set_pixel(&mut self, x: i32, y: i32)
        ensures
            final(self)@ == old(self)@.plot(x as int, y as int),
    {
        proof {
            use_type_invariant(&*self);
        }
        if x >= 0 && x < self.width && y >= 0 && y < self.height {
            proof {
                lemma_index_in_range(self.width as int, self.height as int, x as int, y as int);
                assert(self.pixels.len() == self.width * self.height);
            }
            let idx = (y as usize) * (self.width as usize) + (x as usize);
            let c = self.current_color;
            self.pixels[idx] = c;
            proof {
                let w = self.width as int;
                assert forall|p: (int, int)| 0 <= p.0 < self.width && 0 <= p.1 < self.height implies
                    #[trigger] self@.pixels[p] == old(self)@.plot(x as int, y as int).pixels[p] by {
                    lemma_index_in_range(w, self.height as int, p.0, p.1);
                    if p.1 * w + p.0 == y * w + x {
                        lemma_index_injective(w, p.0, p.1, x as int, y as int);
                    }
                }
                assert(self@.pixels =~= old(self)@.plot(x as int, y as int).pixels);
            }
        }
    }

    /// The view is defined on exactly the pixels of the surface, and no
    /// surface is wider or higher than its coordinates can say.
    pub proof fn lemma_view_wf(&self)
        ensures
            self@.wf(),
            self@.width <= i32::MAX,
            self@.height <= i32::MAX,
    {
    }

    /// Resets every pixel to the background color.
    pub fn clear(&mut self)
        ensures
            final(self)@ == old(self)@.cleared(),
    {
        proof {
            use_type_invariant(&*self);
        }
        let n = self.pixels.len();
        let bg = self.background_color;
        self.pixels = vec![bg; n];
        proof {
            let w = self.width as int;
            let h = self.height as int;
            assert forall|p: (int, int)| 0 <= p.0 < w && 0 <= p.1 < h implies #[trigger] self.pixels@[p.1
                * w + p.0] == bg by {
                lemma_index_in_range(w, h, p.0, p.1);
            }
            assert(self@.pixels =~= old(self)@.cleared().pixels);
        }
    }

    /// The color at `(x, y)`, or `None` when the point is off the surface.
    pub fn get_pixel_color(&self, x: i32, y: i32) -> (c: Option<Color>)
        ensures
            c == self@.get(x as int, y as int),
    {
        proof {
            use_type_invariant(self);
        }
        if x >= 0 && x < self.width && y >= 0 && y < self.height {
            proof {
                lemma_index_in_range(self.width as int, self.height as int, x as int, y as int);
                assert(self.pixels.len() == self.width * self.height);
            }
            let idx = (y as usize) * (self.width as usize) + (x as usize);
            Some(self.pixels[idx])
        } else {
            None
        }
    }

    pub fn set_background_color(&mut self, color: Color)
        ensures
            final(self)@ == old(self)@.with_background(color),
    {
        proof {
            use_type_invariant(&*self);
        }
        self.background_color = color;
    }

    /// Chooses the color that `set_pixel` and the drawing primitives paint with.
    pub fn set_current_color(&mut self, color: Color)
        ensures
            final(self)@ == old(self)@.with_brush(color),
    {
        proof {
            use_type_invariant(&*self);
        }
        self.current_color = color;
    }

    /// The pixels of the surface, row by row from the top, each row from
    /// the left.
    pub fn pixels(&self) -> (data: &Vec<Color>)
        ensures
            data@.len() == max0(self@.width) * max0(self@.height),
            forall|x: int, y: int|
                self@.contains(x, y) ==> #[trigger] self@.pixels[(x, y)] == data@[y * self@.width
                    + x],
    {
        proof {
            use_type_invariant(self);
        }
        &self.pixels
    }

    /// The color that `set_pixel` currently paints with.
    pub fn current_color(&self) -> (c: Color)
        ensures
            c == self@.brush,
    {
        self.current_color
    }

    pub fn background_color(&self) -> (c: Color)
        ensures
            c == self@.background,
    {
        self.background_color
    }

    /// Paints the current draw color on every pixel of the surface with
    /// `x0 <= x < x1` and `y0 <= y < y1`.
    pub fn fill_rect(&mut self, x0: i32, y0: i32, x1: i32, y1: i32)
        ensures
            final(self)@ == old(self)@.fill_rect(x0 as int, y0 as int, x1 as int, y1 as int),
    {
        proof {
            use_type_invariant(&*self);
        }
        let lo_x: i32 = if x0 < 0 { 0 } else { x0 };
        let lo_y: i32 = if y0 < 0 { 0 } else { y0 };
        let top_x: i32 = if x1 > self.width { self.width } else { x1 };
        let top_y: i32 = if y1 > self.height { self.height } else { y1 };
        let hi_x: i32 = if top_x < lo_x { lo_x } else { top_x };
        let hi_y: i32 = if top_y < lo_y { lo_y } else { top_y };
        let ghost before = self@;
        proof {
            self.lemma_view_wf();
        }
        let mut y: i32 = lo_y;
        while y < hi_y
            invariant
                0 <= lo_x <= hi_x,
                0 <= lo_y <= y <= hi_y,
                lo_x < hi_x ==> hi_x <= before.width,
                lo_y < hi_y ==> hi_y <= before.height,
                self@.width == before.width,
                self@.height == before.height,
                self@.brush == before.brush,
                self@.background == before.background,
                self@.wf(),
                before.wf(),
                forall|p: (int, int)|
                    before.contains(p.0, p.1) ==> #[trigger] self@.pixels[p] == (if lo_x <= p.0
                        < hi_x && lo_y <= p.1 < y {
                        before.brush
                    } else {
                        before.pixels[p]
                    }),
            decreases hi_y - y,
        {
            let mut x: i32 = lo_x;
            while x < hi_x
                invariant
                    0 <= lo_x <= x <= hi_x,
                    0 <= lo_y <= y < hi_y,
                    lo_x < hi_x ==> hi_x <= before.width,
                    hi_y <= before.height,
                    self@.width == before.width,
                    self@.height == before.height,
                    self@.brush == before.brush,
                    self@.background == before.background,
                    self@.wf(),
                    before.wf(),
                    forall|p: (int, int)|
                        before.contains(p.0, p.1) ==> #[trigger] self@.pixels[p] == (if (lo_x
                            <= p.0 < hi_x && lo_y <= p.1 < y) || (lo_x <= p.0 < x && p.1 == y) {
                            before.brush
                        } else {
                            before.pixels[p]
                        }),
                decreases hi_x - x,
            {
                self.set_pixel(x, y);
                proof {
                    self.lemma_view_wf();
                }
                x = x + 1;
            }
            y = y + 1;
        }
        proof {
            let after = before.fill_rect(x0 as int, y0 as int, x1 as int, y1 as int);
            assert forall|p: (int, int)| self@.pixels.dom().contains(p) implies self@.pixels[p]
                == after.pixels[p] by {
                assert(before.contains(p.0, p.1));
            }
            assert(self@.pixels =~= after.pixels);
            Canvas::lemma_eq(self@, after);
        }
    }

    /// Paints the current draw color at `(x, y)`, wherever that is.
    pub(crate) fn plot_at(&mut self, x: i128, y: i128)
        ensures
            final(self)@ == old(self)@.plot(x as int, y as int),
    {
        if -0x8000_0000 <= x && x <= 0x7fff_ffff && -0x8000_0000 <= y && y <= 0x7fff_ffff {
            self.set_pixel(x as i32, y as i32);
        }
    }

    /// Paints the current draw color on every pixel of the surface with
    /// `x0 <= x < x1` and `y0 <= y < y1`, wherever that is.
    pub(crate) fn fill_block(&mut self, x0: i128, y0: i128, x1: i128, y1: i128)
        ensures
            final(self)@ == old(self)@.fill_rect(x0 as int, y0 as int, x1 as int, y1 as int),
    {
        let a0: i32 = clamp_to_screen(x0);
        let b0: i32 = clamp_to_screen(y0);
        let a1: i32 = clamp_to_screen(x1);
        let b1: i32 = clamp_to_screen(y1);
        let ghost before = self@;
        proof {
            self.lemma_view_wf();
            let wide = before.fill_rect(x0 as int, y0 as int, x1 as int, y1 as int);
            let narrow = before.fill_rect(a0 as int, b0 as int, a1 as int, b1 as int);
            assert(wide.pixels =~= narrow.pixels);
        }
        self.fill_rect(a0, b0, a1, b1);
    }

    /// Fills the rectangle `x0 <= x < x1`, `y0 <= y < y1` with `color`
    /// and leaves the draw color as it was.
    pub(crate) fn paint_block(&mut self, x0: i128, y0: i128, x1: i128, y1: i128, color: Color)
        ensures
            final(self)@ == old(self)@.paint(x0 as int, y0 as int, x1 as int, y1 as int, color),
    {
        let saved = self.current_color();
        self.set_current_color(color);
        self.fill_block(x0, y0, x1, y1);
        self.set_current_color(saved);
    }

    /// Draws the raster line from `(x1, y1)` to the point `(ex, ey)` away
    /// from it, both end points included, in the current draw color.
    pub(crate) fn draw_line_from(&mut self, x1: i128, y1: i128, ex: i64, ey: i64)
        requires
            -0x100_0000_0000_0000_0000_0000_0000_0000 <= x1 <= 0x100_0000_0000_0000_0000_0000_0000_0000,
            -0x100_0000_0000_0000_0000_0000_0000_0000 <= y1 <= 0x100_0000_0000_0000_0000_0000_0000_0000,
        ensures
            final(self)@ == old(self)@.plot_seq(
                line_points(x1 as int, y1 as int, x1 + ex, y1 + ey),
            ),
    {
        let x2: i128 = x1 + ex as i128;
        let y2: i128 = y1 + ey as i128;
        let dx: i128 = if x1 < x2 { x2 - x1 } else { x1 - x2 };
        let dy: i128 = if y1 < y2 { y2 - y1 } else { y1 - y2 };
        let sx: i128 = if x1 < x2 { 1 } else { -1 };
        let sy: i128 = if y1 < y2 { 1 } else { -1 };
        let mut err: i128 = dx - dy;
        let mut x: i128 = x1;
        let mut y: i128 = y1;
        let ghost before = self@;
        let ghost pts = line_points(x1 as int, y1 as int, x2 as int, y2 as int);
        let ghost n = line_steps(x1 as int, y1 as int, x2 as int, y2 as int);
        let ghost mut i: int = 0;
        let ghost mut j: int = 0;
        let ghost mut dev: int = 0;
        proof {
            assert(pts.take(0) =~= Seq::<(int, int)>::empty());
            lemma_line_end_points(x1 as int, y1 as int, x2 as int, y2 as int);
        }
        loop
            invariant_except_break
                self@ == before.plot_seq(pts.take(if dx >= dy { i } else { j })),
            invariant
                -0x100_0000_0000_0000_0000_0000_0000_0000 <= x1 <= 0x100_0000_0000_0000_0000_0000_0000_0000,
                -0x100_0000_0000_0000_0000_0000_0000_0000 <= y1 <= 0x100_0000_0000_0000_0000_0000_0000_0000,
                0 <= dx <= 0x8000_0000_0000_0000,
                0 <= dy <= 0x8000_0000_0000_0000,
                dx == abs_diff(x1 as int, x2 as int),
                dy == abs_diff(y1 as int, y2 as int),
                sx == (if x1 < x2 { 1int } else { -1int }),
                sy == (if y1 < y2 { 1int } else { -1int }),
                n == line_steps(x1 as int, y1 as int, x2 as int, y2 as int),
                pts == line_points(x1 as int, y1 as int, x2 as int, y2 as int),
                line_point(x1 as int, y1 as int, x2 as int, y2 as int, n) == (x2 as int, y2 as int),
                0 <= i <= dx,
                0 <= j <= dy,
                x == toward(x1 as int, x2 as int, i),
                y == toward(y1 as int, y2 as int, j),
                dev == dx * j - dy * i,
                err == dev + dx - dy,
                dx >= dy && dx > 0 ==> -dx <= 2 * dev < dx && dy - 2 * dx < 2 * dev,
                dx < dy ==> -dy < 2 * dev <= dy && 2 * dev < 2 * dy - dx,
                dx == 0 && dy == 0 ==> i == 0 && j == 0,
            ensures
                self@ == before.plot_seq(pts),
            decreases n - (if dx >= dy { i } else { j }),
        {
            let ghost k = if dx >= dy { i } else { j };
            proof {
                if dx >= dy {
                    if dx > 0 {
                        lemma_minor_offset_unique(i, j, dy as int, dx as int);
                    }
                } else {
                    assert(-dy <= 2 * (dy * i - dx * j) < dy) by (nonlinear_arith)
                        requires
                            dev == dx * j - dy * i,
                            -dy < 2 * dev <= dy,
                    ;
                    lemma_minor_offset_unique(j, i, dx as int, dy as int);
                }
                assert(line_point(x1 as int, y1 as int, x2 as int, y2 as int, k) == (
                    x as int,
                    y as int,
                ));
                assert(pts[k] == (x as int, y as int));
                assert(pts.take(k + 1) =~= pts.take(k).push((x as int, y as int)));
                before.lemma_plot_seq_push(pts.take(k), x as int, y as int);
            }
            self.plot_at(x, y);
            if x == x2 && y == y2 {
                proof {
                    assert(i == dx);
                    assert(j == dy);
                    assert(k == n);
                    assert(pts.take(n + 1) =~= pts);
                }
                break ;
            }
            proof {
                assert(dx >= dy ==> i < dx);
                assert(dx < dy ==> j < dy);
            }
            let e2: i128 = 2 * err;
            if e2 > -dy {
                err = err - dy;
                x = x + sx;
                proof {
                    assert(dx * j - dy * (i + 1) == dx * j - dy * i - dy) by (nonlinear_arith);
                    i = i + 1;
                    dev = dev - dy;
                }
            }
            if e2 < dx {
                err = err + dx;
                y = y + sy;
                proof {
                    assert(dx * (j + 1) - dy * i == dx * j - dy * i + dx) by (nonlinear_arith);
                    j = j + 1;
                    dev = dev + dx;
                }
            }
            proof {
                if dx >= dy {
                    assert(j <= dy) by (nonlinear_arith)
                        requires
                            dev == dx * j - dy * i,
                            2 * dev < dx,
                            0 <= i <= dx,
                            0 <= dy <= dx,
                            dx > 0,
                    ;
                } else {
                    assert(i <= dx) by (nonlinear_arith)
                        requires
                            dev == dx * j - dy * i,
                            -dy < 2 * dev,
                            0 <= j <= dy,
                            0 <= dx < dy,
                    ;
                }
            }
        }
    }

    /// Draws the raster line from `(x1, y1)` to `(x2, y2)`, both end points
    /// included, in the current draw color.
    pub fn draw_line(&mut self, x1: i32, y1: i32, x2: i32, y2: i32)
        ensures
            final(self)@ == old(self)@.plot_seq(
                line_points(x1 as int, y1 as int, x2 as int, y2 as int),
            ),
    {
        self.draw_line_from(x1 as i128, y1 as i128, x2 as i64 - x1 as i64, y2 as i64 - y1 as i64);
    }
}

} // verus!
