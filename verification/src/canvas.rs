//! The mathematical model of a pixel surface, and the painting operations
//! that the contracts of the renderer are stated over.

use vstd::prelude::*;
use crate::color::Color;

verus! {

/// Model of a pixel surface: its size, the color of every in-bounds pixel,
/// the background color and the current draw color.
pub struct Canvas {
    pub width: int,
    pub height: int,
    pub pixels: Map<(int, int), Color>,
    pub background: Color,
    pub brush: Color,
}

impl Canvas {
    /// Whether `(x, y)` names a pixel of the surface.
    pub open spec fn contains(self, x: int, y: int) -> bool {
        0 <= x < self.width && 0 <= y < self.height
    }

    /// The pixel map is defined exactly on the surface.
    pub open spec fn wf(self) -> bool {
        forall|p: (int, int)| self.pixels.dom().contains(p) <==> self.contains(p.0, p.1)
    }

    /// A surface of the given size with every pixel set to `color`.
    pub open spec fn blank(width: int, height: int, color: Color) -> Canvas {
        Canvas {
            width,
            height,
            pixels: Map::new(
                |p: (int, int)| 0 <= p.0 < width && 0 <= p.1 < height,
                |p: (int, int)| color,
            ),
            background: color,
            brush: Color::white(),
        }
    }

    /// Every pixel reset to the background color; the draw color is kept.
    pub open spec fn cleared(self) -> Canvas {
        Canvas {
            pixels: Map::new(
                |p: (int, int)| self.contains(p.0, p.1),
                |p: (int, int)| self.background,
            ),
            ..self
        }
    }

    pub open spec fn with_brush(self, color: Color) -> Canvas {
        Canvas { brush: color, ..self }
    }

    pub open spec fn with_background(self, color: Color) -> Canvas {
        Canvas { background: color, ..self }
    }

    /// The color at `(x, y)`, if that is a pixel of the surface.
    pub open spec fn get(self, x: int, y: int) -> Option<Color> {
        if self.contains(x, y) {
            Some(self.pixels[(x, y)])
        } else {
            None
        }
    }

    /// The draw color stamped at `(x, y)`; nothing changes when the point is off the surface.
    pub open spec fn plot(self, x: int, y: int) -> Canvas {
        if self.contains(x, y) {
            Canvas { pixels: self.pixels.insert((x, y), self.brush), ..self }
        } else {
            self
        }
    }

    /// The draw color stamped at each point of `points`, first to last.
    pub open spec fn plot_seq(self, points: Seq<(int, int)>) -> Canvas
        decreases points.len(),
    {
        if points.len() == 0 {
            self
        } else {
            self.plot_seq(points.drop_last()).plot(points.last().0, points.last().1)
        }
    }

    /// The draw color stamped on every pixel with `x0 <= x < x1` and `y0 <= y < y1`.
    pub open spec fn fill_rect(self, x0: int, y0: int, x1: int, y1: int) -> Canvas {
        Canvas {
            pixels: Map::new(
                |p: (int, int)| self.pixels.dom().contains(p),
                |p: (int, int)|
                    if x0 <= p.0 < x1 && y0 <= p.1 < y1 {
                        self.brush
                    } else {
                        self.pixels[p]
                    },
            ),
            ..self
        }
    }

    /// The rectangle `x0 <= x < x1`, `y0 <= y < y1` filled with `color`,
    /// the draw color left as it was.
    pub open spec fn paint(self, x0: int, y0: int, x1: int, y1: int, color: Color) -> Canvas {
        self.with_brush(color).fill_rect(x0, y0, x1, y1).with_brush(self.brush)
    }

    /// Two surfaces that agree on size, colors and every pixel are the same surface.
    pub proof fn lemma_eq(a: Canvas, b: Canvas)
        requires
            a.width == b.width,
            a.height == b.height,
            a.background == b.background,
            a.brush == b.brush,
            a.pixels =~= b.pixels,
        ensures
            a == b,
    {
    }

    /// Stamping a sequence of points keeps the size and both colors, paints
    /// the draw color on every listed pixel of the surface and leaves every
    /// other pixel as it was.
    pub proof fn lemma_plot_seq(self, points: Seq<(int, int)>)
        ensures
            self.plot_seq(points).width == self.width,
            self.plot_seq(points).height == self.height,
            self.plot_seq(points).background == self.background,
            self.plot_seq(points).brush == self.brush,
            self.plot_seq(points).pixels.dom() =~= self.pixels.dom().union(
                Set::new(|p: (int, int)| self.contains(p.0, p.1) && points.contains(p)),
            ),
            forall|p: (int, int)|
                self.contains(p.0, p.1) && points.contains(p) ==> #[trigger] self.plot_seq(
                    points,
                ).pixels[p] == self.brush,
            forall|p: (int, int)|
                !points.contains(p) ==> #[trigger] self.plot_seq(points).pixels[p]
                    == self.pixels[p],
        decreases points.len(),
    {
        if points.len() > 0 {
            let init = points.drop_last();
            let last = points.last();
            self.lemma_plot_seq(init);
            assert forall|p: (int, int)| points.contains(p) <==> (init.contains(p) || p == last) by {
                if init.contains(p) {
                    let k = choose|k: int| 0 <= k < init.len() && init[k] == p;
                    assert(points[k] == p);
                }
                if p == last {
                    assert(points[points.len() - 1] == p);
                }
                if points.contains(p) {
                    let k = choose|k: int| 0 <= k < points.len() && points[k] == p;
                    if k < points.len() - 1 {
                        assert(init[k] == p);
                    }
                }
            }
        }
    }

    /// Stamping one more point after a sequence is stamping the longer sequence.
    pub proof fn lemma_plot_seq_push(self, points: Seq<(int, int)>, x: int, y: int)
        ensures
            self.plot_seq(points.push((x, y))) == self.plot_seq(points).plot(x, y),
    {
        let longer = points.push((x, y));
        assert(longer.drop_last() =~= points);
        assert(longer.last() == (x, y));
    }

    /// `color` stamped at `(x, y)` and left as the draw color; `None` stamps nothing.
    pub open spec fn stamp(self, x: int, y: int, color: Option<Color>) -> Canvas {
        match color {
            Some(c) => self.with_brush(c).plot(x, y),
            None => self,
        }
    }

    /// The rows `y0 <= y < y1` of column `x` stamped top to bottom with the
    /// colors that `image` gives.
    pub open spec fn blit_column(
        self,
        x: int,
        y0: int,
        y1: int,
        image: spec_fn(int, int) -> Option<Color>,
    ) -> Canvas
        decreases y1 - y0,
    {
        if y1 <= y0 {
            self
        } else {
            self.blit_column(x, y0, y1 - 1, image).stamp(x, y1 - 1, image(x, y1 - 1))
        }
    }

    /// The columns `x0 <= x < x1` stamped left to right, each over the rows
    /// `y0 <= y < y1`, with the colors that `image` gives.
    pub open spec fn blit(
        self,
        x0: int,
        y0: int,
        x1: int,
        y1: int,
        image: spec_fn(int, int) -> Option<Color>,
    ) -> Canvas
        decreases x1 - x0,
    {
        if x1 <= x0 {
            self
        } else {
            self.blit(x0, y0, x1 - 1, y1, image).blit_column(x1 - 1, y0, y1, image)
        }
    }

    /// Stamping a column keeps the size and the background, gives every
    /// pixel of the column for which the image has a color that color, and
    /// leaves every other pixel as it was.
    pub proof fn lemma_blit_column(
        self,
        x: int,
        y0: int,
        y1: int,
        image: spec_fn(int, int) -> Option<Color>,
    )
        requires
            self.wf(),
        ensures
            self.blit_column(x, y0, y1, image).wf(),
            self.blit_column(x, y0, y1, image).width == self.width,
            self.blit_column(x, y0, y1, image).height == self.height,
            self.blit_column(x, y0, y1, image).background == self.background,
            forall|p: (int, int)|
                self.contains(p.0, p.1) ==> #[trigger] self.blit_column(x, y0, y1, image).pixels[p]
                    == (if p.0 == x && y0 <= p.1 < y1 && image(p.0, p.1).is_some() {
                    image(p.0, p.1).unwrap()
                } else {
                    self.pixels[p]
                }),
        decreases y1 - y0,
    {
        if y1 > y0 {
            self.lemma_blit_column(x, y0, y1 - 1, image);
        }
    }

    /// Stamping a rectangle keeps the size and the background, gives every
    /// pixel of the rectangle for which the image has a color that color,
    /// and leaves every other pixel as it was.
    pub proof fn lemma_blit(
        self,
        x0: int,
        y0: int,
        x1: int,
        y1: int,
        image: spec_fn(int, int) -> Option<Color>,
    )
        requires
            self.wf(),
        ensures
            self.blit(x0, y0, x1, y1, image).wf(),
            self.blit(x0, y0, x1, y1, image).width == self.width,
            self.blit(x0, y0, x1, y1, image).height == self.height,
            self.blit(x0, y0, x1, y1, image).background == self.background,
            forall|p: (int, int)|
                self.contains(p.0, p.1) ==> #[trigger] self.blit(x0, y0, x1, y1, image).pixels[p]
                    == (if x0 <= p.0 < x1 && y0 <= p.1 < y1 && image(p.0, p.1).is_some() {
                    image(p.0, p.1).unwrap()
                } else {
                    self.pixels[p]
                }),
        decreases x1 - x0,
    {
        if x1 > x0 {
            self.lemma_blit(x0, y0, x1 - 1, y1, image);
            self.blit(x0, y0, x1 - 1, y1, image).lemma_blit_column(x1 - 1, y0, y1, image);
        }
    }
}

} // verus!
