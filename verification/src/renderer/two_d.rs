use vstd::prelude::*;

use crate::buffer::Buffer;
use crate::colors::color::Color;
use crate::constants::DEFAULT_FOREGROUND;

verus! {

/// What a shape implements to be drawn. Each method paints into the
/// renderer's buffer; which cells, the shape decides.
pub trait Render {
    /// The outline, in the shape's own stroke colour.
    fn draw(&self, renderer: &mut Renderer);

    /// The interior, in the shape's own fill colour.
    fn fill(&self, renderer: &mut Renderer);

    /// The outline, in the renderer's stroke colour.
    fn draw_renderer(&self, renderer: &mut Renderer);

    /// The interior, in the renderer's fill colour.
    fn fill_rendderer(&self, renderer: &mut Renderer);

    /// The outline, in the colour given.
    fn draw_clr<C: Into<Color> + Copy>(&self, renderer: &mut Renderer, c: C);

    /// The interior, in the colour given.
    fn fill_clr<C: Into<Color> + Copy>(&self, renderer: &mut Renderer, c: C);
}

/// A pixel buffer in X11 order with a fill and a stroke colour.
pub struct Renderer {
    buffer: Buffer<u32>,
    fill: Color,
    stroke: Color,
    anti_aliasing: bool,
}

impl Renderer {
    /// The pixel buffer.
    pub closed spec fn canvas(self) -> Buffer<u32> {
        self.buffer
    }

    /// The colour interiors are painted with.
    pub closed spec fn fill_color(self) -> Color {
        self.fill
    }

    /// The colour outlines are painted with.
    pub closed spec fn stroke_color(self) -> Color {
        self.stroke
    }

    /// Whether edges are smoothed.
    pub closed spec fn smooth(self) -> bool {
        self.anti_aliasing
    }

    /// A renderer over `width * height` zeroed pixels, both colours the
    /// default foreground, no smoothing.
    pub fn new(width: usize, height: usize) -> (r: Self)
        requires
            0 < width * height <= i32::MAX,
        ensures
            r.canvas().wf(),
            r.canvas().cols() == width,
            r.canvas().rows() == height,
            r.canvas()@ == Seq::new((width * height) as nat, |i: int| 0u32),
            Color::reads_rgba(DEFAULT_FOREGROUND.word(), r.fill_color()),
            Color::reads_rgba(DEFAULT_FOREGROUND.word(), r.stroke_color()),
            !r.smooth(),
    {
        proof {
            broadcast use vstd::layout::layout_of_primitives;

            assert(width <= i32::MAX && height <= i32::MAX) by (nonlinear_arith)
                requires
                    0 < width * height <= i32::MAX,
            ;
        }
        let buffer: Buffer<u32> = Buffer::init(width as i32, height as i32);
        assert(buffer@ =~= Seq::new((width * height) as nat, |i: int| 0u32));
        Self {
            buffer,
            fill: DEFAULT_FOREGROUND.into(),
            stroke: DEFAULT_FOREGROUND.into(),
            anti_aliasing: false,
        }
    }

    /// The buffer's width; zero for a buffer whose width is negative.
    pub fn window_width(&self) -> (w: usize)
        ensures
            w == if self.canvas().cols() >= 0 {
                self.canvas().cols()
            } else {
                0
            },
    {
        let w: i32 = self.buffer.width();
        if w >= 0 {
            w as usize
        } else {
            0
        }
    }

    /// The buffer's height; zero for a buffer whose height is negative.
    pub fn window_height(&self) -> (h: usize)
        ensures
            h == if self.canvas().rows() >= 0 {
                self.canvas().rows()
            } else {
                0
            },
    {
        let h: i32 = self.buffer.height();
        if h >= 0 {
            h as usize
        } else {
            0
        }
    }

    pub fn set_fill<C: Into<Color> + Copy>(&mut self, fill: C)
        ensures
            call_ensures(C::into, (fill,), final(self).fill_color()),
            final(self).stroke_color() == old(self).stroke_color(),
            final(self).canvas() == old(self).canvas(),
            final(self).smooth() == old(self).smooth(),
    {
        self.fill = fill.into();
    }

    pub fn fill(&self) -> (c: Color)
        ensures
            c == self.fill_color(),
    {
        self.fill
    }

    pub fn set_stroke<C: Into<Color> + Copy>(&mut self, stroke: C)
        ensures
            call_ensures(C::into, (stroke,), final(self).stroke_color()),
            final(self).fill_color() == old(self).fill_color(),
            final(self).canvas() == old(self).canvas(),
            final(self).smooth() == old(self).smooth(),
    {
        self.stroke = stroke.into()
    }

    pub fn stroke(&self) -> (c: Color)
        ensures
            c == self.stroke_color(),
    {
        self.stroke
    }

    pub fn buffer<'r>(&'r self) -> (b: &'r Buffer<u32>)
        ensures
            *b == self.canvas(),
    {
        &self.buffer
    }

    pub fn buffer_mut<'r>(&'r mut self) -> (b: &'r mut Buffer<u32>)
        ensures
            *b == old(self).canvas(),
            final(self).canvas() == *final(b),
            final(self).fill_color() == old(self).fill_color(),
            final(self).stroke_color() == old(self).stroke_color(),
            final(self).smooth() == old(self).smooth(),
    {
        &mut self.buffer
    }

    /// Sets every pixel to what `c` converts to. The conversion runs once for
    /// each pixel.
    pub fn clear_background<C: Into<u32> + Copy>(&mut self, c: C)
        ensures
            final(self).canvas().cols() == old(self).canvas().cols(),
            final(self).canvas().rows() == old(self).canvas().rows(),
            final(self).canvas()@.len() == old(self).canvas()@.len(),
            forall|i: int|
                0 <= i < final(self).canvas()@.len() ==> call_ensures(
                    C::into,
                    (c,),
                    #[trigger] final(self).canvas()@[i],
                ),
            final(self).fill_color() == old(self).fill_color(),
            final(self).stroke_color() == old(self).stroke_color(),
            final(self).smooth() == old(self).smooth(),
    {
        let n: i32 = self.buffer.len();
        let mut i: i32 = 0;
        while i < n
            invariant
                0 <= i <= n,
                n == self.buffer@.len(),
                self.buffer.cols() == old(self).buffer.cols(),
                self.buffer.rows() == old(self).buffer.rows(),
                self.buffer@.len() == old(self).buffer@.len(),
                self.fill == old(self).fill,
                self.stroke == old(self).stroke,
                self.anti_aliasing == old(self).anti_aliasing,
                forall|k: int| 0 <= k < i ==> call_ensures(C::into, (c,), #[trigger] self.buffer@[k]),
            decreases n - i,
        {
            self.buffer.set(i, c.into());
            i += 1;
        }
    }
}

} // verus!
