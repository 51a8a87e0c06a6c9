use vstd::prelude::*;
use vstd::arithmetic::div_mod::lemma_fundamental_div_mod_converse;
use crate::color::Color;

verus! {

/// The largest width or height a canvas may have.
pub const MAX_DIM: u32 = 32768;

/// A width × height pixel buffer in row-major order.  The pixel at `(x, y)`
/// sits at index `y * width + x` of the view.
#[derive(Debug, PartialEq)]
pub struct Canvas {
    width: u32,
    height: u32,
    pixels: Vec<Color>,
}

impl View for Canvas {
    type V = Seq<Color>;

    closed spec fn view(&self) -> Seq<Color> {
        self.pixels@
    }
}

impl Canvas {
    /// The buffer holds exactly one pixel per coordinate and both dimensions
    /// are within the supported range.
    pub open spec fn wf(&self) -> bool {
        &&& self@.len() == self.spec_width() as int * self.spec_height() as int
        &&& self.spec_width() <= MAX_DIM
        &&& self.spec_height() <= MAX_DIM
    }

    pub closed spec fn spec_width(&self) -> u32 {
        self.width
    }

    pub closed spec fn spec_height(&self) -> u32 {
        self.height
    }

    #[verifier::when_used_as_spec(spec_width)]
    pub fn width(&self) -> (w: u32)
        ensures
            w == self.spec_width(),
    {
        self.width
    }

    #[verifier::when_used_as_spec(spec_height)]
    pub fn height(&self) -> (h: u32)
        ensures
            h == self.spec_height(),
    {
        self.height
    }

    /// The view index of the pixel at `(x, y)`.
    pub open spec fn idx(&self, x: int, y: int) -> int {
        y * self.spec_width() + x
    }

    /// The pixel of the view at `(x, y)`.
    pub open spec fn pixel_at(&self, x: int, y: int) -> Color {
        self@[self.idx(x, y)]
    }

    /// A fresh canvas with every pixel set to `fill`.
    pub fn new(width: u32, height: u32, fill: Color) -> (c: Canvas)
        requires
            width <= MAX_DIM,
            height <= MAX_DIM,
        ensures
            c.wf(),
            c.spec_width() == width,
            c.spec_height() == height,
            c@ == Seq::new(width as nat * height as nat, |i: int| fill),
    {
        assert(width as int * height as int <= MAX_DIM as int * MAX_DIM as int) by (nonlinear_arith)
            requires
                width <= MAX_DIM,
                height <= MAX_DIM,
        ;
        let n: usize = (width as usize) * (height as usize);
        let pixels: Vec<Color> = vec![fill; n];
        let c = Canvas { width, height, pixels };
        assert(c@ =~= Seq::new(width as nat * height as nat, |i: int| fill));
        c
    }

    /// The pixel at `(x, y)`.
    pub fn get_pixel(&self, x: u32, y: u32) -> (p: Color)
        requires
            self.wf(),
            x < self.spec_width(),
            y < self.spec_height(),
        ensures
            p == self.pixel_at(x as int, y as int),
    {
        proof {
            lemma_index_in_bounds(self.width as int, self.height as int, x as int, y as int);
        }
        let i: usize = (y as usize) * (self.width as usize) + (x as usize);
        self.pixels[i]
    }

    /// Overwrites the pixel at `(x, y)`.
    pub fn put_pixel(&mut self, x: u32, y: u32, p: Color)
        requires
            old(self).wf(),
            x < old(self).spec_width(),
            y < old(self).spec_height(),
        ensures
            final(self).wf(),
            final(self).spec_width() == old(self).spec_width(),
            final(self).spec_height() == old(self).spec_height(),
            final(self)@ == old(self)@.update(old(self).idx(x as int, y as int), p),
    {
        proof {
            lemma_index_in_bounds(self.width as int, self.height as int, x as int, y as int);
        }
        let i: usize = (y as usize) * (self.width as usize) + (x as usize);
        self.pixels[i] = p;
    }
}

/// Row-major indexing stays inside the buffer.
pub proof fn lemma_index_in_bounds(w: int, h: int, x: int, y: int)
    requires
        0 <= x < w <= MAX_DIM,
        0 <= y < h <= MAX_DIM,
    ensures
        0 <= y * w + x < w * h,
        w * h <= 0x4000_0000,
{
    assert(0 <= y * w + x < w * h <= 0x4000_0000) by (nonlinear_arith)
        requires
            0 <= x < w <= 32768,
            0 <= y < h <= 32768,
    ;
}

/// Row-major indexing is a bijection: the index determines the coordinates.
pub proof fn lemma_index_coords(w: int, x: int, y: int)
    requires
        0 <= x < w,
        0 <= y,
    ensures
        (y * w + x) / w == y,
        (y * w + x) % w == x,
{
    lemma_fundamental_div_mod_converse(y * w + x, w, y, x);
}

} // verus!
