use vstd::prelude::*;
use vstd::arithmetic::div_mod::{
    lemma_fundamental_div_mod, lemma_fundamental_div_mod_converse, lemma_mod_bound,
};
use crate::canvas::{Canvas, lemma_index_in_bounds, lemma_index_coords, MAX_DIM};
use crate::color::Color;

verus! {

/// The largest magnitude a raster coordinate may have.  Keeps squared
/// distances and translated coordinates comfortably inside 64 bits.
pub const MAX_COORD: i32 = 0x1000_0000;

// ---------------------------------------------------------------------------
// Per-pixel alpha blending ("over" compositing, output forced opaque).
// ---------------------------------------------------------------------------

/// One channel of "over" compositing with blend factor `a / 255`, rounded to
/// nearest (ties cannot occur: the numerator is never an exact half).
pub open spec fn spec_blend_channel(dst: u8, src: u8, a: u8) -> u8 {
    ((src * a + dst * (255 - a) + 127) / 255) as u8
}

/// A source color composited over a destination pixel.  The output alpha is
/// always forced to 255: composited pixels become fully opaque.
pub open spec fn spec_blend(dst: Color, src: Color) -> Color {
    Color {
        r: spec_blend_channel(dst.r, src.r, src.a),
        g: spec_blend_channel(dst.g, src.g, src.a),
        b: spec_blend_channel(dst.b, src.b, src.a),
        a: 255,
    }
}

/// A source with alpha 0 leaves the destination channels unchanged; a source
/// with alpha 255 replaces them; the output alpha is 255 either way.
pub proof fn lemma_blend_extremes(dst: Color, src: Color)
    ensures
        spec_blend(dst, src).a == 255,
        src.a == 0 ==> spec_blend(dst, src) == (Color { r: dst.r, g: dst.g, b: dst.b, a: 255 }),
        src.a == 255 ==> spec_blend(dst, src) == (Color { r: src.r, g: src.g, b: src.b, a: 255 }),
{
    if src.a == 0 {
        assert(spec_blend_channel(dst.r, src.r, 0) == dst.r) by {
            assert((dst.r as int * 255 + 127) / 255 == dst.r as int) by (nonlinear_arith)
                requires
                    dst.r <= 255,
            ;
        }
        assert(spec_blend_channel(dst.g, src.g, 0) == dst.g) by {
            assert((dst.g as int * 255 + 127) / 255 == dst.g as int) by (nonlinear_arith)
                requires
                    dst.g <= 255,
            ;
        }
        assert(spec_blend_channel(dst.b, src.b, 0) == dst.b) by {
            assert((dst.b as int * 255 + 127) / 255 == dst.b as int) by (nonlinear_arith)
                requires
                    dst.b <= 255,
            ;
        }
    }
    if src.a == 255 {
        assert(spec_blend_channel(dst.r, src.r, 255) == src.r) by {
            assert((src.r as int * 255 + dst.r as int * 0 + 127) / 255 == src.r as int)
                by (nonlinear_arith)
                requires
                    src.r <= 255,
            ;
        }
        assert(spec_blend_channel(dst.g, src.g, 255) == src.g) by {
            assert((src.g as int * 255 + dst.g as int * 0 + 127) / 255 == src.g as int)
                by (nonlinear_arith)
                requires
                    src.g <= 255,
            ;
        }
        assert(spec_blend_channel(dst.b, src.b, 255) == src.b) by {
            assert((src.b as int * 255 + dst.b as int * 0 + 127) / 255 == src.b as int)
                by (nonlinear_arith)
                requires
                    src.b <= 255,
            ;
        }
    }
}

fn blend_channel(dst: u8, src: u8, a: u8) -> (r: u8)
    ensures
        r == spec_blend_channel(dst, src, a),
{
    assert(src as int * a as int + dst as int * (255 - a as int) <= 255 * 255) by (nonlinear_arith)
        requires
            src <= 255,
            dst <= 255,
            a <= 255,
    ;
    let v: u32 = (src as u32) * (a as u32) + (dst as u32) * (255 - a as u32) + 127;
    (v / 255) as u8
}

/// A source color composited over a destination color.
pub fn blend_color(dst: Color, src: Color) -> (r: Color)
    ensures
        r == spec_blend(dst, src),
{
    Color {
        r: blend_channel(dst.r, src.r, src.a),
        g: blend_channel(dst.g, src.g, src.a),
        b: blend_channel(dst.b, src.b, src.a),
        a: 255,
    }
}

/// The buffer after blending `src` into the pixel at `(x, y)`; coordinates
/// outside the canvas leave the buffer unchanged.
pub open spec fn spec_blend_at(s: Seq<Color>, w: u32, h: u32, x: int, y: int, src: Color) -> Seq<
    Color,
> {
    if 0 <= x < w && 0 <= y < h && s.len() == w as int * h as int {
        s.update(y * w + x, spec_blend(s[y * w + x], src))
    } else {
        s
    }
}

/// Blends `src` over the pixel at `(x, y)`.  Out-of-bounds coordinates are
/// silently ignored; a written pixel always comes out fully opaque.
pub fn blend_pixel(canvas: &mut Canvas, x: i32, y: i32, src: Color)
    requires
        old(canvas).wf(),
    ensures
        final(canvas).wf(),
        final(canvas).spec_width() == old(canvas).spec_width(),
        final(canvas).spec_height() == old(canvas).spec_height(),
        final(canvas)@ == spec_blend_at(
            old(canvas)@,
            old(canvas).spec_width(),
            old(canvas).spec_height(),
            x as int,
            y as int,
            src,
        ),
{
    if x < 0 || y < 0 {
        return ;
    }
    let xu = x as u32;
    let yu = y as u32;
    if xu >= canvas.width() || yu >= canvas.height() {
        return ;
    }
    let dst = canvas.get_pixel(xu, yu);
    let out = blend_color(dst, src);
    canvas.put_pixel(xu, yu, out);
}

// ---------------------------------------------------------------------------
// Rounded-rectangle membership.
// ---------------------------------------------------------------------------

/// Whether the local point `(px, py)` lies inside a `w` × `h` rounded
/// rectangle with the given corner radius.  The radius is clamped to at most
/// half the smaller side; points in the central cross are inside outright;
/// corner points are inside iff their squared distance to the corner circle
/// center is at most the squared clamped radius.
pub open spec fn spec_inside_rounded_rect(px: int, py: int, w: int, h: int, radius: int) -> bool {
    if radius <= 0 {
        true
    } else {
        let r0 = if radius < w / 2 { radius } else { w / 2 };
        let r = if r0 < h / 2 { r0 } else { h / 2 };
        if r <= px && px < w - r {
            true
        } else if r <= py && py < h - r {
            true
        } else {
            let cx = if px < r { r - 1 } else { w - r };
            let cy = if py < r { r - 1 } else { h - r };
            (px - cx) * (px - cx) + (py - cy) * (py - cy) <= r * r
        }
    }
}

/// A radius of zero or less admits every point.
pub proof fn lemma_zero_radius_admits_all(px: int, py: int, w: int, h: int, radius: int)
    requires
        radius <= 0,
    ensures
        spec_inside_rounded_rect(px, py, w, h, radius),
{
}

/// Rounded-rectangle membership test; with a radius of zero or less every
/// point is inside.
pub fn inside_rounded_rect(px: i32, py: i32, w: i32, h: i32, radius: i32) -> (r: bool)
    requires
        -MAX_COORD <= px <= MAX_COORD,
        -MAX_COORD <= py <= MAX_COORD,
        0 <= w <= MAX_COORD,
        0 <= h <= MAX_COORD,
    ensures
        r == spec_inside_rounded_rect(px as int, py as int, w as int, h as int, radius as int),
        radius <= 0 ==> r,
{
    if radius <= 0 {
        return true;
    }
    let px64 = px as i64;
    let py64 = py as i64;
    let w64 = w as i64;
    let h64 = h as i64;
    let mut r: i64 = radius as i64;
    if w64 / 2 < r {
        r = w64 / 2;
    }
    if h64 / 2 < r {
        r = h64 / 2;
    }
    if r <= px64 && px64 < w64 - r {
        return true;
    }
    if r <= py64 && py64 < h64 - r {
        return true;
    }
    let cx: i64 = if px64 < r {
        r - 1
    } else {
        w64 - r
    };
    let cy: i64 = if py64 < r {
        r - 1
    } else {
        h64 - r
    };
    let dx: i64 = px64 - cx;
    let dy: i64 = py64 - cy;
    assert(0 <= dx * dx <= 0x1000_0000_0000_0000 && 0 <= dy * dy <= 0x1000_0000_0000_0000 && 0 <= r
        * r <= 0x1000_0000_0000_0000) by (nonlinear_arith)
        requires
            -0x4000_0000 <= dx <= 0x4000_0000,
            -0x4000_0000 <= dy <= 0x4000_0000,
            0 <= r <= 0x4000_0000,
    ;
    dx * dx + dy * dy <= r * r
}

// ---------------------------------------------------------------------------
// Stamping: blending a masked box of colors onto the canvas, cell by cell in
// row-major order.  All the filling primitives are instances of this one
// transformation.
// ---------------------------------------------------------------------------

/// The canvas after blending the first `n` cells (in row-major cell order) of
/// a `rw` × `rh` box placed at `(x, y)`.  A cell `(a, b)` is blended only
/// where `mask(a, b)` holds, with the color `color(a, b)`.
pub open spec fn spec_stamp_upto(
    s: Seq<Color>,
    cw: u32,
    x: int,
    y: int,
    rw: u32,
    rh: u32,
    mask: spec_fn(int, int) -> bool,
    color: spec_fn(int, int) -> Color,
    n: int,
) -> Seq<Color> {
    Seq::new(
        s.len(),
        |i: int|
            {
                let px = i % (cw as int);
                let py = i / (cw as int);
                let a = px - x;
                let b = py - y;
                if 0 <= a < rw && 0 <= b < rh && b * rw + a < n && mask(a, b) {
                    spec_blend(s[i], color(a, b))
                } else {
                    s[i]
                }
            },
    )
}

/// The canvas after blending every cell of the box.
pub open spec fn spec_stamp(
    s: Seq<Color>,
    cw: u32,
    x: int,
    y: int,
    rw: u32,
    rh: u32,
    mask: spec_fn(int, int) -> bool,
    color: spec_fn(int, int) -> Color,
) -> Seq<Color> {
    spec_stamp_upto(s, cw, x, y, rw, rh, mask, color, rw as int * rh as int)
}

/// Before any cell is processed the canvas is unchanged.
pub proof fn lemma_stamp_zero(
    s: Seq<Color>,
    cw: u32,
    x: int,
    y: int,
    rw: u32,
    rh: u32,
    mask: spec_fn(int, int) -> bool,
    color: spec_fn(int, int) -> Color,
)
    ensures
        spec_stamp_upto(s, cw, x, y, rw, rh, mask, color, 0) == s,
{
    assert(spec_stamp_upto(s, cw, x, y, rw, rh, mask, color, 0) =~= s);
}

/// Processing cell `(xx, yy)` — cell number `yy * rw + xx` — either blends
/// exactly the canvas pixel under it (where the mask holds) or changes
/// nothing (where it does not).
pub proof fn lemma_stamp_step(
    s: Seq<Color>,
    cw: u32,
    ch: u32,
    x: int,
    y: int,
    rw: u32,
    rh: u32,
    mask: spec_fn(int, int) -> bool,
    color: spec_fn(int, int) -> Color,
    xx: int,
    yy: int,
)
    requires
        s.len() == cw as int * ch as int,
        cw <= MAX_DIM,
        ch <= MAX_DIM,
        0 <= xx < rw,
        0 <= yy < rh,
    ensures
        ({
            let n = yy * rw + xx;
            let pre = spec_stamp_upto(s, cw, x, y, rw, rh, mask, color, n);
            let post = spec_stamp_upto(s, cw, x, y, rw, rh, mask, color, n + 1);
            if mask(xx, yy) {
                post == spec_blend_at(pre, cw, ch, x + xx, y + yy, color(xx, yy))
            } else {
                post == pre
            }
        }),
{
    let n = yy * rw + xx;
    let pre = spec_stamp_upto(s, cw, x, y, rw, rh, mask, color, n);
    let post = spec_stamp_upto(s, cw, x, y, rw, rh, mask, color, n + 1);
    let tx = x + xx;
    let ty = y + yy;
    assert(yy * rw + xx >= 0) by (nonlinear_arith)
        requires
            0 <= xx,
            0 <= yy,
    ;
    if 0 <= tx < cw && 0 <= ty < ch {
        let istar = ty * cw + tx;
        lemma_index_in_bounds(cw as int, ch as int, tx, ty);
        lemma_index_coords(cw as int, tx, ty);
        assert(pre[istar] == s[istar]);
        assert(pre.len() == s.len());
        if mask(xx, yy) {
            let target = spec_blend_at(pre, cw, ch, tx, ty, color(xx, yy));
            assert(target == pre.update(istar, spec_blend(s[istar], color(xx, yy))));
            assert forall|i: int| 0 <= i < s.len() implies post[i] == target[i] by {
                lemma_cell_coords(s.len() as int, cw as int, ch as int, i);
                let px = i % (cw as int);
                let py = i / (cw as int);
                if i == istar {
                    assert(post[i] == spec_blend(s[i], color(xx, yy)));
                } else {
                    if 0 <= px - x < rw && 0 <= py - y < rh && (py - y) * (rw as int) + (px - x)
                        == n {
                        lemma_cell_unique(rw as int, px - x, py - y, xx, yy);
                        lemma_fundamental_div_mod(i, cw as int);
                        assert(i == (cw as int) * py + px);
                        assert(i == istar) by (nonlinear_arith)
                            requires
                                i == (cw as int) * py + px,
                                istar == ty * cw + tx,
                                px == tx,
                                py == ty,
                        ;
                        assert(false);
                    }
                }
            }
            assert(post =~= target);
        } else {
            assert forall|i: int| 0 <= i < s.len() implies post[i] == pre[i] by {
                lemma_cell_coords(s.len() as int, cw as int, ch as int, i);
                let px = i % (cw as int);
                let py = i / (cw as int);
                if 0 <= px - x < rw && 0 <= py - y < rh && (py - y) * (rw as int) + (px - x)
                    == n {
                    lemma_cell_unique(rw as int, px - x, py - y, xx, yy);
                }
            }
            assert(post =~= pre);
        }
    } else {
        assert(spec_blend_at(pre, cw, ch, tx, ty, color(xx, yy)) == pre);
        assert forall|i: int| 0 <= i < s.len() implies post[i] == pre[i] by {
            lemma_cell_coords(s.len() as int, cw as int, ch as int, i);
            let px = i % (cw as int);
            let py = i / (cw as int);
            if 0 <= px - x < rw && 0 <= py - y < rh && (py - y) * (rw as int) + (px - x) == n {
                lemma_cell_unique(rw as int, px - x, py - y, xx, yy);
                assert(px == tx && py == ty);
                assert(false);
            }
        }
        assert(post =~= pre);
    }
}

/// Cell numbers identify cells: within a box of width `rw`, equal row-major
/// numbers mean equal coordinates.
proof fn lemma_cell_unique(rw: int, a: int, b: int, xx: int, yy: int)
    requires
        0 <= a < rw,
        0 <= xx < rw,
        0 <= b,
        0 <= yy,
        b * rw + a == yy * rw + xx,
    ensures
        a == xx,
        b == yy,
{
    lemma_fundamental_div_mod_converse(yy * rw + xx, rw, b, a);
    lemma_fundamental_div_mod_converse(yy * rw + xx, rw, yy, xx);
}

/// The canvas coordinates read off an index are genuine coordinates.
proof fn lemma_cell_coords(len: int, cw: int, ch: int, i: int)
    requires
        len == cw * ch,
        0 <= cw,
        0 <= ch,
        0 <= i < len,
    ensures
        cw >= 1,
        0 <= i % cw < cw,
        0 <= i / cw < ch,
{
    assert(cw >= 1 && ch >= 1) by (nonlinear_arith)
        requires
            cw * ch > 0,
            0 <= cw,
            0 <= ch,
    ;
    lemma_mod_bound(i, cw);
    lemma_fundamental_div_mod(i, cw);
    assert(0 <= i / cw < ch) by (nonlinear_arith)
        requires
            i == cw * (i / cw) + i % cw,
            0 <= i % cw < cw,
            0 <= i < cw * ch,
            cw >= 1,
    ;
}

// ---------------------------------------------------------------------------
// Filled rounded rectangle.
// ---------------------------------------------------------------------------

/// The mask of a `rw` × `rh` rounded rectangle with the given radius.
pub open spec fn rr_mask(rw: u32, rh: u32, radius: u32) -> spec_fn(int, int) -> bool {
    |a: int, b: int| spec_inside_rounded_rect(a, b, rw as int, rh as int, radius as int)
}

/// A constant fill color for every cell.
pub open spec fn const_color(c: Color) -> spec_fn(int, int) -> Color {
    |a: int, b: int| c
}

/// The canvas after filling a rounded rectangle at `(x, y)`.
pub open spec fn spec_fill_rounded_rect(
    s: Seq<Color>,
    cw: u32,
    x: int,
    y: int,
    rw: u32,
    rh: u32,
    radius: u32,
    c: Color,
) -> Seq<Color> {
    spec_stamp(s, cw, x, y, rw, rh, rr_mask(rw, rh, radius), const_color(c))
}

/// Fills a rounded rectangle: every pixel of the box that passes the
/// membership test is blended with `color`.
pub fn fill_rounded_rect(
    canvas: &mut Canvas,
    x: i32,
    y: i32,
    width: u32,
    height: u32,
    radius: u32,
    color: Color,
)
    requires
        old(canvas).wf(),
        -MAX_COORD <= x <= MAX_COORD,
        -MAX_COORD <= y <= MAX_COORD,
        width <= MAX_DIM,
        height <= MAX_DIM,
        radius <= MAX_DIM,
    ensures
        final(canvas).wf(),
        final(canvas).spec_width() == old(canvas).spec_width(),
        final(canvas).spec_height() == old(canvas).spec_height(),
        final(canvas)@ == spec_fill_rounded_rect(
            old(canvas)@,
            old(canvas).spec_width(),
            x as int,
            y as int,
            width,
            height,
            radius,
            color,
        ),
{
    let ghost s0 = canvas@;
    let ghost cw = canvas.spec_width();
    let ghost ch = canvas.spec_height();
    let ghost mask = rr_mask(width, height, radius);
    let ghost cc = const_color(color);
    proof {
        lemma_stamp_zero(s0, cw, x as int, y as int, width, height, mask, cc);
    }
    let mut yy: u32 = 0;
    while yy < height
        invariant
            canvas.wf(),
            canvas.spec_width() == cw,
            canvas.spec_height() == ch,
            cw <= MAX_DIM,
            ch <= MAX_DIM,
            s0.len() == cw as int * ch as int,
            yy <= height,
            width <= MAX_DIM,
            height <= MAX_DIM,
            radius <= MAX_DIM,
            -MAX_COORD <= x <= MAX_COORD,
            -MAX_COORD <= y <= MAX_COORD,
            mask == rr_mask(width, height, radius),
            cc == const_color(color),
            canvas@ == spec_stamp_upto(
                s0,
                cw,
                x as int,
                y as int,
                width,
                height,
                mask,
                cc,
                yy as int * width as int,
            ),
        decreases height - yy,
    {
        let mut xx: u32 = 0;
        while xx < width
            invariant
                canvas.wf(),
                canvas.spec_width() == cw,
                canvas.spec_height() == ch,
                cw <= MAX_DIM,
                ch <= MAX_DIM,
                s0.len() == cw as int * ch as int,
                yy < height,
                xx <= width,
                width <= MAX_DIM,
                height <= MAX_DIM,
                radius <= MAX_DIM,
                -MAX_COORD <= x <= MAX_COORD,
                -MAX_COORD <= y <= MAX_COORD,
                mask == rr_mask(width, height, radius),
                cc == const_color(color),
                canvas@ == spec_stamp_upto(
                    s0,
                    cw,
                    x as int,
                    y as int,
                    width,
                    height,
                    mask,
                    cc,
                    yy as int * width as int + xx as int,
                ),
            decreases width - xx,
        {
            let ins = inside_rounded_rect(
                xx as i32,
                yy as i32,
                width as i32,
                height as i32,
                radius as i32,
            );
            proof {
                lemma_stamp_step(
                    s0,
                    cw,
                    ch,
                    x as int,
                    y as int,
                    width,
                    height,
                    mask,
                    cc,
                    xx as int,
                    yy as int,
                );
            }
            if ins {
                blend_pixel(canvas, x + xx as i32, y + yy as i32, color);
            }
            xx = xx + 1;
        }
        yy = yy + 1;
        assert(yy as int * width as int == (yy - 1) as int * width as int + width as int)
            by (nonlinear_arith);
    }
    assert(canvas@ == spec_stamp_upto(
        s0,
        cw,
        x as int,
        y as int,
        width,
        height,
        mask,
        cc,
        width as int * height as int,
    )) by {
        assert(height as int * width as int == width as int * height as int) by (nonlinear_arith);
    }
}

// ---------------------------------------------------------------------------
// Filled circle.
// ---------------------------------------------------------------------------

/// The mask of a circle of the given radius, in the coordinates of its
/// bounding box: the center sits at `(radius, radius)`.
pub open spec fn circle_mask(radius: int) -> spec_fn(int, int) -> bool {
    |a: int, b: int| (a - radius) * (a - radius) + (b - radius) * (b - radius) <= radius * radius
}

/// The canvas after filling a circle centered at `(cx, cy)`.  A radius of
/// zero or less draws nothing.
pub open spec fn spec_fill_circle(
    s: Seq<Color>,
    cw: u32,
    cx: int,
    cy: int,
    radius: i32,
    c: Color,
) -> Seq<Color> {
    if radius <= 0 {
        s
    } else {
        spec_stamp(
            s,
            cw,
            cx - radius,
            cy - radius,
            (2 * radius + 1) as u32,
            (2 * radius + 1) as u32,
            circle_mask(radius as int),
            const_color(c),
        )
    }
}

/// Fills a circle: every pixel of the bounding box whose squared distance to
/// the center is at most the squared radius is blended with `color`.  A
/// radius of zero or less draws nothing.
pub fn fill_circle(canvas: &mut Canvas, cx: i32, cy: i32, radius: i32, color: Color)
    requires
        old(canvas).wf(),
        -0x0800_0000 <= cx <= 0x0800_0000,
        -0x0800_0000 <= cy <= 0x0800_0000,
        radius <= MAX_DIM,
    ensures
        final(canvas).wf(),
        final(canvas).spec_width() == old(canvas).spec_width(),
        final(canvas).spec_height() == old(canvas).spec_height(),
        final(canvas)@ == spec_fill_circle(
            old(canvas)@,
            old(canvas).spec_width(),
            cx as int,
            cy as int,
            radius,
            color,
        ),
{
    if radius <= 0 {
        return ;
    }
    let side: u32 = 2 * (radius as u32) + 1;
    let x: i32 = cx - radius;
    let y: i32 = cy - radius;
    let ghost s0 = canvas@;
    let ghost cw = canvas.spec_width();
    let ghost ch = canvas.spec_height();
    let ghost mask = circle_mask(radius as int);
    let ghost cc = const_color(color);
    proof {
        lemma_stamp_zero(s0, cw, x as int, y as int, side, side, mask, cc);
    }
    let mut yy: u32 = 0;
    while yy < side
        invariant
            canvas.wf(),
            canvas.spec_width() == cw,
            canvas.spec_height() == ch,
            cw <= MAX_DIM,
            ch <= MAX_DIM,
            s0.len() == cw as int * ch as int,
            yy <= side,
            0 < radius <= MAX_DIM,
            side == 2 * radius + 1,
            x == cx - radius,
            y == cy - radius,
            -0x0800_0000 <= cx <= 0x0800_0000,
            -0x0800_0000 <= cy <= 0x0800_0000,
            mask == circle_mask(radius as int),
            cc == const_color(color),
            canvas@ == spec_stamp_upto(
                s0,
                cw,
                x as int,
                y as int,
                side,
                side,
                mask,
                cc,
                yy as int * side as int,
            ),
        decreases side - yy,
    {
        let mut xx: u32 = 0;
        while xx < side
            invariant
                canvas.wf(),
                canvas.spec_width() == cw,
                canvas.spec_height() == ch,
                cw <= MAX_DIM,
                ch <= MAX_DIM,
                s0.len() == cw as int * ch as int,
                yy < side,
                xx <= side,
                0 < radius <= MAX_DIM,
                side == 2 * radius + 1,
                x == cx - radius,
                y == cy - radius,
                -0x0800_0000 <= cx <= 0x0800_0000,
                -0x0800_0000 <= cy <= 0x0800_0000,
                mask == circle_mask(radius as int),
                cc == const_color(color),
                canvas@ == spec_stamp_upto(
                    s0,
                    cw,
                    x as int,
                    y as int,
                    side,
                    side,
                    mask,
                    cc,
                    yy as int * side as int + xx as int,
                ),
            decreases side - xx,
        {
            let dx: i64 = xx as i64 - radius as i64;
            let dy: i64 = yy as i64 - radius as i64;
            assert(0 <= dx * dx <= 0x1_0000_0000_0000 && 0 <= dy * dy <= 0x1_0000_0000_0000 && 0
                <= (radius as i64) * (radius as i64) <= 0x1_0000_0000_0000) by (nonlinear_arith)
                requires
                    -0x20000 <= dx <= 0x20000,
                    -0x20000 <= dy <= 0x20000,
                    0 <= radius <= 0x20000,
            ;
            let ins = dx * dx + dy * dy <= (radius as i64) * (radius as i64);
            proof {
                lemma_stamp_step(
                    s0,
                    cw,
                    ch,
                    x as int,
                    y as int,
                    side,
                    side,
                    mask,
                    cc,
                    xx as int,
                    yy as int,
                );
            }
            if ins {
                blend_pixel(canvas, x + xx as i32, y + yy as i32, color);
            }
            xx = xx + 1;
        }
        yy = yy + 1;
        assert(yy as int * side as int == (yy - 1) as int * side as int + side as int)
            by (nonlinear_arith);
    }
    assert(canvas@ == spec_stamp_upto(
        s0,
        cw,
        x as int,
        y as int,
        side,
        side,
        mask,
        cc,
        side as int * side as int,
    ));
}

// ---------------------------------------------------------------------------
// Blitting one canvas onto another.
// ---------------------------------------------------------------------------

/// The cell colors of a source canvas of width `w`.
pub open spec fn canvas_color(sp: Seq<Color>, w: u32) -> spec_fn(int, int) -> Color {
    |a: int, b: int| sp[b * w + a]
}

/// The mask of the source pixels that are not fully transparent.
pub open spec fn alpha_mask(sp: Seq<Color>, w: u32) -> spec_fn(int, int) -> bool {
    |a: int, b: int| sp[b * w + a].a != 0
}

/// The canvas after blending a source bitmap at `(x, y)` through a
/// rounded-rectangle mask over the source dimensions.
pub open spec fn spec_blit_rounded(
    s: Seq<Color>,
    cw: u32,
    sp: Seq<Color>,
    sw: u32,
    sh: u32,
    x: int,
    y: int,
    radius: u32,
) -> Seq<Color> {
    spec_stamp(s, cw, x, y, sw, sh, rr_mask(sw, sh, radius), canvas_color(sp, sw))
}

/// The canvas after blending a source bitmap at `(x, y)`, skipping the
/// source pixels whose alpha is zero.
pub open spec fn spec_apply_overlay(
    s: Seq<Color>,
    cw: u32,
    sp: Seq<Color>,
    sw: u32,
    sh: u32,
    x: int,
    y: int,
) -> Seq<Color> {
    spec_stamp(s, cw, x, y, sw, sh, alpha_mask(sp, sw), canvas_color(sp, sw))
}

/// Blends `src` onto the canvas at `(x, y)`, keeping only the pixels inside
/// a rounded rectangle over the source dimensions.
pub fn blit_rounded(canvas: &mut Canvas, src: &Canvas, x: i32, y: i32, radius: u32)
    requires
        old(canvas).wf(),
        src.wf(),
        -MAX_COORD <= x <= MAX_COORD,
        -MAX_COORD <= y <= MAX_COORD,
        radius <= MAX_DIM,
    ensures
        final(canvas).wf(),
        final(canvas).spec_width() == old(canvas).spec_width(),
        final(canvas).spec_height() == old(canvas).spec_height(),
        final(canvas)@ == spec_blit_rounded(
            old(canvas)@,
            old(canvas).spec_width(),
            src@,
            src.spec_width(),
            src.spec_height(),
            x as int,
            y as int,
            radius,
        ),
{
    let sw = src.width();
    let sh = src.height();
    let ghost s0 = canvas@;
    let ghost cw = canvas.spec_width();
    let ghost ch = canvas.spec_height();
    let ghost mask = rr_mask(sw, sh, radius);
    let ghost cc = canvas_color(src@, sw);
    proof {
        lemma_stamp_zero(s0, cw, x as int, y as int, sw, sh, mask, cc);
    }
    let mut yy: u32 = 0;
    while yy < sh
        invariant
            canvas.wf(),
            src.wf(),
            canvas.spec_width() == cw,
            canvas.spec_height() == ch,
            cw <= MAX_DIM,
            ch <= MAX_DIM,
            s0.len() == cw as int * ch as int,
            yy <= sh,
            sw == src.spec_width(),
            sh == src.spec_height(),
            radius <= MAX_DIM,
            -MAX_COORD <= x <= MAX_COORD,
            -MAX_COORD <= y <= MAX_COORD,
            mask == rr_mask(sw, sh, radius),
            cc == canvas_color(src@, sw),
            canvas@ == spec_stamp_upto(
                s0,
                cw,
                x as int,
                y as int,
                sw,
                sh,
                mask,
                cc,
                yy as int * sw as int,
            ),
        decreases sh - yy,
    {
        let mut xx: u32 = 0;
        while xx < sw
            invariant
                canvas.wf(),
                src.wf(),
                canvas.spec_width() == cw,
                canvas.spec_height() == ch,
                cw <= MAX_DIM,
                ch <= MAX_DIM,
                s0.len() == cw as int * ch as int,
                yy < sh,
                xx <= sw,
                sw == src.spec_width(),
                sh == src.spec_height(),
                radius <= MAX_DIM,
                -MAX_COORD <= x <= MAX_COORD,
                -MAX_COORD <= y <= MAX_COORD,
                mask == rr_mask(sw, sh, radius),
                cc == canvas_color(src@, sw),
                canvas@ == spec_stamp_upto(
                    s0,
                    cw,
                    x as int,
                    y as int,
                    sw,
                    sh,
                    mask,
                    cc,
                    yy as int * sw as int + xx as int,
                ),
            decreases sw - xx,
        {
            let ins = inside_rounded_rect(xx as i32, yy as i32, sw as i32, sh as i32, radius as i32);
            proof {
                lemma_stamp_step(
                    s0,
                    cw,
                    ch,
                    x as int,
                    y as int,
                    sw,
                    sh,
                    mask,
                    cc,
                    xx as int,
                    yy as int,
                );
            }
            if ins {
                let p = src.get_pixel(xx, yy);
                blend_pixel(canvas, x + xx as i32, y + yy as i32, p);
            }
            xx = xx + 1;
        }
        yy = yy + 1;
        assert(yy as int * sw as int == (yy - 1) as int * sw as int + sw as int)
            by (nonlinear_arith);
    }
    assert(canvas@ == spec_stamp_upto(
        s0,
        cw,
        x as int,
        y as int,
        sw,
        sh,
        mask,
        cc,
        sw as int * sh as int,
    )) by {
        assert(sh as int * sw as int == sw as int * sh as int) by (nonlinear_arith);
    }
}

/// Blends `src` onto the canvas at `(x, y)`, skipping fully transparent
/// source pixels.
pub fn apply_overlay(canvas: &mut Canvas, src: &Canvas, x: i32, y: i32)
    requires
        old(canvas).wf(),
        src.wf(),
        -MAX_COORD <= x <= MAX_COORD,
        -MAX_COORD <= y <= MAX_COORD,
    ensures
        final(canvas).wf(),
        final(canvas).spec_width() == old(canvas).spec_width(),
        final(canvas).spec_height() == old(canvas).spec_height(),
        final(canvas)@ == spec_apply_overlay(
            old(canvas)@,
            old(canvas).spec_width(),
            src@,
            src.spec_width(),
            src.spec_height(),
            x as int,
            y as int,
        ),
{
    let sw = src.width();
    let sh = src.height();
    let ghost s0 = canvas@;
    let ghost cw = canvas.spec_width();
    let ghost ch = canvas.spec_height();
    let ghost mask = alpha_mask(src@, sw);
    let ghost cc = canvas_color(src@, sw);
    proof {
        lemma_stamp_zero(s0, cw, x as int, y as int, sw, sh, mask, cc);
    }
    let mut yy: u32 = 0;
    while yy < sh
        invariant
            canvas.wf(),
            src.wf(),
            canvas.spec_width() == cw,
            canvas.spec_height() == ch,
            cw <= MAX_DIM,
            ch <= MAX_DIM,
            s0.len() == cw as int * ch as int,
            yy <= sh,
            sw == src.spec_width(),
            sh == src.spec_height(),
            -MAX_COORD <= x <= MAX_COORD,
            -MAX_COORD <= y <= MAX_COORD,
            mask == alpha_mask(src@, sw),
            cc == canvas_color(src@, sw),
            canvas@ == spec_stamp_upto(
                s0,
                cw,
                x as int,
                y as int,
                sw,
                sh,
                mask,
                cc,
                yy as int * sw as int,
            ),
        decreases sh - yy,
    {
        let mut xx: u32 = 0;
        while xx < sw
            invariant
                canvas.wf(),
                src.wf(),
                canvas.spec_width() == cw,
                canvas.spec_height() == ch,
                cw <= MAX_DIM,
                ch <= MAX_DIM,
                s0.len() == cw as int * ch as int,
                yy < sh,
                xx <= sw,
                sw == src.spec_width(),
                sh == src.spec_height(),
                -MAX_COORD <= x <= MAX_COORD,
                -MAX_COORD <= y <= MAX_COORD,
                mask == alpha_mask(src@, sw),
                cc == canvas_color(src@, sw),
                canvas@ == spec_stamp_upto(
                    s0,
                    cw,
                    x as int,
                    y as int,
                    sw,
                    sh,
                    mask,
                    cc,
                    yy as int * sw as int + xx as int,
                ),
            decreases sw - xx,
        {
            let p = src.get_pixel(xx, yy);
            proof {
                lemma_stamp_step(
                    s0,
                    cw,
                    ch,
                    x as int,
                    y as int,
                    sw,
                    sh,
                    mask,
                    cc,
                    xx as int,
                    yy as int,
                );
            }
            if p.a != 0 {
                blend_pixel(canvas, x + xx as i32, y + yy as i32, p);
            }
            xx = xx + 1;
        }
        yy = yy + 1;
        assert(yy as int * sw as int == (yy - 1) as int * sw as int + sw as int)
            by (nonlinear_arith);
    }
    assert(canvas@ == spec_stamp_upto(
        s0,
        cw,
        x as int,
        y as int,
        sw,
        sh,
        mask,
        cc,
        sw as int * sh as int,
    )) by {
        assert(sh as int * sw as int == sw as int * sh as int) by (nonlinear_arith);
    }
}

// ---------------------------------------------------------------------------
// Glossy frame tone bands.
// ---------------------------------------------------------------------------

/// The canvas after the two translucent tone bands of the frame: a light
/// band over the upper third and a dark band over the lower third.
pub open spec fn spec_draw_frame_tones(
    s: Seq<Color>,
    cw: u32,
    x: int,
    y: int,
    width: u32,
    height: u32,
    radius: u32,
) -> Seq<Color> {
    let top_h: u32 = if height / 3 > 8 { (height / 3) as u32 } else { 8u32 };
    let w2: u32 = if width >= 2 { (width - 2) as u32 } else { 0u32 };
    let r1: u32 = if radius >= 1 { (radius - 1) as u32 } else { 0u32 };
    let two_thirds = (2 * height) as int / 3;
    let bottom_rest: u32 = (height - two_thirds) as u32;
    let bottom_h: u32 = if bottom_rest >= 2 { (bottom_rest - 2) as u32 } else { 0u32 };
    let s1 = spec_fill_rounded_rect(
        s,
        cw,
        x + 1,
        y + 1,
        w2,
        top_h,
        r1,
        Color { r: 255, g: 255, b: 255, a: 20 },
    );
    spec_fill_rounded_rect(
        s1,
        cw,
        x + 1,
        y + two_thirds,
        w2,
        bottom_h,
        r1,
        Color { r: 0, g: 0, b: 0, a: 28 },
    )
}

/// Draws the two translucent tone bands that give the frame its glossy
/// look: a light band over the upper third, a dark band over the lower.
pub fn draw_frame_tones(canvas: &mut Canvas, x: i32, y: i32, width: u32, height: u32, radius: u32)
    requires
        old(canvas).wf(),
        -0x0800_0000 <= x <= 0x0800_0000,
        -0x0800_0000 <= y <= 0x0800_0000,
        width <= MAX_DIM,
        height <= MAX_DIM,
        radius <= MAX_DIM,
    ensures
        final(canvas).wf(),
        final(canvas).spec_width() == old(canvas).spec_width(),
        final(canvas).spec_height() == old(canvas).spec_height(),
        final(canvas)@ == spec_draw_frame_tones(
            old(canvas)@,
            old(canvas).spec_width(),
            x as int,
            y as int,
            width,
            height,
            radius,
        ),
{
    let top_h: u32 = if height / 3 > 8 {
        height / 3
    } else {
        8
    };
    let w2: u32 = if width >= 2 {
        width - 2
    } else {
        0
    };
    let r1: u32 = if radius >= 1 {
        radius - 1
    } else {
        0
    };
    fill_rounded_rect(canvas, x + 1, y + 1, w2, top_h, r1, Color { r: 255, g: 255, b: 255, a: 20 });
    let two_thirds: u32 = (2 * height) / 3;
    let bottom_y: i32 = y + two_thirds as i32;
    let bottom_rest: u32 = height - two_thirds;
    let bottom_h: u32 = if bottom_rest >= 2 {
        bottom_rest - 2
    } else {
        0
    };
    fill_rounded_rect(canvas, x + 1, bottom_y, w2, bottom_h, r1, Color { r: 0, g: 0, b: 0, a: 28 });
}

} // verus!
