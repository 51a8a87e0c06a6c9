use vstd::prelude::*;
use vstd::arithmetic::div_mod::lemma_fundamental_div_mod_converse;
use crate::canvas::{Canvas, MAX_DIM};
use crate::color::Color;

verus! {

/// The bytes of a pixel buffer in row-major RGBA order.
pub open spec fn spec_canvas_bytes(s: Seq<Color>) -> Seq<u8> {
    Seq::new(
        4 * s.len(),
        |j: int|
            {
                let c = s[j / 4];
                if j % 4 == 0 {
                    c.r
                } else if j % 4 == 1 {
                    c.g
                } else if j % 4 == 2 {
                    c.b
                } else {
                    c.a
                }
            },
    )
}

/// The colors read back from row-major RGBA bytes.
pub open spec fn spec_colors_of_bytes(b: Seq<u8>) -> Seq<Color> {
    Seq::new(
        b.len() / 4,
        |i: int| Color { r: b[4 * i], g: b[4 * i + 1], b: b[4 * i + 2], a: b[4 * i + 3] },
    )
}

/// What the Lanczos3 resampler produces from the given RGBA bytes: a pure
/// function of the source bytes and the source and target dimensions.
pub uninterp spec fn lanczos_resample(data: Seq<u8>, w: u32, h: u32, tw: u32, th: u32) -> Seq<u8>;

/// Relies on image's `imageops::resize` with the `Lanczos3` filter, reached
/// through `RgbaImage::from_raw` and `into_raw`, which only wrap and unwrap
/// the byte buffer: the resampler is a deterministic function of the pixel
/// bytes and the dimensions, and returns a buffer of exactly the requested
/// target size.  `from_raw` is `Some` because the buffer holds exactly
/// `4 * w * h` bytes.
#[verifier::external_body]
fn resample_rgba(data: Vec<u8>, w: u32, h: u32, tw: u32, th: u32) -> (r: Vec<u8>)
    requires
        1 <= w,
        1 <= h,
        1 <= tw,
        1 <= th,
        data@.len() == 4 * (w as int) * (h as int),
    ensures
        r@ == lanczos_resample(data@, w, h, tw, th),
        r@.len() == 4 * (tw as int) * (th as int),
{
    let img = image::RgbaImage::from_raw(w, h, data).unwrap();
    image::imageops::resize(&img, tw, th, image::imageops::FilterType::Lanczos3).into_raw()
}

/// Flattens a canvas into its row-major RGBA bytes.
fn canvas_to_bytes(c: &Canvas) -> (r: Vec<u8>)
    requires
        c.wf(),
    ensures
        r@ == spec_canvas_bytes(c@),
{
    let ghost target = spec_canvas_bytes(c@);
    let w = c.width();
    let h = c.height();
    let mut out: Vec<u8> = Vec::new();
    let mut y: u32 = 0;
    while y < h
        invariant
            c.wf(),
            w == c.spec_width(),
            h == c.spec_height(),
            y <= h,
            target == spec_canvas_bytes(c@),
            out@.len() == 4 * (y as int * w as int),
            forall|j: int| 0 <= j < out@.len() ==> out@[j] == target[j],
        decreases h - y,
    {
        let mut x: u32 = 0;
        while x < w
            invariant
                c.wf(),
                w == c.spec_width(),
                h == c.spec_height(),
                y < h,
                x <= w,
                target == spec_canvas_bytes(c@),
                out@.len() == 4 * (y as int * w as int + x as int),
                forall|j: int| 0 <= j < out@.len() ==> out@[j] == target[j],
            decreases w - x,
        {
            let p = c.get_pixel(x, y);
            proof {
                crate::canvas::lemma_index_in_bounds(w as int, h as int, x as int, y as int);
                let i = y as int * w as int + x as int;
                lemma_fundamental_div_mod_converse(4 * i, 4, i, 0);
                lemma_fundamental_div_mod_converse(4 * i + 1, 4, i, 1);
                lemma_fundamental_div_mod_converse(4 * i + 2, 4, i, 2);
                lemma_fundamental_div_mod_converse(4 * i + 3, 4, i, 3);
            }
            out.push(p.r);
            out.push(p.g);
            out.push(p.b);
            out.push(p.a);
            x = x + 1;
        }
        y = y + 1;
        assert(y as int * w as int == (y - 1) as int * w as int + w as int) by (nonlinear_arith);
    }
    proof {
        assert(h as int * w as int == w as int * h as int) by (nonlinear_arith);
        assert(out@ =~= target);
    }
    out
}

/// Reassembles a canvas from row-major RGBA bytes.
fn canvas_of_bytes(bytes: &Vec<u8>, w: u32, h: u32) -> (c: Canvas)
    requires
        1 <= w <= MAX_DIM,
        1 <= h <= MAX_DIM,
        bytes@.len() == 4 * (w as int) * (h as int),
    ensures
        c.wf(),
        c.spec_width() == w,
        c.spec_height() == h,
        c@ == spec_colors_of_bytes(bytes@),
{
    let ghost target = spec_colors_of_bytes(bytes@);
    proof {
        assert(bytes@.len() / 4 == (w as int) * (h as int)) by (nonlinear_arith)
            requires
                bytes@.len() == 4 * (w as int) * (h as int),
        ;
    }
    let blen: usize = bytes.len();
    let fill = Color { r: 0, g: 0, b: 0, a: 255 };
    let mut out = Canvas::new(w, h, fill);
    let mut y: u32 = 0;
    while y < h
        invariant
            out.wf(),
            out.spec_width() == w,
            out.spec_height() == h,
            1 <= w <= MAX_DIM,
            1 <= h <= MAX_DIM,
            y <= h,
            bytes@.len() == 4 * (w as int) * (h as int),
            bytes@.len() <= usize::MAX,
            target == spec_colors_of_bytes(bytes@),
            out@.len() == target.len(),
            target.len() == w as int * h as int,
            forall|i: int|
                0 <= i < target.len() ==> out@[i] == (if i < y as int * w as int {
                    target[i]
                } else {
                    fill
                }),
        decreases h - y,
    {
        let mut x: u32 = 0;
        while x < w
            invariant
                out.wf(),
                out.spec_width() == w,
                out.spec_height() == h,
                1 <= w <= MAX_DIM,
                1 <= h <= MAX_DIM,
                y < h,
                x <= w,
                bytes@.len() == 4 * (w as int) * (h as int),
                bytes@.len() <= usize::MAX,
                target == spec_colors_of_bytes(bytes@),
                out@.len() == target.len(),
                target.len() == w as int * h as int,
                forall|i: int|
                    0 <= i < target.len() ==> out@[i] == (if i < y as int * w as int + x as int {
                        target[i]
                    } else {
                        fill
                    }),
            decreases w - x,
        {
            proof {
                crate::canvas::lemma_index_in_bounds(w as int, h as int, x as int, y as int);
                crate::canvas::lemma_index_coords(w as int, x as int, y as int);
            }
            let base: usize = ((y as usize) * (w as usize) + (x as usize)) * 4;
            let pix = Color {
                r: bytes[base],
                g: bytes[base + 1],
                b: bytes[base + 2],
                a: bytes[base + 3],
            };
            out.put_pixel(x, y, pix);
            x = x + 1;
        }
        y = y + 1;
        assert(y as int * w as int == (y - 1) as int * w as int + w as int) by (nonlinear_arith);
    }
    proof {
        assert(h as int * w as int == w as int * h as int) by (nonlinear_arith);
        assert(out@ =~= target);
    }
    out
}

/// Resamples a canvas to exactly the given dimensions with the Lanczos3
/// filter.
pub fn resize_exact(src: &Canvas, tw: u32, th: u32) -> (r: Canvas)
    requires
        src.wf(),
        src.spec_width() >= 1,
        src.spec_height() >= 1,
        1 <= tw <= MAX_DIM,
        1 <= th <= MAX_DIM,
    ensures
        r.wf(),
        r.spec_width() == tw,
        r.spec_height() == th,
        r@ == spec_colors_of_bytes(
            lanczos_resample(spec_canvas_bytes(src@), src.spec_width(), src.spec_height(), tw, th),
        ),
{
    let sw = src.width();
    let sh = src.height();
    let bytes = canvas_to_bytes(src);
    proof {
        assert(bytes@.len() == 4 * (sw as int) * (sh as int)) by (nonlinear_arith)
            requires
                bytes@.len() == 4 * ((sw as int) * (sh as int)),
        ;
    }
    let resized = resample_rgba(bytes, sw, sh, tw, th);
    canvas_of_bytes(&resized, tw, th)
}

/// The dimensions of the cover-fit intermediate: the source scaled by
/// `max(tw / sw, th / sh)`, rounded up, and never below the target.
pub open spec fn spec_cover_width(sw: u32, sh: u32, tw: u32, th: u32) -> int {
    if tw * sh >= th * sw {
        tw as int
    } else {
        let rw = (sw * th + sh - 1) as int / sh as int;
        if rw >= tw {
            rw
        } else {
            tw as int
        }
    }
}

/// See `spec_cover_width`.
pub open spec fn spec_cover_height(sw: u32, sh: u32, tw: u32, th: u32) -> int {
    if tw * sh >= th * sw {
        let rh = (sh * tw + sw - 1) as int / sw as int;
        if rh >= th {
            rh
        } else {
            th as int
        }
    } else {
        th as int
    }
}

/// The centered `tw` × `th` window of a `rw` × `rh` buffer.
pub open spec fn spec_center_crop(s: Seq<Color>, rw: int, rh: int, tw: int, th: int) -> Seq<
    Color,
> {
    let cx = (rw - tw) / 2;
    let cy = (rh - th) / 2;
    Seq::new((tw * th) as nat, |i: int| s[(cy + i / tw) * rw + (cx + i % tw)])
}

/// Cover-fit resize: the source is resampled by the scale factor
/// `max(tw / sw, th / sh)` — so it covers the target in both dimensions —
/// and then center-cropped to exactly `tw` × `th`.  The result always has
/// exactly the requested dimensions, whatever the source aspect ratio.
pub fn resize_cover(src: &Canvas, tw: u32, th: u32) -> (r: Canvas)
    requires
        src.wf(),
        src.spec_width() >= 1,
        src.spec_height() >= 1,
        1 <= tw <= MAX_DIM,
        1 <= th <= MAX_DIM,
    ensures
        r.wf(),
        r.spec_width() == tw,
        r.spec_height() == th,
        r@ == spec_center_crop(
            spec_colors_of_bytes(
                lanczos_resample(
                    spec_canvas_bytes(src@),
                    src.spec_width(),
                    src.spec_height(),
                    spec_cover_width(src.spec_width(), src.spec_height(), tw, th) as u32,
                    spec_cover_height(src.spec_width(), src.spec_height(), tw, th) as u32,
                ),
            ),
            spec_cover_width(src.spec_width(), src.spec_height(), tw, th),
            spec_cover_height(src.spec_width(), src.spec_height(), tw, th),
            tw as int,
            th as int,
        ),
{
    let sw = src.width();
    let sh = src.height();
    let rw: u32;
    let rh: u32;
    assert((tw as int) * (sh as int) <= 0x4000_0000 && (th as int) * (sw as int) <= 0x4000_0000
        && (sh as int) * (tw as int) <= 0x4000_0000 && (sw as int) * (th as int) <= 0x4000_0000)
        by (nonlinear_arith)
        requires
            1 <= sw as int <= 0x8000,
            1 <= sh as int <= 0x8000,
            1 <= tw as int <= 0x8000,
            1 <= th as int <= 0x8000,
    ;
    if (tw as u64) * (sh as u64) >= (th as u64) * (sw as u64) {
        rw = tw;
        let num: u64 = (sh as u64) * (tw as u64) + (sw as u64) - 1;
        let q: u64 = num / (sw as u64);
        assert(0 <= ((sh as u64) * (tw as u64) + (sw as u64) - 1) as int / (sw as int)
            <= 0x4000_0000) by (nonlinear_arith)
            requires
                1 <= sw as int <= 0x8000,
                1 <= sh as int <= 0x8000,
                1 <= tw as int <= 0x8000,
        ;
        rh = if q >= th as u64 {
            q as u32
        } else {
            th
        };
    } else {
        rh = th;
        let num: u64 = (sw as u64) * (th as u64) + (sh as u64) - 1;
        let q: u64 = num / (sh as u64);
        assert(0 <= ((sw as u64) * (th as u64) + (sh as u64) - 1) as int / (sh as int)
            <= 0x4000_0000) by (nonlinear_arith)
            requires
                1 <= sw as int <= 0x8000,
                1 <= sh as int <= 0x8000,
                1 <= th as int <= 0x8000,
        ;
        rw = if q >= tw as u64 {
            q as u32
        } else {
            tw
        };
    }
    assert(rw as int == spec_cover_width(sw, sh, tw, th));
    assert(rh as int == spec_cover_height(sw, sh, tw, th));
    assert(tw <= rw && th <= rh);
    let bytes = canvas_to_bytes(src);
    proof {
        assert(bytes@.len() == 4 * (sw as int) * (sh as int)) by (nonlinear_arith)
            requires
                bytes@.len() == 4 * ((sw as int) * (sh as int)),
        ;
    }
    let resized = resample_rgba(bytes, sw, sh, rw, rh);
    let ghost colors = spec_colors_of_bytes(resized@);
    proof {
        assert(resized@.len() / 4 == (rw as int) * (rh as int)) by (nonlinear_arith)
            requires
                resized@.len() == 4 * (rw as int) * (rh as int),
        ;
    }
    let resized_len: usize = resized.len();
    assert(resized@.len() <= usize::MAX);
    let cx: u32 = (rw - tw) / 2;
    let cy: u32 = (rh - th) / 2;
    let ghost target = spec_center_crop(colors, rw as int, rh as int, tw as int, th as int);
    let fill = Color { r: 0, g: 0, b: 0, a: 255 };
    let mut out = Canvas::new(tw, th, fill);
    let mut y: u32 = 0;
    while y < th
        invariant
            out.wf(),
            out.spec_width() == tw,
            out.spec_height() == th,
            1 <= tw <= MAX_DIM,
            1 <= th <= MAX_DIM,
            y <= th,
            tw <= rw,
            th <= rh,
            1 <= rw as int <= 0x4000_0000,
            1 <= rh as int <= 0x4000_0000,
            cx == (rw - tw) / 2,
            cy == (rh - th) / 2,
            cx as int + tw as int <= rw as int,
            cy as int + th as int <= rh as int,
            resized@.len() == 4 * (rw as int) * (rh as int),
            resized@.len() <= usize::MAX,
            colors == spec_colors_of_bytes(resized@),
            colors.len() == (rw as int) * (rh as int),
            target == spec_center_crop(colors, rw as int, rh as int, tw as int, th as int),
            out@.len() == target.len(),
            target.len() == tw as int * th as int,
            forall|i: int|
                0 <= i < target.len() ==> out@[i] == (if i < y as int * tw as int {
                    target[i]
                } else {
                    fill
                }),
        decreases th - y,
    {
        let mut x: u32 = 0;
        while x < tw
            invariant
                out.wf(),
                out.spec_width() == tw,
                out.spec_height() == th,
                1 <= tw <= MAX_DIM,
                1 <= th <= MAX_DIM,
                y < th,
                x <= tw,
                tw <= rw,
                th <= rh,
                1 <= rw as int <= 0x4000_0000,
                1 <= rh as int <= 0x4000_0000,
                cx == (rw - tw) / 2,
                cy == (rh - th) / 2,
                cx as int + tw as int <= rw as int,
                cy as int + th as int <= rh as int,
                resized@.len() == 4 * (rw as int) * (rh as int),
                resized@.len() <= usize::MAX,
                colors == spec_colors_of_bytes(resized@),
                colors.len() == (rw as int) * (rh as int),
                target == spec_center_crop(colors, rw as int, rh as int, tw as int, th as int),
                out@.len() == target.len(),
                target.len() == tw as int * th as int,
                forall|i: int|
                    0 <= i < target.len() ==> out@[i] == (if i < y as int * tw as int + x as int {
                        target[i]
                    } else {
                        fill
                    }),
            decreases tw - x,
        {
            let sx: u64 = cx as u64 + x as u64;
            let sy: u64 = cy as u64 + y as u64;
            assert(0 <= (cy as int + y as int) * (rw as int) + (cx as int + x as int) && ((
            cy as int + y as int) * (rw as int) + (cx as int + x as int)) * 4 + 3 < 4 * (
            rw as int) * (rh as int) && 4 * (rw as int) * (rh as int) <= 0x4000_0000_0000_0000)
                by (nonlinear_arith)
                requires
                    0 <= cx as int + x as int,
                    (cx as int + x as int) < rw as int,
                    0 <= cy as int + y as int,
                    (cy as int + y as int) < rh as int,
                    1 <= rw as int <= 0x4000_0000,
                    1 <= rh as int <= 0x4000_0000,
            ;
            let p: u64 = sy * (rw as u64) + sx;
            let base: usize = (p as usize) * 4;
            let pr = resized[base];
            let pg = resized[base + 1];
            let pb = resized[base + 2];
            let pa = resized[base + 3];
            let pix = Color { r: pr, g: pg, b: pb, a: pa };
            proof {
                crate::canvas::lemma_index_in_bounds(tw as int, th as int, x as int, y as int);
                crate::canvas::lemma_index_coords(tw as int, x as int, y as int);
                assert(pix == target[y as int * tw as int + x as int]);
            }
            out.put_pixel(x, y, pix);
            x = x + 1;
        }
        y = y + 1;
        assert(y as int * tw as int == (y - 1) as int * tw as int + tw as int) by (nonlinear_arith);
    }
    proof {
        assert(th as int * tw as int == tw as int * th as int) by (nonlinear_arith);
        assert(out@ =~= target);
    }
    out
}

} // verus!
