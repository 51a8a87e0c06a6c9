use vstd::prelude::*;
use crate::canvas::{Canvas, MAX_DIM, lemma_index_coords, lemma_index_in_bounds};
use crate::color::{Color, spec_lerp, spec_parse_hex, lerp_color, parse_hex_rgba};
use crate::config::{BackgroundConfig, BackgroundTemplate};
use crate::errors::ForgeError;
use crate::noise::{spec_noise, pseudo_noise};
use crate::rng::{mesh_picks, stripe_picks, draw_mesh_picks, draw_stripe_picks};

verus! {

// ---------------------------------------------------------------------------
// Shared pieces of the two templates.
// ---------------------------------------------------------------------------

/// A coordinate as a fixed-point fraction over 65536 of the last index of
/// its axis; an axis of one pixel sits at fraction zero.
pub open spec fn spec_fx(p: int, extent: int) -> int {
    if extent <= 1 {
        0
    } else {
        p * 65536 / (extent - 1)
    }
}

fn fx_of(p: u32, extent: u32) -> (r: u32)
    requires
        p < extent,
        extent <= MAX_DIM,
    ensures
        r == spec_fx(p as int, extent as int),
        r <= 65536,
{
    if extent <= 1 {
        0
    } else {
        assert(0 <= p as int * 65536 / (extent - 1) <= 65536) by (nonlinear_arith)
            requires
                0 <= p as int <= extent - 1,
                extent >= 2,
        ;
        let v: u64 = (p as u64) * 65536 / ((extent - 1) as u64);
        v as u32
    }
}

/// A nonnegative numerator divided by a positive denominator, clamped to a
/// channel value: negative numerators give 0 and large quotients give 255.
pub open spec fn spec_clamp_div(num: int, den: int) -> u8
    recommends
        den >= 1,
{
    if num <= 0 {
        0
    } else if num / den > 255 {
        255
    } else {
        (num / den) as u8
    }
}

/// One mesh channel after the radial vignette and additive grain: the lerped
/// channel is scaled by `1 - vig / 1638400` and the grain scalar, scaled by
/// 10, is added; everything over the common denominator `1638400 * 1023`.
pub open spec fn spec_grain_mesh(c: u8, vig: int, grain: int) -> u8 {
    spec_clamp_div(c * (1638400 - vig) * 1023 + 10 * grain * 1638400, 1676083200)
}

/// One stripes channel after additive grain scaled by 8, over the grain
/// denominator 1023.
pub open spec fn spec_grain_stripe(c: u8, grain: int) -> u8 {
    spec_clamp_div(c * 1023 + 8 * grain, 1023)
}

fn grain_mesh_channel(c: u8, vig: i64, grain: i32) -> (r: u8)
    requires
        0 <= vig <= 262144,
        -1023 <= grain <= 1023,
    ensures
        r == spec_grain_mesh(c, vig as int, grain as int),
{
    assert(0 <= (c as int) * (1638400 - vig) <= 255 * 1638400) by (nonlinear_arith)
        requires
            c <= 255,
            0 <= vig <= 262144,
    ;
    let num: i64 = (c as i64) * (1638400 - vig) * 1023 + 10 * (grain as i64) * 1638400;
    if num <= 0 {
        0
    } else {
        let q: i64 = num / 1676083200;
        if q > 255 {
            255
        } else {
            q as u8
        }
    }
}

fn grain_stripe_channel(c: u8, grain: i32) -> (r: u8)
    requires
        -1023 <= grain <= 1023,
    ensures
        r == spec_grain_stripe(c, grain as int),
{
    let num: i64 = (c as i64) * 1023 + 8 * (grain as i64);
    if num <= 0 {
        0
    } else {
        let q: i64 = num / 1023;
        if q > 255 {
            255
        } else {
            q as u8
        }
    }
}

// ---------------------------------------------------------------------------
// The mesh template: a bilinear blend of four corner colors with a radial
// vignette and per-pixel grain.
// ---------------------------------------------------------------------------

/// One pixel of the mesh background.
#[verifier::opaque]
pub open spec fn spec_mesh_pixel(
    c0: Color,
    c1: Color,
    c2: Color,
    c3: Color,
    w: u32,
    h: u32,
    seed: u64,
    x: u32,
    y: u32,
) -> Color {
    let fx = spec_fx(x as int, w as int);
    let fy = spec_fx(y as int, h as int);
    let top = spec_lerp(c0, c1, fx as u32);
    let bottom = spec_lerp(c2, c3, fx as u32);
    let mixed = spec_lerp(top, bottom, fy as u32);
    let dx = if fx >= 32768 {
        (fx - 32768) * 2
    } else {
        (32768 - fx) * 2
    };
    let dy = if fy >= 32768 {
        (fy - 32768) * 2
    } else {
        (32768 - fy) * 2
    };
    let vig = if 3 * (dx + dy) > 262144 {
        262144int
    } else {
        3 * (dx + dy)
    };
    let grain = spec_noise(seed, x, y) as int;
    Color {
        r: spec_grain_mesh(mixed.r, vig, grain),
        g: spec_grain_mesh(mixed.g, vig, grain),
        b: spec_grain_mesh(mixed.b, vig, grain),
        a: 255,
    }
}

/// The whole mesh canvas, pixel by pixel.
pub open spec fn spec_mesh_canvas(
    c0: Color,
    c1: Color,
    c2: Color,
    c3: Color,
    w: u32,
    h: u32,
    seed: u64,
) -> Seq<Color> {
    Seq::new(
        (w as nat) * (h as nat),
        |i: int|
            spec_mesh_pixel(
                c0,
                c1,
                c2,
                c3,
                w,
                h,
                seed,
                (i % (w as int)) as u32,
                (i / (w as int)) as u32,
            ),
    )
}

fn mesh_pixel(
    c0: Color,
    c1: Color,
    c2: Color,
    c3: Color,
    w: u32,
    h: u32,
    seed: u64,
    x: u32,
    y: u32,
) -> (p: Color)
    requires
        x < w <= MAX_DIM,
        y < h <= MAX_DIM,
    ensures
        p == spec_mesh_pixel(c0, c1, c2, c3, w, h, seed, x, y),
{
    proof {
        reveal(spec_mesh_pixel);
    }
    let fx = fx_of(x, w);
    let fy = fx_of(y, h);
    let top = lerp_color(c0, c1, fx);
    let bottom = lerp_color(c2, c3, fx);
    let mixed = lerp_color(top, bottom, fy);
    let dx: i64 = if fx >= 32768 {
        ((fx - 32768) as i64) * 2
    } else {
        ((32768 - fx) as i64) * 2
    };
    let dy: i64 = if fy >= 32768 {
        ((fy - 32768) as i64) * 2
    } else {
        ((32768 - fy) as i64) * 2
    };
    let v3: i64 = 3 * (dx + dy);
    let vig: i64 = if v3 > 262144 {
        262144
    } else {
        v3
    };
    let grain = pseudo_noise(seed, x, y);
    Color {
        r: grain_mesh_channel(mixed.r, vig, grain),
        g: grain_mesh_channel(mixed.g, vig, grain),
        b: grain_mesh_channel(mixed.b, vig, grain),
        a: 255,
    }
}

// ---------------------------------------------------------------------------
// The stripes template: a diagonal two-color pattern with a row tint and
// per-pixel grain.
// ---------------------------------------------------------------------------

/// One pixel of the stripes background.  The stripe index selects between
/// the two base colors; the row is tinted toward the third color by 0.22
/// (14418 / 65536) of its vertical position; the grain is keyed by the seed
/// multiplied (wrapping) by 13.
#[verifier::opaque]
pub open spec fn spec_stripe_pixel(
    c0: Color,
    c1: Color,
    c2: Color,
    stripe: i32,
    drift: i32,
    h: u32,
    seed2: u64,
    x: u32,
    y: u32,
) -> Color
    recommends
        stripe >= 1,
{
    let fy = spec_fx(y as int, h as int);
    let row_tint = spec_lerp(c2, c0, fy as u32);
    let line = ((x + y + drift) as int / (stripe as int)) % 2;
    let base = if line == 0 {
        c0
    } else {
        c1
    };
    let mixed = spec_lerp(base, row_tint, 14418);
    let grain = spec_noise(seed2, x, y) as int;
    Color {
        r: spec_grain_stripe(mixed.r, grain),
        g: spec_grain_stripe(mixed.g, grain),
        b: spec_grain_stripe(mixed.b, grain),
        a: 255,
    }
}

/// The whole stripes canvas, pixel by pixel.
pub open spec fn spec_stripe_canvas(
    c0: Color,
    c1: Color,
    c2: Color,
    stripe: i32,
    drift: i32,
    w: u32,
    h: u32,
    seed2: u64,
) -> Seq<Color> {
    Seq::new(
        (w as nat) * (h as nat),
        |i: int|
            spec_stripe_pixel(
                c0,
                c1,
                c2,
                stripe,
                drift,
                h,
                seed2,
                (i % (w as int)) as u32,
                (i / (w as int)) as u32,
            ),
    )
}

fn stripe_pixel(
    c0: Color,
    c1: Color,
    c2: Color,
    stripe: i32,
    drift: i32,
    h: u32,
    seed2: u64,
    x: u32,
    y: u32,
) -> (p: Color)
    requires
        x <= MAX_DIM,
        y < h <= MAX_DIM,
        28 <= stripe < 92,
        18 <= drift < 72,
    ensures
        p == spec_stripe_pixel(c0, c1, c2, stripe, drift, h, seed2, x, y),
{
    proof {
        reveal(spec_stripe_pixel);
    }
    let fy = fx_of(y, h);
    let row_tint = lerp_color(c2, c0, fy);
    let sum: i64 = x as i64 + y as i64 + drift as i64;
    let line: i64 = (sum / (stripe as i64)) % 2;
    let base = if line == 0 {
        c0
    } else {
        c1
    };
    let mixed = lerp_color(base, row_tint, 14418);
    let grain = pseudo_noise(seed2, x, y);
    Color {
        r: grain_stripe_channel(mixed.r, grain),
        g: grain_stripe_channel(mixed.g, grain),
        b: grain_stripe_channel(mixed.b, grain),
        a: 255,
    }
}

// ---------------------------------------------------------------------------
// Parsing the palette and rendering.
// ---------------------------------------------------------------------------

/// Every palette entry is a valid hex color string.
pub open spec fn all_colors_ok(cs: Seq<Seq<char>>) -> bool {
    forall|i: int| 0 <= i < cs.len() ==> spec_parse_hex(cs[i]) is Some
}

/// The parsed palette.
pub open spec fn spec_palette(cs: Seq<Seq<char>>) -> Seq<Color> {
    Seq::new(cs.len(), |i: int| spec_parse_hex(cs[i]).unwrap())
}

/// The background bitmap determined by template, palette, seed and size.
/// Rendering is fully deterministic: this function of those four inputs is
/// the entire story, there is no other state.
pub open spec fn spec_background(
    template: BackgroundTemplate,
    cs: Seq<Seq<char>>,
    seed: u64,
    w: u32,
    h: u32,
) -> Seq<Color> {
    let pal = spec_palette(cs);
    match template {
        BackgroundTemplate::Mesh => {
            let p = mesh_picks(seed, pal.len() as usize);
            spec_mesh_canvas(
                pal[p.0 as int],
                pal[p.1 as int],
                pal[p.2 as int],
                pal[p.3 as int],
                w,
                h,
                seed,
            )
        },
        BackgroundTemplate::Stripes => {
            let p = stripe_picks(seed, pal.len() as usize);
            spec_stripe_canvas(
                pal[p.0 as int],
                pal[p.1 as int],
                pal[p.2 as int],
                p.3,
                p.4,
                w,
                h,
                seed.wrapping_mul(13),
            )
        },
    }
}

/// Two renders with identical template, palette, seed and size produce
/// identical bitmaps.
pub proof fn lemma_background_deterministic(
    s1: Seq<Color>,
    s2: Seq<Color>,
    template: BackgroundTemplate,
    cs: Seq<Seq<char>>,
    seed: u64,
    w: u32,
    h: u32,
)
    requires
        s1 == spec_background(template, cs, seed, w, h),
        s2 == spec_background(template, cs, seed, w, h),
    ensures
        s1 == s2,
{
}

/// Fills a fresh canvas with `target`, left to right and top to bottom.
fn render_canvas_mesh(
    c0: Color,
    c1: Color,
    c2: Color,
    c3: Color,
    width: u32,
    height: u32,
    seed: u64,
) -> (c: Canvas)
    requires
        1 <= width <= MAX_DIM,
        1 <= height <= MAX_DIM,
    ensures
        c.wf(),
        c.spec_width() == width,
        c.spec_height() == height,
        c@ == spec_mesh_canvas(c0, c1, c2, c3, width, height, seed),
{
    let ghost target = spec_mesh_canvas(c0, c1, c2, c3, width, height, seed);
    let fill = Color { r: 0, g: 0, b: 0, a: 255 };
    let mut canvas = Canvas::new(width, height, fill);
    let mut y: u32 = 0;
    while y < height
        invariant
            canvas.wf(),
            canvas.spec_width() == width,
            canvas.spec_height() == height,
            1 <= width <= MAX_DIM,
            1 <= height <= MAX_DIM,
            y <= height,
            target == spec_mesh_canvas(c0, c1, c2, c3, width, height, seed),
            canvas@.len() == target.len(),
            forall|i: int|
                0 <= i < target.len() ==> canvas@[i] == (if i < y as int * width as int {
                    target[i]
                } else {
                    fill
                }),
        decreases height - y,
    {
        let mut x: u32 = 0;
        while x < width
            invariant
                canvas.wf(),
                canvas.spec_width() == width,
                canvas.spec_height() == height,
                1 <= width <= MAX_DIM,
                1 <= height <= MAX_DIM,
                y < height,
                x <= width,
                target == spec_mesh_canvas(c0, c1, c2, c3, width, height, seed),
                canvas@.len() == target.len(),
                forall|i: int|
                    0 <= i < target.len() ==> canvas@[i] == (if i < y as int * width as int
                        + x as int {
                        target[i]
                    } else {
                        fill
                    }),
            decreases width - x,
        {
            let p = mesh_pixel(c0, c1, c2, c3, width, height, seed, x, y);
            proof {
                lemma_index_in_bounds(width as int, height as int, x as int, y as int);
                lemma_index_coords(width as int, x as int, y as int);
            }
            canvas.put_pixel(x, y, p);
            x = x + 1;
        }
        y = y + 1;
        assert(y as int * width as int == (y - 1) as int * width as int + width as int)
            by (nonlinear_arith);
    }
    proof {
        assert(height as int * width as int == width as int * height as int) by (nonlinear_arith);
        assert(canvas@ =~= target);
    }
    canvas
}

/// Fills a fresh canvas with the stripes pattern.
fn render_canvas_stripes(
    c0: Color,
    c1: Color,
    c2: Color,
    stripe: i32,
    drift: i32,
    width: u32,
    height: u32,
    seed2: u64,
) -> (c: Canvas)
    requires
        1 <= width <= MAX_DIM,
        1 <= height <= MAX_DIM,
        28 <= stripe < 92,
        18 <= drift < 72,
    ensures
        c.wf(),
        c.spec_width() == width,
        c.spec_height() == height,
        c@ == spec_stripe_canvas(c0, c1, c2, stripe, drift, width, height, seed2),
{
    let ghost target = spec_stripe_canvas(c0, c1, c2, stripe, drift, width, height, seed2);
    let fill = Color { r: 0, g: 0, b: 0, a: 255 };
    let mut canvas = Canvas::new(width, height, fill);
    let mut y: u32 = 0;
    while y < height
        invariant
            canvas.wf(),
            canvas.spec_width() == width,
            canvas.spec_height() == height,
            1 <= width <= MAX_DIM,
            1 <= height <= MAX_DIM,
            28 <= stripe < 92,
            18 <= drift < 72,
            y <= height,
            target == spec_stripe_canvas(c0, c1, c2, stripe, drift, width, height, seed2),
            canvas@.len() == target.len(),
            forall|i: int|
                0 <= i < target.len() ==> canvas@[i] == (if i < y as int * width as int {
                    target[i]
                } else {
                    fill
                }),
        decreases height - y,
    {
        let mut x: u32 = 0;
        while x < width
            invariant
                canvas.wf(),
                canvas.spec_width() == width,
                canvas.spec_height() == height,
                1 <= width <= MAX_DIM,
                1 <= height <= MAX_DIM,
                28 <= stripe < 92,
                18 <= drift < 72,
                y < height,
                x <= width,
                target == spec_stripe_canvas(c0, c1, c2, stripe, drift, width, height, seed2),
                canvas@.len() == target.len(),
                forall|i: int|
                    0 <= i < target.len() ==> canvas@[i] == (if i < y as int * width as int
                        + x as int {
                        target[i]
                    } else {
                        fill
                    }),
            decreases width - x,
        {
            let p = stripe_pixel(c0, c1, c2, stripe, drift, height, seed2, x, y);
            proof {
                lemma_index_in_bounds(width as int, height as int, x as int, y as int);
                lemma_index_coords(width as int, x as int, y as int);
            }
            canvas.put_pixel(x, y, p);
            x = x + 1;
        }
        y = y + 1;
        assert(y as int * width as int == (y - 1) as int * width as int + width as int)
            by (nonlinear_arith);
    }
    proof {
        assert(height as int * width as int == width as int * height as int) by (nonlinear_arith);
        assert(canvas@ =~= target);
    }
    canvas
}

/// Renders the full-canvas background for a scene.  Fails with
/// `InvalidCanvasSize` when a dimension is zero, with `InvalidColorFormat`
/// when a palette entry does not parse, and with `InsufficientPalette` when
/// fewer than two colors are given; otherwise the bitmap is exactly the
/// deterministic function of template, palette, seed and size.
pub fn render_background(cfg: &BackgroundConfig, width: u32, height: u32) -> (r: Result<
    Canvas,
    ForgeError,
>)
    requires
        width <= MAX_DIM,
        height <= MAX_DIM,
    ensures
        match r {
            Ok(c) => {
                &&& width >= 1
                &&& height >= 1
                &&& all_colors_ok(cfg.colors.deep_view())
                &&& cfg.colors@.len() >= 2
                &&& c.wf()
                &&& c.spec_width() == width
                &&& c.spec_height() == height
                &&& c@ == spec_background(cfg.template, cfg.colors.deep_view(), cfg.seed, width, height)
            },
            Err(e) => {
                if width == 0 || height == 0 {
                    e == (ForgeError::InvalidCanvasSize { width, height })
                } else if !all_colors_ok(cfg.colors.deep_view()) {
                    e matches ForgeError::InvalidColorFormat { input } && (exists|i: int|
                        0 <= i < cfg.colors@.len() && spec_parse_hex(cfg.colors.deep_view()[i])
                            is None && input@ == cfg.colors.deep_view()[i])
                } else {
                    cfg.colors@.len() < 2 && e == (ForgeError::InsufficientPalette {
                        count: cfg.colors@.len() as usize,
                    })
                }
            },
        },
{
    if width == 0 || height == 0 {
        return Err(ForgeError::InvalidCanvasSize { width, height });
    }
    let n = cfg.colors.len();
    let mut palette: Vec<Color> = Vec::new();
    let mut i: usize = 0;
    while i < n
        invariant
            1 <= width <= MAX_DIM,
            1 <= height <= MAX_DIM,
            n == cfg.colors@.len(),
            i <= n,
            palette@.len() == i,
            forall|j: int|
                0 <= j < i ==> spec_parse_hex(#[trigger] cfg.colors.deep_view()[j]) is Some
                    && palette@[j] == spec_parse_hex(cfg.colors.deep_view()[j]).unwrap(),
        decreases n - i,
    {
        match parse_hex_rgba(cfg.colors[i].as_str()) {
            Ok(c) => {
                palette.push(c);
            },
            Err(e) => {
                proof {
                    assert(cfg.colors.deep_view()[i as int] == cfg.colors@[i as int]@);
                    assert(spec_parse_hex(cfg.colors.deep_view()[i as int]) is None);
                }
                return Err(e);
            },
        }
        i = i + 1;
    }
    if palette.len() < 2 {
        return Err(ForgeError::InsufficientPalette { count: palette.len() });
    }
    proof {
        assert(cfg.colors.deep_view().len() == cfg.colors@.len());
        assert forall|j: int| 0 <= j < n implies #[trigger] cfg.colors.deep_view()[j]
            == cfg.colors@[j]@ by {}
        assert(spec_palette(cfg.colors.deep_view()) =~= palette@);
    }
    match cfg.template {
        BackgroundTemplate::Mesh => {
            let picks = draw_mesh_picks(cfg.seed, palette.len());
            let c0 = palette[picks.0];
            let c1 = palette[picks.1];
            let c2 = palette[picks.2];
            let c3 = palette[picks.3];
            Ok(render_canvas_mesh(c0, c1, c2, c3, width, height, cfg.seed))
        },
        BackgroundTemplate::Stripes => {
            let picks = draw_stripe_picks(cfg.seed, palette.len());
            let c0 = palette[picks.0];
            let c1 = palette[picks.1];
            let c2 = palette[picks.2];
            Ok(
                render_canvas_stripes(
                    c0,
                    c1,
                    c2,
                    picks.3,
                    picks.4,
                    width,
                    height,
                    cfg.seed.wrapping_mul(13),
                ),
            )
        },
    }
}

} // verus!
