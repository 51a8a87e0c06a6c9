use vstd::prelude::*;
use vstd::arithmetic::div_mod::{lemma_fundamental_div_mod, lemma_fundamental_div_mod_converse, lemma_mod_bound};
use crate::canvas::Canvas;
use crate::color::{Color, spec_to_hex, rgba_to_hex};
use crate::hsl::{
    Hsl, spec_rgb_to_hsl, spec_hsl_to_rgb, spec_shift_hue, spec_adjust_saturation,
    spec_with_lightness, spec_with_saturation, rgb_to_hsl, hsl_to_rgb,
};

verus! {

/// The color-theory rule used to derive a four-color palette from the
/// dominant colors of a bitmap.
#[derive(Clone, Copy, Debug, PartialEq, Eq, Structural)]
pub enum PaletteStrategy {
    /// Darker and lighter variations of the dominant color.
    Monochromatic,
    /// Colors adjacent on the color wheel.
    Analogous,
    /// The opposite side of the color wheel, for contrast.
    Complementary,
    /// Three colors equally spaced on the wheel.
    Triadic,
}

impl Default for PaletteStrategy {
    fn default() -> (r: Self)
        ensures
            r == PaletteStrategy::Monochromatic,
    {
        PaletteStrategy::Monochromatic
    }
}

// ---------------------------------------------------------------------------
// Dominant-color extraction: sampling, histogram, greedy selection.
// ---------------------------------------------------------------------------

/// The histogram bin of a color: each channel quantized to 32 levels.
pub open spec fn spec_bin_index(c: Color) -> int {
    (c.r / 8) * 1024 + (c.g / 8) * 32 + c.b / 8
}

/// The full-range color at the center of a histogram bin, recovered from the
/// bin number.
pub open spec fn spec_bin_color(b: int) -> Color {
    Color {
        r: (b / 1024 * 8 + 4) as u8,
        g: (b % 1024 / 32 * 8 + 4) as u8,
        b: (b % 1024 % 32 * 8 + 4) as u8,
        a: 255,
    }
}

/// The bin center of a color, written directly over its channels.
pub open spec fn spec_bin_center(c: Color) -> Color {
    Color {
        r: (c.r / 8 * 8 + 4) as u8,
        g: (c.g / 8 * 8 + 4) as u8,
        b: (c.b / 8 * 8 + 4) as u8,
        a: 255,
    }
}

/// Recovering a color from its own bin gives its bin center.
proof fn lemma_bin_round_trip(c: Color)
    ensures
        spec_bin_color(spec_bin_index(c)) == spec_bin_center(c),
{
    let b = spec_bin_index(c);
    lemma_fundamental_div_mod_converse(
        b,
        1024,
        c.r as int / 8,
        (c.g as int / 8) * 32 + c.b as int / 8,
    );
    lemma_fundamental_div_mod_converse(
        (c.g as int / 8) * 32 + c.b as int / 8,
        32,
        c.g as int / 8,
        c.b as int / 8,
    );
}

/// The Manhattan distance between two colors over the RGB channels.
pub open spec fn spec_manhattan(a: Color, b: Color) -> int {
    (if a.r >= b.r {
        a.r - b.r
    } else {
        b.r - a.r
    }) + (if a.g >= b.g {
        a.g - b.g
    } else {
        b.g - a.g
    }) + (if a.b >= b.b {
        a.b - b.b
    } else {
        b.b - a.b
    })
}

/// Every pixel of the bitmap equals its first pixel.
pub open spec fn spec_uniform(s: Seq<Color>) -> bool {
    forall|i: int| 0 <= i < s.len() ==> #[trigger] s[i] == s[0]
}

fn manhattan(a: Color, b: Color) -> (r: u32)
    ensures
        r == spec_manhattan(a, b),
{
    let dr: u32 = if a.r >= b.r {
        (a.r - b.r) as u32
    } else {
        (b.r - a.r) as u32
    };
    let dg: u32 = if a.g >= b.g {
        (a.g - b.g) as u32
    } else {
        (b.g - a.g) as u32
    };
    let db: u32 = if a.b >= b.b {
        (a.b - b.b) as u32
    } else {
        (b.b - a.b) as u32
    };
    dr + dg + db
}

fn far_from_all(kept: &Vec<Color>, c: Color) -> (r: bool)
    ensures
        r == (forall|k: int| 0 <= k < kept@.len() ==> spec_manhattan(kept@[k], c) > 60),
{
    let mut k: usize = 0;
    while k < kept.len()
        invariant
            k <= kept@.len(),
            forall|j: int| 0 <= j < k ==> spec_manhattan(kept@[j], c) > 60,
        decreases kept@.len() - k,
    {
        if manhattan(kept[k], c) <= 60 {
            return false;
        }
        k = k + 1;
    }
    true
}

/// The fixed dark color returned when no sample survives.
pub open spec fn spec_fallback_color() -> Color {
    Color { r: 30, g: 30, b: 40, a: 255 }
}

/// A color at the center of a histogram bin: fully opaque, every channel
/// of the form `8k + 4`.
pub open spec fn spec_is_bin_center(c: Color) -> bool {
    c.a == 255 && c.r % 8 == 4 && c.g % 8 == 4 && c.b % 8 == 4
}

/// Bin numbers and bin centers correspond one to one.
proof fn lemma_bin_color_index(b: int)
    requires
        0 <= b < 32768,
    ensures
        spec_bin_index(spec_bin_color(b)) == b,
        spec_is_bin_center(spec_bin_color(b)),
{
    let r8 = b / 1024;
    let rest = b % 1024;
    let g8 = rest / 32;
    let b8 = rest % 32;
    lemma_fundamental_div_mod(b, 1024);
    lemma_fundamental_div_mod(rest, 32);
    assert(0 <= r8 < 32) by (nonlinear_arith)
        requires
            0 <= b < 32768,
            r8 == b / 1024,
    ;
    lemma_mod_bound(b, 1024);
    lemma_mod_bound(rest, 32);
    lemma_fundamental_div_mod_converse(r8 * 8 + 4, 8, r8, 4);
    lemma_fundamental_div_mod_converse(g8 * 8 + 4, 8, g8, 4);
    lemma_fundamental_div_mod_converse(b8 * 8 + 4, 8, b8, 4);
}

/// A bin center is recovered unchanged from its own bin number.
proof fn lemma_bin_center_round_trip(c: Color)
    requires
        spec_is_bin_center(c),
    ensures
        0 <= spec_bin_index(c) < 32768,
        spec_bin_color(spec_bin_index(c)) == c,
{
    lemma_fundamental_div_mod(c.r as int, 8);
    lemma_fundamental_div_mod(c.g as int, 8);
    lemma_fundamental_div_mod(c.b as int, 8);
    let r8 = c.r as int / 8;
    let g8 = c.g as int / 8;
    let b8 = c.b as int / 8;
    assert(0 <= spec_bin_index(c) < 32768) by (nonlinear_arith)
        requires
            0 <= r8 < 32,
            0 <= g8 < 32,
            0 <= b8 < 32,
            spec_bin_index(c) == r8 * 1024 + g8 * 32 + b8,
    ;
    lemma_fundamental_div_mod_converse(spec_bin_index(c), 1024, r8, g8 * 32 + b8);
    lemma_fundamental_div_mod_converse(g8 * 32 + b8, 32, g8, b8);
}

// ---------------------------------------------------------------------------
// Sampling.
// ---------------------------------------------------------------------------

/// The sampling grid is one cell every 8 pixels on each axis.
pub open spec fn spec_grid_w(w: u32) -> int {
    (w + 7) / 8
}

/// See `spec_grid_w`.
pub open spec fn spec_grid_h(h: u32) -> int {
    (h + 7) / 8
}

/// Whether the grid pixel at `(x, y)` is kept as a sample: it lies in the
/// 15% edge margin band or on the sparser 16-pixel interior grid, and its
/// alpha is above 128.
pub open spec fn spec_sampled(s: Seq<Color>, w: u32, h: u32, x: int, y: int) -> bool {
    let emx = w * 15 / 100;
    let emy = h * 15 / 100;
    (x < emx || x > w - emx || y < emy || y > h - emy || (x % 16 == 0 && y % 16 == 0)) && s[y * w
        + x].a > 128
}

/// The samples of the first `n` grid cells, in row-major cell order.
pub open spec fn spec_samples_upto(s: Seq<Color>, w: u32, h: u32, n: int) -> Seq<Color>
    decreases n,
{
    if n <= 0 {
        Seq::<Color>::empty()
    } else {
        let k = n - 1;
        let x = 8 * (k % spec_grid_w(w));
        let y = 8 * (k / spec_grid_w(w));
        spec_samples_upto(s, w, h, n - 1) + (if spec_sampled(s, w, h, x, y) {
            seq![s[y * w + x]]
        } else {
            Seq::<Color>::empty()
        })
    }
}

/// Every sample of the bitmap, in grid order.
pub open spec fn spec_samples(s: Seq<Color>, w: u32, h: u32) -> Seq<Color> {
    spec_samples_upto(s, w, h, spec_grid_w(w) * spec_grid_h(h))
}

/// Samples the bitmap on the 8-pixel grid, keeping the edge margin band
/// (15% of each dimension) plus the sparser interior grid, and dropping
/// pixels whose alpha is 128 or less.  The result is exactly the sample
/// sequence of the bitmap; on a uniform bitmap with visible alpha it is
/// nonempty and all one pixel, and with no visible pixel it is empty.
fn collect_samples(image: &Canvas) -> (samples: Vec<Color>)
    requires
        image.wf(),
    ensures
        samples@ == spec_samples(image@, image.spec_width(), image.spec_height()),
        (image.spec_width() >= 1 && image.spec_height() >= 1 && spec_uniform(image@)
            && image@[0].a > 128) ==> (samples@.len() >= 1 && (forall|k: int|
            0 <= k < samples@.len() ==> samples@[k] == image@[0])),
        (forall|i: int| 0 <= i < image@.len() ==> image@[i].a <= 128) ==> samples@.len() == 0,
{
    let w = image.width();
    let h = image.height();
    let ghost cond = w >= 1 && h >= 1 && spec_uniform(image@) && image@[0].a > 128;
    let ghost dark = forall|i: int| 0 <= i < image@.len() ==> image@[i].a <= 128;
    let gw: u32 = (w + 7) / 8;
    let gh: u32 = (h + 7) / 8;
    let emx: u32 = w * 15 / 100;
    let emy: u32 = h * 15 / 100;
    let mut samples: Vec<Color> = Vec::new();
    let mut ty: u32 = 0;
    while ty < gh
        invariant
            image.wf(),
            w == image.spec_width(),
            h == image.spec_height(),
            gw == spec_grid_w(w),
            gh == spec_grid_h(h),
            emx == w * 15 / 100,
            emy == h * 15 / 100,
            ty <= gh,
            cond == (w >= 1 && h >= 1 && spec_uniform(image@) && image@[0].a > 128),
            dark == (forall|i: int| 0 <= i < image@.len() ==> image@[i].a <= 128),
            samples@ == spec_samples_upto(image@, w, h, ty as int * gw as int),
            cond ==> (forall|k: int| 0 <= k < samples@.len() ==> samples@[k] == image@[0]),
            cond && ty > 0 ==> samples@.len() >= 1,
            dark ==> samples@.len() == 0,
        decreases gh - ty,
    {
        let mut tx: u32 = 0;
        while tx < gw
            invariant
                image.wf(),
                w == image.spec_width(),
                h == image.spec_height(),
                gw == spec_grid_w(w),
                gh == spec_grid_h(h),
                emx == w * 15 / 100,
                emy == h * 15 / 100,
                ty < gh,
                tx <= gw,
                cond == (w >= 1 && h >= 1 && spec_uniform(image@) && image@[0].a > 128),
                dark == (forall|i: int| 0 <= i < image@.len() ==> image@[i].a <= 128),
                samples@ == spec_samples_upto(image@, w, h, ty as int * gw as int + tx as int),
                cond ==> (forall|k: int| 0 <= k < samples@.len() ==> samples@[k] == image@[0]),
                cond && (ty > 0 || tx > 0) ==> samples@.len() >= 1,
                dark ==> samples@.len() == 0,
            decreases gw - tx,
        {
            let x: u32 = 8 * tx;
            let y: u32 = 8 * ty;
            proof {
                assert(8 * ((w + 7) as int / 8) <= w + 7) by (nonlinear_arith)
                    requires
                        w <= 0x8000,
                ;
                assert(8 * ((h + 7) as int / 8) <= h + 7) by (nonlinear_arith)
                    requires
                        h <= 0x8000,
                ;
                assert(x < w && y < h) by (nonlinear_arith)
                    requires
                        x == 8 * tx,
                        y == 8 * ty,
                        tx < gw,
                        ty < gh,
                        8 * (gw as int) <= w + 7,
                        8 * (gh as int) <= h + 7,
                ;
                crate::canvas::lemma_index_in_bounds(w as int, h as int, x as int, y as int);
                let k = ty as int * gw as int + tx as int;
                lemma_fundamental_div_mod_converse(k, gw as int, ty as int, tx as int);
            }
            let is_edge = x < emx || x > w - emx || y < emy || y > h - emy;
            let picked = is_edge || (x % 16 == 0 && y % 16 == 0);
            let p = image.get_pixel(x, y);
            proof {
                assert(p == image@[y as int * w as int + x as int]);
                if cond {
                    assert(p == image@[0]);
                }
                assert((picked && p.a > 128) == spec_sampled(
                    image@,
                    w,
                    h,
                    x as int,
                    y as int,
                ));
            }
            if picked && p.a > 128 {
                samples.push(p);
                proof {
                    assert(samples@ =~= spec_samples_upto(
                        image@,
                        w,
                        h,
                        ty as int * gw as int + tx as int,
                    ) + seq![image@[y as int * w as int + x as int]]);
                }
            } else {
                proof {
                    assert(samples@ =~= spec_samples_upto(
                        image@,
                        w,
                        h,
                        ty as int * gw as int + tx as int,
                    ) + Seq::<Color>::empty());
                }
            }
            tx = tx + 1;
        }
        ty = ty + 1;
        assert(ty as int * gw as int == (ty - 1) as int * gw as int + gw as int)
            by (nonlinear_arith);
    }
    proof {
        assert(gh as int * gw as int == gw as int * gh as int) by (nonlinear_arith);
    }
    samples
}

fn bin_index(c: Color) -> (b: usize)
    ensures
        b == spec_bin_index(c),
        b < 32768,
{
    (c.r as usize / 8) * 1024 + (c.g as usize / 8) * 32 + c.b as usize / 8
}

/// How many of the samples fall in bin `b`.
pub open spec fn spec_count_in_bin(s: Seq<Color>, b: int) -> int
    decreases s.len(),
{
    if s.len() == 0 {
        0
    } else {
        (if spec_bin_index(s[0]) == b {
            1int
        } else {
            0
        }) + spec_count_in_bin(s.drop_first(), b)
    }
}

proof fn lemma_count_in_bin_prefix(s: Seq<Color>, b: int, k: int)
    requires
        0 <= k < s.len(),
    ensures
        spec_count_in_bin(s.take(k + 1), b) == spec_count_in_bin(s.take(k), b) + (
        if spec_bin_index(s[k]) == b {
            1int
        } else {
            0
        }),
    decreases k,
{
    if k == 0 {
        assert(s.take(1).drop_first() =~= s.take(0));
    } else {
        assert(s.take(k + 1).drop_first() =~= s.drop_first().take(k));
        assert(s.take(k).drop_first() =~= s.drop_first().take(k - 1));
        lemma_count_in_bin_prefix(s.drop_first(), b, k - 1);
    }
}

/// Builds the 32-level-per-channel frequency histogram of the samples:
/// every bin holds exactly the number of samples that quantize into it.
fn build_histogram(samples: &Vec<Color>) -> (hist: Vec<u64>)
    ensures
        hist@.len() == 32768,
        forall|b: int| 0 <= b < 32768 ==> hist@[b] == spec_count_in_bin(samples@, b),
        samples@.len() >= 1 ==> (exists|b: int| 0 <= b < 32768 && hist@[b] >= 1),
        (samples@.len() >= 1 && (forall|k: int|
            0 <= k < samples@.len() ==> #[trigger] samples@[k] == samples@[0])) ==> (hist@[spec_bin_index(
            samples@[0],
        )] == samples@.len() && (forall|b: int|
            0 <= b < 32768 && b != spec_bin_index(samples@[0]) ==> hist@[b] == 0)),
{
    let ghost uni = samples@.len() >= 1 && (forall|k: int|
        0 <= k < samples@.len() ==> #[trigger] samples@[k] == samples@[0]);
    let mut hist: Vec<u64> = vec![0u64; 32768];
    assert(forall|b: int| 0 <= b < 32768 ==> hist@[b] == 0);
    proof {
        assert(samples@.take(0).len() == 0);
    }
    let n = samples.len();
    let mut j: usize = 0;
    while j < n
        invariant
            hist@.len() == 32768,
            n == samples@.len(),
            j <= n,
            uni == (samples@.len() >= 1 && (forall|k: int|
                0 <= k < samples@.len() ==> #[trigger] samples@[k] == samples@[0])),
            forall|b: int| 0 <= b < 32768 ==> hist@[b] <= j,
            forall|b: int|
                0 <= b < 32768 ==> hist@[b] == spec_count_in_bin(samples@.take(j as int), b),
            j >= 1 ==> (exists|b: int| 0 <= b < 32768 && hist@[b] >= 1),
            uni ==> hist@[spec_bin_index(samples@[0])] == j && (forall|b: int|
                0 <= b < 32768 && b != spec_bin_index(samples@[0]) ==> hist@[b] == 0),
        decreases n - j,
    {
        let b = bin_index(samples[j]);
        let prev = hist[b];
        hist[b] = prev + 1;
        assert(hist@[b as int] >= 1);
        proof {
            assert forall|bb: int| 0 <= bb < 32768 implies hist@[bb] == spec_count_in_bin(
                samples@.take(j + 1),
                bb,
            ) by {
                lemma_count_in_bin_prefix(samples@, bb, j as int);
            }
        }
        j = j + 1;
    }
    proof {
        assert(samples@.take(n as int) =~= samples@);
    }
    hist
}

/// The first bin holding the maximum of the histogram.
fn max_bin(hist: &Vec<u64>) -> (r: (usize, u64))
    requires
        hist@.len() == 32768,
    ensures
        r.0 < 32768,
        r.1 == hist@[r.0 as int],
        forall|j: int| 0 <= j < 32768 ==> hist@[j] <= r.1,
        forall|j: int| 0 <= j < r.0 ==> hist@[j] < r.1,
{
    let mut best: usize = 0;
    let mut best_val: u64 = hist[0];
    let mut b: usize = 1;
    while b < 32768
        invariant
            hist@.len() == 32768,
            b <= 32768,
            best < b,
            best_val == hist@[best as int],
            forall|j: int| 0 <= j < b ==> hist@[j] <= best_val,
            forall|j: int| 0 <= j < best ==> hist@[j] < best_val,
        decreases 32768 - b,
    {
        if hist[b] > best_val {
            best = b;
            best_val = hist[b];
        }
        b = b + 1;
    }
    (best, best_val)
}

/// Greedily selects dominant colors from the histogram: repeatedly take the
/// most frequent remaining bin and keep its center color if its Manhattan
/// distance to every kept color exceeds 60, until `count` colors are kept.
/// Kept colors are bin centers of nonempty bins in order of non-increasing
/// bin frequency; a histogram with no samples yields the single fallback
/// color.
#[verifier::rlimit(100)]
#[verifier::spinoff_prover]
fn select_dominant(hist: &mut Vec<u64>, count: usize) -> (dominant: Vec<Color>)
    requires
        old(hist)@.len() == 32768,
    ensures
        dominant@.len() >= 1,
        dominant@.len() <= (if count >= 1 {
            count as int
        } else {
            1
        }),
        forall|i: int, j: int|
            0 <= i < j < dominant@.len() ==> spec_manhattan(dominant@[i], dominant@[j]) > 60,
        (forall|b: int| 0 <= b < 32768 ==> old(hist)@[b] == 0) ==> dominant@ == seq![
            spec_fallback_color(),
        ],
        (exists|b: int| 0 <= b < 32768 && old(hist)@[b] >= 1) ==> (forall|i: int|
            0 <= i < dominant@.len() ==> spec_is_bin_center(#[trigger] dominant@[i]) && old(
                hist,
            )@[spec_bin_index(dominant@[i])] >= 1),
        forall|i: int, j: int|
            0 <= i < j < dominant@.len() ==> old(hist)@[spec_bin_index(dominant@[i])] >= old(
                hist,
            )@[spec_bin_index(dominant@[j])],
{
    let mut dominant: Vec<Color> = Vec::new();
    let ghost h0 = old(hist)@;
    let mut rounds: usize = 0;
    while rounds < 32768
        invariant_except_break
            dominant@.len() < (if count >= 1 {
                count as int
            } else {
                1
            }),
        invariant
            hist@.len() == 32768,
            rounds <= 32768,
            h0 == old(hist)@,
            dominant@.len() <= (if count >= 1 {
                count as int
            } else {
                1
            }),
            forall|i: int, j: int|
                0 <= i < j < dominant@.len() ==> spec_manhattan(dominant@[i], dominant@[j]) > 60,
            forall|i: int|
                0 <= i < dominant@.len() ==> spec_is_bin_center(#[trigger] dominant@[i])
                    && h0[spec_bin_index(dominant@[i])] >= 1,
            forall|b: int| 0 <= b < 32768 ==> hist@[b] == h0[b] || hist@[b] == 0,
            forall|i: int, j: int|
                0 <= i < j < dominant@.len() ==> h0[spec_bin_index(dominant@[i])]
                    >= h0[spec_bin_index(dominant@[j])],
            dominant@.len() > 0 ==> (forall|b: int|
                0 <= b < 32768 ==> hist@[b] <= h0[spec_bin_index(
                    dominant@[dominant@.len() - 1],
                )]),
            rounds == 0 ==> dominant@.len() == 0 && hist@ == h0,
            (exists|b: int| 0 <= b < 32768 && h0[b] >= 1) && rounds > 0 ==> dominant@.len() >= 1,
            rounds > 0 && dominant@.len() == 0 ==> (forall|b: int|
                0 <= b < 32768 ==> h0[b] == 0),
            (forall|b: int| 0 <= b < 32768 ==> h0[b] == 0) ==> dominant@.len() == 0,
        ensures
            dominant@.len() <= (if count >= 1 {
                count as int
            } else {
                1
            }),
            forall|i: int, j: int|
                0 <= i < j < dominant@.len() ==> spec_manhattan(dominant@[i], dominant@[j]) > 60,
            forall|i: int|
                0 <= i < dominant@.len() ==> spec_is_bin_center(#[trigger] dominant@[i])
                    && h0[spec_bin_index(dominant@[i])] >= 1,
            forall|i: int, j: int|
                0 <= i < j < dominant@.len() ==> h0[spec_bin_index(dominant@[i])]
                    >= h0[spec_bin_index(dominant@[j])],
            (exists|b: int| 0 <= b < 32768 && h0[b] >= 1) ==> dominant@.len() >= 1,
            (forall|b: int| 0 <= b < 32768 ==> h0[b] == 0) ==> dominant@.len() == 0,
        decreases 32768 - rounds,
    {
        let picked = max_bin(&hist);
        let best: usize = picked.0;
        let best_val: u64 = picked.1;
        if best_val == 0 {
            proof {
                if (exists|b: int| 0 <= b < 32768 && h0[b] >= 1) && rounds == 0 {
                    let bw = choose|b: int| 0 <= b < 32768 && h0[b] >= 1;
                    assert(hist@[bw] >= 1);
                    assert(false);
                }
            }
            break ;
        }
        proof {
            assert(hist@[best as int] == h0[best as int]);
        }
        hist[best] = 0;
        let rr: u8 = ((best / 1024) * 8 + 4) as u8;
        let gg: u8 = ((best % 1024 / 32) * 8 + 4) as u8;
        let bb: u8 = ((best % 1024 % 32) * 8 + 4) as u8;
        let color = Color { r: rr, g: gg, b: bb, a: 255 };
        proof {
            assert(color == spec_bin_color(best as int));
            lemma_bin_color_index(best as int);
        }
        let keep = far_from_all(&dominant, color);
        if keep {
            proof {
                if dominant@.len() > 0 {
                    assert(best_val <= h0[spec_bin_index(dominant@[dominant@.len() - 1])]);
                }
            }
            dominant.push(color);
            proof {
                assert(h0[spec_bin_index(color)] == best_val);
            }
            if dominant.len() >= count {
                rounds = rounds + 1;
                break ;
            }
        }
        rounds = rounds + 1;
    }
    if dominant.len() == 0 {
        dominant.push(fallback_color());
        proof {
            assert(dominant@ =~= seq![spec_fallback_color()]);
        }
    }
    dominant
}

/// The fixed dark fallback color, as a value.
fn fallback_color() -> (c: Color)
    ensures
        c == spec_fallback_color(),
{
    Color { r: 30, g: 30, b: 40, a: 255 }
}

/// Extracts up to `count` dominant colors from a bitmap by sampling it,
/// clustering the samples in a quantized histogram, and greedily keeping
/// frequent bin centers that differ enough from each other.  The returned
/// colors are opaque bin centers in order of non-increasing sample-bin
/// frequency, pairwise more than 60 apart in Manhattan distance — or the
/// single fixed dark fallback when no sample survives the alpha filter; on
/// a uniform bitmap of one visible color, exactly its bin center comes
/// back.
#[verifier::rlimit(100)]
pub fn extract_dominant_colors(image: &Canvas, count: usize) -> (r: Vec<Color>)
    requires
        image.wf(),
    ensures
        r@.len() >= 1,
        r@.len() <= (if count >= 1 {
            count as int
        } else {
            1
        }),
        forall|i: int, j: int|
            0 <= i < j < r@.len() ==> spec_manhattan(r@[i], r@[j]) > 60,
        r@ == seq![spec_fallback_color()] || (forall|i: int|
            0 <= i < r@.len() ==> spec_is_bin_center(#[trigger] r@[i])),
        forall|i: int, j: int|
            0 <= i < j < r@.len() ==> spec_count_in_bin(
                spec_samples(image@, image.spec_width(), image.spec_height()),
                spec_bin_index(r@[i]),
            ) >= spec_count_in_bin(
                spec_samples(image@, image.spec_width(), image.spec_height()),
                spec_bin_index(r@[j]),
            ),
        (forall|i: int| 0 <= i < image@.len() ==> image@[i].a <= 128) ==> r@ == seq![
            spec_fallback_color(),
        ],
        (image.spec_width() >= 1 && image.spec_height() >= 1 && spec_uniform(image@)
            && image@[0].a > 128) ==> r@ == seq![spec_bin_center(image@[0])],
{
    let ghost cond = image.spec_width() >= 1 && image.spec_height() >= 1 && spec_uniform(image@)
        && image@[0].a > 128;
    let samples = collect_samples(image);
    if samples.len() == 0 {
        let mut fallback: Vec<Color> = Vec::new();
        fallback.push(fallback_color());
        proof {
            assert(fallback@ =~= seq![spec_fallback_color()]);
        }
        return fallback;
    }
    let mut hist = build_histogram(&samples);
    proof {
        if cond {
            assert(hist@[spec_bin_index(samples@[0])] == samples@.len());
        }
    }
    let ghost h0 = hist@;
    let dominant = select_dominant(&mut hist, count);
    proof {
        let w = image.spec_width();
        let h = image.spec_height();
        assert forall|i: int, j: int| 0 <= i < j < dominant@.len() implies spec_count_in_bin(
            spec_samples(image@, w, h),
            spec_bin_index(dominant@[i]),
        ) >= spec_count_in_bin(spec_samples(image@, w, h), spec_bin_index(dominant@[j])) by {
            lemma_bin_center_round_trip(dominant@[i]);
            lemma_bin_center_round_trip(dominant@[j]);
            assert(h0[spec_bin_index(dominant@[i])] >= h0[spec_bin_index(dominant@[j])]);
        }
        if cond {
            lemma_bin_round_trip(samples@[0]);
            assert(samples@[0] == image@[0]);
            let b0 = spec_bin_index(samples@[0]);
            assert(h0[b0] == samples@.len());
            assert forall|i: int| 0 <= i < dominant@.len() implies dominant@[i]
                == spec_bin_color(b0) by {
                lemma_bin_center_round_trip(dominant@[i]);
                assert(h0[spec_bin_index(dominant@[i])] >= 1);
                assert(spec_bin_index(dominant@[i]) == b0);
            }
            if dominant@.len() >= 2 {
                assert(spec_manhattan(dominant@[0], dominant@[1]) > 60);
                assert(dominant@[0] == dominant@[1]);
                assert(spec_manhattan(dominant@[0], dominant@[1]) == 0);
                assert(false);
            }
            assert(dominant@ =~= seq![spec_bin_color(b0)]);
            assert(spec_bin_color(b0) == spec_bin_center(image@[0]));
        }
    }
    dominant
}

// ---------------------------------------------------------------------------
// Palette generation from dominant colors.
// ---------------------------------------------------------------------------

/// The four monochromatic colors: rising lightness with varied saturation.
pub open spec fn spec_monochromatic(base: Hsl) -> Seq<Color> {
    seq![
        spec_hsl_to_rgb(spec_with_saturation(spec_with_lightness(base, 80), (base.s * 700 / 1000) as u32)),
        spec_hsl_to_rgb(spec_with_saturation(spec_with_lightness(base, 180), (base.s * 850 / 1000) as u32)),
        spec_hsl_to_rgb(spec_with_saturation(spec_with_lightness(base, 350), (base.s * 1000 / 1000) as u32)),
        spec_hsl_to_rgb(spec_with_saturation(spec_with_lightness(base, 550), (base.s * 600 / 1000) as u32)),
    ]
}

/// The four analogous colors: small hue shifts at rising lightness.
pub open spec fn spec_analogous(base: Hsl) -> Seq<Color> {
    seq![
        spec_hsl_to_rgb(spec_with_lightness(spec_shift_hue(base, -25000), 120)),
        spec_hsl_to_rgb(spec_with_lightness(base, 220)),
        spec_hsl_to_rgb(spec_with_lightness(spec_shift_hue(base, 25000), 380)),
        spec_hsl_to_rgb(spec_with_lightness(spec_shift_hue(base, 15000), 580)),
    ]
}

/// The four complementary colors: the base, its 180-degree complement, an
/// accent (the second dominant color when present, else a 90-degree shift),
/// and the base again, lighter and desaturated.
pub open spec fn spec_complementary(base: Hsl, dominant: Seq<Color>) -> Seq<Color> {
    let complement = spec_shift_hue(base, 180000);
    let accent = if dominant.len() > 1 {
        spec_rgb_to_hsl(dominant[1])
    } else {
        spec_shift_hue(base, 90000)
    };
    seq![
        spec_hsl_to_rgb(spec_with_lightness(base, 100)),
        spec_hsl_to_rgb(spec_adjust_saturation(spec_with_lightness(complement, 250), 700)),
        spec_hsl_to_rgb(spec_with_lightness(accent, 400)),
        spec_hsl_to_rgb(spec_adjust_saturation(spec_with_lightness(base, 600), 500)),
    ]
}

/// The four triadic colors: the base, two 120-degree shifts, and the base
/// again at the highest lightness.
pub open spec fn spec_triadic(base: Hsl) -> Seq<Color> {
    seq![
        spec_hsl_to_rgb(spec_with_lightness(base, 120)),
        spec_hsl_to_rgb(spec_with_lightness(spec_shift_hue(base, 120000), 280)),
        spec_hsl_to_rgb(spec_with_lightness(spec_shift_hue(base, 240000), 420)),
        spec_hsl_to_rgb(spec_with_lightness(base, 550)),
    ]
}

/// The colors the chosen strategy derives from the dominant colors.
pub open spec fn spec_strategy_colors(dominant: Seq<Color>, strategy: PaletteStrategy) -> Seq<
    Color,
> {
    let base = spec_rgb_to_hsl(dominant[0]);
    match strategy {
        PaletteStrategy::Monochromatic => spec_monochromatic(base),
        PaletteStrategy::Analogous => spec_analogous(base),
        PaletteStrategy::Complementary => spec_complementary(base, dominant),
        PaletteStrategy::Triadic => spec_triadic(base),
    }
}

fn generate_monochromatic(base: Hsl) -> (r: Vec<Color>)
    requires
        base.wf(),
    ensures
        r@ == spec_monochromatic(base),
{
    let mut v: Vec<Color> = Vec::new();
    v.push(hsl_to_rgb(base.with_lightness(80).with_saturation(base.s * 700 / 1000)));
    v.push(hsl_to_rgb(base.with_lightness(180).with_saturation(base.s * 850 / 1000)));
    v.push(hsl_to_rgb(base.with_lightness(350).with_saturation(base.s * 1000 / 1000)));
    v.push(hsl_to_rgb(base.with_lightness(550).with_saturation(base.s * 600 / 1000)));
    proof {
        assert(v@ =~= spec_monochromatic(base));
    }
    v
}

fn generate_analogous(base: Hsl) -> (r: Vec<Color>)
    requires
        base.wf(),
    ensures
        r@ == spec_analogous(base),
{
    let mut v: Vec<Color> = Vec::new();
    v.push(hsl_to_rgb(base.shift_hue(-25000).with_lightness(120)));
    v.push(hsl_to_rgb(base.with_lightness(220)));
    v.push(hsl_to_rgb(base.shift_hue(25000).with_lightness(380)));
    v.push(hsl_to_rgb(base.shift_hue(15000).with_lightness(580)));
    proof {
        assert(v@ =~= spec_analogous(base));
    }
    v
}

fn generate_complementary(base: Hsl, dominant: &Vec<Color>) -> (r: Vec<Color>)
    requires
        base.wf(),
    ensures
        r@ == spec_complementary(base, dominant@),
{
    let complement = base.shift_hue(180000);
    let accent = if dominant.len() > 1 {
        rgb_to_hsl(dominant[1])
    } else {
        base.shift_hue(90000)
    };
    let mut v: Vec<Color> = Vec::new();
    v.push(hsl_to_rgb(base.with_lightness(100)));
    v.push(hsl_to_rgb(complement.with_lightness(250).adjust_saturation(700)));
    v.push(hsl_to_rgb(accent.with_lightness(400)));
    v.push(hsl_to_rgb(base.with_lightness(600).adjust_saturation(500)));
    proof {
        assert(v@ =~= spec_complementary(base, dominant@));
    }
    v
}

fn generate_triadic(base: Hsl) -> (r: Vec<Color>)
    requires
        base.wf(),
    ensures
        r@ == spec_triadic(base),
{
    let mut v: Vec<Color> = Vec::new();
    v.push(hsl_to_rgb(base.with_lightness(120)));
    v.push(hsl_to_rgb(base.shift_hue(120000).with_lightness(280)));
    v.push(hsl_to_rgb(base.shift_hue(240000).with_lightness(420)));
    v.push(hsl_to_rgb(base.with_lightness(550)));
    proof {
        assert(v@ =~= spec_triadic(base));
    }
    v
}

/// The hex strings of the generated palette: the strategy colors of the
/// dominant input, or a fixed four-color default when no dominant color is
/// given.
pub open spec fn spec_generate_palette(dominant: Seq<Color>, strategy: PaletteStrategy) -> Seq<
    Seq<char>,
> {
    if dominant.len() == 0 {
        seq!["#0E1228"@, "#1348A5"@, "#2B8CD6"@, "#C2E6FF"@]
    } else {
        Seq::new(4, |i: int| spec_to_hex(spec_strategy_colors(dominant, strategy)[i]))
    }
}

/// Derives a palette of exactly four hex color strings from the dominant
/// colors, using the most dominant color as the base of the chosen strategy.
pub fn generate_palette(dominant: &Vec<Color>, strategy: PaletteStrategy) -> (r: Vec<String>)
    ensures
        r@.len() == 4,
        r.deep_view() == spec_generate_palette(dominant@, strategy),
{
    if dominant.len() == 0 {
        let mut v: Vec<String> = Vec::new();
        v.push("#0E1228".to_owned());
        v.push("#1348A5".to_owned());
        v.push("#2B8CD6".to_owned());
        v.push("#C2E6FF".to_owned());
        proof {
            assert(v.deep_view() =~= spec_generate_palette(dominant@, strategy));
        }
        return v;
    }
    let base = rgb_to_hsl(dominant[0]);
    let colors = match strategy {
        PaletteStrategy::Monochromatic => generate_monochromatic(base),
        PaletteStrategy::Analogous => generate_analogous(base),
        PaletteStrategy::Complementary => generate_complementary(base, dominant),
        PaletteStrategy::Triadic => generate_triadic(base),
    };
    let mut v: Vec<String> = Vec::new();
    v.push(rgba_to_hex(colors[0]));
    v.push(rgba_to_hex(colors[1]));
    v.push(rgba_to_hex(colors[2]));
    v.push(rgba_to_hex(colors[3]));
    proof {
        assert(v.deep_view() =~= spec_generate_palette(dominant@, strategy));
    }
    v
}

} // verus!
