use vstd::prelude::*;
use crate::color::Color;

verus! {

// ---------------------------------------------------------------------------
// HSL color representation.  Hue is kept in millidegrees (0..360000),
// saturation and lightness in permille (0..=1000), so every value and every
// conversion is exact integer arithmetic.
// ---------------------------------------------------------------------------

/// A color as hue, saturation and lightness.  `h` is in millidegrees and
/// stays below 360000; `s` and `l` are in permille and stay at most 1000.
#[derive(Clone, Copy, Debug, PartialEq, Eq, Structural)]
pub struct Hsl {
    /// Hue in millidegrees: 0..360000.
    pub h: u32,
    /// Saturation in permille: 0..=1000.
    pub s: u32,
    /// Lightness in permille: 0..=1000.
    pub l: u32,
}

/// The hue shifted by `degrees` millidegrees, wrapping around the circle.
pub open spec fn spec_shift_hue(c: Hsl, degrees: int) -> Hsl {
    Hsl { h: ((c.h + degrees + 360000) % 360000) as u32, s: c.s, l: c.l }
}

/// The saturation scaled by `factor` permille, clamped to at most 1000.
pub open spec fn spec_adjust_saturation(c: Hsl, factor: u32) -> Hsl {
    let scaled = c.s * factor / 1000;
    Hsl {
        h: c.h,
        s: (if scaled > 1000 {
            1000int
        } else {
            scaled
        }) as u32,
        l: c.l,
    }
}

/// The lightness replaced, clamped to at most 1000 permille.
pub open spec fn spec_with_lightness(c: Hsl, l: u32) -> Hsl {
    Hsl {
        h: c.h,
        s: c.s,
        l: if l > 1000 {
            1000u32
        } else {
            l
        },
    }
}

/// The saturation replaced, clamped to at most 1000 permille.
pub open spec fn spec_with_saturation(c: Hsl, s: u32) -> Hsl {
    Hsl {
        h: c.h,
        s: if s > 1000 {
            1000u32
        } else {
            s
        },
        l: c.l,
    }
}

impl Hsl {
    /// The stored fields are within their ranges.
    pub open spec fn wf(&self) -> bool {
        self.h < 360000 && self.s <= 1000 && self.l <= 1000
    }

    /// The normalizing factory: wraps the hue and clamps saturation and
    /// lightness.
    pub fn new(h: u32, s: u32, l: u32) -> (r: Hsl)
        ensures
            r.h == h % 360000,
            r.s == (if s > 1000 { 1000u32 } else { s }),
            r.l == (if l > 1000 { 1000u32 } else { l }),
            r.wf(),
    {
        Hsl {
            h: h % 360000,
            s: if s > 1000 {
                1000
            } else {
                s
            },
            l: if l > 1000 {
                1000
            } else {
                l
            },
        }
    }

    /// Shifts the hue by `degrees` millidegrees, wrapping around the circle.
    pub fn shift_hue(self, degrees: i32) -> (r: Hsl)
        requires
            self.wf(),
            -360000 <= degrees <= 360000,
        ensures
            r == spec_shift_hue(self, degrees as int),
            r.wf(),
    {
        let v: i64 = self.h as i64 + degrees as i64 + 360000;
        let h = (v % 360000) as u32;
        Hsl { h, s: self.s, l: self.l }
    }

    /// Scales the saturation by `factor` permille, clamped to at most 1000.
    pub fn adjust_saturation(self, factor: u32) -> (r: Hsl)
        requires
            self.wf(),
            factor <= 1000,
        ensures
            r == spec_adjust_saturation(self, factor),
            r.wf(),
    {
        assert(0 <= self.s as int * factor <= 1000000) by (nonlinear_arith)
            requires
                self.s <= 1000,
                factor <= 1000,
        ;
        let scaled: u32 = self.s * factor / 1000;
        Hsl {
            h: self.h,
            s: if scaled > 1000 {
                1000
            } else {
                scaled
            },
            l: self.l,
        }
    }

    /// Sets the lightness, clamped to at most 1000 permille.
    pub fn with_lightness(self, l: u32) -> (r: Hsl)
        requires
            self.wf(),
        ensures
            r == spec_with_lightness(self, l),
            r.wf(),
    {
        Hsl {
            h: self.h,
            s: self.s,
            l: if l > 1000 {
                1000
            } else {
                l
            },
        }
    }

    /// Sets the saturation, clamped to at most 1000 permille.
    pub fn with_saturation(self, s: u32) -> (r: Hsl)
        requires
            self.wf(),
        ensures
            r == spec_with_saturation(self, s),
            r.wf(),
    {
        Hsl {
            h: self.h,
            s: if s > 1000 {
                1000
            } else {
                s
            },
            l: self.l,
        }
    }
}

// ---------------------------------------------------------------------------
// RGB -> HSL, by the standard max/min-channel formulas.
// ---------------------------------------------------------------------------

/// The larger of two channel values.
pub open spec fn spec_max3(a: int, b: int, c: int) -> int {
    let m = if a >= b { a } else { b };
    if m >= c { m } else { c }
}

/// The smaller of two channel values.
pub open spec fn spec_min3(a: int, b: int, c: int) -> int {
    let m = if a <= b { a } else { b };
    if m <= c { m } else { c }
}

/// RGB to HSL by the standard formulas, in exact integer arithmetic over
/// channel sums (so lightness uses the denominator 510 = 2 * 255).  When the
/// channels are all equal the color is achromatic: hue and saturation are 0.
pub open spec fn spec_rgb_to_hsl(c: Color) -> Hsl {
    let mx = spec_max3(c.r as int, c.g as int, c.b as int);
    let mn = spec_min3(c.r as int, c.g as int, c.b as int);
    let l = ((mx + mn) * 1000 + 255) / 510;
    if mx == mn {
        Hsl { h: 0, s: 0, l: l as u32 }
    } else {
        let d = mx - mn;
        let denom = if l > 500 { 510 - mx - mn } else { mx + mn };
        let s = (d * 1000 + denom / 2) / denom;
        let h = if mx == c.r {
            if c.g >= c.b {
                (c.g - c.b) * 60000 / d
            } else {
                360000 - (c.b - c.g) * 60000 / d
            }
        } else if mx == c.g {
            if c.b >= c.r {
                120000 + (c.b - c.r) * 60000 / d
            } else {
                120000 - (c.r - c.b) * 60000 / d
            }
        } else {
            if c.r >= c.g {
                240000 + (c.r - c.g) * 60000 / d
            } else {
                240000 - (c.g - c.r) * 60000 / d
            }
        };
        Hsl { h: (h % 360000) as u32, s: s as u32, l: l as u32 }
    }
}

/// Converts a color to HSL; the alpha channel is ignored.
pub fn rgb_to_hsl(c: Color) -> (r: Hsl)
    ensures
        r == spec_rgb_to_hsl(c),
        r.wf(),
{
    let cr: i64 = c.r as i64;
    let cg: i64 = c.g as i64;
    let cb: i64 = c.b as i64;
    let mut mx: i64 = cr;
    if cg > mx {
        mx = cg;
    }
    if cb > mx {
        mx = cb;
    }
    let mut mn: i64 = cr;
    if cg < mn {
        mn = cg;
    }
    if cb < mn {
        mn = cb;
    }
    let l: i64 = ((mx + mn) * 1000 + 255) / 510;
    if mx == mn {
        return Hsl { h: 0, s: 0, l: l as u32 };
    }
    let d: i64 = mx - mn;
    let denom: i64 = if l > 500 {
        510 - mx - mn
    } else {
        mx + mn
    };
    assert(denom >= 1);
    assert(0 <= ((d as int) * 1000 + (denom as int) / 2) / (denom as int) <= 1000)
        by (nonlinear_arith)
        requires
            1 <= denom as int <= 510,
            1 <= d as int <= denom as int,
    ;
    let s: i64 = (d * 1000 + denom / 2) / denom;
    let h: i64 = if mx == cr {
        if cg >= cb {
            assert(0 <= (cg as int - cb) * 60000 / (d as int) <= 60000) by (nonlinear_arith)
                requires
                    0 <= cg as int - cb <= d,
                    1 <= d as int,
            ;
            (cg - cb) * 60000 / d
        } else {
            assert(0 <= (cb as int - cg) * 60000 / (d as int) <= 60000) by (nonlinear_arith)
                requires
                    0 <= cb as int - cg <= d,
                    1 <= d as int,
            ;
            360000 - (cb - cg) * 60000 / d
        }
    } else if mx == cg {
        if cb >= cr {
            assert(0 <= (cb as int - cr) * 60000 / (d as int) <= 60000) by (nonlinear_arith)
                requires
                    0 <= cb as int - cr <= d,
                    1 <= d as int,
            ;
            120000 + (cb - cr) * 60000 / d
        } else {
            assert(0 <= (cr as int - cb) * 60000 / (d as int) <= 60000) by (nonlinear_arith)
                requires
                    0 <= cr as int - cb <= d,
                    1 <= d as int,
            ;
            120000 - (cr - cb) * 60000 / d
        }
    } else {
        if cr >= cg {
            assert(0 <= (cr as int - cg) * 60000 / (d as int) <= 60000) by (nonlinear_arith)
                requires
                    0 <= cr as int - cg <= d,
                    1 <= d as int,
            ;
            240000 + (cr - cg) * 60000 / d
        } else {
            assert(0 <= (cg as int - cr) * 60000 / (d as int) <= 60000) by (nonlinear_arith)
                requires
                    0 <= cg as int - cr <= d,
                    1 <= d as int,
            ;
            240000 - (cg - cr) * 60000 / d
        }
    };
    Hsl { h: (h % 360000) as u32, s: s as u32, l: l as u32 }
}

// ---------------------------------------------------------------------------
// HSL -> RGB, by the standard piecewise hue-to-channel function.  The
// intermediate values p and q are kept in micro units (over 1,000,000).
// ---------------------------------------------------------------------------

/// One channel of the piecewise hue-to-channel function.  `p` and `q` are in
/// micro units; `hp` is the channel's hue point in millidegrees, already
/// wrapped into the circle.
pub open spec fn spec_hue_channel(p: int, q: int, hp: int) -> int {
    if hp < 60000 {
        p + (q - p) * hp / 60000
    } else if hp < 180000 {
        q
    } else if hp < 240000 {
        p + (q - p) * (240000 - hp) / 60000
    } else {
        p
    }
}

/// A micro-unit channel value rounded to a byte.
pub open spec fn spec_micro_to_byte(v: int) -> u8 {
    ((v * 255 + 500000) / 1000000) as u8
}

/// HSL to RGB by the standard formulas; zero saturation yields a gray
/// computed from lightness alone.  The result is always fully opaque.
pub open spec fn spec_hsl_to_rgb(hsl: Hsl) -> Color {
    if hsl.s == 0 {
        let v = ((hsl.l * 255 + 500) / 1000) as u8;
        Color { r: v, g: v, b: v, a: 255 }
    } else {
        let big_l = hsl.l * 1000;
        let big_s = hsl.s * 1000;
        let q = if hsl.l < 500 {
            big_l * (1000000 + big_s) / 1000000
        } else {
            big_l + big_s - big_l * big_s / 1000000
        };
        let p = 2 * big_l - q;
        let hr = (hsl.h + 120000) % 360000;
        let hg = hsl.h as int;
        let hb = (hsl.h + 240000) % 360000;
        Color {
            r: spec_micro_to_byte(spec_hue_channel(p, q, hr)),
            g: spec_micro_to_byte(spec_hue_channel(p, q, hg)),
            b: spec_micro_to_byte(spec_hue_channel(p, q, hb)),
            a: 255,
        }
    }
}

fn hue_channel(p: i64, q: i64, hp: i64) -> (r: i64)
    requires
        0 <= p <= q <= 1000000,
        0 <= hp < 360000,
    ensures
        r == spec_hue_channel(p as int, q as int, hp as int),
        0 <= r <= 1000000,
{
    if hp < 60000 {
        assert(0 <= (q - p) * hp / 60000 <= q - p) by (nonlinear_arith)
            requires
                0 <= q - p <= 1000000,
                0 <= hp < 60000,
        ;
        p + (q - p) * hp / 60000
    } else if hp < 180000 {
        q
    } else if hp < 240000 {
        assert(0 <= (q - p) * (240000 - hp) / 60000 <= q - p) by (nonlinear_arith)
            requires
                0 <= q - p <= 1000000,
                180000 <= hp < 240000,
        ;
        p + (q - p) * (240000 - hp) / 60000
    } else {
        p
    }
}

fn micro_to_byte(v: i64) -> (r: u8)
    requires
        0 <= v <= 1000000,
    ensures
        r == spec_micro_to_byte(v as int),
{
    ((v * 255 + 500000) / 1000000) as u8
}

/// Converts an HSL value back to an opaque color.
pub fn hsl_to_rgb(hsl: Hsl) -> (c: Color)
    requires
        hsl.wf(),
    ensures
        c == spec_hsl_to_rgb(hsl),
{
    if hsl.s == 0 {
        let v: u32 = (hsl.l * 255 + 500) / 1000;
        let vb = v as u8;
        return Color { r: vb, g: vb, b: vb, a: 255 };
    }
    let big_l: i64 = (hsl.l as i64) * 1000;
    let big_s: i64 = (hsl.s as i64) * 1000;
    let q: i64 = if hsl.l < 500 {
        assert(0 <= big_l * (1000000 + big_s) / 1000000 <= 1000000) by (nonlinear_arith)
            requires
                0 <= big_l < 500000,
                0 <= big_s <= 1000000,
        ;
        big_l * (1000000 + big_s) / 1000000
    } else {
        assert(big_l <= big_l + big_s - big_l * big_s / 1000000 <= 1000000) by (nonlinear_arith)
            requires
                500000 <= big_l <= 1000000,
                0 <= big_s <= 1000000,
        ;
        big_l + big_s - big_l * big_s / 1000000
    };
    let p: i64 = 2 * big_l - q;
    assert(0 <= p <= q) by (nonlinear_arith)
        requires
            0 <= big_l <= 1000000,
            0 <= big_s <= 1000000,
            q == (if big_l < 500000 {
                big_l * (1000000 + big_s) / 1000000
            } else {
                big_l + big_s - big_l * big_s / 1000000
            }),
            q <= 1000000,
            p == 2 * big_l - q,
    ;
    let hr: i64 = ((hsl.h + 120000) % 360000) as i64;
    let hg: i64 = hsl.h as i64;
    let hb: i64 = ((hsl.h + 240000) % 360000) as i64;
    Color {
        r: micro_to_byte(hue_channel(p, q, hr)),
        g: micro_to_byte(hue_channel(p, q, hg)),
        b: micro_to_byte(hue_channel(p, q, hb)),
        a: 255,
    }
}

} // verus!
