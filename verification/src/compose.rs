use vstd::prelude::*;
use crate::canvas::{Canvas, MAX_DIM};
use crate::color::{Color, spec_parse_hex, parse_hex_rgba};
use crate::config::{PhoneConfig, PhoneModel, SceneConfig};
use crate::devices::{
    DynamicIslandSpec, resolve_phone_style, spec_style_corner_radius, spec_style_padding,
    spec_style_frame_color, spec_style_border_width, spec_style_shadow_offset_y,
    spec_style_shadow_alpha, spec_style_island,
};
use crate::errors::ForgeError;
use crate::raster::{
    spec_fill_rounded_rect, spec_fill_circle, spec_draw_frame_tones, spec_blit_rounded,
    spec_apply_overlay, fill_rounded_rect, fill_circle, draw_frame_tones, blit_rounded,
    apply_overlay,
};
use crate::resample::{
    spec_canvas_bytes, spec_colors_of_bytes, spec_cover_width, spec_cover_height, spec_center_crop,
    lanczos_resample, resize_cover, resize_exact,
};

verus! {

/// The frame geometry a scene must respect so that every raster coordinate
/// stays within the supported range.
pub open spec fn spec_phone_geometry_ok(p: PhoneConfig) -> bool {
    &&& p.x <= MAX_DIM
    &&& p.y <= MAX_DIM
    &&& p.width <= MAX_DIM
    &&& p.height <= MAX_DIM
    &&& p.corner_radius <= MAX_DIM
    &&& p.frame_border_width <= MAX_DIM
    &&& -1000000 <= p.shadow_offset_y <= 1000000
    &&& p.screen_padding.top <= MAX_DIM
    &&& p.screen_padding.right <= MAX_DIM
    &&& p.screen_padding.bottom <= MAX_DIM
    &&& p.screen_padding.left <= MAX_DIM
}

/// Tests the geometry bound at run time, for callers outside the library.
pub fn phone_geometry_ok(p: &PhoneConfig) -> (r: bool)
    ensures
        r == spec_phone_geometry_ok(*p),
{
    p.x <= MAX_DIM && p.y <= MAX_DIM && p.width <= MAX_DIM && p.height <= MAX_DIM
        && p.corner_radius <= MAX_DIM && p.frame_border_width <= MAX_DIM && -1000000
        <= p.shadow_offset_y && p.shadow_offset_y <= 1000000 && p.screen_padding.top <= MAX_DIM
        && p.screen_padding.right <= MAX_DIM && p.screen_padding.bottom <= MAX_DIM
        && p.screen_padding.left <= MAX_DIM
}

/// `a - b`, floored at zero.
pub open spec fn spec_sat_sub(a: int, b: int) -> int {
    if a >= b {
        a - b
    } else {
        0
    }
}

/// The overlay inset adjustments per model: overlay frame assets for the
/// Max models have a slightly different cutout geometry, so the top and
/// side insets shrink by these asset-calibration constants.
pub open spec fn spec_overlay_inset_adjust(model: Option<PhoneModel>) -> (int, int) {
    match model {
        Some(PhoneModel::Iphone16ProMax) => (12int, 6int),
        Some(PhoneModel::Iphone17ProMax) => (10int, 5int),
        _ => (0int, 0int),
    }
}

/// The screenshot corner-radius ratio (permille of the frame width) that
/// matches each model's overlay asset cutout.
pub open spec fn spec_overlay_radius_permille(model: Option<PhoneModel>) -> int {
    match model {
        Some(PhoneModel::Iphone16Pro) => 160int,
        Some(PhoneModel::Iphone17Pro) => 145int,
        Some(PhoneModel::Iphone16ProMax) => 160int,
        Some(PhoneModel::Iphone17ProMax) => 155int,
        _ => 145int,
    }
}

/// The screen sub-rectangle of the frame: the frame rectangle shrunk by the
/// resolved insets plus the border width on each side (with the overlay
/// asset adjustments where an overlay is used), as `(x, y, w, h)`.
pub open spec fn spec_screen_rect(phone: PhoneConfig, has_overlay: bool) -> (int, int, int, int) {
    let padding = spec_style_padding(phone);
    let border = spec_style_border_width(phone);
    let adjust = if has_overlay {
        spec_overlay_inset_adjust(phone.model)
    } else {
        (0int, 0int)
    };
    let inset_left = spec_sat_sub(padding.left + border, adjust.1);
    let inset_right = spec_sat_sub(padding.right + border, adjust.1);
    let inset_top = spec_sat_sub(padding.top + border, adjust.0);
    let inset_bottom = padding.bottom + border;
    let screen_w = spec_sat_sub(phone.width as int, inset_left + inset_right);
    let screen_h = spec_sat_sub(phone.height as int, inset_top + inset_bottom);
    (phone.x + inset_left, phone.y + inset_top, screen_w, screen_h)
}

/// The corner radius used to mask the screenshot: derived from the frame
/// radius minus the border when the frame is drawn programmatically, or
/// from the model's asset-specific ratio of the frame width when an overlay
/// asset is used.
pub open spec fn spec_screenshot_radius(phone: PhoneConfig, has_overlay: bool) -> int {
    if has_overlay {
        (phone.width * spec_overlay_radius_permille(phone.model) + 500) / 1000
    } else {
        spec_sat_sub(
            spec_style_corner_radius(phone) as int,
            spec_style_border_width(phone) + 2,
        )
    }
}

/// The canvas after the programmatic frame: drop shadow, frame body and the
/// two glossy tone bands.
pub open spec fn spec_frame_layers(bg: Seq<Color>, cw: u32, phone: PhoneConfig) -> Seq<Color> {
    let radius = spec_style_corner_radius(phone);
    let frame = spec_parse_hex(spec_style_frame_color(phone)).unwrap();
    let shadow_y = phone.y + spec_style_shadow_offset_y(phone);
    let shadow = Color { r: 0, g: 0, b: 0, a: spec_style_shadow_alpha(phone) };
    let s1 = spec_fill_rounded_rect(
        bg,
        cw,
        phone.x as int,
        shadow_y,
        phone.width,
        phone.height,
        radius,
        shadow,
    );
    let s2 = spec_fill_rounded_rect(
        s1,
        cw,
        phone.x as int,
        phone.y as int,
        phone.width,
        phone.height,
        radius,
        frame,
    );
    spec_draw_frame_tones(s2, cw, phone.x as int, phone.y as int, phone.width, phone.height, radius)
}

/// The pill width of the decorative cutout: the ratio of the screen width,
/// at least 48 and at most four less than the screen width.
pub open spec fn spec_island_w(screen_w: u32, isl: DynamicIslandSpec) -> int {
    let v0 = (screen_w * isl.width_ratio + 500) / 1000;
    let v1 = if v0 >= 48 {
        v0
    } else {
        48int
    };
    if v1 <= spec_sat_sub(screen_w as int, 4) {
        v1
    } else {
        spec_sat_sub(screen_w as int, 4)
    }
}

/// The pill height of the decorative cutout: the ratio of the screen
/// height, at least 18 and at most two less than the screen height.
pub open spec fn spec_island_h(screen_h: u32, isl: DynamicIslandSpec) -> int {
    let v0 = (screen_h * isl.height_ratio + 500) / 1000;
    let v1 = if v0 >= 18 {
        v0
    } else {
        18int
    };
    if v1 <= spec_sat_sub(screen_h as int, 2) {
        v1
    } else {
        spec_sat_sub(screen_h as int, 2)
    }
}

/// The pill's left edge: centered horizontally in the screen rectangle.
pub open spec fn spec_island_x(screen_x: int, screen_w: u32, isl: DynamicIslandSpec) -> int {
    screen_x + spec_sat_sub(screen_w as int, spec_island_w(screen_w, isl)) / 2
}

/// The pill's top edge: the vertical-offset ratio of the screen height.
pub open spec fn spec_island_y(screen_y: int, screen_h: u32, isl: DynamicIslandSpec) -> int {
    screen_y + (screen_h * isl.y_offset_ratio + 500) / 1000
}

/// The lens diameter: the ratio of the pill height, at least 4 and at most
/// four less than the pill height.
pub open spec fn spec_lens_size(ih: int, isl: DynamicIslandSpec) -> int {
    let v0 = (ih * isl.lens_size_ratio + 500) / 1000;
    let v1 = if v0 >= 4 {
        v0
    } else {
        4int
    };
    if v1 <= spec_sat_sub(ih, 4) {
        v1
    } else {
        spec_sat_sub(ih, 4)
    }
}

/// The canvas after the decorative cutout: a black pill, an inner pill, and
/// two lens circles, positioned by the model's cutout ratios within the
/// screen rectangle.
pub open spec fn spec_island_layers(
    s: Seq<Color>,
    cw: u32,
    screen_x: int,
    screen_y: int,
    screen_w: u32,
    screen_h: u32,
    isl: DynamicIslandSpec,
) -> Seq<Color> {
    let iw = spec_island_w(screen_w, isl);
    let ih = spec_island_h(screen_h, isl);
    let ix = spec_island_x(screen_x, screen_w, isl);
    let iy = spec_island_y(screen_y, screen_h, isl);
    let s1 = spec_fill_rounded_rect(
        s,
        cw,
        ix,
        iy,
        iw as u32,
        ih as u32,
        (ih / 2) as u32,
        Color { r: 0, g: 0, b: 0, a: 255 },
    );
    let s2 = spec_fill_rounded_rect(
        s1,
        cw,
        ix + 1,
        iy + 1,
        spec_sat_sub(iw, 2) as u32,
        spec_sat_sub(ih, 2) as u32,
        (ih / 2) as u32,
        Color { r: 8, g: 8, b: 9, a: 255 },
    );
    let ls = spec_lens_size(ih, isl);
    let lx = ix + iw - ls - ih / 3;
    let ly = iy + spec_sat_sub(ih, ls) / 2;
    let lr = ls / 2;
    let s3 = spec_fill_circle(
        s2,
        cw,
        lx + lr,
        ly + lr,
        lr as i32,
        Color { r: 20, g: 32, b: 45, a: 210 },
    );
    let lr3 = if lr / 3 >= 1 {
        lr / 3
    } else {
        1int
    };
    spec_fill_circle(
        s3,
        cw,
        lx + lr / 2,
        ly + lr / 2,
        lr3 as i32,
        Color { r: 90, g: 136, b: 180, a: 120 },
    )
}

/// The cover-fitted screenshot, as a function of its pixels and the screen
/// rectangle.
pub open spec fn spec_fitted_screenshot(shot: Seq<Color>, sw: u32, sh: u32, tw: u32, th: u32) -> Seq<
    Color,
> {
    spec_center_crop(
        spec_colors_of_bytes(
            lanczos_resample(
                spec_canvas_bytes(shot),
                sw,
                sh,
                spec_cover_width(sw, sh, tw, th) as u32,
                spec_cover_height(sw, sh, tw, th) as u32,
            ),
        ),
        spec_cover_width(sw, sh, tw, th),
        spec_cover_height(sw, sh, tw, th),
        tw as int,
        th as int,
    )
}

/// The final composed canvas: background (with any text already drawn),
/// programmatic frame layers when no overlay asset is used, the cover-fitted
/// screenshot blended through its rounded mask, and then either the overlay
/// asset (resampled to the frame rectangle, transparent pixels skipped) or
/// the decorative cutout of the resolved style.
pub open spec fn spec_compose_scene(
    bg: Seq<Color>,
    cw: u32,
    shot: Seq<Color>,
    sw: u32,
    sh: u32,
    phone: PhoneConfig,
    overlay: Option<(Seq<Color>, u32, u32)>,
) -> Seq<Color> {
    let has_overlay = overlay is Some;
    let rect = spec_screen_rect(phone, has_overlay);
    let base = if has_overlay {
        bg
    } else {
        spec_frame_layers(bg, cw, phone)
    };
    let fitted = spec_fitted_screenshot(shot, sw, sh, rect.2 as u32, rect.3 as u32);
    let s4 = spec_blit_rounded(
        base,
        cw,
        fitted,
        rect.2 as u32,
        rect.3 as u32,
        rect.0,
        rect.1,
        spec_screenshot_radius(phone, has_overlay) as u32,
    );
    match overlay {
        Some((ov, ow, oh)) => {
            let ov_fit = spec_colors_of_bytes(
                lanczos_resample(spec_canvas_bytes(ov), ow, oh, phone.width, phone.height),
            );
            spec_apply_overlay(
                s4,
                cw,
                ov_fit,
                phone.width,
                phone.height,
                phone.x as int,
                phone.y as int,
            )
        },
        None => {
            match spec_style_island(phone) {
                Some(isl) => spec_island_layers(
                    s4,
                    cw,
                    rect.0,
                    rect.1,
                    rect.2 as u32,
                    rect.3 as u32,
                    isl,
                ),
                None => s4,
            }
        },
    }
}

/// Draws the decorative camera cutout: a rounded pill with an inner pill
/// and a two-circle lens, positioned by the style's ratios.
#[verifier::rlimit(100)]
fn draw_dynamic_island(
    canvas: &mut Canvas,
    screen_x: i32,
    screen_y: i32,
    screen_w: u32,
    screen_h: u32,
    isl: DynamicIslandSpec,
)
    requires
        old(canvas).wf(),
        -0x0040_0000 <= screen_x <= 0x0040_0000,
        -0x0040_0000 <= screen_y <= 0x0040_0000,
        screen_w <= MAX_DIM,
        screen_h <= MAX_DIM,
        isl.width_ratio <= 1000,
        isl.height_ratio <= 1000,
        isl.y_offset_ratio <= 1000,
        isl.lens_size_ratio <= 1000,
    ensures
        final(canvas).wf(),
        final(canvas).spec_width() == old(canvas).spec_width(),
        final(canvas).spec_height() == old(canvas).spec_height(),
        final(canvas)@ == spec_island_layers(
            old(canvas)@,
            old(canvas).spec_width(),
            screen_x as int,
            screen_y as int,
            screen_w,
            screen_h,
            isl,
        ),
{
    assert((screen_w as int) * (isl.width_ratio as int) <= 0x2000000 && (screen_h as int) * (
    isl.height_ratio as int) <= 0x2000000 && (screen_h as int) * (isl.y_offset_ratio as int)
        <= 0x2000000) by (nonlinear_arith)
        requires
            screen_w <= 0x8000,
            screen_h <= 0x8000,
            isl.width_ratio <= 1000,
            isl.height_ratio <= 1000,
            isl.y_offset_ratio <= 1000,
    ;
    let iw0: u32 = ((screen_w as u64 * isl.width_ratio as u64 + 500) / 1000) as u32;
    let iw1: u32 = if iw0 >= 48 {
        iw0
    } else {
        48
    };
    let cap_w: u32 = if screen_w >= 4 {
        screen_w - 4
    } else {
        0
    };
    let iw: u32 = if iw1 <= cap_w {
        iw1
    } else {
        cap_w
    };
    assert(iw as int == spec_island_w(screen_w, isl));
    let ih0: u32 = ((screen_h as u64 * isl.height_ratio as u64 + 500) / 1000) as u32;
    let ih1: u32 = if ih0 >= 18 {
        ih0
    } else {
        18
    };
    let cap_h: u32 = if screen_h >= 2 {
        screen_h - 2
    } else {
        0
    };
    let ih: u32 = if ih1 <= cap_h {
        ih1
    } else {
        cap_h
    };
    assert(ih as int == spec_island_h(screen_h, isl));
    let gap: u32 = if screen_w >= iw {
        screen_w - iw
    } else {
        0
    };
    let ix: i32 = screen_x + (gap / 2) as i32;
    assert(ix as int == spec_island_x(screen_x as int, screen_w, isl));
    let off: u32 = ((screen_h as u64 * isl.y_offset_ratio as u64 + 500) / 1000) as u32;
    let iy: i32 = screen_y + off as i32;
    assert(iy as int == spec_island_y(screen_y as int, screen_h, isl));
    let ghost s0 = canvas@;
    let ghost cw = canvas.spec_width();
    fill_rounded_rect(canvas, ix, iy, iw, ih, ih / 2, Color { r: 0, g: 0, b: 0, a: 255 });
    let iw2: u32 = if iw >= 2 {
        iw - 2
    } else {
        0
    };
    let ih2: u32 = if ih >= 2 {
        ih - 2
    } else {
        0
    };
    fill_rounded_rect(canvas, ix + 1, iy + 1, iw2, ih2, ih / 2, Color { r: 8, g: 8, b: 9, a: 255 });
    assert((ih as int) * (isl.lens_size_ratio as int) <= 0x2000000) by (nonlinear_arith)
        requires
            ih <= 0x8000,
            isl.lens_size_ratio <= 1000,
    ;
    let ls0: u32 = ((ih as u64 * isl.lens_size_ratio as u64 + 500) / 1000) as u32;
    let ls1: u32 = if ls0 >= 4 {
        ls0
    } else {
        4
    };
    let cap_l: u32 = if ih >= 4 {
        ih - 4
    } else {
        0
    };
    let ls: u32 = if ls1 <= cap_l {
        ls1
    } else {
        cap_l
    };
    assert(ls as int == spec_lens_size(ih as int, isl));
    let lx: i32 = ix + iw as i32 - ls as i32 - (ih / 3) as i32;
    let lgap: u32 = if ih >= ls {
        ih - ls
    } else {
        0
    };
    let ly: i32 = iy + (lgap / 2) as i32;
    let lr: i32 = (ls / 2) as i32;
    fill_circle(canvas, lx + lr, ly + lr, lr, Color { r: 20, g: 32, b: 45, a: 210 });
    let lr3: i32 = if lr / 3 >= 1 {
        lr / 3
    } else {
        1
    };
    fill_circle(canvas, lx + lr / 2, ly + lr / 2, lr3, Color { r: 90, g: 136, b: 180, a: 120 });
    proof {
        assert(canvas@ == spec_island_layers(
            s0,
            cw,
            screen_x as int,
            screen_y as int,
            screen_w,
            screen_h,
            isl,
        ));
    }
}

/// Composes one scene onto its background: the background must already
/// carry any text block; the screenshot is cover-fitted into the screen
/// rectangle; the frame is drawn programmatically unless a decoded overlay
/// asset is supplied, which is then composited over the frame rectangle
/// instead of the decorative cutout.  Fails with `InvalidCanvasSize` when
/// the frame rectangle has a zero side, with `InvalidColorFormat` when the
/// resolved frame color does not parse (only reached without an overlay),
/// and with `NoScreenSpace` when the insets consume the whole rectangle.
pub fn compose_scene(
    screenshot: &Canvas,
    scene: &SceneConfig,
    background: Canvas,
    overlay: Option<&Canvas>,
) -> (r: Result<Canvas, ForgeError>)
    requires
        screenshot.wf(),
        screenshot.spec_width() >= 1,
        screenshot.spec_height() >= 1,
        background.wf(),
        spec_phone_geometry_ok(scene.phone),
        overlay matches Some(o) ==> o.wf() && o.spec_width() >= 1 && o.spec_height() >= 1,
    ensures
        ({
            let phone = scene.phone;
            let has_overlay = overlay is Some;
            let rect = spec_screen_rect(phone, has_overlay);
            match r {
                Ok(c) => {
                    &&& phone.width >= 1
                    &&& phone.height >= 1
                    &&& (!has_overlay ==> spec_parse_hex(spec_style_frame_color(phone)) is Some)
                    &&& rect.2 >= 1
                    &&& rect.3 >= 1
                    &&& c.wf()
                    &&& c.spec_width() == background.spec_width()
                    &&& c.spec_height() == background.spec_height()
                    &&& c@ == spec_compose_scene(
                        background@,
                        background.spec_width(),
                        screenshot@,
                        screenshot.spec_width(),
                        screenshot.spec_height(),
                        phone,
                        match overlay {
                            Some(o) => Some((o@, o.spec_width(), o.spec_height())),
                            None => None,
                        },
                    )
                },
                Err(e) => {
                    if phone.width == 0 || phone.height == 0 {
                        e == (ForgeError::InvalidCanvasSize {
                            width: phone.width,
                            height: phone.height,
                        })
                    } else if !has_overlay && spec_parse_hex(spec_style_frame_color(phone))
                        is None {
                        e matches ForgeError::InvalidColorFormat { input } && input@
                            == spec_style_frame_color(phone)
                    } else {
                        (rect.2 == 0 || rect.3 == 0) && e == (ForgeError::NoScreenSpace {
                            width: rect.2 as u32,
                            height: rect.3 as u32,
                        })
                    }
                },
            }
        }),
{
    let phone = &scene.phone;
    if phone.width == 0 || phone.height == 0 {
        return Err(ForgeError::InvalidCanvasSize { width: phone.width, height: phone.height });
    }
    let style = resolve_phone_style(phone);
    let mut canvas = background;
    let has_overlay = overlay.is_some();

    if !has_overlay {
        let frame_color = match parse_hex_rgba(style.frame_color.as_str()) {
            Ok(c) => c,
            Err(e) => {
                return Err(e);
            },
        };
        let shadow_y: i32 = phone.y as i32 + style.shadow_offset_y;
        fill_rounded_rect(
            &mut canvas,
            phone.x as i32,
            shadow_y,
            phone.width,
            phone.height,
            style.corner_radius,
            Color { r: 0, g: 0, b: 0, a: style.shadow_alpha },
        );
        fill_rounded_rect(
            &mut canvas,
            phone.x as i32,
            phone.y as i32,
            phone.width,
            phone.height,
            style.corner_radius,
            frame_color,
        );
        draw_frame_tones(
            &mut canvas,
            phone.x as i32,
            phone.y as i32,
            phone.width,
            phone.height,
            style.corner_radius,
        );
    }
    let adjust_top: u32;
    let adjust_side: u32;
    if has_overlay {
        match phone.model {
            Some(PhoneModel::Iphone16ProMax) => {
                adjust_top = 12;
                adjust_side = 6;
            },
            Some(PhoneModel::Iphone17ProMax) => {
                adjust_top = 10;
                adjust_side = 5;
            },
            _ => {
                adjust_top = 0;
                adjust_side = 0;
            },
        }
    } else {
        adjust_top = 0;
        adjust_side = 0;
    }
    let pad_left: u32 = style.screen_padding.left + style.frame_border_width;
    let pad_right: u32 = style.screen_padding.right + style.frame_border_width;
    let pad_top: u32 = style.screen_padding.top + style.frame_border_width;
    let inset_left: u32 = if pad_left >= adjust_side {
        pad_left - adjust_side
    } else {
        0
    };
    let inset_right: u32 = if pad_right >= adjust_side {
        pad_right - adjust_side
    } else {
        0
    };
    let inset_top: u32 = if pad_top >= adjust_top {
        pad_top - adjust_top
    } else {
        0
    };
    let inset_bottom: u32 = style.screen_padding.bottom + style.frame_border_width;
    let screen_w: u32 = if phone.width >= inset_left + inset_right {
        phone.width - (inset_left + inset_right)
    } else {
        0
    };
    let screen_h: u32 = if phone.height >= inset_top + inset_bottom {
        phone.height - (inset_top + inset_bottom)
    } else {
        0
    };
    if screen_w == 0 || screen_h == 0 {
        return Err(ForgeError::NoScreenSpace { width: screen_w, height: screen_h });
    }
    let screen_x: u32 = phone.x + inset_left;
    let screen_y: u32 = phone.y + inset_top;

    let screenshot_radius: u32 = if has_overlay {
        let pm: u64 = match phone.model {
            Some(PhoneModel::Iphone16Pro) => 160,
            Some(PhoneModel::Iphone17Pro) => 145,
            Some(PhoneModel::Iphone16ProMax) => 160,
            Some(PhoneModel::Iphone17ProMax) => 155,
            None => 145,
        };
        ((phone.width as u64 * pm + 500) / 1000) as u32
    } else {
        let b2: u32 = style.frame_border_width + 2;
        if style.corner_radius >= b2 {
            style.corner_radius - b2
        } else {
            0
        }
    };

    let fitted = resize_cover(screenshot, screen_w, screen_h);
    blit_rounded(&mut canvas, &fitted, screen_x as i32, screen_y as i32, screenshot_radius);

    match overlay {
        Some(ov) => {
            let ov_fit = resize_exact(ov, phone.width, phone.height);
            apply_overlay(&mut canvas, &ov_fit, phone.x as i32, phone.y as i32);
        },
        None => {
            match style.island {
                Some(isl) => {
                    proof {
                        if phone.model is Some {
                            let m = phone.model.unwrap();
                            assert(isl == crate::devices::spec_device_island(m));
                        }
                    }
                    draw_dynamic_island(
                        &mut canvas,
                        screen_x as i32,
                        screen_y as i32,
                        screen_w,
                        screen_h,
                        isl,
                    );
                },
                None => {},
            }
        },
    }
    Ok(canvas)
}

} // verus!
