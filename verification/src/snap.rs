use vstd::prelude::*;
use crate::canvas::MAX_DIM;
use crate::config::{BackgroundTemplate, CopyConfig, FontWeight, PhoneModel, TextPosition};
use crate::simulator::{Simulator, clone_simulator};

verus! {

/// The settings of one capture-and-frame run.
#[derive(Clone, Debug)]
pub struct SnapConfig {
    /// Output canvas size.
    pub width: u32,
    pub height: u32,
    /// Explicit frame placement; every `None` is computed from the canvas.
    pub phone_x: Option<u32>,
    pub phone_y: Option<u32>,
    pub phone_width: Option<u32>,
    pub phone_height: Option<u32>,
    /// Background settings.
    pub background_template: BackgroundTemplate,
    pub background_seed: u64,
    pub background_colors: Vec<String>,
    /// Optional text.
    pub headline: Option<String>,
    pub subheadline: Option<String>,
    /// Settle time before capture, in milliseconds.
    pub settle_ms: u64,
    /// Optional overlay asset path.
    pub overlay: Option<String>,
}

impl Default for SnapConfig {
    /// The stock configuration: a 1290 × 2796 canvas, the mesh template with
    /// seed 42 and a four-color blue palette, no text, half a second of
    /// settle time and no overlay.
    fn default() -> (r: Self)
        ensures
            r.width == 1290,
            r.height == 2796,
            r.phone_x is None,
            r.phone_y is None,
            r.phone_width is None,
            r.phone_height is None,
            r.background_template == BackgroundTemplate::Mesh,
            r.background_seed == 42,
            r.background_colors@.len() == 4,
            r.background_colors@[0]@ == "#0B1022"@,
            r.background_colors@[1]@ == "#16479A"@,
            r.background_colors@[2]@ == "#2B8CD6"@,
            r.background_colors@[3]@ == "#A9E7FF"@,
            r.headline is None,
            r.subheadline is None,
            r.settle_ms == 500,
            r.overlay is None,
    {
        let mut colors: Vec<String> = Vec::new();
        colors.push("#0B1022".to_owned());
        colors.push("#16479A".to_owned());
        colors.push("#2B8CD6".to_owned());
        colors.push("#A9E7FF".to_owned());
        SnapConfig {
            width: 1290,
            height: 2796,
            phone_x: None,
            phone_y: None,
            phone_width: None,
            phone_height: None,
            background_template: BackgroundTemplate::Mesh,
            background_seed: 42,
            background_colors: colors,
            headline: None,
            subheadline: None,
            settle_ms: 500,
            overlay: None,
        }
    }
}

/// The outcome of one capture-and-frame run.
#[derive(Clone, Debug)]
pub struct SnapResult {
    pub success: bool,
    pub simulator_name: String,
    pub simulator_udid: String,
    pub device_model: Option<String>,
    pub output_path: String,
    pub raw_path: Option<String>,
    pub dimensions: Dimensions,
}

/// An output size.
#[derive(Clone, Copy, Debug, PartialEq, Eq, Structural)]
pub struct Dimensions {
    pub width: u32,
    pub height: u32,
}

/// One booted device, for listings.
#[derive(Clone, Debug)]
pub struct SimulatorInfo {
    pub name: String,
    pub udid: String,
    pub device_type: String,
    pub phone_model: Option<String>,
    pub runtime: String,
}

/// The display name of a phone model.
pub open spec fn spec_model_name(m: PhoneModel) -> Seq<char> {
    match m {
        PhoneModel::Iphone16Pro => "Iphone16Pro"@,
        PhoneModel::Iphone16ProMax => "Iphone16ProMax"@,
        PhoneModel::Iphone17Pro => "Iphone17Pro"@,
        PhoneModel::Iphone17ProMax => "Iphone17ProMax"@,
    }
}

/// The display name of a phone model.
pub fn model_name(m: PhoneModel) -> (r: &'static str)
    ensures
        r@ == spec_model_name(m),
{
    match m {
        PhoneModel::Iphone16Pro => "Iphone16Pro",
        PhoneModel::Iphone16ProMax => "Iphone16ProMax",
        PhoneModel::Iphone17Pro => "Iphone17Pro",
        PhoneModel::Iphone17ProMax => "Iphone17ProMax",
    }
}

/// The listing entry of one simulator.
pub open spec fn spec_info_of(s: Simulator, info: SimulatorInfo) -> bool {
    &&& info.name@ == s.name@
    &&& info.udid@ == s.udid@
    &&& info.device_type@ == s.device_type@
    &&& info.runtime@ == s.runtime@
    &&& (match s.phone_model {
        Some(m) => info.phone_model matches Some(n) && n@ == spec_model_name(m),
        None => info.phone_model is None,
    })
}

/// Turns the booted simulators into listing entries, in order.
pub fn list_booted(booted: &Vec<Simulator>) -> (r: Vec<SimulatorInfo>)
    ensures
        r@.len() == booted@.len(),
        forall|i: int| 0 <= i < r@.len() ==> spec_info_of(booted@[i], #[trigger] r@[i]),
{
    let mut out: Vec<SimulatorInfo> = Vec::new();
    let mut i: usize = 0;
    while i < booted.len()
        invariant
            i <= booted@.len(),
            out@.len() == i,
            forall|j: int| 0 <= j < i ==> spec_info_of(booted@[j], #[trigger] out@[j]),
        decreases booted@.len() - i,
    {
        let s = clone_simulator(&booted[i]);
        let model = match s.phone_model {
            Some(m) => Some(model_name(m).to_owned()),
            None => None,
        };
        out.push(
            SimulatorInfo {
                name: s.name,
                udid: s.udid,
                device_type: s.device_type,
                phone_model: model,
                runtime: s.runtime,
            },
        );
        i = i + 1;
    }
    out
}

// ---------------------------------------------------------------------------
// Frame placement for a quick capture.
// ---------------------------------------------------------------------------

/// The computed frame placement, as `(width, height, x, y)`: explicit values
/// win; otherwise the frame fills 73% of the canvas width at the capture's
/// aspect ratio, centered horizontally, and sits below a 15% text band when
/// a headline is configured, else slightly below the vertical center.
pub open spec fn spec_phone_layout(
    cfg_w: u32,
    cfg_h: u32,
    px: Option<u32>,
    py: Option<u32>,
    pw: Option<u32>,
    ph: Option<u32>,
    has_headline: bool,
    raw_w: u32,
    raw_h: u32,
) -> (int, int, int, int) {
    if px is Some && py is Some && pw is Some && ph is Some {
        (pw.unwrap() as int, ph.unwrap() as int, px.unwrap() as int, py.unwrap() as int)
    } else {
        let tw = cfg_w * 73 / 100;
        let th = tw * raw_h / (raw_w as int);
        let x = (cfg_w - tw) / 2;
        let y = if has_headline {
            cfg_h * 15 / 100
        } else {
            (if cfg_h >= th {
                (cfg_h - th) / 2
            } else {
                0int
            }) + cfg_h * 5 / 100
        };
        (
            if pw is Some {
                pw.unwrap() as int
            } else {
                tw
            },
            if ph is Some {
                ph.unwrap() as int
            } else {
                th
            },
            if px is Some {
                px.unwrap() as int
            } else {
                x
            },
            if py is Some {
                py.unwrap() as int
            } else {
                y
            },
        )
    }
}

/// Computes the frame placement from the configuration and the capture's
/// dimensions, as `(width, height, x, y)`.
pub fn calculate_phone_layout(config: &SnapConfig, raw_w: u32, raw_h: u32) -> (r: (
    u32,
    u32,
    u32,
    u32,
))
    requires
        config.width <= MAX_DIM,
        config.height <= MAX_DIM,
        1 <= raw_w <= MAX_DIM,
        1 <= raw_h <= MAX_DIM,
    ensures
        ({
            let l = spec_phone_layout(
                config.width,
                config.height,
                config.phone_x,
                config.phone_y,
                config.phone_width,
                config.phone_height,
                config.headline is Some,
                raw_w,
                raw_h,
            );
            r.0 == l.0 && r.1 == l.1 && r.2 == l.2 && r.3 == l.3
        }),
{
    match (config.phone_width, config.phone_height, config.phone_x, config.phone_y) {
        (Some(w), Some(h), Some(x), Some(y)) => {
            return (w, h, x, y);
        },
        _ => {},
    }
    let tw: u32 = config.width * 73 / 100;
    assert((tw as int) * (raw_h as int) <= 0x4000_0000) by (nonlinear_arith)
        requires
            tw <= 0x8000,
            raw_h <= 0x8000,
    ;
    let th64: u64 = (tw as u64) * (raw_h as u64) / (raw_w as u64);
    let th: u32 = th64 as u32;
    let x: u32 = (config.width - tw) / 2;
    let y: u32 = if config.headline.is_some() {
        config.height * 15 / 100
    } else {
        let centered: u32 = if config.height >= th {
            (config.height - th) / 2
        } else {
            0
        };
        centered + config.height * 5 / 100
    };
    let rw: u32 = match config.phone_width {
        Some(w) => w,
        None => tw,
    };
    let rh: u32 = match config.phone_height {
        Some(h) => h,
        None => th,
    };
    let rx: u32 = match config.phone_x {
        Some(v) => v,
        None => x,
    };
    let ry: u32 = match config.phone_y {
        Some(v) => v,
        None => y,
    };
    (rw, rh, rx, ry)
}

/// The text block of a quick capture: present exactly when a headline is
/// configured, with the stock color, sizes, weights and spacing.
pub fn build_copy_config(config: &SnapConfig) -> (r: Option<CopyConfig>)
    ensures
        match config.headline {
            Some(h) => r matches Some(c) && c.headline@ == h@ && c.subheadline@ == (
            match config.subheadline {
                Some(s) => s@,
                None => Seq::<char>::empty(),
            }) && c.color@ == "#F4F8FF"@ && c.position == TextPosition::AbovePhone && c.y_offset
                == 0 && c.headline_size == 120 && c.subheadline_size == 56 && c.headline_weight
                == FontWeight::SemiBold && c.subheadline_weight == FontWeight::Regular
                && c.line_gap == 24 && c.max_width is None,
            None => r is None,
        },
{
    match &config.headline {
        Some(h) => {
            let sub: String = match &config.subheadline {
                Some(s) => s.clone(),
                None => String::new(),
            };
            Some(
                CopyConfig {
                    headline: h.clone(),
                    subheadline: sub,
                    color: "#F4F8FF".to_owned(),
                    position: TextPosition::AbovePhone,
                    y_offset: 0,
                    headline_size: 120,
                    subheadline_size: 56,
                    headline_weight: FontWeight::SemiBold,
                    subheadline_weight: FontWeight::Regular,
                    line_gap: 24,
                    max_width: None,
                },
            )
        },
        None => None,
    }
}

} // verus!
