use vstd::prelude::*;
use crate::config::{Insets, PhoneConfig, PhoneModel};

verus! {

/// The resolved frame geometry and style of one composition.
#[derive(Clone, Debug)]
pub struct ResolvedPhoneStyle {
    pub corner_radius: u32,
    pub screen_padding: Insets,
    pub frame_color: String,
    pub frame_border_width: u32,
    pub shadow_offset_y: i32,
    pub shadow_alpha: u8,
    pub island: Option<DynamicIslandSpec>,
}

/// Decorative-cutout geometry, relative to the screen area.  Every ratio is
/// in permille: 330 means 33% of the reference extent.
#[derive(Clone, Copy, Debug, PartialEq, Eq, Structural)]
pub struct DynamicIslandSpec {
    pub width_ratio: u32,
    pub height_ratio: u32,
    pub y_offset_ratio: u32,
    pub lens_size_ratio: u32,
}

/// A built-in device preset, for listings.
#[derive(Clone, Debug)]
pub struct DeviceListing {
    pub slug: String,
    pub display_name: String,
}

/// The built-in device presets, in table order.
pub fn device_listings() -> (r: Vec<DeviceListing>)
    ensures
        r@.len() == 4,
        r@[0].slug@ == "iphone_16_pro"@,
        r@[1].slug@ == "iphone_16_pro_max"@,
        r@[2].slug@ == "iphone_17_pro"@,
        r@[3].slug@ == "iphone_17_pro_max"@,
{
    let mut v: Vec<DeviceListing> = Vec::new();
    v.push(
        DeviceListing { slug: "iphone_16_pro".to_owned(), display_name: "iPhone 16 Pro".to_owned() },
    );
    v.push(
        DeviceListing {
            slug: "iphone_16_pro_max".to_owned(),
            display_name: "iPhone 16 Pro Max".to_owned(),
        },
    );
    v.push(
        DeviceListing { slug: "iphone_17_pro".to_owned(), display_name: "iPhone 17 Pro".to_owned() },
    );
    v.push(
        DeviceListing {
            slug: "iphone_17_pro_max".to_owned(),
            display_name: "iPhone 17 Pro Max".to_owned(),
        },
    );
    v
}

// ---------------------------------------------------------------------------
// The device-profile table.
// ---------------------------------------------------------------------------

/// The profile corner radius of a device.
pub open spec fn spec_device_corner_radius(m: PhoneModel) -> u32 {
    match m {
        PhoneModel::Iphone16Pro => 116u32,
        PhoneModel::Iphone16ProMax => 126u32,
        PhoneModel::Iphone17Pro => 122u32,
        PhoneModel::Iphone17ProMax => 130u32,
    }
}

/// The profile screen insets of a device.
pub open spec fn spec_device_insets(m: PhoneModel) -> Insets {
    match m {
        PhoneModel::Iphone16Pro => Insets { top: 54, right: 28, bottom: 40, left: 28 },
        PhoneModel::Iphone16ProMax => Insets { top: 54, right: 30, bottom: 42, left: 30 },
        PhoneModel::Iphone17Pro => Insets { top: 56, right: 28, bottom: 40, left: 28 },
        PhoneModel::Iphone17ProMax => Insets { top: 56, right: 30, bottom: 42, left: 30 },
    }
}

/// The profile frame color of a device.
pub open spec fn spec_device_frame_color(m: PhoneModel) -> Seq<char> {
    match m {
        PhoneModel::Iphone16Pro => "#7A7F89"@,
        PhoneModel::Iphone16ProMax => "#767C86"@,
        PhoneModel::Iphone17Pro => "#686F78"@,
        PhoneModel::Iphone17ProMax => "#666D76"@,
    }
}

/// The profile frame border width of a device.
pub open spec fn spec_device_border_width(m: PhoneModel) -> u32 {
    match m {
        PhoneModel::Iphone16Pro => 13u32,
        PhoneModel::Iphone16ProMax => 14u32,
        PhoneModel::Iphone17Pro => 14u32,
        PhoneModel::Iphone17ProMax => 15u32,
    }
}

/// The profile shadow offset of a device.
pub open spec fn spec_device_shadow_offset_y(m: PhoneModel) -> i32 {
    match m {
        PhoneModel::Iphone16Pro => 24i32,
        PhoneModel::Iphone16ProMax => 25i32,
        PhoneModel::Iphone17Pro => 25i32,
        PhoneModel::Iphone17ProMax => 26i32,
    }
}

/// The profile shadow alpha of a device.
pub open spec fn spec_device_shadow_alpha(m: PhoneModel) -> u8 {
    match m {
        PhoneModel::Iphone16Pro => 82u8,
        PhoneModel::Iphone16ProMax => 83u8,
        PhoneModel::Iphone17Pro => 84u8,
        PhoneModel::Iphone17ProMax => 85u8,
    }
}

/// The profile decorative-cutout geometry of a device.
pub open spec fn spec_device_island(m: PhoneModel) -> DynamicIslandSpec {
    match m {
        PhoneModel::Iphone16Pro => DynamicIslandSpec {
            width_ratio: 330,
            height_ratio: 50,
            y_offset_ratio: 20,
            lens_size_ratio: 380,
        },
        PhoneModel::Iphone16ProMax => DynamicIslandSpec {
            width_ratio: 300,
            height_ratio: 47,
            y_offset_ratio: 20,
            lens_size_ratio: 370,
        },
        PhoneModel::Iphone17Pro => DynamicIslandSpec {
            width_ratio: 310,
            height_ratio: 46,
            y_offset_ratio: 20,
            lens_size_ratio: 360,
        },
        PhoneModel::Iphone17ProMax => DynamicIslandSpec {
            width_ratio: 290,
            height_ratio: 44,
            y_offset_ratio: 20,
            lens_size_ratio: 350,
        },
    }
}

// ---------------------------------------------------------------------------
// Default-sentinel override resolution.
// ---------------------------------------------------------------------------

/// The per-field override rule: a field equal to the global default is
/// treated as unset and replaced by the device profile's value; any other
/// value is kept.  An explicit value that happens to equal the default is
/// indistinguishable from "not set" — a documented limit of the rule.
pub open spec fn spec_choose<T>(input: T, default_value: T, device_value: T) -> T {
    if input == default_value {
        device_value
    } else {
        input
    }
}

fn choose_u32(input: u32, default_value: u32, device_value: u32) -> (r: u32)
    ensures
        r == spec_choose(input, default_value, device_value),
{
    if input == default_value {
        device_value
    } else {
        input
    }
}

fn choose_i32(input: i32, default_value: i32, device_value: i32) -> (r: i32)
    ensures
        r == spec_choose(input, default_value, device_value),
{
    if input == default_value {
        device_value
    } else {
        input
    }
}

fn choose_u8(input: u8, default_value: u8, device_value: u8) -> (r: u8)
    ensures
        r == spec_choose(input, default_value, device_value),
{
    if input == default_value {
        device_value
    } else {
        input
    }
}

fn choose_insets(input: Insets, default_value: Insets, device_value: Insets) -> (r: Insets)
    ensures
        r.top == spec_choose(input.top, default_value.top, device_value.top),
        r.right == spec_choose(input.right, default_value.right, device_value.right),
        r.bottom == spec_choose(input.bottom, default_value.bottom, device_value.bottom),
        r.left == spec_choose(input.left, default_value.left, device_value.left),
{
    Insets {
        top: choose_u32(input.top, default_value.top, device_value.top),
        right: choose_u32(input.right, default_value.right, device_value.right),
        bottom: choose_u32(input.bottom, default_value.bottom, device_value.bottom),
        left: choose_u32(input.left, default_value.left, device_value.left),
    }
}

/// The lower-case code point of an ASCII letter; other characters stand as
/// they are.
pub open spec fn spec_lower_code(c: char) -> u32 {
    if 65 <= c as u32 <= 90 {
        (c as u32 + 32) as u32
    } else {
        c as u32
    }
}

/// Equality of two strings up to ASCII case.
pub open spec fn spec_eq_ignore_case(a: Seq<char>, b: Seq<char>) -> bool {
    a.len() == b.len() && (forall|i: int|
        0 <= i < a.len() ==> spec_lower_code(a[i]) == spec_lower_code(b[i]))
}

fn lower_code(c: char) -> (r: u32)
    ensures
        r == spec_lower_code(c),
{
    let v = c as u32;
    if 65 <= v && v <= 90 {
        v + 32
    } else {
        v
    }
}

/// Compares two strings for equality up to ASCII case.
pub fn ascii_eq_ignore_case(a: &str, b: &str) -> (r: bool)
    ensures
        r == spec_eq_ignore_case(a@, b@),
{
    let na = a.unicode_len();
    let nb = b.unicode_len();
    if na != nb {
        return false;
    }
    let mut i: usize = 0;
    while i < na
        invariant
            i <= na,
            na == a@.len(),
            na == b@.len(),
            forall|j: int| 0 <= j < i ==> spec_lower_code(a@[j]) == spec_lower_code(b@[j]),
        decreases na - i,
    {
        if lower_code(a.get_char(i)) != lower_code(b.get_char(i)) {
            return false;
        }
        i = i + 1;
    }
    true
}

fn choose_color(input: &str, default_value: &str, device_value: &str) -> (r: String)
    ensures
        r@ == (if spec_eq_ignore_case(input@, default_value@) {
            device_value@
        } else {
            input@
        }),
{
    if ascii_eq_ignore_case(input, default_value) {
        device_value.to_owned()
    } else {
        input.to_owned()
    }
}

/// The resolved corner radius of the frame.
pub open spec fn spec_style_corner_radius(phone: PhoneConfig) -> u32 {
    match phone.model {
        None => phone.corner_radius,
        Some(m) => spec_choose(phone.corner_radius, 88u32, spec_device_corner_radius(m)),
    }
}

/// The resolved screen insets of the frame.
pub open spec fn spec_style_padding(phone: PhoneConfig) -> Insets {
    match phone.model {
        None => phone.screen_padding,
        Some(m) => Insets {
            top: spec_choose(phone.screen_padding.top, 28u32, spec_device_insets(m).top),
            right: spec_choose(phone.screen_padding.right, 20u32, spec_device_insets(m).right),
            bottom: spec_choose(phone.screen_padding.bottom, 28u32, spec_device_insets(m).bottom),
            left: spec_choose(phone.screen_padding.left, 20u32, spec_device_insets(m).left),
        },
    }
}

/// The resolved frame color string.
pub open spec fn spec_style_frame_color(phone: PhoneConfig) -> Seq<char> {
    match phone.model {
        None => phone.frame_color@,
        Some(m) => if spec_eq_ignore_case(phone.frame_color@, "#11151B"@) {
            spec_device_frame_color(m)
        } else {
            phone.frame_color@
        },
    }
}

/// The resolved frame border width.
pub open spec fn spec_style_border_width(phone: PhoneConfig) -> u32 {
    match phone.model {
        None => phone.frame_border_width,
        Some(m) => spec_choose(phone.frame_border_width, 8u32, spec_device_border_width(m)),
    }
}

/// The resolved shadow offset.
pub open spec fn spec_style_shadow_offset_y(phone: PhoneConfig) -> i32 {
    match phone.model {
        None => phone.shadow_offset_y,
        Some(m) => spec_choose(phone.shadow_offset_y, 18i32, spec_device_shadow_offset_y(m)),
    }
}

/// The resolved shadow alpha.
pub open spec fn spec_style_shadow_alpha(phone: PhoneConfig) -> u8 {
    match phone.model {
        None => phone.shadow_alpha,
        Some(m) => spec_choose(phone.shadow_alpha, 74u8, spec_device_shadow_alpha(m)),
    }
}

/// The resolved decorative-cutout geometry, if any.
pub open spec fn spec_style_island(phone: PhoneConfig) -> Option<DynamicIslandSpec> {
    match phone.model {
        None => None,
        Some(m) => Some(spec_device_island(m)),
    }
}

/// Resolves the final frame style: with no model every raw field is kept as
/// given and no cutout is drawn; with a model, each field equal to its
/// global default is replaced by the device profile's value, and the
/// profile's cutout geometry is attached.
pub fn resolve_phone_style(phone: &PhoneConfig) -> (r: ResolvedPhoneStyle)
    ensures
        r.corner_radius == spec_style_corner_radius(*phone),
        r.screen_padding == spec_style_padding(*phone),
        r.frame_color@ == spec_style_frame_color(*phone),
        r.frame_border_width == spec_style_border_width(*phone),
        r.shadow_offset_y == spec_style_shadow_offset_y(*phone),
        r.shadow_alpha == spec_style_shadow_alpha(*phone),
        r.island == spec_style_island(*phone),
{
    match phone.model {
        None => ResolvedPhoneStyle {
            corner_radius: phone.corner_radius,
            screen_padding: phone.screen_padding,
            frame_color: phone.frame_color.clone(),
            frame_border_width: phone.frame_border_width,
            shadow_offset_y: phone.shadow_offset_y,
            shadow_alpha: phone.shadow_alpha,
            island: None,
        },
        Some(m) => {
            let island = device_island(m);
            let device_insets = device_insets_of(m);
            let device_color = device_frame_color(m);
            ResolvedPhoneStyle {
                corner_radius: choose_u32(phone.corner_radius, 88, device_corner_radius(m)),
                screen_padding: choose_insets(
                    phone.screen_padding,
                    Insets { top: 28, right: 20, bottom: 28, left: 20 },
                    device_insets,
                ),
                frame_color: choose_color(
                    phone.frame_color.as_str(),
                    "#11151B",
                    device_color.as_str(),
                ),
                frame_border_width: choose_u32(
                    phone.frame_border_width,
                    8,
                    device_border_width(m),
                ),
                shadow_offset_y: choose_i32(phone.shadow_offset_y, 18, device_shadow_offset_y(m)),
                shadow_alpha: choose_u8(phone.shadow_alpha, 74, device_shadow_alpha(m)),
                island: Some(island),
            }
        },
    }
}

fn device_corner_radius(m: PhoneModel) -> (r: u32)
    ensures
        r == spec_device_corner_radius(m),
{
    match m {
        PhoneModel::Iphone16Pro => 116,
        PhoneModel::Iphone16ProMax => 126,
        PhoneModel::Iphone17Pro => 122,
        PhoneModel::Iphone17ProMax => 130,
    }
}

fn device_insets_of(m: PhoneModel) -> (r: Insets)
    ensures
        r == spec_device_insets(m),
{
    match m {
        PhoneModel::Iphone16Pro => Insets { top: 54, right: 28, bottom: 40, left: 28 },
        PhoneModel::Iphone16ProMax => Insets { top: 54, right: 30, bottom: 42, left: 30 },
        PhoneModel::Iphone17Pro => Insets { top: 56, right: 28, bottom: 40, left: 28 },
        PhoneModel::Iphone17ProMax => Insets { top: 56, right: 30, bottom: 42, left: 30 },
    }
}

fn device_frame_color(m: PhoneModel) -> (r: String)
    ensures
        r@ == spec_device_frame_color(m),
{
    match m {
        PhoneModel::Iphone16Pro => "#7A7F89".to_owned(),
        PhoneModel::Iphone16ProMax => "#767C86".to_owned(),
        PhoneModel::Iphone17Pro => "#686F78".to_owned(),
        PhoneModel::Iphone17ProMax => "#666D76".to_owned(),
    }
}

fn device_border_width(m: PhoneModel) -> (r: u32)
    ensures
        r == spec_device_border_width(m),
{
    match m {
        PhoneModel::Iphone16Pro => 13,
        PhoneModel::Iphone16ProMax => 14,
        PhoneModel::Iphone17Pro => 14,
        PhoneModel::Iphone17ProMax => 15,
    }
}

fn device_shadow_offset_y(m: PhoneModel) -> (r: i32)
    ensures
        r == spec_device_shadow_offset_y(m),
{
    match m {
        PhoneModel::Iphone16Pro => 24,
        PhoneModel::Iphone16ProMax => 25,
        PhoneModel::Iphone17Pro => 25,
        PhoneModel::Iphone17ProMax => 26,
    }
}

fn device_shadow_alpha(m: PhoneModel) -> (r: u8)
    ensures
        r == spec_device_shadow_alpha(m),
{
    match m {
        PhoneModel::Iphone16Pro => 82,
        PhoneModel::Iphone16ProMax => 83,
        PhoneModel::Iphone17Pro => 84,
        PhoneModel::Iphone17ProMax => 85,
    }
}

fn device_island(m: PhoneModel) -> (r: DynamicIslandSpec)
    ensures
        r == spec_device_island(m),
{
    match m {
        PhoneModel::Iphone16Pro => DynamicIslandSpec {
            width_ratio: 330,
            height_ratio: 50,
            y_offset_ratio: 20,
            lens_size_ratio: 380,
        },
        PhoneModel::Iphone16ProMax => DynamicIslandSpec {
            width_ratio: 300,
            height_ratio: 47,
            y_offset_ratio: 20,
            lens_size_ratio: 370,
        },
        PhoneModel::Iphone17Pro => DynamicIslandSpec {
            width_ratio: 310,
            height_ratio: 46,
            y_offset_ratio: 20,
            lens_size_ratio: 360,
        },
        PhoneModel::Iphone17ProMax => DynamicIslandSpec {
            width_ratio: 290,
            height_ratio: 44,
            y_offset_ratio: 20,
            lens_size_ratio: 350,
        },
    }
}

} // verus!
