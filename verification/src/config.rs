use vstd::prelude::*;

verus! {

/// The phone models the device-profile table knows.
#[derive(Clone, Copy, Debug, PartialEq, Eq, Structural)]
pub enum PhoneModel {
    Iphone16Pro,
    Iphone16ProMax,
    Iphone17Pro,
    Iphone17ProMax,
}

/// How the scene obtains its raw screenshot.
#[derive(Clone, Debug)]
pub enum CaptureConfig {
    File { path: String },
    Simctl { device: String, settle_ms: u64 },
}

/// The output file and canvas size of a scene.
#[derive(Clone, Debug)]
pub struct OutputConfig {
    pub filename: String,
    pub width: u32,
    pub height: u32,
}

/// The background template selector.
#[derive(Clone, Copy, Debug, PartialEq, Eq, Structural)]
pub enum BackgroundTemplate {
    Mesh,
    Stripes,
}

impl Default for BackgroundTemplate {
    fn default() -> (r: Self)
        ensures
            r == BackgroundTemplate::Mesh,
    {
        BackgroundTemplate::Mesh
    }
}

/// The color-theory rule used to derive a palette from a dominant color.
#[derive(Clone, Copy, Debug, PartialEq, Eq, Structural)]
pub enum AutoColorStrategy {
    Monochromatic,
    Analogous,
    Complementary,
    Triadic,
}

impl Default for AutoColorStrategy {
    fn default() -> (r: Self)
        ensures
            r == AutoColorStrategy::Monochromatic,
    {
        AutoColorStrategy::Monochromatic
    }
}

/// Background settings of a scene.
#[derive(Clone, Debug)]
pub struct BackgroundConfig {
    pub template: BackgroundTemplate,
    pub seed: u64,
    pub colors: Vec<String>,
    /// When true, the palette is extracted from the screenshot itself.
    pub auto_colors: bool,
    /// The strategy used for the extracted palette.
    pub auto_strategy: AutoColorStrategy,
}

/// Screen insets of the phone frame, one value per side.
#[derive(Clone, Copy, Debug, PartialEq, Eq, Structural)]
pub struct Insets {
    pub top: u32,
    pub right: u32,
    pub bottom: u32,
    pub left: u32,
}

impl Default for Insets {
    fn default() -> (r: Self)
        ensures
            r == (Insets { top: 28, right: 20, bottom: 28, left: 20 }),
    {
        Insets { top: 28, right: 20, bottom: 28, left: 20 }
    }
}

/// Placement and style of the phone frame within the canvas.
#[derive(Clone, Debug)]
pub struct PhoneConfig {
    pub model: Option<PhoneModel>,
    pub x: u32,
    pub y: u32,
    pub width: u32,
    pub height: u32,
    pub corner_radius: u32,
    pub screen_padding: Insets,
    pub frame_color: String,
    pub frame_border_width: u32,
    pub shadow_offset_y: i32,
    pub shadow_alpha: u8,
    pub overlay: Option<String>,
}

/// Font weights of the embedded typeface.
#[derive(Clone, Copy, Debug, PartialEq, Eq, Structural)]
pub enum FontWeight {
    Regular,
    Medium,
    SemiBold,
    Bold,
}

impl Default for FontWeight {
    fn default() -> (r: Self)
        ensures
            r == FontWeight::SemiBold,
    {
        FontWeight::SemiBold
    }
}

/// Vertical anchor of the text block.
#[derive(Clone, Copy, Debug, PartialEq, Eq, Structural)]
pub enum TextPosition {
    /// Centered in the space above the phone.
    AbovePhone,
    /// Centered in the space below the phone.
    BelowPhone,
    /// Fixed padding from the canvas top.
    Top,
    /// Fixed padding from the canvas bottom.
    Bottom,
}

impl Default for TextPosition {
    fn default() -> (r: Self)
        ensures
            r == TextPosition::AbovePhone,
    {
        TextPosition::AbovePhone
    }
}

/// Headline and subheadline of a scene, with their sizes in pixels.
#[derive(Clone, Debug)]
pub struct CopyConfig {
    pub headline: String,
    pub subheadline: String,
    pub color: String,
    pub position: TextPosition,
    /// Vertical offset in pixels: positive moves down, negative up.
    pub y_offset: i32,
    pub headline_size: u32,
    pub subheadline_size: u32,
    pub headline_weight: FontWeight,
    pub subheadline_weight: FontWeight,
    pub line_gap: u32,
    /// Wrap width in pixels; absent means a share of the canvas width.
    pub max_width: Option<u32>,
}

/// One scene: capture source, output, background, frame and optional text.
#[derive(Clone, Debug)]
pub struct SceneConfig {
    pub id: String,
    pub capture: CaptureConfig,
    pub output: OutputConfig,
    pub background: BackgroundConfig,
    pub phone: PhoneConfig,
    pub copy: Option<CopyConfig>,
}

/// A whole run: the output directory and the scenes to compose.
#[derive(Clone, Debug)]
pub struct Config {
    pub output_dir: String,
    pub scenes: Vec<SceneConfig>,
}

pub fn default_output_dir() -> (r: String)
    ensures
        r@ == "./output"@,
{
    "./output".to_owned()
}

pub fn default_seed() -> (r: u64)
    ensures
        r == 1,
{
    1
}

pub fn default_palette() -> (r: Vec<String>)
    ensures
        r@.len() == 4,
        r@[0]@ == "#0E1228"@,
        r@[1]@ == "#1348A5"@,
        r@[2]@ == "#2B8CD6"@,
        r@[3]@ == "#C2E6FF"@,
{
    let mut v: Vec<String> = Vec::new();
    v.push("#0E1228".to_owned());
    v.push("#1348A5".to_owned());
    v.push("#2B8CD6".to_owned());
    v.push("#C2E6FF".to_owned());
    v
}

pub fn default_settle_ms() -> (r: u64)
    ensures
        r == 800,
{
    800
}

pub fn default_corner_radius() -> (r: u32)
    ensures
        r == 88,
{
    88
}

pub fn default_frame_color() -> (r: String)
    ensures
        r@ == "#11151B"@,
{
    "#11151B".to_owned()
}

pub fn default_frame_border_width() -> (r: u32)
    ensures
        r == 8,
{
    8
}

pub fn default_shadow_offset_y() -> (r: i32)
    ensures
        r == 18,
{
    18
}

pub fn default_shadow_alpha() -> (r: u8)
    ensures
        r == 74,
{
    74
}

pub fn default_copy_color() -> (r: String)
    ensures
        r@ == "#F4F8FF"@,
{
    "#F4F8FF".to_owned()
}

pub fn default_headline_size() -> (r: u32)
    ensures
        r == 120,
{
    120
}

pub fn default_subheadline_size() -> (r: u32)
    ensures
        r == 56,
{
    56
}

pub fn default_subheadline_weight() -> (r: FontWeight)
    ensures
        r == FontWeight::Regular,
{
    FontWeight::Regular
}

pub fn default_line_gap() -> (r: u32)
    ensures
        r == 24,
{
    24
}

} // verus!
