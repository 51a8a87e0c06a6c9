use vstd::prelude::*;

verus! {

/// Every failure the rendering core can report.  Each variant carries the
/// offending value so callers can label the failure for the scene it came
/// from.
#[derive(Clone, Debug, PartialEq, Eq)]
pub enum ForgeError {
    /// A canvas (or phone rectangle) with a zero dimension.
    InvalidCanvasSize { width: u32, height: u32 },
    /// A background palette with fewer than two colors.
    InsufficientPalette { count: usize },
    /// A color string that is not `#RRGGBB` / `#RRGGBBAA` hex.
    InvalidColorFormat { input: String },
    /// Insets and border consume the whole phone rectangle.
    NoScreenSpace { width: u32, height: u32 },
    /// A font asset could not be loaded.
    FontLoadFailure,
    /// An overlay image could not be decoded.
    OverlayDecodeFailure { path: String },
}

impl ForgeError {
    /// A short human-readable label for the failure.
    pub fn message(&self) -> (m: String)
        ensures
            self matches ForgeError::InvalidColorFormat { input } ==> m@ == spec_label_invalid_color()
                + input@,
    {
        match self {
            ForgeError::InvalidCanvasSize { .. } => "invalid canvas size: width and height must be nonzero".to_owned(),
            ForgeError::InsufficientPalette { .. } => "background needs at least 2 colors".to_owned(),
            ForgeError::InvalidColorFormat { input } => {
                let mut m = "invalid color, expected #RRGGBB or #RRGGBBAA: ".to_owned();
                m.append(input.as_str());
                m
            },
            ForgeError::NoScreenSpace { .. } => "phone insets leave no space for the screenshot".to_owned(),
            ForgeError::FontLoadFailure => "failed to load embedded font".to_owned(),
            ForgeError::OverlayDecodeFailure { path } => {
                let mut m = "failed decoding overlay: ".to_owned();
                m.append(path.as_str());
                m
            },
        }
    }
}

/// The label that `message` puts before an unparsable color string.
pub open spec fn spec_label_invalid_color() -> Seq<char> {
    "invalid color, expected #RRGGBB or #RRGGBBAA: "@
}

} // verus!
