use vstd::prelude::*;
use crate::config::{BackgroundTemplate, PhoneModel};

verus! {

/// The parsed command line: one subcommand.  The argument parser itself is
/// ordinary I/O and lives outside the library; it hands over this plain
/// form.
#[derive(Clone, Debug)]
pub struct Cli {
    pub command: Commands,
}

/// The subcommands of the tool.
#[derive(Clone, Debug)]
pub enum Commands {
    /// Run the full pipeline: capture, background, compose, preview.
    Run { config: String },
    /// List the built-in phone model presets.
    Devices,
    /// Import transparent PNG frame overlays into the asset directory.
    ImportFrames { source: String, dest: String, overwrite: bool },
    /// Validate the overlay files the configuration refers to.
    VerifyOverlay { config: String, strict: bool },
    /// Capture and frame a screenshot from a running virtual device.
    Snap {
        simulator: Option<String>,
        output: String,
        raw: bool,
        list: bool,
        format: OutputFormat,
        model: Option<PhoneModelArg>,
        settle_ms: u64,
        width: u32,
        height: u32,
        headline: Option<String>,
        subheadline: Option<String>,
        background: BackgroundTemplateArg,
        seed: u64,
        colors: Option<Vec<String>>,
    },
}

/// How results are printed.
#[derive(Clone, Copy, Debug, PartialEq, Eq, Structural)]
pub enum OutputFormat {
    Text,
    Json,
}

/// A phone model named on the command line.
#[derive(Clone, Copy, Debug, PartialEq, Eq, Structural)]
pub enum PhoneModelArg {
    Iphone16Pro,
    Iphone16ProMax,
    Iphone17Pro,
    Iphone17ProMax,
}

impl PhoneModelArg {
    /// The model the argument stands for.
    pub fn to_model(self) -> (r: PhoneModel)
        ensures
            self == PhoneModelArg::Iphone16Pro ==> r == PhoneModel::Iphone16Pro,
            self == PhoneModelArg::Iphone16ProMax ==> r == PhoneModel::Iphone16ProMax,
            self == PhoneModelArg::Iphone17Pro ==> r == PhoneModel::Iphone17Pro,
            self == PhoneModelArg::Iphone17ProMax ==> r == PhoneModel::Iphone17ProMax,
    {
        match self {
            PhoneModelArg::Iphone16Pro => PhoneModel::Iphone16Pro,
            PhoneModelArg::Iphone16ProMax => PhoneModel::Iphone16ProMax,
            PhoneModelArg::Iphone17Pro => PhoneModel::Iphone17Pro,
            PhoneModelArg::Iphone17ProMax => PhoneModel::Iphone17ProMax,
        }
    }
}

/// A background template named on the command line.
#[derive(Clone, Copy, Debug, PartialEq, Eq, Structural)]
pub enum BackgroundTemplateArg {
    Mesh,
    Stripes,
}

impl BackgroundTemplateArg {
    /// The template the argument stands for.
    pub fn to_template(self) -> (r: BackgroundTemplate)
        ensures
            self == BackgroundTemplateArg::Mesh ==> r == BackgroundTemplate::Mesh,
            self == BackgroundTemplateArg::Stripes ==> r == BackgroundTemplate::Stripes,
    {
        match self {
            BackgroundTemplateArg::Mesh => BackgroundTemplate::Mesh,
            BackgroundTemplateArg::Stripes => BackgroundTemplate::Stripes,
        }
    }
}

} // verus!
