pub mod background;
pub mod canvas;
pub mod cli;
pub mod color;
pub mod compose;
pub mod config;
pub mod devices;
pub mod errors;
pub mod frames;
pub mod hsl;
pub mod noise;
pub mod pipeline;
pub mod preview;
pub mod palette;
pub mod raster;
pub mod resample;
pub mod rng;
pub mod simulator;
pub mod snap;
pub mod strutil;
pub mod text;
