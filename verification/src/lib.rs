//! Turns a short phrase into a ring of numbered points and keeps the
//! screens, timers and text box of the tool that shows them.
//!
//! Everything is counted in whole numbers: time in microseconds, the
//! progress of a stroke in millionths of a segment, and the direction of
//! a point in millionths of a radian.

pub mod animation;
pub mod app;
mod chars;
pub mod editor;
pub mod export;
pub mod glyph;
pub mod input;
pub mod normalize;
pub mod random;
pub mod raster;
pub mod render;
