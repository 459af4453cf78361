//! Core rendering pipeline for oscilloscope music.
//!
//! A parametric 2D curve is pre-sampled into a fixed lookup table, replayed
//! cyclically by a real-time render loop, transformed by a chain of effects,
//! and emitted as stereo XY samples while a ring buffer feeds a display
//! thread.  All coordinates and parameters are fixed-point scalars holding
//! millionths, so every arithmetic step is exact and verified.

pub mod bezier;
pub mod buffer;
pub mod effects;
pub mod engine;
pub mod fx;
pub mod geom;
pub mod lfo;
pub mod midi;
pub mod path;
pub mod polyline;
pub mod primitives;
pub mod scene;
pub mod shapes;
pub mod trace;
pub mod trig;
