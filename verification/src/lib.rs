//! NetFlash: a WAN-quality engine for a tray indicator.
//!
//! The library holds the decisions of the product: probe samples, the sample
//! ring, the dead-man and captive-portal rules, flap counting, window
//! statistics, recovery hysteresis, the probe scheduler, skins, colors, release
//! checks and HTTP classification. Everything here is verified; floating-point
//! blending, rasterizing and I/O live in the host program.

pub mod sample;
pub mod buffer;
pub mod config;
pub mod scheduler;
pub mod order;
pub mod score;
pub mod display;
pub mod engine;
pub mod color;
pub mod text;
pub mod update;
pub mod probe;
pub mod skin;
pub mod host;
