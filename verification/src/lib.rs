//! Verified core of a terminal engine: escape-sequence sniffers that run beside
//! an Alacritty terminal, and the engine that turns the terminal's grid into
//! flat frames for a host to paint.

pub mod ascii;
pub mod config;
pub mod csi_mode_scan;
pub mod engine;
pub mod event_proxy;
pub mod frame;
pub mod laws;
pub mod laws_colors;
pub mod laws_input;
pub mod laws_screen;
pub mod laws_search;
pub mod osc_preparse;
pub mod palette;
pub mod screen;
pub mod seek;
pub mod term_bridge;
pub mod term_model;
pub mod text;
pub mod view_frame;
