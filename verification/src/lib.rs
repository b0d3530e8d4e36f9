//! Verified core of a monitor-brightness tool: parsing of a brightness
//! argument as an absolute value or a signed delta, clamped application
//! of deltas, selection of the monitors to act on, per-monitor decision
//! and reporting logic, and rendering of a fixed-width status bar.
//! The DDC/CI hardware calls themselves live outside the library and
//! hand their results in as plain values.

pub mod control;
pub mod parse;
pub mod render;
pub mod types;
