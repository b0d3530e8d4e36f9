//! Core value types: brightness changes, readings, and the error taxonomy.

use vstd::prelude::*;

verus! {

/// A requested brightness change: either an absolute percentage or a
/// signed delta against the monitor's current value.
#[derive(Clone, Copy, Debug, PartialEq, Eq, Structural)]
pub enum ValueChange {
    Delta(i16),
    Absolute(u16),
}

/// Everything that can go wrong while parsing an argument or driving
/// the monitors. Per-monitor failures carry the monitor's index.
#[derive(Clone, Copy, Debug, PartialEq, Eq, Structural)]
pub enum BrightnessError {
    NoMonitorsFound,
    ReadFailure(usize),
    WriteFailure(usize),
    MonitorNotFound(usize),
    EmptyInput,
    ParseError,
    InvalidArgument,
}

/// A fresh brightness reading from one monitor, never cached.
#[derive(Clone, Copy, Debug, PartialEq, Eq, Structural)]
pub struct Reading {
    pub current: u16,
    pub minimum: u16,
    pub maximum: u16,
}

impl Reading {
    /// A well-formed reading keeps its current value between the bounds.
    pub open spec fn wf(self) -> bool {
        self.minimum <= self.current <= self.maximum
    }
}

} // verus!
