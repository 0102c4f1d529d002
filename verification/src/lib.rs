use vstd::prelude::*;

pub mod utils;
pub mod gnss;
pub mod types;
pub mod io;

verus! {

/// Errors reported by the signal-processing and telemetry-decoding stages.
#[derive(Debug, PartialEq, Eq, Clone, Copy)]
pub enum DigSigProcErr {
    LossOfLock,
    InvalidTelemetryData(&'static str),
    Other(&'static str),
}

} // verus!
