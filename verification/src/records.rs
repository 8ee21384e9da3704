//! Plain data records exchanged with the hosting application.

use vstd::prelude::*;

verus! {

/// Identity and resource use of one running process.
pub struct AppInfo {
    pub id: String,
    pub name: String,
    pub running_time_formatted: String,
    pub memory_in_bytes: u64,
}

/// One tick of the wall clock, in milliseconds since the epoch.
#[derive(Clone)]
pub struct ClockTick {
    pub epoch_ms: u128,
}

/// Minimal identity of a calibrated instrument.
#[derive(Debug, Clone)]
pub struct InstrumentMini {
    pub code: String,
    pub name: Option<String>,
}

} // verus!
