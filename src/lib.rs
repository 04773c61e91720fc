//! Vendor-agnostic GPU monitoring core: hwmon file selection, rate metrics,
//! memory-region reduction, per-process usage records and the Intel backend's
//! decision logic, all with proved contracts.
use vstd::prelude::*;

pub mod busy;
pub mod fdinfo;
pub mod freq;
pub mod hwmon;
pub mod intel;
pub mod names;
pub mod process;
pub mod rate;
pub mod text;
pub mod vram;

verus! {

} // verus!
