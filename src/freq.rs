//! Frequency knobs and the files that hold them, per driver generation.
use vstd::prelude::*;

verus! {

/// The kernel driver generation of an Intel GPU.
#[derive(Clone, Copy, Debug, PartialEq, Eq)]
pub enum DriverType {
    I915,
    Xe,
}

/// A frequency knob, resolved to a file per driver generation.
#[derive(Clone, Copy, Debug, PartialEq, Eq)]
pub enum FrequencyType {
    Cur,
    Act,
    Boost,
    Min,
    Max,
    Rp0,
    Rpe,
    Rpn,
}

/// The directory that a frequency file's name is relative to.
#[derive(Clone, Copy, Debug, PartialEq, Eq)]
pub enum FreqBase {
    /// The parent of the device's attribute directory (the card directory).
    Card,
    /// The first `tile*/gt*` directory under the device's attribute directory.
    FirstTileGt,
}

#[derive(Clone, Copy, Debug, PartialEq, Eq)]
pub struct FreqFile {
    pub base: FreqBase,
    pub name: &'static str,
}

pub open spec fn i915_freq_name(f: FrequencyType) -> &'static str {
    match f {
        FrequencyType::Cur => "gt_cur_freq_mhz",
        FrequencyType::Act => "gt_act_freq_mhz",
        FrequencyType::Boost => "gt_boost_freq_mhz",
        FrequencyType::Min => "gt_min_freq_mhz",
        FrequencyType::Max => "gt_max_freq_mhz",
        FrequencyType::Rp0 => "gt_RP0_freq_mhz",
        FrequencyType::Rpe => "gt_RP1_freq_mhz",
        FrequencyType::Rpn => "gt_RPn_freq_mhz",
    }
}

pub open spec fn xe_freq_name(f: FrequencyType) -> Option<&'static str> {
    match f {
        FrequencyType::Cur => Some("freq0/cur_freq"),
        FrequencyType::Act => Some("freq0/act_freq"),
        FrequencyType::Boost => None,
        FrequencyType::Min => Some("freq0/min_freq"),
        FrequencyType::Max => Some("freq0/max_freq"),
        FrequencyType::Rp0 => Some("freq0/rp0_freq"),
        FrequencyType::Rpe => Some("freq0/rpe_freq"),
        FrequencyType::Rpn => Some("freq0/rpn_freq"),
    }
}

/// Where knob `f` lives: i915 keeps every knob in the card directory; xe
/// keeps all but the boost knob under the first tile's GT, and has none
/// without one.
pub open spec fn freq_file_of(driver: DriverType, f: FrequencyType, has_tile_gt: bool) -> Option<
    FreqFile,
> {
    match driver {
        DriverType::I915 => Some(FreqFile { base: FreqBase::Card, name: i915_freq_name(f) }),
        DriverType::Xe => if has_tile_gt {
            match xe_freq_name(f) {
                Some(name) => Some(FreqFile { base: FreqBase::FirstTileGt, name }),
                None => None,
            }
        } else {
            None
        },
    }
}

pub fn freq_file(driver: DriverType, f: FrequencyType, has_tile_gt: bool) -> (r: Option<FreqFile>)
    ensures
        r == freq_file_of(driver, f, has_tile_gt),
{
    match driver {
        DriverType::I915 => {
            let name = match f {
                FrequencyType::Cur => "gt_cur_freq_mhz",
                FrequencyType::Act => "gt_act_freq_mhz",
                FrequencyType::Boost => "gt_boost_freq_mhz",
                FrequencyType::Min => "gt_min_freq_mhz",
                FrequencyType::Max => "gt_max_freq_mhz",
                FrequencyType::Rp0 => "gt_RP0_freq_mhz",
                FrequencyType::Rpe => "gt_RP1_freq_mhz",
                FrequencyType::Rpn => "gt_RPn_freq_mhz",
            };
            Some(FreqFile { base: FreqBase::Card, name })
        },
        DriverType::Xe => {
            if !has_tile_gt {
                return None;
            }
            let name = match f {
                FrequencyType::Cur => "freq0/cur_freq",
                FrequencyType::Act => "freq0/act_freq",
                FrequencyType::Boost => {
                    return None;
                },
                FrequencyType::Min => "freq0/min_freq",
                FrequencyType::Max => "freq0/max_freq",
                FrequencyType::Rp0 => "freq0/rp0_freq",
                FrequencyType::Rpe => "freq0/rpe_freq",
                FrequencyType::Rpn => "freq0/rpn_freq",
            };
            Some(FreqFile { base: FreqBase::FirstTileGt, name })
        },
    }
}

pub open spec fn spec_label(f: FrequencyType) -> &'static str {
    match f {
        FrequencyType::Cur => "Current",
        FrequencyType::Act => "Actual",
        FrequencyType::Boost => "Boost",
        FrequencyType::Min => "Minimum",
        FrequencyType::Max => "Maximum",
        FrequencyType::Rp0 => "Maximum (RP0)",
        FrequencyType::Rpe => "Efficient (RPe)",
        FrequencyType::Rpn => "Minimum (RPn)",
    }
}

impl FrequencyType {
    /// The knob's name for display.
    pub fn label(&self) -> (r: &'static str)
        ensures
            r == spec_label(*self),
    {
        match self {
            FrequencyType::Cur => "Current",
            FrequencyType::Act => "Actual",
            FrequencyType::Boost => "Boost",
            FrequencyType::Min => "Minimum",
            FrequencyType::Max => "Maximum",
            FrequencyType::Rp0 => "Maximum (RP0)",
            FrequencyType::Rpe => "Efficient (RPe)",
            FrequencyType::Rpn => "Minimum (RPn)",
        }
    }
}

} // verus!
