//! Decisions of the Intel backend over plain readings: which writes a
//! configuration makes, what a stats snapshot and a clocks table hold.
use vstd::prelude::*;
use crate::vram::VramInfo;

verus! {

/// The knobs that a configuration may set. The power cap is in microwatts.
#[derive(Clone, Copy, Debug, PartialEq, Eq)]
pub struct GpuConfig {
    pub max_core_clock: Option<i32>,
    pub min_core_clock: Option<i32>,
    pub power_cap_uw: Option<u64>,
}

/// One write of a knob: a clock in MHz, or the power cap in microwatts.
#[derive(Clone, Copy, Debug, PartialEq, Eq)]
pub enum KnobWrite {
    MaxClock(i64),
    MinClock(i64),
    PowerCap(u64),
}

/// The writes that `config` asks for, in the order they are made: maximum
/// clock, minimum clock, power cap, each only when set.
pub open spec fn config_writes_of(config: GpuConfig) -> Seq<KnobWrite> {
    let a: Seq<KnobWrite> = match config.max_core_clock {
        Some(c) => seq![KnobWrite::MaxClock(c as i64)],
        None => seq![],
    };
    let b: Seq<KnobWrite> = match config.min_core_clock {
        Some(c) => seq![KnobWrite::MinClock(c as i64)],
        None => seq![],
    };
    let c: Seq<KnobWrite> = match config.power_cap_uw {
        Some(p) => seq![KnobWrite::PowerCap(p)],
        None => seq![],
    };
    a + b + c
}

/// The writes that applying `config` makes. They are made one at a time;
/// the first that fails ends the application and is reported, and the ones
/// before it stay applied.
pub fn config_writes(config: &GpuConfig) -> (r: Vec<KnobWrite>)
    ensures
        r@ == config_writes_of(*config),
{
    let mut out: Vec<KnobWrite> = Vec::new();
    if let Some(c) = config.max_core_clock {
        out.push(KnobWrite::MaxClock(c as i64));
    }
    if let Some(c) = config.min_core_clock {
        out.push(KnobWrite::MinClock(c as i64));
    }
    if let Some(p) = config.power_cap_uw {
        out.push(KnobWrite::PowerCap(p));
    }
    assert(out@ =~= config_writes_of(*config));
    out
}

/// A configuration that sets only the maximum clock makes one write, of
/// that clock, and leaves the power cap alone.
pub proof fn lemma_only_max_clock_writes_once(c: i32)
    ensures
        config_writes_of(GpuConfig { max_core_clock: Some(c), min_core_clock: None, power_cap_uw: None })
            =~= seq![KnobWrite::MaxClock(c as i64)],
{
}

/// The writes that restore the clock range to the rated one: the maximum
/// clock to RP0 and the minimum to RPn, each when it reads and fits a clock
/// value. A failure of one does not stop the other.
pub open spec fn reset_writes_of(rp0: Option<u64>, rpn: Option<u64>) -> Seq<KnobWrite> {
    let a: Seq<KnobWrite> = match rp0 {
        Some(v) => if v <= i64::MAX {
            seq![KnobWrite::MaxClock(v as i64)]
        } else {
            seq![]
        },
        None => seq![],
    };
    let b: Seq<KnobWrite> = match rpn {
        Some(v) => if v <= i64::MAX {
            seq![KnobWrite::MinClock(v as i64)]
        } else {
            seq![]
        },
        None => seq![],
    };
    a + b
}

pub fn reset_clock_writes(rp0: Option<u64>, rpn: Option<u64>) -> (r: Vec<KnobWrite>)
    ensures
        r@ == reset_writes_of(rp0, rpn),
{
    let mut out: Vec<KnobWrite> = Vec::new();
    if let Some(v) = rp0 {
        if v <= i64::MAX as u64 {
            out.push(KnobWrite::MaxClock(v as i64));
        }
    }
    if let Some(v) = rpn {
        if v <= i64::MAX as u64 {
            out.push(KnobWrite::MinClock(v as i64));
        }
    }
    assert(out@ =~= reset_writes_of(rp0, rpn));
    out
}

/// The rated and configured clock points, in MHz.
#[derive(Clone, Copy, Debug, PartialEq, Eq)]
pub struct IntelClocksTable {
    pub gt_freq: Option<(u64, u64)>,
    pub rp0_freq: Option<u64>,
    pub rpe_freq: Option<u64>,
    pub rpn_freq: Option<u64>,
}

pub open spec fn clocks_table_of(
    min: Option<u64>,
    max: Option<u64>,
    rp0: Option<u64>,
    rpe: Option<u64>,
    rpn: Option<u64>,
) -> Option<IntelClocksTable> {
    let gt_freq = match (min, max) {
        (Some(a), Some(b)) => Some((a, b)),
        _ => None,
    };
    if gt_freq is None && rp0 is None && rpe is None && rpn is None {
        None
    } else {
        Some(IntelClocksTable { gt_freq, rp0_freq: rp0, rpe_freq: rpe, rpn_freq: rpn })
    }
}

/// The clocks table: the configured range when both ends read, and the
/// rated points; none when nothing reads at all.
pub fn clocks_table(
    min: Option<u64>,
    max: Option<u64>,
    rp0: Option<u64>,
    rpe: Option<u64>,
    rpn: Option<u64>,
) -> (r: Option<IntelClocksTable>)
    ensures
        r == clocks_table_of(min, max, rp0, rpe, rpn),
{
    let gt_freq = match (min, max) {
        (Some(a), Some(b)) => Some((a, b)),
        _ => None,
    };
    if gt_freq.is_none() && rp0.is_none() && rpe.is_none() && rpn.is_none() {
        None
    } else {
        Some(IntelClocksTable { gt_freq, rp0_freq: rp0, rpe_freq: rpe, rpn_freq: rpn })
    }
}

pub open spec fn present(v: Option<u64>) -> Seq<u64> {
    match v {
        Some(x) => seq![x],
        None => seq![],
    }
}

/// The core power states: the RPn, RPe, RP0 and boost clocks that read, in
/// that order.
pub fn core_power_states(rpn: Option<u64>, rpe: Option<u64>, rp0: Option<u64>, boost: Option<u64>) -> (r:
    Vec<u64>)
    ensures
        r@ == present(rpn) + present(rpe) + present(rp0) + present(boost),
{
    let mut out: Vec<u64> = Vec::new();
    if let Some(v) = rpn {
        out.push(v);
    }
    if let Some(v) = rpe {
        out.push(v);
    }
    if let Some(v) = rp0 {
        out.push(v);
    }
    if let Some(v) = boost {
        out.push(v);
    }
    assert(out@ =~= present(rpn) + present(rpe) + present(rp0) + present(boost));
    out
}

/// Raw readings of one poll, as the sysfs files give them.
#[derive(Clone, Copy, Debug, PartialEq, Eq)]
pub struct SensorReadings {
    /// Current and actual GPU clock, MHz.
    pub cur_freq: Option<u64>,
    pub act_freq: Option<u64>,
    /// Power cap and rated maximum cap, microwatts.
    pub cap_uw: Option<u64>,
    pub rated_max_uw: Option<u64>,
    /// Power draw, microwatts.
    pub power_uw: Option<u64>,
    /// GPU voltage, millivolts; fan speed, RPM.
    pub voltage_mv: Option<u64>,
    pub fan_rpm: Option<u64>,
    pub busy_percent: Option<u8>,
    pub vram: VramInfo,
}

/// A stats snapshot. Power values are in microwatts.
#[derive(Clone, Copy, Debug, PartialEq, Eq)]
pub struct StatsSnapshot {
    pub gpu_clockspeed: Option<u64>,
    pub current_gfxclk: Option<u64>,
    pub power_current_uw: Option<u64>,
    pub cap_current_uw: Option<u64>,
    pub cap_min_uw: Option<u64>,
    pub cap_max_uw: Option<u64>,
    pub cap_default_uw: Option<u64>,
    pub voltage_mv: Option<u64>,
    pub fan_rpm: Option<u64>,
    pub busy_percent: Option<u8>,
    pub vram_total: Option<u64>,
    pub vram_used: Option<u64>,
}

pub open spec fn nonzero(v: Option<u64>) -> Option<u64> {
    match v {
        Some(x) => if x != 0 {
            Some(x)
        } else {
            None
        },
        None => None,
    }
}

/// The highest cap: the rated one when it is not zero, else twice the cap in
/// force, held to 64 bits. A cap of zero (disabled) gives zero.
pub open spec fn cap_max_of(cap_uw: Option<u64>, rated_max_uw: Option<u64>) -> Option<u64> {
    match nonzero(rated_max_uw) {
        Some(m) => Some(m),
        None => match cap_uw {
            Some(c) => if 2 * c <= u64::MAX {
                Some((2 * c) as u64)
            } else {
                Some(u64::MAX)
            },
            None => None,
        },
    }
}

pub open spec fn stats_of(r: SensorReadings, initial_cap_uw: Option<u64>) -> StatsSnapshot {
    StatsSnapshot {
        gpu_clockspeed: match nonzero(r.act_freq) {
            Some(a) => Some(a),
            None => r.cur_freq,
        },
        current_gfxclk: r.cur_freq,
        power_current_uw: r.power_uw,
        cap_current_uw: r.cap_uw,
        cap_min_uw: Some(0),
        cap_max_uw: cap_max_of(r.cap_uw, r.rated_max_uw),
        cap_default_uw: initial_cap_uw,
        voltage_mv: r.voltage_mv,
        fan_rpm: r.fan_rpm,
        busy_percent: r.busy_percent,
        vram_total: nonzero(Some(r.vram.total)),
        vram_used: if r.vram.total == 0 {
            None
        } else {
            nonzero(Some(r.vram.used))
        },
    }
}

/// The cap to restore by default: the cap found when the device was first
/// seen, unless it was disabled (zero) or did not read.
pub fn default_power_cap(first: &StatsSnapshot) -> (r: Option<u64>)
    ensures
        r == nonzero(first.cap_current_uw),
{
    keep_nonzero(first.cap_current_uw)
}

fn keep_nonzero(v: Option<u64>) -> (r: Option<u64>)
    ensures
        r == nonzero(v),
{
    match v {
        Some(x) => if x != 0 {
            Some(x)
        } else {
            None
        },
        None => None,
    }
}

/// Composes a stats snapshot from one poll's readings. The GPU clock is the
/// actual one unless it reads zero or not at all; a power cap of zero
/// (disabled) stays zero; a VRAM size of zero is reported as absent, and so
/// is the used size when the total is zero; `initial_cap_uw` is the cap found when the device was
/// first seen.
pub fn compose_stats(r: &SensorReadings, initial_cap_uw: Option<u64>) -> (s: StatsSnapshot)
    ensures
        s == stats_of(*r, initial_cap_uw),
{
    let gpu_clockspeed = match keep_nonzero(r.act_freq) {
        Some(a) => Some(a),
        None => r.cur_freq,
    };
    let cap_current_uw = r.cap_uw;
    let cap_max_uw = match keep_nonzero(r.rated_max_uw) {
        Some(m) => Some(m),
        None => match cap_current_uw {
            Some(c) => Some(
                if c <= u64::MAX / 2 {
                    c * 2
                } else {
                    u64::MAX
                },
            ),
            None => None,
        },
    };
    StatsSnapshot {
        gpu_clockspeed,
        current_gfxclk: r.cur_freq,
        power_current_uw: r.power_uw,
        cap_current_uw,
        cap_min_uw: Some(0),
        cap_max_uw,
        cap_default_uw: initial_cap_uw,
        voltage_mv: r.voltage_mv,
        fan_rpm: r.fan_rpm,
        busy_percent: r.busy_percent,
        vram_total: keep_nonzero(Some(r.vram.total)),
        vram_used: if r.vram.total == 0 {
            None
        } else {
            keep_nonzero(Some(r.vram.used))
        },
    }
}

} // verus!
