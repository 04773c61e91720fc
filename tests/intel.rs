use lact_daemon::freq::{freq_file, DriverType, FreqBase, FreqFile, FrequencyType};
use lact_daemon::intel::{
    clocks_table, compose_stats, config_writes, core_power_states, reset_clock_writes, GpuConfig,
    IntelClocksTable, KnobWrite, SensorReadings, default_power_cap,
};
use lact_daemon::vram::VramInfo;

#[test]
fn only_max_clock_makes_one_write() {
    let config = GpuConfig { max_core_clock: Some(2000), min_core_clock: None, power_cap_uw: None };
    assert_eq!(config_writes(&config), vec![KnobWrite::MaxClock(2000)]);
}

#[test]
fn all_knobs_in_order() {
    let config = GpuConfig { max_core_clock: Some(2000), min_core_clock: Some(300), power_cap_uw: Some(150_000_000) };
    assert_eq!(
        config_writes(&config),
        vec![KnobWrite::MaxClock(2000), KnobWrite::MinClock(300), KnobWrite::PowerCap(150_000_000)]
    );
    let empty = GpuConfig { max_core_clock: None, min_core_clock: None, power_cap_uw: None };
    assert!(config_writes(&empty).is_empty());
}

#[test]
fn reset_restores_rated_range() {
    assert_eq!(reset_clock_writes(Some(2400), Some(300)), vec![KnobWrite::MaxClock(2400), KnobWrite::MinClock(300)]);
    assert_eq!(reset_clock_writes(None, Some(300)), vec![KnobWrite::MinClock(300)]);
    assert_eq!(reset_clock_writes(Some(u64::MAX), None), vec![]);
}

#[test]
fn clocks_table_cases() {
    assert_eq!(clocks_table(None, None, None, None, None), None);
    assert_eq!(
        clocks_table(Some(300), Some(2000), Some(2400), None, Some(300)),
        Some(IntelClocksTable { gt_freq: Some((300, 2000)), rp0_freq: Some(2400), rpe_freq: None, rpn_freq: Some(300) })
    );
    assert_eq!(clocks_table(Some(300), None, None, None, None), None);
    assert_eq!(
        clocks_table(Some(300), None, None, Some(900), None),
        Some(IntelClocksTable { gt_freq: None, rp0_freq: None, rpe_freq: Some(900), rpn_freq: None })
    );
}

#[test]
fn power_states_in_order() {
    assert_eq!(core_power_states(Some(300), None, Some(2400), Some(2100)), vec![300, 2400, 2100]);
}

fn readings() -> SensorReadings {
    SensorReadings {
        cur_freq: Some(1200),
        act_freq: Some(0),
        cap_uw: Some(0),
        rated_max_uw: None,
        power_uw: Some(9_000_000),
        voltage_mv: Some(750),
        fan_rpm: None,
        busy_percent: Some(12),
        vram: VramInfo { total: 0, used: 0, cpu_accessible_total: 0, cpu_accessible_used: 0 },
    }
}

#[test]
fn stats_fall_back_and_disabled_cap_stays_zero() {
    let s = compose_stats(&readings(), None);
    assert_eq!(s.gpu_clockspeed, Some(1200));
    assert_eq!(s.current_gfxclk, Some(1200));
    assert_eq!(s.cap_current_uw, Some(0));
    assert_eq!(s.cap_max_uw, Some(0));
    assert_eq!(s.cap_min_uw, Some(0));
    assert_eq!(s.cap_default_uw, None);
    assert_eq!(default_power_cap(&s), None);
    assert_eq!(s.vram_total, None);
    assert_eq!(s.vram_used, None);
    assert_eq!(s.power_current_uw, Some(9_000_000));
    assert_eq!(s.busy_percent, Some(12));
}

#[test]
fn stats_with_actual_clock_and_rated_cap() {
    let mut r = readings();
    r.act_freq = Some(1500);
    r.cap_uw = Some(120_000_000);
    r.rated_max_uw = Some(190_000_000);
    r.vram = VramInfo { total: 8192, used: 100, cpu_accessible_total: 8192, cpu_accessible_used: 0 };
    let s = compose_stats(&r, None);
    assert_eq!(s.gpu_clockspeed, Some(1500));
    assert_eq!(s.cap_current_uw, Some(120_000_000));
    assert_eq!(s.cap_max_uw, Some(190_000_000));
    assert_eq!(s.vram_total, Some(8192));
    assert_eq!(s.vram_used, Some(100));
}

#[test]
fn frequency_files_per_driver() {
    assert_eq!(
        freq_file(DriverType::I915, FrequencyType::Rpe, false),
        Some(FreqFile { base: FreqBase::Card, name: "gt_RP1_freq_mhz" })
    );
    assert_eq!(
        freq_file(DriverType::Xe, FrequencyType::Max, true),
        Some(FreqFile { base: FreqBase::FirstTileGt, name: "freq0/max_freq" })
    );
    assert_eq!(freq_file(DriverType::Xe, FrequencyType::Boost, true), None);
    assert_eq!(freq_file(DriverType::Xe, FrequencyType::Cur, false), None);
    assert_eq!(FrequencyType::Rpn.label(), "Minimum (RPn)");
}

#[test]
fn cap_max_is_twice_the_cap_without_rated_max() {
    let mut r = readings();
    r.cap_uw = Some(60_000_000);
    let s = compose_stats(&r, Some(60_000_000));
    assert_eq!(s.cap_max_uw, Some(120_000_000));
    assert_eq!(s.cap_default_uw, Some(60_000_000));
    assert_eq!(default_power_cap(&s), Some(60_000_000));
}

#[test]
fn used_vram_hidden_without_total() {
    let mut r = readings();
    r.vram = VramInfo { total: 0, used: 5, cpu_accessible_total: 0, cpu_accessible_used: 0 };
    let s = compose_stats(&r, None);
    assert_eq!(s.vram_total, None);
    assert_eq!(s.vram_used, None);
}
