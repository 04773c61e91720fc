use lact_daemon::vram::{
    device_type, summarize_i915, summarize_xe, DeviceType, I915Region, VramInfo,
    I915_MEMORY_CLASS_DEVICE, XE_MEM_REGION_CLASS_VRAM,
};
use lact_daemon::vram::XeRegion;

fn i915(class: u16, probed: u64, unallocated: u64, cpu: u64, cpu_free: u64) -> I915Region {
    I915Region {
        memory_class: class,
        probed_size: probed,
        unallocated_size: unallocated,
        probed_cpu_visible_size: cpu,
        unallocated_cpu_visible_size: cpu_free,
    }
}

#[test]
fn device_region_counts_system_region_does_not() {
    let regions = vec![i915(I915_MEMORY_CLASS_DEVICE, 1000, 200, 0, 0), i915(0, 5000, 100, 0, 0)];
    let info = summarize_i915(&regions);
    assert_eq!(info.total, 1000);
    assert_eq!(info.used, 800);
    assert_eq!(info.cpu_accessible_total, 0);
    assert_eq!(info.cpu_accessible_used, 0);
}

#[test]
fn i915_cpu_visible_window_is_summed() {
    let regions = vec![
        i915(I915_MEMORY_CLASS_DEVICE, 1000, 200, 256, 56),
        i915(I915_MEMORY_CLASS_DEVICE, 3000, 1000, 0, 999),
    ];
    let info = summarize_i915(&regions);
    assert_eq!(info.total, 4000);
    assert_eq!(info.used, 2800);
    assert_eq!(info.cpu_accessible_total, 256);
    assert_eq!(info.cpu_accessible_used, 200);
    assert!(!info.resizeable_bar());
}

#[test]
fn i915_no_regions_is_zero() {
    let info = summarize_i915(&vec![]);
    assert_eq!(info, VramInfo::zero());
    assert_eq!(device_type(&info), DeviceType::Integrated);
}

#[test]
fn i915_used_never_negative() {
    let info = summarize_i915(&vec![i915(I915_MEMORY_CLASS_DEVICE, 100, 300, 0, 0)]);
    assert_eq!(info.total, 100);
    assert_eq!(info.used, 0);
}

#[test]
fn i915_overflowing_sizes_give_zero() {
    let regions = vec![
        i915(I915_MEMORY_CLASS_DEVICE, u64::MAX, 0, 0, 0),
        i915(I915_MEMORY_CLASS_DEVICE, 1, 0, 0, 0),
    ];
    assert_eq!(summarize_i915(&regions), VramInfo::zero());
}

#[test]
fn xe_vram_regions_only() {
    let regions = vec![
        XeRegion { mem_class: XE_MEM_REGION_CLASS_VRAM, total_size: 8192, used: 1024, cpu_visible_size: 8192 },
        XeRegion { mem_class: 0, total_size: 65536, used: 4096, cpu_visible_size: 65536 },
    ];
    let info = summarize_xe(&regions);
    assert_eq!(info.total, 8192);
    assert_eq!(info.used, 1024);
    assert_eq!(info.cpu_accessible_total, 8192);
    assert_eq!(info.cpu_accessible_used, 0);
    assert!(info.resizeable_bar());
    assert_eq!(device_type(&info), DeviceType::Dedicated);
}

#[test]
fn xe_used_is_zero_without_total() {
    let regions = vec![XeRegion { mem_class: XE_MEM_REGION_CLASS_VRAM, total_size: 0, used: 5, cpu_visible_size: 0 }];
    let info = summarize_xe(&regions);
    assert_eq!(info.total, 0);
    assert_eq!(info.used, 0);
}
