//! Reduction of kernel-reported memory regions to a uniform VRAM summary.
use vstd::prelude::*;

verus! {

/// Memory class of device-local memory in the i915 region query.
pub const I915_MEMORY_CLASS_DEVICE: u16 = 1;

/// Memory class of VRAM in the xe region query.
pub const XE_MEM_REGION_CLASS_VRAM: u16 = 1;

/// One region reported by the i915 memory-region query.
#[derive(Clone, Copy, Debug, PartialEq, Eq)]
pub struct I915Region {
    pub memory_class: u16,
    pub probed_size: u64,
    pub unallocated_size: u64,
    pub probed_cpu_visible_size: u64,
    pub unallocated_cpu_visible_size: u64,
}

/// One region reported by the xe memory-region query.
#[derive(Clone, Copy, Debug, PartialEq, Eq)]
pub struct XeRegion {
    pub mem_class: u16,
    pub total_size: u64,
    pub used: u64,
    pub cpu_visible_size: u64,
}

/// VRAM usage in bytes.
#[derive(Clone, Copy, Debug, PartialEq, Eq)]
pub struct VramInfo {
    pub total: u64,
    pub used: u64,
    pub cpu_accessible_total: u64,
    pub cpu_accessible_used: u64,
}

impl VramInfo {
    /// The result of a failed probe: no dedicated memory.
    pub fn zero() -> (r: VramInfo)
        ensures
            r == VramInfo::spec_zero(),
    {
        VramInfo { total: 0, used: 0, cpu_accessible_total: 0, cpu_accessible_used: 0 }
    }

    pub open spec fn spec_zero() -> VramInfo {
        VramInfo { total: 0, used: 0, cpu_accessible_total: 0, cpu_accessible_used: 0 }
    }

    /// Whether the whole of VRAM is visible to the CPU.
    pub fn resizeable_bar(&self) -> (r: bool)
        ensures
            r == (self.cpu_accessible_total == self.total),
    {
        self.cpu_accessible_total == self.total
    }
}

/// Sum of `f` over the regions of `s` that `keep` selects.
pub open spec fn sum_i915(s: Seq<I915Region>, f: spec_fn(I915Region) -> int) -> int
    decreases s.len(),
{
    if s.len() == 0 {
        0
    } else {
        sum_i915(s.drop_last(), f) + if s.last().memory_class == I915_MEMORY_CLASS_DEVICE {
            f(s.last())
        } else {
            0
        }
    }
}

pub open spec fn i915_probed(r: I915Region) -> int {
    r.probed_size as int
}

pub open spec fn i915_unallocated(r: I915Region) -> int {
    r.unallocated_size as int
}

/// CPU-visible sizes count only for regions that report a visible part.
pub open spec fn i915_cpu_probed(r: I915Region) -> int {
    if r.probed_cpu_visible_size > 0 {
        r.probed_cpu_visible_size as int
    } else {
        0
    }
}

pub open spec fn i915_cpu_unallocated(r: I915Region) -> int {
    if r.probed_cpu_visible_size > 0 {
        r.unallocated_cpu_visible_size as int
    } else {
        0
    }
}

/// `total - part` when that is positive and `total` is, else zero.
pub open spec fn used_of(total: int, part: int) -> int {
    if total > 0 && part <= total {
        total - part
    } else {
        0
    }
}

pub open spec fn fits(x: int) -> bool {
    0 <= x <= u64::MAX
}

pub open spec fn i915_sums_fit(s: Seq<I915Region>) -> bool {
    fits(sum_i915(s, |r| i915_probed(r))) && fits(sum_i915(s, |r| i915_unallocated(r)))
        && fits(sum_i915(s, |r| i915_cpu_probed(r))) && fits(
        sum_i915(s, |r| i915_cpu_unallocated(r)),
    )
}

/// What the i915 region list reduces to.
pub open spec fn i915_summary(s: Seq<I915Region>) -> VramInfo {
    if i915_sums_fit(s) {
        let total = sum_i915(s, |r| i915_probed(r));
        let cpu_total = sum_i915(s, |r| i915_cpu_probed(r));
        VramInfo {
            total: total as u64,
            used: used_of(total, sum_i915(s, |r| i915_unallocated(r))) as u64,
            cpu_accessible_total: cpu_total as u64,
            cpu_accessible_used: used_of(cpu_total, sum_i915(s, |r| i915_cpu_unallocated(r))) as u64,
        }
    } else {
        VramInfo::spec_zero()
    }
}

proof fn lemma_sum_i915_nonneg(s: Seq<I915Region>, f: spec_fn(I915Region) -> int)
    requires
        forall|r: I915Region| #[trigger] f(r) >= 0,
    ensures
        sum_i915(s, f) >= 0,
    decreases s.len(),
{
    if s.len() > 0 {
        lemma_sum_i915_nonneg(s.drop_last(), f);
    }
}

proof fn lemma_sum_i915_prefix(s: Seq<I915Region>, i: int, f: spec_fn(I915Region) -> int)
    requires
        0 <= i <= s.len(),
        forall|r: I915Region| #[trigger] f(r) >= 0,
    ensures
        sum_i915(s.take(i), f) <= sum_i915(s, f),
    decreases s.len(),
{
    if i < s.len() {
        assert(s.drop_last().take(i) =~= s.take(i));
        lemma_sum_i915_prefix(s.drop_last(), i, f);
        lemma_sum_i915_nonneg(s.drop_last(), f);
    } else {
        assert(s.take(i) =~= s);
    }
}

/// Reduces the i915 region list: only device-class regions count, `used` is
/// `total - unallocated` and never negative. Sums beyond 64 bits cannot come
/// from real hardware and give the all-zero result of a failed probe.
pub fn summarize_i915(regions: &Vec<I915Region>) -> (r: VramInfo)
    ensures
        r == i915_summary(regions@),
{
    let ghost s = regions@;
    let mut total: u64 = 0;
    let mut unallocated: u64 = 0;
    let mut cpu_total: u64 = 0;
    let mut cpu_unallocated: u64 = 0;
    let mut i: usize = 0;
    while i < regions.len()
        invariant
            i <= regions.len(),
            s == regions@,
            total == sum_i915(s.take(i as int), |r| i915_probed(r)),
            unallocated == sum_i915(s.take(i as int), |r| i915_unallocated(r)),
            cpu_total == sum_i915(s.take(i as int), |r| i915_cpu_probed(r)),
            cpu_unallocated == sum_i915(s.take(i as int), |r| i915_cpu_unallocated(r)),
        decreases regions.len() - i,
    {
        let region = regions[i];
        proof {
            assert(s.take(i + 1).drop_last() =~= s.take(i as int));
            lemma_sum_i915_prefix(s, i + 1, |r| i915_probed(r));
            lemma_sum_i915_prefix(s, i + 1, |r| i915_unallocated(r));
            lemma_sum_i915_prefix(s, i + 1, |r| i915_cpu_probed(r));
            lemma_sum_i915_prefix(s, i + 1, |r| i915_cpu_unallocated(r));
        }
        if region.memory_class == I915_MEMORY_CLASS_DEVICE {
            let t = total.checked_add(region.probed_size);
            let u = unallocated.checked_add(region.unallocated_size);
            let (ct, cu) = if region.probed_cpu_visible_size > 0 {
                (
                    cpu_total.checked_add(region.probed_cpu_visible_size),
                    cpu_unallocated.checked_add(region.unallocated_cpu_visible_size),
                )
            } else {
                (Some(cpu_total), Some(cpu_unallocated))
            };
            match (t, u, ct, cu) {
                (Some(t), Some(u), Some(ct), Some(cu)) => {
                    total = t;
                    unallocated = u;
                    cpu_total = ct;
                    cpu_unallocated = cu;
                },
                _ => {
                    return VramInfo::zero();
                },
            }
        }
        i += 1;
    }
    proof {
        assert(s.take(i as int) =~= s);
    }
    let used = if total > 0 && unallocated <= total {
        total - unallocated
    } else {
        0
    };
    let cpu_used = if cpu_total > 0 && cpu_unallocated <= cpu_total {
        cpu_total - cpu_unallocated
    } else {
        0
    };
    VramInfo { total, used, cpu_accessible_total: cpu_total, cpu_accessible_used: cpu_used }
}


/// Sum of `f` over the VRAM-class regions of `s`.
pub open spec fn sum_xe(s: Seq<XeRegion>, f: spec_fn(XeRegion) -> int) -> int
    decreases s.len(),
{
    if s.len() == 0 {
        0
    } else {
        sum_xe(s.drop_last(), f) + if s.last().mem_class == XE_MEM_REGION_CLASS_VRAM {
            f(s.last())
        } else {
            0
        }
    }
}

pub open spec fn xe_total(r: XeRegion) -> int {
    r.total_size as int
}

pub open spec fn xe_used(r: XeRegion) -> int {
    r.used as int
}

pub open spec fn xe_cpu_visible(r: XeRegion) -> int {
    r.cpu_visible_size as int
}

pub open spec fn xe_sums_fit(s: Seq<XeRegion>) -> bool {
    fits(sum_xe(s, |r| xe_total(r))) && fits(sum_xe(s, |r| xe_used(r))) && fits(
        sum_xe(s, |r| xe_cpu_visible(r)),
    )
}

/// What the xe region list reduces to: the kernel reports `used` itself, and
/// not the used part of the CPU-visible window. Without VRAM nothing counts
/// as used.
pub open spec fn xe_summary(s: Seq<XeRegion>) -> VramInfo {
    if xe_sums_fit(s) {
        let total = sum_xe(s, |r| xe_total(r));
        VramInfo {
            total: total as u64,
            used: if total > 0 {
                sum_xe(s, |r| xe_used(r)) as u64
            } else {
                0
            },
            cpu_accessible_total: sum_xe(s, |r| xe_cpu_visible(r)) as u64,
            cpu_accessible_used: 0,
        }
    } else {
        VramInfo::spec_zero()
    }
}

proof fn lemma_sum_xe_nonneg(s: Seq<XeRegion>, f: spec_fn(XeRegion) -> int)
    requires
        forall|r: XeRegion| #[trigger] f(r) >= 0,
    ensures
        sum_xe(s, f) >= 0,
    decreases s.len(),
{
    if s.len() > 0 {
        lemma_sum_xe_nonneg(s.drop_last(), f);
    }
}

proof fn lemma_sum_xe_prefix(s: Seq<XeRegion>, i: int, f: spec_fn(XeRegion) -> int)
    requires
        0 <= i <= s.len(),
        forall|r: XeRegion| #[trigger] f(r) >= 0,
    ensures
        sum_xe(s.take(i), f) <= sum_xe(s, f),
    decreases s.len(),
{
    if i < s.len() {
        assert(s.drop_last().take(i) =~= s.take(i));
        lemma_sum_xe_prefix(s.drop_last(), i, f);
        lemma_sum_xe_nonneg(s.drop_last(), f);
    } else {
        assert(s.take(i) =~= s);
    }
}

/// Reduces the xe region list: only VRAM-class regions count. Sums beyond
/// 64 bits give the all-zero result of a failed probe.
pub fn summarize_xe(regions: &Vec<XeRegion>) -> (r: VramInfo)
    ensures
        r == xe_summary(regions@),
{
    let ghost s = regions@;
    let mut total: u64 = 0;
    let mut used: u64 = 0;
    let mut cpu_total: u64 = 0;
    let mut i: usize = 0;
    while i < regions.len()
        invariant
            i <= regions.len(),
            s == regions@,
            total == sum_xe(s.take(i as int), |r| xe_total(r)),
            used == sum_xe(s.take(i as int), |r| xe_used(r)),
            cpu_total == sum_xe(s.take(i as int), |r| xe_cpu_visible(r)),
        decreases regions.len() - i,
    {
        let region = regions[i];
        proof {
            assert(s.take(i + 1).drop_last() =~= s.take(i as int));
            lemma_sum_xe_prefix(s, i + 1, |r| xe_total(r));
            lemma_sum_xe_prefix(s, i + 1, |r| xe_used(r));
            lemma_sum_xe_prefix(s, i + 1, |r| xe_cpu_visible(r));
        }
        if region.mem_class == XE_MEM_REGION_CLASS_VRAM {
            match (
                total.checked_add(region.total_size),
                used.checked_add(region.used),
                cpu_total.checked_add(region.cpu_visible_size),
            ) {
                (Some(t), Some(u), Some(c)) => {
                    total = t;
                    used = u;
                    cpu_total = c;
                },
                _ => {
                    return VramInfo::zero();
                },
            }
        }
        i += 1;
    }
    proof {
        assert(s.take(i as int) =~= s);
    }
    let used = if total > 0 {
        used
    } else {
        0
    };
    VramInfo { total, used, cpu_accessible_total: cpu_total, cpu_accessible_used: 0 }
}

proof fn lemma_sum_i915_other_classes(s: Seq<I915Region>, t: Seq<I915Region>, f: spec_fn(
    I915Region,
) -> int)
    requires
        forall|k: int| 0 <= k < t.len() ==> (#[trigger] t[k]).memory_class != I915_MEMORY_CLASS_DEVICE,
    ensures
        sum_i915(s + t, f) == sum_i915(s, f),
    decreases t.len(),
{
    if t.len() == 0 {
        assert(s + t =~= s);
    } else {
        assert((s + t).drop_last() =~= s + t.drop_last());
        assert((s + t).last() == t[t.len() - 1]);
        lemma_sum_i915_other_classes(s, t.drop_last(), f);
    }
}

/// Regions of any class but device memory never count: adding them to an
/// i915 query result leaves its summary as it was.
pub proof fn lemma_i915_other_classes_ignored(s: Seq<I915Region>, t: Seq<I915Region>)
    requires
        forall|k: int| 0 <= k < t.len() ==> (#[trigger] t[k]).memory_class != I915_MEMORY_CLASS_DEVICE,
    ensures
        i915_summary(s + t) == i915_summary(s),
{
    lemma_sum_i915_other_classes(s, t, |r| i915_probed(r));
    lemma_sum_i915_other_classes(s, t, |r| i915_unallocated(r));
    lemma_sum_i915_other_classes(s, t, |r| i915_cpu_probed(r));
    lemma_sum_i915_other_classes(s, t, |r| i915_cpu_unallocated(r));
}

proof fn lemma_sum_xe_other_classes(s: Seq<XeRegion>, t: Seq<XeRegion>, f: spec_fn(XeRegion) -> int)
    requires
        forall|k: int| 0 <= k < t.len() ==> (#[trigger] t[k]).mem_class != XE_MEM_REGION_CLASS_VRAM,
    ensures
        sum_xe(s + t, f) == sum_xe(s, f),
    decreases t.len(),
{
    if t.len() == 0 {
        assert(s + t =~= s);
    } else {
        assert((s + t).drop_last() =~= s + t.drop_last());
        assert((s + t).last() == t[t.len() - 1]);
        lemma_sum_xe_other_classes(s, t.drop_last(), f);
    }
}

/// Regions of any class but VRAM never count: adding them to an xe query
/// result leaves its summary as it was.
pub proof fn lemma_xe_other_classes_ignored(s: Seq<XeRegion>, t: Seq<XeRegion>)
    requires
        forall|k: int| 0 <= k < t.len() ==> (#[trigger] t[k]).mem_class != XE_MEM_REGION_CLASS_VRAM,
    ensures
        xe_summary(s + t) == xe_summary(s),
{
    lemma_sum_xe_other_classes(s, t, |r| xe_total(r));
    lemma_sum_xe_other_classes(s, t, |r| xe_used(r));
    lemma_sum_xe_other_classes(s, t, |r| xe_cpu_visible(r));
}

/// Whether a GPU carries memory of its own.
#[derive(Clone, Copy, Debug, PartialEq, Eq)]
pub enum DeviceType {
    Dedicated,
    Integrated,
}

/// A GPU is dedicated exactly when it reports VRAM.
pub fn device_type(vram: &VramInfo) -> (r: DeviceType)
    ensures
        r == (if vram.total > 0 {
            DeviceType::Dedicated
        } else {
            DeviceType::Integrated
        }),
{
    if vram.total > 0 {
        DeviceType::Dedicated
    } else {
        DeviceType::Integrated
    }
}

} // verus!
