//! The optional hardware capabilities that validation may accept.
use vstd::prelude::*;

verus! {

/// A set of optional capabilities, one flag each.
#[derive(Clone, Copy, Debug, PartialEq, Eq, Structural)]
pub struct CapabilitySet {
    pub multiview: bool,
    pub subgroup: bool,
    pub subgroup_barrier: bool,
    pub clip_distance: bool,
    pub cull_distance: bool,
    pub shader_int64: bool,
    pub shader_int64_atomic_all_ops: bool,
    pub shader_int64_atomic_min_max: bool,
    pub float64: bool,
    pub texture_int64_atomic: bool,
}

/// The capabilities a user may unlock on top of the baseline.
#[derive(Clone, Copy, Debug, PartialEq, Eq, Structural)]
pub struct CapabilityOptions {
    pub int64: bool,
    pub atomic_u64: bool,
    pub atomic_u64_min_max: bool,
    pub float64: bool,
    pub texture_int64_atomic: bool,
}

/// Every capability of `a` is in `b`.
pub open spec fn is_subset(a: CapabilitySet, b: CapabilitySet) -> bool {
    &&& a.multiview ==> b.multiview
    &&& a.subgroup ==> b.subgroup
    &&& a.subgroup_barrier ==> b.subgroup_barrier
    &&& a.clip_distance ==> b.clip_distance
    &&& a.cull_distance ==> b.cull_distance
    &&& a.shader_int64 ==> b.shader_int64
    &&& a.shader_int64_atomic_all_ops ==> b.shader_int64_atomic_all_ops
    &&& a.shader_int64_atomic_min_max ==> b.shader_int64_atomic_min_max
    &&& a.float64 ==> b.float64
    &&& a.texture_int64_atomic ==> b.texture_int64_atomic
}

/// Multiview, subgroup operations and barriers, clip and cull distances.
pub open spec fn baseline_spec() -> CapabilitySet {
    CapabilitySet {
        multiview: true,
        subgroup: true,
        subgroup_barrier: true,
        clip_distance: true,
        cull_distance: true,
        shader_int64: false,
        shader_int64_atomic_all_ops: false,
        shader_int64_atomic_min_max: false,
        float64: false,
        texture_int64_atomic: false,
    }
}

/// The capabilities that are always allowed.
pub fn baseline() -> (r: CapabilitySet)
    ensures
        r == baseline_spec(),
{
    CapabilitySet {
        multiview: true,
        subgroup: true,
        subgroup_barrier: true,
        clip_distance: true,
        cull_distance: true,
        shader_int64: false,
        shader_int64_atomic_all_ops: false,
        shader_int64_atomic_min_max: false,
        float64: false,
        texture_int64_atomic: false,
    }
}

/// The baseline together with each capability that `opts` unlocks.
pub fn resolve_capabilities(opts: &CapabilityOptions) -> (r: CapabilitySet)
    ensures
        is_subset(baseline_spec(), r),
        r == (CapabilitySet {
            shader_int64: opts.int64,
            shader_int64_atomic_all_ops: opts.atomic_u64,
            shader_int64_atomic_min_max: opts.atomic_u64_min_max,
            float64: opts.float64,
            texture_int64_atomic: opts.texture_int64_atomic,
            ..baseline_spec()
        }),
{
    let mut caps = baseline();
    if opts.int64 {
        caps.shader_int64 = true;
    }
    if opts.atomic_u64 {
        caps.shader_int64_atomic_all_ops = true;
    }
    if opts.atomic_u64_min_max {
        caps.shader_int64_atomic_min_max = true;
    }
    if opts.float64 {
        caps.float64 = true;
    }
    if opts.texture_int64_atomic {
        caps.texture_int64_atomic = true;
    }
    caps
}

} // verus!
