use vstd::prelude::*;

use crate::strutil::{dec_str, push_dec};

verus! {

/// Threads per workgroup along each axis of the generated kernels.
#[derive(Debug, Copy, Clone, PartialEq, Eq, Hash, Structural)]
pub struct WorkgroupSize {
    pub x: u32,
    pub y: u32,
    pub z: u32,
}

/// Key text of a workgroup size: the three extents joined by underscores.
pub open spec fn wgs_key_str(w: WorkgroupSize) -> Seq<char> {
    dec_str(w.x as int) + "_"@ + dec_str(w.y as int) + "_"@ + dec_str(w.z as int)
}

impl WorkgroupSize {
    pub fn new(x: u32, y: u32, z: u32) -> (r: Self)
        ensures
            r == (WorkgroupSize { x, y, z }),
    {
        WorkgroupSize { x, y, z }
    }

    /// The total thread count of one workgroup.
    pub open spec fn product(self) -> int {
        self.x as int * self.y as int * self.z as int
    }

    /// Rendering used inside kernel cache keys.
    pub fn as_key(&self) -> (r: String)
        ensures
            r@ == wgs_key_str(*self),
    {
        let mut s = String::new();
        push_dec(&mut s, self.x);
        s.append("_");
        push_dec(&mut s, self.y);
        s.append("_");
        push_dec(&mut s, self.z);
        proof {
            assert(s@ =~= wgs_key_str(*self));
        }
        s
    }
}

/// Number of workgroups dispatched along each axis.
#[derive(Debug, Copy, Clone, PartialEq, Eq, Hash, Structural)]
pub struct WorkgroupCount {
    pub x: u32,
    pub y: u32,
    pub z: u32,
}

impl WorkgroupCount {
    /// Ceiling division, as used to round element counts up to whole
    /// workgroups.
    pub fn div_ceil(num: usize, div: usize) -> (r: usize)
        requires
            div > 0,
        ensures
            r == spec_div_ceil(num as int, div as int),
    {
        if num == 0 {
            proof {
                let d = div as int;
                assert((0 + d - 1) / d == 0) by (nonlinear_arith)
                    requires
                        d > 0,
                ;
            }
            0
        } else {
            let r: usize = (num - 1) / div + 1;
            proof {
                let n = num as int;
                let d = div as int;
                assert((n - 1) / d + 1 == (n + d - 1) / d) by (nonlinear_arith)
                    requires
                        d > 0,
                        n >= 1,
                ;
            }
            r
        }
    }
}

pub open spec fn spec_div_ceil(num: int, div: int) -> int {
    (num + div - 1) / div
}

/// Everything a dispatch needs: how many workgroups of what size.
#[derive(Debug, Copy, Clone, PartialEq, Eq, Hash, Structural)]
pub struct Workload {
    pub workgroup_count: WorkgroupCount,
    pub workgroup_size: WorkgroupSize,
}

/// Most workgroups the device accepts along one dispatch axis.
pub const MAX_WORKGROUPS_PER_AXIS: u32 = 65535;

/// The standard workload for `numel` elements at `elements_per_thread`
/// each: the needed thread count rounded up to whole 64-thread groups,
/// laid along one axis, and folded into a second axis once the per-axis
/// cap is exceeded.
pub open spec fn standard_workload_spec(numel: int, elements_per_thread: int) -> Workload {
    let groups = spec_div_ceil(spec_div_ceil(numel, elements_per_thread), 64);
    if groups <= MAX_WORKGROUPS_PER_AXIS as int {
        Workload {
            workgroup_count: WorkgroupCount { x: groups as u32, y: 1u32, z: 1u32 },
            workgroup_size: WorkgroupSize { x: 64u32, y: 1u32, z: 1u32 },
        }
    } else {
        Workload {
            workgroup_count: WorkgroupCount {
                x: MAX_WORKGROUPS_PER_AXIS,
                y: spec_div_ceil(groups, MAX_WORKGROUPS_PER_AXIS as int) as u32,
                z: 1u32,
            },
            workgroup_size: WorkgroupSize { x: 64u32, y: 1u32, z: 1u32 },
        }
    }
}

impl Workload {
    /// Computes the standard workload exactly as its defining function
    /// gives it.
    pub fn standard(numel: usize, elements_per_thread: usize) -> (r: Workload)
        requires
            1 <= elements_per_thread <= 4,
            numel <= u32::MAX,
        ensures
            r == standard_workload_spec(numel as int, elements_per_thread as int),
    {
        let threads: usize = WorkgroupCount::div_ceil(numel, elements_per_thread);
        let groups: usize = WorkgroupCount::div_ceil(threads, 64);
        let count = if groups <= MAX_WORKGROUPS_PER_AXIS as usize {
            WorkgroupCount { x: groups as u32, y: 1, z: 1 }
        } else {
            let y: usize = WorkgroupCount::div_ceil(groups, MAX_WORKGROUPS_PER_AXIS as usize);
            assert(y <= u32::MAX) by {
                assert(groups <= u32::MAX);
            }
            WorkgroupCount { x: MAX_WORKGROUPS_PER_AXIS, y: y as u32, z: 1 }
        };
        Workload { workgroup_count: count, workgroup_size: WorkgroupSize { x: 64, y: 1, z: 1 } }
    }
}

} // verus!
