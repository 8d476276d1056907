use vstd::prelude::*;

use crate::allocator::BufferMap;
use crate::op::{KernelKey, OperationError, PoolError};
use crate::pool::PooledGPUBuffer;
use crate::resources::ResourcePools;
use crate::tensor::Tensor;
use crate::workload::WorkgroupCount;

verus! {

/// The device-side uniform buffer shared by all compiled ops.
#[derive(Debug, Copy, Clone, PartialEq, Eq, Structural)]
pub struct GpuUniform {
    pub buf: PooledGPUBuffer,
}

/// The buffers one storage bind group binds, in binding order.
#[derive(Debug)]
pub struct BindGroupEntries {
    pub buffers: Vec<u64>,
}

impl View for BindGroupEntries {
    type V = Seq<u64>;

    open spec fn view(&self) -> Seq<u64> {
        self.buffers@
    }
}

/// One ready-to-dispatch operation: pipeline, workload, bindings and its
/// byte offset into the shared uniform buffer.
#[derive(Debug)]
pub struct CompiledOp {
    pub pipeline_handle: usize,
    pub workgroup_count: WorkgroupCount,
    pub storage_groups: Vec<BindGroupEntries>,
    pub offset: u64,
    pub kernel_key: KernelKey,
}

impl CompiledOp {
    pub fn new(
        pipeline_handle: usize,
        workgroup_count: WorkgroupCount,
        storage_groups: Vec<BindGroupEntries>,
        offset: u64,
        kernel_key: KernelKey,
    ) -> (r: CompiledOp)
        ensures
            r.pipeline_handle == pipeline_handle,
            r.workgroup_count == workgroup_count,
            r.storage_groups == storage_groups,
            r.offset == offset,
            r.kernel_key == kernel_key,
    {
        CompiledOp { pipeline_handle, workgroup_count, storage_groups, offset, kernel_key }
    }

    /// The handles bound by the op's storage group: each source's buffer
    /// in order and, unless the op runs in place over a surviving alias,
    /// the destination's buffer last.
    pub fn create_storage_bind_groups(
        srcs: &Vec<&Tensor>,
        dst: &Tensor,
        assignments: &BufferMap,
        inplace: bool,
    ) -> (r: Result<Vec<BindGroupEntries>, OperationError>)
        requires
            forall|k: int|
                0 <= k < srcs@.len() ==> (#[trigger] assignments.get_spec(
                    srcs.deep_view()[k].id,
                )) is Some,
            assignments.get_spec(dst@.id) is Some,
        ensures
            r matches Ok(groups) && groups@.len() == 1 && groups@[0]@.len() == srcs@.len() + (
            if inplace {
                0int
            } else {
                1int
            }) && (forall|k: int|
                0 <= k < srcs@.len() ==> groups@[0]@[k] == assignments.get_spec(
                    srcs.deep_view()[k].id,
                )->Some_0.0.handle) && (!inplace ==> groups@[0]@[srcs@.len() as int]
                == assignments.get_spec(dst@.id)->Some_0.0.handle),
    {
        let mut buffers: Vec<u64> = Vec::new();
        let n: usize = srcs.len();
        let mut k: usize = 0;
        while k < n
            invariant
                k <= n,
                n == srcs@.len(),
                forall|k2: int|
                    0 <= k2 < srcs@.len() ==> (#[trigger] assignments.get_spec(
                        srcs.deep_view()[k2].id,
                    )) is Some,
                buffers@.len() == k,
                forall|k2: int|
                    0 <= k2 < k ==> buffers@[k2] == assignments.get_spec(
                        srcs.deep_view()[k2].id,
                    )->Some_0.0.handle,
            decreases n - k,
        {
            proof {
                assert(srcs.deep_view()[k as int] == srcs@[k as int].deep_view());
            }
            proof {
                assert(assignments.get_spec(srcs.deep_view()[k as int].id) is Some);
            }
            match assignments.get(srcs[k].id) {
                Some(b) => {
                    buffers.push(b.0.handle);
                },
                None => {
                    proof {
                        assert(false);
                    }
                },
            }
            k = k + 1;
        }
        if !inplace {
            match assignments.get(dst.id) {
                Some(b) => {
                    buffers.push(b.0.handle);
                },
                None => {
                    proof {
                        assert(false);
                    }
                },
            }
        }
        let mut groups: Vec<BindGroupEntries> = Vec::new();
        groups.push(BindGroupEntries { buffers });
        Ok(groups)
    }
}

/// Failure at dispatch time.
#[derive(Debug, Copy, Clone, PartialEq, Eq, Structural)]
pub enum ExecutionError {
    PipelineNotFound(PoolError),
}

/// One command of the encoded dispatch stream; `SetStorageGroup` points at
/// a bind group of the named step.
#[derive(Debug, Copy, Clone, PartialEq, Eq, Structural)]
pub enum DispatchCommand {
    SetPipeline(usize),
    SetStorageGroup { slot: usize, step: usize, group: usize },
    SetUniformGroup { slot: usize, offset: u64 },
    Dispatch { x: u32, y: u32, z: u32 },
}

/// The command block of step `si`: bind its pipeline, its storage groups
/// at ascending slots from zero, the shared uniform group at the next slot
/// with the step's dynamic offset, then dispatch its workgroups.
pub open spec fn step_commands(step: &CompiledOp, si: int) -> Seq<DispatchCommand> {
    seq![DispatchCommand::SetPipeline(step.pipeline_handle)] + Seq::new(
        step.storage_groups@.len(),
        |g: int|
            DispatchCommand::SetStorageGroup {
                slot: g as usize,
                step: si as usize,
                group: g as usize,
            },
    ) + seq![
        DispatchCommand::SetUniformGroup {
            slot: step.storage_groups@.len() as usize,
            offset: step.offset,
        },
        DispatchCommand::Dispatch {
            x: step.workgroup_count.x,
            y: step.workgroup_count.y,
            z: step.workgroup_count.z,
        },
    ]
}

/// The command blocks of the first `k` steps, in step order.
pub open spec fn steps_commands(steps: Seq<CompiledOp>, k: int) -> Seq<DispatchCommand>
    decreases k,
{
    if k <= 0 {
        Seq::<DispatchCommand>::empty()
    } else {
        steps_commands(steps, k - 1) + step_commands(&steps[k - 1], k - 1)
    }
}

/// A linear sequence of compiled operations, with a single uniform buffer
/// containing metadata for all operations.
#[derive(Debug)]
pub struct Executable {
    pub steps: Vec<CompiledOp>,
    pub gpu_uniform: GpuUniform,
}

impl Executable {
    /// Packages the compiled ops; their order — the compilation order,
    /// which is the graph's topological order — is kept exactly.
    pub fn new(steps: Vec<CompiledOp>, gpu_uniform: GpuUniform) -> (r: Executable)
        ensures
            r.steps == steps,
            r.gpu_uniform == gpu_uniform,
    {
        Executable { steps, gpu_uniform }
    }

    /// Encodes the dispatch stream: exactly one command block per compiled
    /// op, in the ops' order. Fails only on a pipeline handle the pool
    /// never vended.
    pub fn dispatch_operations(&self, pools: &ResourcePools) -> (r: Result<
        Vec<DispatchCommand>,
        ExecutionError,
    >)
        ensures
            r matches Ok(cmds) ==> cmds@ == steps_commands(self.steps@, self.steps@.len() as int),
            r is Ok <==> (forall|si: int|
                0 <= si < self.steps@.len() ==> (#[trigger] self.steps@[si].pipeline_handle)
                    < pools.pipelines@.len()),
    {
        let mut cmds: Vec<DispatchCommand> = Vec::new();
        let n: usize = self.steps.len();
        let mut si: usize = 0;
        while si < n
            invariant
                si <= n,
                n == self.steps@.len(),
                cmds@ == steps_commands(self.steps@, si as int),
                forall|s2: int|
                    0 <= s2 < si ==> (#[trigger] self.steps@[s2].pipeline_handle)
                        < pools.pipelines@.len(),
            decreases n - si,
        {
            let step = &self.steps[si];
            if step.pipeline_handle >= pools.pipelines.len() {
                return Err(ExecutionError::PipelineNotFound(PoolError::ResourceNotFound));
            }
            cmds.push(DispatchCommand::SetPipeline(step.pipeline_handle));
            let ng: usize = step.storage_groups.len();
            let mut g: usize = 0;
            while g < ng
                invariant
                    g <= ng,
                    si < n,
                    n == self.steps@.len(),
                    ng == self.steps@[si as int].storage_groups@.len(),
                    cmds@ == steps_commands(self.steps@, si as int) + seq![
                        DispatchCommand::SetPipeline(self.steps@[si as int].pipeline_handle),
                    ] + Seq::new(
                        g as nat,
                        |g2: int|
                            DispatchCommand::SetStorageGroup {
                                slot: g2 as usize,
                                step: si as usize,
                                group: g2 as usize,
                            },
                    ),
                decreases ng - g,
            {
                cmds.push(DispatchCommand::SetStorageGroup { slot: g, step: si, group: g });
                proof {
                    assert(cmds@ =~= steps_commands(self.steps@, si as int) + seq![
                        DispatchCommand::SetPipeline(self.steps@[si as int].pipeline_handle),
                    ] + Seq::new(
                        (g + 1) as nat,
                        |g2: int|
                            DispatchCommand::SetStorageGroup {
                                slot: g2 as usize,
                                step: si as usize,
                                group: g2 as usize,
                            },
                    ));
                }
                g = g + 1;
            }
            cmds.push(DispatchCommand::SetUniformGroup { slot: ng, offset: step.offset });
            cmds.push(
                DispatchCommand::Dispatch {
                    x: step.workgroup_count.x,
                    y: step.workgroup_count.y,
                    z: step.workgroup_count.z,
                },
            );
            proof {
                assert(cmds@ =~= steps_commands(self.steps@, si + 1));
            }
            si = si + 1;
        }
        proof {
            if !(forall|si2: int|
                0 <= si2 < self.steps@.len() ==> (#[trigger] self.steps@[si2].pipeline_handle)
                    < pools.pipelines@.len()) {
                assert(false);
            }
        }
        Ok(cmds)
    }
}

} // verus!
