use vstd::prelude::*;
use vstd::string::StringExecFns;

use crate::allocator::BufferMap;
use crate::dtype::DType;
use crate::executable::CompiledOp;
use crate::kernel_builder::DeviceFeatures;
use crate::op::{KernelElement, KernelKeyV, KernelStem, LazyOp, Operation, OperationError};
use crate::ops::concat::{concat_source_spec, Concat};
use crate::ops::reindex::{reindex_meta_names, reindex_meta_spec, reindex_meta_values,
    reindex_source_spec, reindex_wf, Reindex};
use crate::resources::{bgl_index_of, lemma_bgl_index_push_new, lemma_bgl_index_push_preserve,
    lemma_module_index_push_new, lemma_module_index_push_preserve, lemma_pipeline_index_push_new,
    lemma_pipeline_index_push_preserve, lemma_pl_index_push_new, lemma_pl_index_push_preserve,
    module_index_of, pipeline_index_of, pl_index_of, BindGroupLayoutDescriptor,
    ComputePipelineDescriptor, ComputePipelineDescriptorV, PipelineLayoutDescriptor,
    ResourcePools};
use crate::shape::prod;
use crate::tensor::{Tensor, TensorV};
use crate::uniform::{align_up, CpuUniform};
use crate::workload::{standard_workload_spec, Workload, WorkgroupSize};

verus! {

/// The four device pools together, as one mathematical value.
pub struct PoolsV {
    pub bgls: Seq<BindGroupLayoutDescriptor>,
    pub pls: Seq<Seq<usize>>,
    pub keys: Seq<KernelKeyV>,
    pub pipes: Seq<ComputePipelineDescriptorV>,
}

pub open spec fn pools_view(p: &ResourcePools) -> PoolsV {
    PoolsV {
        bgls: p.bind_group_layouts@,
        pls: p.pl_views(),
        keys: p.module_keys(),
        pipes: p.pipeline_views(),
    }
}

/// The uniform bind-group layout every kernel shares.
pub open spec fn uniform_layout_desc() -> BindGroupLayoutDescriptor {
    BindGroupLayoutDescriptor { num_read_only: 0usize, num_read_write: 0usize, uniform: true }
}

/// The storage layout of a one-input kernel family.
pub open spec fn unary_layout_desc() -> BindGroupLayoutDescriptor {
    BindGroupLayoutDescriptor { num_read_only: 1usize, num_read_write: 1usize, uniform: false }
}

/// One descriptor-keyed lookup: the pool and the vended handle — the pool
/// unchanged and the first matching index on a hit, extended by the
/// descriptor otherwise.
pub open spec fn bgl_step(s: Seq<BindGroupLayoutDescriptor>, d: BindGroupLayoutDescriptor) -> (
    Seq<BindGroupLayoutDescriptor>,
    int,
) {
    match bgl_index_of(s, d) {
        Some(i) => (s, i),
        None => (s.push(d), s.len() as int),
    }
}

pub open spec fn pl_step(s: Seq<Seq<usize>>, v: Seq<usize>) -> (Seq<Seq<usize>>, int) {
    match pl_index_of(s, v) {
        Some(i) => (s, i),
        None => (s.push(v), s.len() as int),
    }
}

pub open spec fn module_step(s: Seq<KernelKeyV>, k: KernelKeyV) -> (Seq<KernelKeyV>, int) {
    match module_index_of(s, k) {
        Some(i) => (s, i),
        None => (s.push(k), s.len() as int),
    }
}

pub open spec fn pipeline_step(
    s: Seq<ComputePipelineDescriptorV>,
    v: ComputePipelineDescriptorV,
) -> (Seq<ComputePipelineDescriptorV>, int) {
    match pipeline_index_of(s, v) {
        Some(i) => (s, i),
        None => (s.push(v), s.len() as int),
    }
}

/// The pools after the layout lookups of one compilation: the storage
/// layout, the shared uniform layout, and the pipeline layout over their
/// two handles; modules and pipelines untouched.
pub open spec fn pools_after_layouts(p: PoolsV, d1: BindGroupLayoutDescriptor) -> PoolsV {
    let (bgls1, h1) = bgl_step(p.bgls, d1);
    let (bgls2, h2) = bgl_step(bgls1, uniform_layout_desc());
    let (pls2, hp) = pl_step(p.pls, seq![h1 as usize, h2 as usize]);
    PoolsV { bgls: bgls2, pls: pls2, keys: p.keys, pipes: p.pipes }
}

/// The pools after one successful compilation with storage layout `d1`
/// under cache key `key`, and the vended pipeline handle: every device
/// object is looked up once and created only if absent, so compiling a key
/// a second time changes no pool.
pub open spec fn pools_after_compile(p: PoolsV, d1: BindGroupLayoutDescriptor, key: KernelKeyV) -> (
    PoolsV,
    int,
) {
    let (bgls1, h1) = bgl_step(p.bgls, d1);
    let (bgls2, h2) = bgl_step(bgls1, uniform_layout_desc());
    let (pls2, hp) = pl_step(p.pls, seq![h1 as usize, h2 as usize]);
    let (keys2, hm) = module_step(p.keys, key);
    let (pipes2, hpipe) = pipeline_step(
        p.pipes,
        ComputePipelineDescriptorV { pipeline_layout: hp, kernel_key: key, kernel_module: hm },
    );
    (PoolsV { bgls: bgls2, pls: pls2, keys: keys2, pipes: pipes2 }, hpipe)
}

/// The cache key the concat family compiles under, for a given output and
/// in-place flag.
pub open spec fn concat_key_spec(c: &Concat, dst: TensorV, inplace: bool) -> KernelKeyV {
    KernelKeyV {
        stem: KernelStem::Concat,
        input_dts: c.ins().map_values(|t: TensorV| t.view.dt),
        output_dt: dst.view.dt,
        workgroup_size: WorkgroupSize { x: 64u32, y: 1u32, z: 1u32 },
        inplace,
        additional: None,
        element: KernelElement::Scalar,
    }
}

/// The cache key a reindex member compiles under.
pub open spec fn reindex_key_spec(rx: &Reindex, dst: TensorV, inplace: bool) -> KernelKeyV {
    KernelKeyV {
        stem: rx.stem_spec(),
        input_dts: seq![rx.src_spec().view.dt],
        output_dt: dst.view.dt,
        workgroup_size: WorkgroupSize { x: 64u32, y: 1u32, z: 1u32 },
        inplace,
        additional: None,
        element: KernelElement::Scalar,
    }
}

/// The storage bind group of a compiled op: each source's buffer in order
/// and, unless the op runs in place over a surviving alias, the
/// destination's buffer last.
pub open spec fn storage_groups_ok(
    co: &CompiledOp,
    srcs: Seq<TensorV>,
    dst_id: u64,
    assignments: &BufferMap,
    can_inplace: bool,
) -> bool {
    &&& co.storage_groups@.len() == 1
    &&& co.storage_groups@[0]@.len() == srcs.len() + (if can_inplace {
        0int
    } else {
        1int
    })
    &&& (forall|k: int|
        0 <= k < srcs.len() ==> (#[trigger] co.storage_groups@[0]@[k]) == assignments.get_spec(
            srcs[k].id,
        )->Some_0.0.handle)
    &&& (!can_inplace ==> co.storage_groups@[0]@[srcs.len() as int] == assignments.get_spec(
        dst_id,
    )->Some_0.0.handle)
}

/// What compiling an op demands of its surroundings: the node's own
/// invariants, a destination that is the op's computed view, room in the
/// uniform buffer, and buffers already assigned to all operands.
pub open spec fn compile_req(
    op: &LazyOp,
    dst: &Tensor,
    uniform: &CpuUniform,
    assignments: &BufferMap,
) -> bool {
    &&& (match op {
        LazyOp::Concat(c) => c.view_req() && dst@.view.shape == c.output_shape_spec()
            && dst@.view.dt == c.ins()[0].view.dt,
        LazyOp::Reindex(rx) => reindex_wf(rx) && dst@.view.shape.len() <= 4,
        _ => true,
    })
    &&& dst.wf()
    &&& uniform@.len() + 2048 <= usize::MAX
    &&& forall|k: int|
        0 <= k < op.srcs_spec().len() ==> (#[trigger] assignments.get_spec(
            op.srcs_spec()[k].id,
        )) is Some
    &&& assignments.get_spec(dst@.id) is Some
}

/// What compiling a concat guarantees: success exactly when the generated
/// WGSL parses; on success, a compiled op carrying the structured key, the
/// record's uniform offset, the standard dispatch count and the resolved
/// storage bindings, and the pools exactly one lookup chain further; on a
/// parse failure, only the layout lookups.
pub open spec fn compile_concat_post(
    c: &Concat,
    dst: TensorV,
    r: Result<CompiledOp, OperationError>,
    old_uniform_len: int,
    old_pools: PoolsV,
    new_pools: PoolsV,
    assignments: &BufferMap,
    features: DeviceFeatures,
    can_inplace: bool,
) -> bool {
    let key = concat_key_spec(c, dst, can_inplace);
    let src = concat_source_spec(
        c.ins().len() as int,
        c.ins()[0].view.dt,
        WorkgroupSize { x: 64u32, y: 1u32, z: 1u32 },
        features,
        crate::uniform::meta_struct_text(c.meta_names(), c.meta_values()),
    );
    let d1 = BindGroupLayoutDescriptor {
        num_read_only: c.ins().len() as usize,
        num_read_write: 1usize,
        uniform: false,
    };
    &&& (r is Ok <==> crate::kernel_builder::wgsl_parse_ok(src))
    &&& (r matches Ok(co) ==> {
        &&& co.kernel_key@ == key
        &&& co.offset == align_up(old_uniform_len, 256)
        &&& co.workgroup_count == standard_workload_spec(prod(dst.view.shape), 1).workgroup_count
        &&& (co.pipeline_handle as int) == pools_after_compile(old_pools, d1, key).1
        &&& (co.pipeline_handle as int) < new_pools.pipes.len()
        &&& storage_groups_ok(&co, c.ins(), dst.id, assignments, can_inplace)
    })
    &&& (r is Ok ==> new_pools == pools_after_compile(old_pools, d1, key).0)
    &&& (r is Err ==> new_pools == pools_after_layouts(old_pools, d1))
}

/// The reindex counterpart of the concat guarantee, over the one-input
/// storage layout.
pub open spec fn compile_reindex_post(
    rx: &Reindex,
    dst: TensorV,
    r: Result<CompiledOp, OperationError>,
    old_uniform_len: int,
    old_pools: PoolsV,
    new_pools: PoolsV,
    assignments: &BufferMap,
    features: DeviceFeatures,
    can_inplace: bool,
) -> bool {
    let key = reindex_key_spec(rx, dst, can_inplace);
    let meta = reindex_meta_spec(rx, dst.view.shape);
    let src = reindex_source_spec(
        rx,
        dst.view.dt,
        WorkgroupSize { x: 64u32, y: 1u32, z: 1u32 },
        features,
        crate::uniform::meta_struct_text(reindex_meta_names(), reindex_meta_values(meta)),
    );
    &&& (r is Ok <==> crate::kernel_builder::wgsl_parse_ok(src))
    &&& (r matches Ok(co) ==> {
        &&& co.kernel_key@ == key
        &&& co.offset == align_up(old_uniform_len, 256)
        &&& co.workgroup_count == standard_workload_spec(prod(dst.view.shape), 1).workgroup_count
        &&& (co.pipeline_handle as int) == pools_after_compile(
            old_pools,
            unary_layout_desc(),
            key,
        ).1
        &&& (co.pipeline_handle as int) < new_pools.pipes.len()
        &&& storage_groups_ok(&co, seq![rx.src_spec()], dst.id, assignments, can_inplace)
    })
    &&& (r is Ok ==> new_pools == pools_after_compile(old_pools, unary_layout_desc(), key).0)
    &&& (r is Err ==> new_pools == pools_after_layouts(old_pools, unary_layout_desc()))
}

/// Compiles one operation into a cached, dispatch-ready kernel: derives
/// its metadata record and packs it at the returned uniform offset,
/// constructs the structured cache key, creates or reuses every device
/// object through the pools — a key already compiled is never compiled
/// again — and bundles the dispatch workload and storage bindings.
///
/// Device code is generated for the concat and reindex families; any other
/// family, and any destination type the family's kernels do not cover, is
/// refused with a compile error and leaves the pools untouched. A
/// generated kernel that fails WGSL parsing surfaces as a kernel-build
/// error.
#[verifier::rlimit(100)]
pub fn compile(
    op: &LazyOp,
    dst: &Tensor,
    uniform: &mut CpuUniform,
    pools: &mut ResourcePools,
    assignments: &BufferMap,
    features: DeviceFeatures,
    can_inplace: bool,
) -> (r: Result<CompiledOp, OperationError>)
    requires
        compile_req(op, dst, old(uniform), assignments),
    ensures
        final(uniform)@.subrange(0, old(uniform)@.len() as int) == old(uniform)@,
        match op {
            LazyOp::Concat(c) => {
                &&& (!(dst@.view.dt == DType::F32 || dst@.view.dt == DType::F16) ==> r is Err
                    && pools_view(final(pools)) == pools_view(old(pools)))
                &&& ((dst@.view.dt == DType::F32 || dst@.view.dt == DType::F16)
                    ==> compile_concat_post(
                    c,
                    dst@,
                    r,
                    old(uniform)@.len() as int,
                    pools_view(old(pools)),
                    pools_view(final(pools)),
                    assignments,
                    features,
                    can_inplace,
                ))
            },
            LazyOp::Reindex(rx) => {
                &&& (!(dst@.view.dt == DType::F32 || dst@.view.dt == DType::F16) ==> r is Err
                    && pools_view(final(pools)) == pools_view(old(pools)))
                &&& ((dst@.view.dt == DType::F32 || dst@.view.dt == DType::F16)
                    ==> compile_reindex_post(
                    rx,
                    dst@,
                    r,
                    old(uniform)@.len() as int,
                    pools_view(old(pools)),
                    pools_view(final(pools)),
                    assignments,
                    features,
                    can_inplace,
                ))
            },
            _ => r is Err && pools_view(final(pools)) == pools_view(old(pools)),
        },
{
    match op {
        LazyOp::Concat(c) => compile_concat(c, dst, uniform, pools, assignments, features, can_inplace),
        LazyOp::Reindex(rx) => {
            proof {
                assert(op.srcs_spec()[0] == rx.src_spec());
                assert(assignments.get_spec(op.srcs_spec()[0].id) is Some);
            }
            compile_reindex(rx, dst, uniform, pools, assignments, features, can_inplace)
        },
        _ => {
            proof {
                assert(uniform@.subrange(0, old(uniform)@.len() as int) =~= old(uniform)@);
            }
            Err(
                OperationError::CompileError(
                    String::from_str("no kernel family generates device code for this operation"),
                ),
            )
        },
    }
}

/// The concat half of `compile`.
#[verifier::rlimit(100)]
fn compile_concat(
    c: &Concat,
    dst: &Tensor,
    uniform: &mut CpuUniform,
    pools: &mut ResourcePools,
    assignments: &BufferMap,
    features: DeviceFeatures,
    can_inplace: bool,
) -> (r: Result<CompiledOp, OperationError>)
    requires
        c.view_req(),
        dst@.view.shape == c.output_shape_spec(),
        dst@.view.dt == c.ins()[0].view.dt,
        dst.wf(),
        old(uniform)@.len() + 2048 <= usize::MAX,
        forall|k: int|
            0 <= k < c.ins().len() ==> (#[trigger] assignments.get_spec(c.ins()[k].id)) is Some,
        assignments.get_spec(dst@.id) is Some,
    ensures
        final(uniform)@.subrange(0, old(uniform)@.len() as int) == old(uniform)@,
        !(dst@.view.dt == DType::F32 || dst@.view.dt == DType::F16) ==> r is Err && pools_view(
            final(pools),
        ) == pools_view(old(pools)),
        (dst@.view.dt == DType::F32 || dst@.view.dt == DType::F16) ==> compile_concat_post(
            c,
            dst@,
            r,
            old(uniform)@.len() as int,
            pools_view(old(pools)),
            pools_view(final(pools)),
            assignments,
            features,
            can_inplace,
        ),
{
    if !matches!(dst.dt(), DType::F32 | DType::F16) {
        proof {
            assert(uniform@.subrange(0, old(uniform)@.len() as int) =~= old(uniform)@);
        }
        let mut msg = String::from_str("unsupported destination type ");
        msg.append(dst.dt().as_str());
        msg.append(" for the concat kernel family");
        return Err(OperationError::CompileError(msg));
    }
    let ghost p0 = pools_view(old(pools));
    let ghost key_spec = concat_key_spec(c, dst@, can_inplace);
    let kernel_element = c.kernel_element(dst);
    let meta = c.metadata(dst);
    proof {
        crate::ops::concat::lemma_meta_prefix_lens(c.ins(), c.dim as int, c.ins().len() as int);
        assert(meta.values().len() <= 19) by {
            assert(c.ins().len() <= 8);
        }
    }
    let offset: u64 = meta.write(uniform);
    let workload = match c.calculate_dispatch(dst) {
        Ok(w) => w,
        Err(e) => {
            proof {
                assert(false);
            }
            return Err(e);
        },
    };
    let storage_layout_desc: BindGroupLayoutDescriptor = match c.storage_bind_group_layout(
        can_inplace,
    ) {
        Ok(d) => d,
        Err(e) => {
            proof {
                assert(false);
            }
            return Err(e);
        },
    };
    let ghost d1 = storage_layout_desc;
    let storage_layout: usize = pools.get_or_create_bind_group_layout(&storage_layout_desc);
    proof {
        assert(pools.bind_group_layouts@ == bgl_step(p0.bgls, d1).0);
        assert(storage_layout as int == bgl_step(p0.bgls, d1).1);
    }
    let uniform_layout: usize = pools.get_or_create_bind_group_layout(
        &BindGroupLayoutDescriptor::uniform(),
    );
    proof {
        assert(pools.bind_group_layouts@ == bgl_step(bgl_step(p0.bgls, d1).0, uniform_layout_desc()).0);
        assert(uniform_layout as int == bgl_step(bgl_step(p0.bgls, d1).0, uniform_layout_desc()).1);
    }
    let mut entries: Vec<usize> = Vec::new();
    entries.push(storage_layout);
    entries.push(uniform_layout);
    let ghost plv = seq![
        bgl_step(p0.bgls, d1).1 as usize,
        bgl_step(bgl_step(p0.bgls, d1).0, uniform_layout_desc()).1 as usize,
    ];
    let pipeline_layout: usize = pools.get_or_create_pipeline_layout(
        PipelineLayoutDescriptor { entries },
    );
    proof {
        assert(entries@ =~= plv);
        assert(pools.pl_views() == pl_step(p0.pls, plv).0);
        assert(pipeline_layout as int == pl_step(p0.pls, plv).1);
    }
    let key = c.kernel_key(&workload.workgroup_size, can_inplace, dst, kernel_element);
    proof {
        assert(key@ == key_spec);
    }
    let builder = c.build_concat(can_inplace, &workload.workgroup_size, &meta, features);
    let module = match builder.build() {
        Ok(m) => m,
        Err(e) => {
            proof {
                assert(pools_view(pools) == pools_after_layouts(p0, d1));
            }
            return Err(OperationError::KernelBuildError(e));
        },
    };
    let key_for_module = key.duplicate();
    let kernel_module: usize = pools.get_or_create_compute_module(key_for_module, module);
    proof {
        assert(pools.module_keys() == module_step(p0.keys, key_spec).0);
        assert(kernel_module as int == module_step(p0.keys, key_spec).1);
    }
    let key_for_pipeline = key.duplicate();
    let pipeline_handle: usize = pools.get_or_create_compute_pipeline(
        ComputePipelineDescriptor { pipeline_layout, kernel_key: key_for_pipeline, kernel_module },
    );
    proof {
        assert(pools_view(pools) == pools_after_compile(p0, d1, key_spec).0);
        assert(pipeline_handle as int == pools_after_compile(p0, d1, key_spec).1);
    }
    let srcs = concat_src_refs(c);
    let storage_bind_groups = match CompiledOp::create_storage_bind_groups(
        &srcs,
        dst,
        assignments,
        can_inplace,
    ) {
        Ok(g) => g,
        Err(e) => {
            proof {
                assert(false);
            }
            return Err(e);
        },
    };
    Ok(CompiledOp::new(pipeline_handle, workload.workgroup_count, storage_bind_groups, offset, key))
}

/// The reindex half of `compile`.
#[verifier::rlimit(100)]
fn compile_reindex(
    rx: &Reindex,
    dst: &Tensor,
    uniform: &mut CpuUniform,
    pools: &mut ResourcePools,
    assignments: &BufferMap,
    features: DeviceFeatures,
    can_inplace: bool,
) -> (r: Result<CompiledOp, OperationError>)
    requires
        reindex_wf(rx),
        dst@.view.shape.len() <= 4,
        dst.wf(),
        old(uniform)@.len() + 2048 <= usize::MAX,
        assignments.get_spec(rx.src_spec().id) is Some,
        assignments.get_spec(dst@.id) is Some,
    ensures
        final(uniform)@.subrange(0, old(uniform)@.len() as int) == old(uniform)@,
        !(dst@.view.dt == DType::F32 || dst@.view.dt == DType::F16) ==> r is Err && pools_view(
            final(pools),
        ) == pools_view(old(pools)),
        (dst@.view.dt == DType::F32 || dst@.view.dt == DType::F16) ==> compile_reindex_post(
            rx,
            dst@,
            r,
            old(uniform)@.len() as int,
            pools_view(old(pools)),
            pools_view(final(pools)),
            assignments,
            features,
            can_inplace,
        ),
{
    if !matches!(dst.dt(), DType::F32 | DType::F16) {
        proof {
            assert(uniform@.subrange(0, old(uniform)@.len() as int) =~= old(uniform)@);
        }
        let mut msg = String::from_str("unsupported destination type ");
        msg.append(dst.dt().as_str());
        msg.append(" for the reindex kernel family");
        return Err(OperationError::CompileError(msg));
    }
    let ghost p0 = pools_view(old(pools));
    let ghost key_spec = reindex_key_spec(rx, dst@, can_inplace);
    let meta = match rx.metadata_record(dst) {
        Ok(m) => m,
        Err(e) => {
            proof {
                assert(false);
            }
            return Err(e);
        },
    };
    let offset: u64 = meta.write(uniform);
    let workload = Workload::standard(dst.shape().numel(), 1);
    let storage_layout: usize = pools.get_or_create_bind_group_layout(
        &BindGroupLayoutDescriptor::unary(),
    );
    proof {
        assert(pools.bind_group_layouts@ == bgl_step(p0.bgls, unary_layout_desc()).0);
        assert(storage_layout as int == bgl_step(p0.bgls, unary_layout_desc()).1);
    }
    let uniform_layout: usize = pools.get_or_create_bind_group_layout(
        &BindGroupLayoutDescriptor::uniform(),
    );
    let mut entries: Vec<usize> = Vec::new();
    entries.push(storage_layout);
    entries.push(uniform_layout);
    let ghost d1 = unary_layout_desc();
    let ghost plv = seq![
        bgl_step(p0.bgls, d1).1 as usize,
        bgl_step(bgl_step(p0.bgls, d1).0, uniform_layout_desc()).1 as usize,
    ];
    let pipeline_layout: usize = pools.get_or_create_pipeline_layout(
        PipelineLayoutDescriptor { entries },
    );
    proof {
        assert(entries@ =~= plv);
        assert(pools.pl_views() == pl_step(p0.pls, plv).0);
        assert(pipeline_layout as int == pl_step(p0.pls, plv).1);
    }
    let key = rx.kernel_key(&workload.workgroup_size, can_inplace, dst, KernelElement::Scalar);
    proof {
        assert(key@ == key_spec);
    }
    let builder = rx.render_kernel(can_inplace, &workload.workgroup_size, &meta, dst.dt(), features);
    let module = match builder.build() {
        Ok(m) => m,
        Err(e) => {
            proof {
                assert(pools_view(pools) == pools_after_layouts(p0, d1));
            }
            return Err(OperationError::KernelBuildError(e));
        },
    };
    let key_for_module = key.duplicate();
    let kernel_module: usize = pools.get_or_create_compute_module(key_for_module, module);
    let key_for_pipeline = key.duplicate();
    let pipeline_handle: usize = pools.get_or_create_compute_pipeline(
        ComputePipelineDescriptor { pipeline_layout, kernel_key: key_for_pipeline, kernel_module },
    );
    proof {
        assert(pools_view(pools) == pools_after_compile(p0, d1, key_spec).0);
        assert(pipeline_handle as int == pools_after_compile(p0, d1, key_spec).1);
    }
    let mut srcs: Vec<&Tensor> = Vec::new();
    srcs.push(rx.src());
    proof {
        assert(srcs.deep_view() =~= seq![rx.src_spec()]);
    }
    let storage_bind_groups = match CompiledOp::create_storage_bind_groups(
        &srcs,
        dst,
        assignments,
        can_inplace,
    ) {
        Ok(g) => g,
        Err(e) => {
            proof {
                assert(false);
            }
            return Err(e);
        },
    };
    Ok(CompiledOp::new(pipeline_handle, workload.workgroup_count, storage_bind_groups, offset, key))
}

/// The operand list of a concat, as references in order.
fn concat_src_refs(c: &Concat) -> (r: Vec<&Tensor>)
    ensures
        r.deep_view() == c.ins(),
{
    let mut v: Vec<&Tensor> = Vec::new();
    let n: usize = c.inputs.len();
    let mut i: usize = 0;
    while i < n
        invariant
            i <= n,
            n == c.inputs@.len(),
            v@.len() == i,
            forall|k: int| 0 <= k < i ==> #[trigger] v.deep_view()[k] == c.inputs.deep_view()[k],
        decreases n - i,
    {
        let ghost prev = v@;
        let ghost prevdv = v.deep_view();
        v.push(&c.inputs[i]);
        proof {
            assert forall|k: int| 0 <= k < i + 1 implies #[trigger] v.deep_view()[k]
                == c.inputs.deep_view()[k] by {
                assert(c.inputs.deep_view()[k] == c.inputs@[k].deep_view());
                assert(v.deep_view()[k] == v@[k].deep_view());
                if k < i as int {
                    assert(v@[k] == prev[k]);
                    assert(prevdv[k] == prev[k].deep_view());
                    assert(prevdv[k] == c.inputs.deep_view()[k]);
                }
            }
        }
        i = i + 1;
    }
    proof {
        assert(v.deep_view() =~= c.inputs.deep_view());
    }
    v
}


/// Compiling a key whose lookup chain the pools already went through is a
/// full cache hit: no new bind-group layout, pipeline layout, shader
/// module or pipeline is created, and the same pipeline handle is vended.
pub proof fn lemma_pools_after_compile_idempotent(
    p: PoolsV,
    d1: BindGroupLayoutDescriptor,
    key: KernelKeyV,
)
    requires
        !d1.uniform,
    ensures
        pools_after_compile(pools_after_compile(p, d1, key).0, d1, key) == pools_after_compile(
            p,
            d1,
            key,
        ),
{
    let d2 = uniform_layout_desc();
    let (bgls1, h1) = bgl_step(p.bgls, d1);
    let (bgls2, h2) = bgl_step(bgls1, d2);
    assert(d1 != d2);
    assert(bgl_index_of(bgls2, d1) == Some(h1)) by {
        match bgl_index_of(p.bgls, d1) {
            Some(i) => {
                if bgl_index_of(bgls1, d2) is None {
                    lemma_bgl_index_push_preserve(bgls1, d1, d2);
                }
            },
            None => {
                lemma_bgl_index_push_new(p.bgls, d1);
                if bgl_index_of(bgls1, d2) is None {
                    lemma_bgl_index_push_preserve(bgls1, d1, d2);
                }
            },
        }
    }
    assert(bgl_index_of(bgls2, d2) == Some(h2)) by {
        match bgl_index_of(bgls1, d2) {
            Some(i) => {
            },
            None => {
                lemma_bgl_index_push_new(bgls1, d2);
            },
        }
    }
    assert(bgl_step(bgls2, d1) == (bgls2, h1));
    assert(bgl_step(bgls2, d2) == (bgls2, h2));
    let plv = seq![h1 as usize, h2 as usize];
    let (pls2, hp) = pl_step(p.pls, plv);
    assert(pl_index_of(pls2, plv) == Some(hp)) by {
        match pl_index_of(p.pls, plv) {
            Some(i) => {
            },
            None => {
                lemma_pl_index_push_new(p.pls, plv);
            },
        }
    }
    assert(pl_step(pls2, plv) == (pls2, hp));
    let (keys2, hm) = module_step(p.keys, key);
    assert(module_index_of(keys2, key) == Some(hm)) by {
        match module_index_of(p.keys, key) {
            Some(i) => {
            },
            None => {
                lemma_module_index_push_new(p.keys, key);
            },
        }
    }
    assert(module_step(keys2, key) == (keys2, hm));
    let pd = ComputePipelineDescriptorV { pipeline_layout: hp, kernel_key: key, kernel_module: hm };
    let (pipes2, hpipe) = pipeline_step(p.pipes, pd);
    assert(pipeline_index_of(pipes2, pd) == Some(hpipe)) by {
        match pipeline_index_of(p.pipes, pd) {
            Some(i) => {
            },
            None => {
                lemma_pipeline_index_push_new(p.pipes, pd);
            },
        }
    }
    assert(pipeline_step(pipes2, pd) == (pipes2, hpipe));
}

} // verus!
