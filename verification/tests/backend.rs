use ratchet::allocator::{BufferAllocator, BufferMap, TensorNode};
use ratchet::compile::compile;
use ratchet::dtype::DType;
use ratchet::executable::{CompiledOp, DispatchCommand, Executable, GpuUniform};
use ratchet::kernel_builder::{BuiltIn, DeviceFeatures, RenderFragment};
use ratchet::op::{Binary, BinaryOp, Cast, KernelElement, LazyOp, Operation, Reshape, Unary, UnaryOp};
use ratchet::ops::concat::Concat;
use ratchet::ops::reindex::{Broadcast, DimRange, Permute, Reindex, ReindexKernels, Slice};
use ratchet::ops::select::IndexSelect;
use ratchet::pool::{BufferDescriptor, PooledGPUBuffer, USAGE_STANDARD};
use ratchet::resources::ResourcePools;
use ratchet::shape::Shape;
use ratchet::tensor::{Storage, StorageView, Tensor};
use ratchet::uniform::{CpuUniform, DynKernelMetadata, DynMetaField, UVec4};
use ratchet::workload::WorkgroupSize;

fn tensor(id: u64, dims: Vec<usize>, dt: DType, storage: Option<Storage>) -> Tensor {
    let shape = Shape::new(dims);
    let view = StorageView::contiguous(shape, dt);
    Tensor::new(id, view, storage)
}

fn gpu_storage(handle: u64, size: u64) -> Option<Storage> {
    Some(Storage::GPU(PooledGPUBuffer {
        handle,
        descriptor: BufferDescriptor { size, usage: USAGE_STANDARD, mapped_at_creation: false },
    }))
}

#[test]
pub fn test_builtin_render() {
    let local_id = BuiltIn::LocalInvocationId;
    let fragment = local_id.render();
    assert_eq!(
        fragment.0,
        "@builtin(local_invocation_id) local_invocation_id: vec3<u32>"
    );
}

#[test]
fn test_concat() {
    let t0 = tensor(0, vec![4, 2, 50, 128], DType::F32, None);
    let t1 = tensor(1, vec![4, 2, 13, 128], DType::F32, None);
    let t2 = tensor(2, vec![4, 2, 77, 128], DType::F32, None);
    let t3 = tensor(3, vec![4, 2, 55, 128], DType::F32, None);
    let t4 = tensor(4, vec![4, 2, 11, 128], DType::F32, None);

    let dim = 2;
    let concat = Concat::new(vec![t0, t1, t2, t3, t4], dim);
    assert!(concat.check_invariants());
    let view = concat.compute_view().unwrap();
    assert_eq!(view.shape.dims, vec![4, 2, 206, 128]);
    assert_eq!(view.dt, DType::F32);

    let dst = tensor(5, vec![4, 2, 206, 128], DType::F32, None);
    let meta = concat.metadata(&dst);
    // The running boundaries of the stacked axis.
    let expected = [50u32, 63, 140, 195, 206];
    for (ci, want) in expected.iter().enumerate() {
        let (name, value) = &meta.fields[7 + ci];
        assert_eq!(name, &format!("cum{}", ci));
        assert!(matches!(value, DynMetaField::U32(v) if *v == *want));
    }
}

#[test]
fn concat_two_inputs_metadata_and_dispatch() {
    // C = concat([A of shape 2 by 3, B of shape 2 by 4], dim 1)
    let a = tensor(0, vec![2, 3], DType::F32, None);
    let b = tensor(1, vec![2, 4], DType::F32, None);
    let concat = Concat::new(vec![a, b], 1);
    assert!(concat.check_invariants());
    let view = concat.compute_view().unwrap();
    assert_eq!(view.shape.dims, vec![2, 7]);

    let dst = tensor(2, vec![2, 7], DType::F32, None);
    assert_eq!(dst.num_bytes(), 2 * 7 * 4);

    let meta = concat.metadata(&dst);
    let names: Vec<&str> = meta.fields.iter().map(|f| f.0.as_str()).collect();
    assert_eq!(
        names,
        vec!["x0_stride", "x1_stride", "dst_stride", "dst_numel", "cum0", "cum1", "dim"]
    );
    assert!(matches!(meta.fields[4].1, DynMetaField::U32(3)));
    assert!(matches!(meta.fields[5].1, DynMetaField::U32(7)));

    let workload = concat.calculate_dispatch(&dst).unwrap();
    // ceil(14 / 64) workgroups for a scalar kernel element.
    assert_eq!(workload.workgroup_count.x, 1);
    assert_eq!(workload.workgroup_count.y, 1);
    assert_eq!(workload.workgroup_size, WorkgroupSize { x: 64, y: 1, z: 1 });
    assert!(matches!(concat.kernel_element(&dst), KernelElement::Scalar));
}

#[test]
fn concat_compile_caches_by_key() {
    let a = tensor(0, vec![2, 3], DType::F32, gpu_storage(0, 24));
    let b = tensor(1, vec![2, 4], DType::F32, gpu_storage(1, 32));
    let dst = tensor(2, vec![2, 7], DType::F32, None);

    let mut assignments = BufferMap::new();
    assignments.insert(
        0,
        ratchet::allocator::GraphBuffer(PooledGPUBuffer {
            handle: 0,
            descriptor: BufferDescriptor { size: 24, usage: USAGE_STANDARD, mapped_at_creation: false },
        }),
    );
    assignments.insert(
        1,
        ratchet::allocator::GraphBuffer(PooledGPUBuffer {
            handle: 1,
            descriptor: BufferDescriptor { size: 32, usage: USAGE_STANDARD, mapped_at_creation: false },
        }),
    );
    assignments.insert(
        2,
        ratchet::allocator::GraphBuffer(PooledGPUBuffer {
            handle: 2,
            descriptor: BufferDescriptor { size: 56, usage: USAGE_STANDARD, mapped_at_creation: false },
        }),
    );

    let op = LazyOp::Concat(Concat::new(vec![a, b], 1));
    let mut uniform = CpuUniform::new();
    let mut pools = ResourcePools::new();
    let features = DeviceFeatures { shader_f16: false };

    // First compilation: the generated WGSL must parse, and the module
    // pool gains exactly one entry.
    let first = compile(&op, &dst, &mut uniform, &mut pools, &assignments, features, false)
        .expect("the generated concat kernel must be valid WGSL");
    assert_eq!(pools.modules.len(), 1);
    assert_eq!(first.offset, 0);

    // A structurally identical operation compiles to an equal key and is a
    // pool hit: no new shader module is created.
    let a2 = tensor(0, vec![2, 3], DType::F32, gpu_storage(0, 24));
    let b2 = tensor(1, vec![2, 4], DType::F32, gpu_storage(1, 32));
    let op2 = LazyOp::Concat(Concat::new(vec![a2, b2], 1));
    let bgls = pools.bind_group_layouts.len();
    let pls = pools.pipeline_layouts.len();
    let pipes = pools.pipelines.len();
    let second = compile(&op2, &dst, &mut uniform, &mut pools, &assignments, features, false)
        .expect("recompilation must succeed");
    // A full cache hit: no new shader module, bind-group layout, pipeline
    // layout or pipeline.
    assert_eq!(pools.modules.len(), 1);
    assert_eq!(pools.bind_group_layouts.len(), bgls);
    assert_eq!(pools.pipeline_layouts.len(), pls);
    assert_eq!(pools.pipelines.len(), pipes);
    assert_eq!(first.pipeline_handle, second.pipeline_handle);
    assert!(first.kernel_key.key_eq(&second.kernel_key));
    assert_eq!(first.kernel_key.as_str(), second.kernel_key.as_str());

    // The second record landed on the next dynamic-offset granule.
    assert_eq!(second.offset % 256, 0);
    assert!(second.offset > first.offset);
}

#[test]
fn kernel_keys_differ_per_component() {
    let a = tensor(0, vec![2, 3], DType::F32, None);
    let b = tensor(1, vec![2, 4], DType::F32, None);
    let dst = tensor(2, vec![2, 7], DType::F32, None);
    let concat = Concat::new(vec![a, b], 1);
    let wgs = WorkgroupSize { x: 64, y: 1, z: 1 };
    let k1 = concat.kernel_key(&wgs, false, &dst, KernelElement::Scalar);
    let k2 = concat.kernel_key(&wgs, true, &dst, KernelElement::Scalar);
    let k3 = concat.kernel_key(&wgs, false, &dst, KernelElement::Vec2);
    let other_wgs = WorkgroupSize { x: 128, y: 1, z: 1 };
    let k4 = concat.kernel_key(&other_wgs, false, &dst, KernelElement::Scalar);
    assert!(!k1.key_eq(&k2));
    assert!(!k1.key_eq(&k3));
    assert!(!k1.key_eq(&k4));
    assert!(k1.key_eq(&k1.duplicate()));
    assert_eq!(k1.as_str(), "concat_F32_F32_F32_64_1_1_false_scalar");
}

#[test]
fn metadata_bytes_round_trip() {
    let mut meta = DynKernelMetadata::new();
    meta.add_field("alpha", DynMetaField::U32(7));
    meta.add_field("beta", DynMetaField::Vec4U32(UVec4::new(1, 2, 3, 4)));
    meta.add_field("gamma", DynMetaField::U32(0xDEADBEEF));
    let mut uniform = CpuUniform::new();
    let off = meta.write(&mut uniform) as usize;
    assert_eq!(off, 0);

    let le32 = |bytes: &Vec<u8>, p: usize| -> u32 {
        bytes[p] as u32
            | (bytes[p + 1] as u32) << 8
            | (bytes[p + 2] as u32) << 16
            | (bytes[p + 3] as u32) << 24
    };
    // Per the rendered struct layout: u32 at 0; vec4<u32> aligned at 16;
    // the final u32 right after it at 32.
    assert_eq!(le32(&uniform.buf, off), 7);
    assert_eq!(le32(&uniform.buf, off + 16), 1);
    assert_eq!(le32(&uniform.buf, off + 20), 2);
    assert_eq!(le32(&uniform.buf, off + 24), 3);
    assert_eq!(le32(&uniform.buf, off + 28), 4);
    assert_eq!(le32(&uniform.buf, off + 32), 0xDEADBEEF);

    let rendered = meta.render();
    assert_eq!(
        rendered.0,
        "struct Meta {\n    alpha: u32,\n    beta: vec4<u32>,\n    gamma: u32,\n}\n"
    );
}

#[test]
fn qindex_select() {
    let input = tensor(0, vec![4000, 384], DType::WQ8, None);
    let indices = tensor(1, vec![3], DType::I32, None);
    let select = IndexSelect::new(input, indices, 0);
    assert!(select.check_invariants());
    let view = select.compute_view().unwrap();
    assert_eq!(view.shape.dims, vec![3, 384]);
    assert_eq!(view.dt, DType::F32);

    let dst = tensor(2, vec![3, 384], DType::F32, None);
    let wgs = WorkgroupSize { x: 64, y: 1, z: 1 };
    let key = select.kernel_key(&wgs, false, &dst, KernelElement::Scalar);
    assert_eq!(key.as_str(), "wq8_index_select_WQ8_I32_F32_64_1_1_false_scalar");

    // One thread per packed group of four elements, rounded up to whole
    // workgroups: ceil(ceil(1152 / 4) / 64).
    let workload = select.calculate_dispatch(&dst).unwrap();
    assert_eq!(workload.workgroup_count.x, 5);

    let mut uniform = CpuUniform::new();
    let off = select.write_metadata(&mut uniform, &dst).unwrap() as usize;
    let le32 = |bytes: &Vec<u8>, p: usize| -> u32 {
        bytes[p] as u32
            | (bytes[p + 1] as u32) << 8
            | (bytes[p + 2] as u32) << 16
            | (bytes[p + 3] as u32) << 24
    };
    assert_eq!(le32(&uniform.buf, off), 1152); // dst_numel
    assert_eq!(le32(&uniform.buf, off + 4), 384); // right_numel
    assert_eq!(le32(&uniform.buf, off + 8), 3); // ids_numel
    assert_eq!(le32(&uniform.buf, off + 12), 4000); // src_dim_numel
}

fn small_graph() -> Vec<TensorNode> {
    // const0, const1, add(const0, const1) = t2, relu(t2) = t3 (the output)
    let c0 = tensor(0, vec![8], DType::F32, gpu_storage(0, 32));
    let c1 = tensor(1, vec![8], DType::F32, gpu_storage(1, 32));
    let t2 = tensor(2, vec![8], DType::F32, None);
    let t3 = tensor(3, vec![8], DType::F32, None);

    let n0 = TensorNode::new(tensor(0, vec![8], DType::F32, gpu_storage(0, 32)), LazyOp::Const);
    let n1 = TensorNode::new(tensor(1, vec![8], DType::F32, gpu_storage(1, 32)), LazyOp::Const);
    let n2 = TensorNode::new(
        tensor(2, vec![8], DType::F32, None),
        LazyOp::Binary(Binary::new(c0, c1, BinaryOp::Add)),
    );
    let n3 = TensorNode::new(t3, LazyOp::Unary(Unary::new(t2, UnaryOp::Relu)));
    vec![n0, n1, n2, n3]
}

#[test]
fn relu_aliases_its_single_consumer_source() {
    // relu supports in-place on its only source and t2 has exactly one
    // consumer, so the output t3 must share t2's physical buffer.
    let order = small_graph();
    let mut allocator = BufferAllocator::new();
    // The allocator's pool must own the constants' handles.
    let _ = allocator.create_buffer(&BufferDescriptor::new(32, USAGE_STANDARD, false));
    let _ = allocator.create_buffer(&BufferDescriptor::new(32, USAGE_STANDARD, false));
    let map = allocator.allocate_cfg(&order, false).unwrap();
    let b2 = map.get(2).expect("t2 must be assigned");
    let b3 = map.get(3).expect("t3 must be assigned");
    assert_eq!(b2, b3);
    // The output buffer is not a constant's buffer.
    assert_ne!(b3.0.handle, 0);
    assert_ne!(b3.0.handle, 1);
    // Constants keep their resident buffers.
    assert_eq!(map.get(0).unwrap().0.handle, 0);
    assert_eq!(map.get(1).unwrap().0.handle, 1);
}

#[test]
fn allocator_rejects_host_resident_constants() {
    let mut order = small_graph();
    order[0] = TensorNode::new(
        tensor(0, vec![8], DType::F32, Some(Storage::CPU)),
        LazyOp::Const,
    );
    let mut allocator = BufferAllocator::new();
    let _ = allocator.create_buffer(&BufferDescriptor::new(32, USAGE_STANDARD, false));
    let _ = allocator.create_buffer(&BufferDescriptor::new(32, USAGE_STANDARD, false));
    let r = allocator.allocate_cfg(&order, false);
    assert!(matches!(r, Err(ratchet::allocator::AllocatorError::BufferNotFound)));
}

#[test]
fn overlapping_tensors_get_distinct_buffers() {
    // c = add(a, b) and d = mul(a, c): c and d are live at the same time,
    // so they may not share a buffer. Binary ops alias only a sole-consumer
    // source, and a has two consumers, so nothing collapses.
    let a = || tensor(0, vec![16], DType::F32, gpu_storage(0, 64));
    let b = || tensor(1, vec![16], DType::F32, gpu_storage(1, 64));
    let c = || tensor(2, vec![16], DType::F32, None);
    let n0 = TensorNode::new(a(), LazyOp::Const);
    let n1 = TensorNode::new(b(), LazyOp::Const);
    let n2 = TensorNode::new(c(), LazyOp::Binary(Binary::new(a(), b(), BinaryOp::Add)));
    let n3 = TensorNode::new(
        tensor(3, vec![16], DType::F32, None),
        LazyOp::Binary(Binary::new(a(), c(), BinaryOp::Mul)),
    );
    let order = vec![n0, n1, n2, n3];
    let mut allocator = BufferAllocator::new();
    let _ = allocator.create_buffer(&BufferDescriptor::new(64, USAGE_STANDARD, false));
    let _ = allocator.create_buffer(&BufferDescriptor::new(64, USAGE_STANDARD, false));
    let map = allocator.allocate_cfg(&order, false).unwrap();
    let bc = map.get(2).unwrap();
    let bd = map.get(3).unwrap();
    assert_ne!(bc, bd);
}

#[test]
fn dispatch_preserves_step_order() {
    let a = tensor(0, vec![2, 3], DType::F32, gpu_storage(0, 24));
    let b = tensor(1, vec![2, 4], DType::F32, gpu_storage(1, 32));
    let dst = tensor(2, vec![2, 7], DType::F32, None);
    let mut assignments = BufferMap::new();
    for (id, size) in [(0u64, 24u64), (1, 32), (2, 56)] {
        assignments.insert(
            id,
            ratchet::allocator::GraphBuffer(PooledGPUBuffer {
                handle: id,
                descriptor: BufferDescriptor {
                    size,
                    usage: USAGE_STANDARD,
                    mapped_at_creation: false,
                },
            }),
        );
    }
    let op = LazyOp::Concat(Concat::new(vec![a, b], 1));
    let mut uniform = CpuUniform::new();
    let mut pools = ResourcePools::new();
    let features = DeviceFeatures { shader_f16: false };
    let one = compile(&op, &dst, &mut uniform, &mut pools, &assignments, features, false).unwrap();
    let two = compile(&op, &dst, &mut uniform, &mut pools, &assignments, features, false).unwrap();
    let offsets = [one.offset, two.offset];
    let uniform_buf = GpuUniform {
        buf: PooledGPUBuffer {
            handle: 9,
            descriptor: BufferDescriptor { size: 512, usage: 72, mapped_at_creation: false },
        },
    };
    let exe = Executable::new(vec![one, two], uniform_buf);
    let cmds = exe.dispatch_operations(&pools).unwrap();
    // One command block per step, in step order.
    let mut seen_offsets = Vec::new();
    let mut dispatches = 0;
    for cmd in &cmds {
        match cmd {
            DispatchCommand::SetUniformGroup { offset, .. } => seen_offsets.push(*offset),
            DispatchCommand::Dispatch { .. } => dispatches += 1,
            _ => {}
        }
    }
    assert_eq!(seen_offsets, offsets.to_vec());
    assert_eq!(dispatches, 2);

    // An executable whose pipeline handle was never vended fails.
    let empty_pools = ResourcePools::new();
    let bad = CompiledOp::new(
        7,
        ratchet::workload::WorkgroupCount { x: 1, y: 1, z: 1 },
        Vec::new(),
        0,
        exe.steps[0].kernel_key.duplicate(),
    );
    let exe2 = Executable::new(vec![bad], uniform_buf);
    assert!(exe2.dispatch_operations(&empty_pools).is_err());
}

#[test]
fn compile_refuses_families_without_kernels() {
    let x = tensor(0, vec![4], DType::F32, None);
    let y = tensor(1, vec![4], DType::F32, None);
    let dst = tensor(2, vec![4], DType::F32, None);
    let mut assignments = BufferMap::new();
    for id in [0u64, 1, 2] {
        assignments.insert(
            id,
            ratchet::allocator::GraphBuffer(PooledGPUBuffer {
                handle: id,
                descriptor: BufferDescriptor {
                    size: 16,
                    usage: USAGE_STANDARD,
                    mapped_at_creation: false,
                },
            }),
        );
    }
    let op = LazyOp::Binary(Binary::new(x, y, BinaryOp::Add));
    let mut uniform = CpuUniform::new();
    let mut pools = ResourcePools::new();
    let r = compile(
        &op,
        &dst,
        &mut uniform,
        &mut pools,
        &assignments,
        DeviceFeatures { shader_f16: false },
        false,
    );
    assert!(r.is_err());
}

#[test]
fn reindex_kernels_generate_valid_wgsl() {
    let wgs = WorkgroupSize { x: 64, y: 1, z: 1 };
    let features = DeviceFeatures { shader_f16: false };

    // permute([2, 3] by [1, 0]) reads transposed.
    let src = tensor(0, vec![2, 3], DType::F32, None);
    let dst = tensor(1, vec![3, 2], DType::F32, None);
    let kernels = ReindexKernels::Standard(Reindex::Permute(Permute::new(src, vec![1, 0])));
    let meta = kernels.metadata(&dst).unwrap();
    assert_eq!(meta.src_numel, 6);
    assert_eq!(meta.dst_numel, 6);
    // promoted strides of [1, 1, 2, 3]
    assert_eq!(
        (meta.src_stride.x, meta.src_stride.y, meta.src_stride.z, meta.src_stride.w),
        (6, 6, 3, 1)
    );
    // promoted permutation of [1, 0]: identity axes first, shifted axes after.
    assert_eq!((meta.perm.x, meta.perm.y, meta.perm.z, meta.perm.w), (0, 1, 3, 2));
    let builder = kernels.render(false, &wgs, &meta, DType::F32, features);
    assert!(builder.build().is_ok());

    // slice([0..2, 1..3]) keeps a window; its start offsets are promoted.
    let src = tensor(0, vec![2, 3], DType::F32, None);
    let slice = Slice::new(
        src,
        vec![DimRange { start: 0, end: 2 }, DimRange { start: 1, end: 3 }],
    );
    assert!(slice.check_invariants());
    let dst = tensor(1, vec![2, 2], DType::F32, None);
    let kernels = ReindexKernels::Standard(Reindex::Slice(slice));
    let meta = kernels.metadata(&dst).unwrap();
    assert_eq!(
        (meta.src_offsets.x, meta.src_offsets.y, meta.src_offsets.z, meta.src_offsets.w),
        (0, 0, 0, 1)
    );
    let builder = kernels.render(false, &wgs, &meta, DType::F32, features);
    assert!(builder.build().is_ok());

    // broadcast([1, 3] to [4, 3]) repeats the length-one axis.
    let src = tensor(0, vec![1, 3], DType::F32, None);
    let to = Shape::new(vec![4, 3]);
    let broadcast = Broadcast::new(src, to);
    assert!(broadcast.check_invariants());
    let dst = tensor(1, vec![4, 3], DType::F32, None);
    let kernels = ReindexKernels::Standard(Reindex::Broadcast(broadcast));
    let meta = kernels.metadata(&dst).unwrap();
    let builder = kernels.render(false, &wgs, &meta, DType::F32, features);
    assert!(builder.build().is_ok());
}

#[test]
fn segments_split_packed_quantized_buffers() {
    let segs = DType::WQ8.segments(100);
    assert_eq!(segs.len(), 2);
    assert_eq!((segs[0].offset, segs[0].size), (0, 80));
    assert_eq!((segs[1].offset, segs[1].size), (80, 20));
    let plain = DType::F32.segments(64);
    assert_eq!(plain.len(), 1);
    assert_eq!((plain[0].offset, plain[0].size), (0, 64));
}


#[test]
fn reindex_compile_caches_by_key() {
    let src = tensor(0, vec![2, 3], DType::F32, gpu_storage(0, 24));
    let dst = tensor(1, vec![3, 2], DType::F32, None);
    let mut assignments = BufferMap::new();
    for (id, size) in [(0u64, 24u64), (1, 24)] {
        assignments.insert(
            id,
            ratchet::allocator::GraphBuffer(PooledGPUBuffer {
                handle: id,
                descriptor: BufferDescriptor {
                    size,
                    usage: USAGE_STANDARD,
                    mapped_at_creation: false,
                },
            }),
        );
    }
    let op = LazyOp::Reindex(Reindex::Permute(Permute::new(src, vec![1, 0])));
    let mut uniform = CpuUniform::new();
    let mut pools = ResourcePools::new();
    let features = DeviceFeatures { shader_f16: false };

    let first = compile(&op, &dst, &mut uniform, &mut pools, &assignments, features, false)
        .expect("the generated permute kernel must be valid WGSL");
    assert_eq!(pools.modules.len(), 1);
    assert_eq!(first.kernel_key.as_str(), "permute_F32_F32_64_1_1_false_scalar");
    // One thread per output element: ceil(6 / 64) workgroups.
    assert_eq!(
        (first.workgroup_count.x, first.workgroup_count.y, first.workgroup_count.z),
        (1, 1, 1)
    );
    // Sources in order, then the destination.
    assert_eq!(first.storage_groups.len(), 1);
    assert_eq!(first.storage_groups[0].buffers, vec![0, 1]);

    let bgls = pools.bind_group_layouts.len();
    let pls = pools.pipeline_layouts.len();
    let pipes = pools.pipelines.len();
    let src2 = tensor(0, vec![2, 3], DType::F32, gpu_storage(0, 24));
    let op2 = LazyOp::Reindex(Reindex::Permute(Permute::new(src2, vec![1, 0])));
    let second = compile(&op2, &dst, &mut uniform, &mut pools, &assignments, features, false)
        .expect("recompilation must succeed");
    assert_eq!(pools.modules.len(), 1);
    assert_eq!(pools.bind_group_layouts.len(), bgls);
    assert_eq!(pools.pipeline_layouts.len(), pls);
    assert_eq!(pools.pipelines.len(), pipes);
    assert_eq!(first.pipeline_handle, second.pipeline_handle);

    // A different member of the family compiles a distinct kernel.
    let src3 = tensor(0, vec![2, 3], DType::F32, gpu_storage(0, 24));
    let broadcast = LazyOp::Reindex(Reindex::Broadcast(Broadcast::new(
        src3,
        Shape::new(vec![2, 3]),
    )));
    let dst3 = tensor(1, vec![2, 3], DType::F32, None);
    let third = compile(&broadcast, &dst3, &mut uniform, &mut pools, &assignments, features, false)
        .expect("the generated broadcast kernel must be valid WGSL");
    assert_eq!(pools.modules.len(), 2);
    assert!(!first.kernel_key.key_eq(&third.kernel_key));
}

#[test]
fn compile_rejects_unsupported_destination_types() {
    let a = tensor(0, vec![2, 3], DType::I32, gpu_storage(0, 24));
    let b = tensor(1, vec![2, 4], DType::I32, gpu_storage(1, 32));
    let dst = tensor(2, vec![2, 7], DType::I32, None);
    let mut assignments = BufferMap::new();
    for (id, size) in [(0u64, 24u64), (1, 32), (2, 56)] {
        assignments.insert(
            id,
            ratchet::allocator::GraphBuffer(PooledGPUBuffer {
                handle: id,
                descriptor: BufferDescriptor {
                    size,
                    usage: USAGE_STANDARD,
                    mapped_at_creation: false,
                },
            }),
        );
    }
    let op = LazyOp::Concat(Concat::new(vec![a, b], 1));
    let mut uniform = CpuUniform::new();
    let mut pools = ResourcePools::new();
    let r = compile(
        &op,
        &dst,
        &mut uniform,
        &mut pools,
        &assignments,
        DeviceFeatures { shader_f16: false },
        false,
    );
    assert!(r.is_err());
    // The refusal creates no device objects.
    assert_eq!(pools.bind_group_layouts.len(), 0);
    assert_eq!(pools.modules.len(), 0);
}

#[test]
fn view_and_cast_chains_collapse_in_place() {
    // c0 (const), t1 = relu(c0), t2 = reshape(t1), t3 = cast(t2): the
    // reshape and cast write into t1's buffer, so one buffer serves all
    // three virtual tensors.
    let c0 = || tensor(0, vec![2, 4], DType::F32, gpu_storage(0, 32));
    let t1 = || tensor(1, vec![2, 4], DType::F32, None);
    let t2 = || tensor(2, vec![8], DType::F32, None);
    let n0 = TensorNode::new(c0(), LazyOp::Const);
    let n1 = TensorNode::new(t1(), LazyOp::Unary(Unary::new(c0(), UnaryOp::Relu)));
    let reshape = Reshape::new(t1(), Shape::new(vec![8]));
    assert!(reshape.check_invariants());
    let n2 = TensorNode::new(t2(), LazyOp::View(reshape));
    let n3 = TensorNode::new(
        tensor(3, vec![8], DType::F32, None),
        LazyOp::Cast(Cast::new(t2(), DType::F32)),
    );
    let order = vec![n0, n1, n2, n3];
    let mut allocator = BufferAllocator::new();
    let _ = allocator.create_buffer(&BufferDescriptor::new(32, USAGE_STANDARD, false));
    let map = allocator.allocate_cfg(&order, false).unwrap();
    let b1 = map.get(1).unwrap();
    let b2 = map.get(2).unwrap();
    let b3 = map.get(3).unwrap();
    assert_eq!(b1, b2);
    assert_eq!(b2, b3);
    assert_ne!(b1.0.handle, 0);
}


#[test]
fn order_validation_decides_the_planner_preconditions() {
    let order = small_graph();
    assert!(ratchet::allocator::check_order(&order, 2));
    // A duplicated tensor identity is refused.
    let mut bad = small_graph();
    bad[1] = TensorNode::new(tensor(0, vec![8], DType::F32, gpu_storage(0, 32)), LazyOp::Const);
    assert!(!ratchet::allocator::check_order(&bad, 2));
    // A resident buffer the pool never vended is refused.
    assert!(!ratchet::allocator::check_order(&order, 1));
}
