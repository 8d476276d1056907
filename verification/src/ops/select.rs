use vstd::prelude::*;

use crate::dtype::DType;
use crate::op::{KernelElement, KernelKey, KernelStem, OpGuards, Operation, OperationError};
use crate::resources::BindGroupLayoutDescriptor;
use crate::shape::{lemma_prod_suffix_bound, prod, Shape, Strides};
use crate::tensor::{StorageView, StorageViewV, Tensor};
use crate::uniform::{align_up, field_decodes, field_offset, CpuUniform, DynKernelMetadata,
    DynMetaField};
use crate::workload::{Workload, WorkgroupSize};

verus! {

/// Gathers rows of a two-dimensional table by a vector of indices.
#[derive(Debug)]
pub struct IndexSelect {
    pub input: Tensor,
    pub indices: Tensor,
    pub dim: usize,
}

/// The four words of metadata an index-select kernel reads.
#[derive(Debug, Copy, Clone, PartialEq, Eq, Structural)]
pub struct IndexSelectMeta {
    pub dst_numel: u32,
    pub right_numel: u32,
    pub ids_numel: u32,
    pub src_dim_numel: u32,
}

impl IndexSelect {
    pub fn new(input: Tensor, indices: Tensor, dim: usize) -> (r: IndexSelect)
        ensures
            r.input@ == input@ && r.indices@ == indices@ && r.dim == dim,
    {
        IndexSelect { input, indices, dim }
    }

    /// The output dimension list: the input's, with the selected axis as
    /// long as the index vector.
    pub open spec fn output_shape_spec(&self) -> Seq<usize> {
        self.input@.view.shape.update(self.dim as int, self.indices@.view.shape[0] as usize)
    }

    /// The kernel family of this op is discriminated by its table's type.
    pub open spec fn stem_spec(&self) -> KernelStem {
        if self.input@.view.dt == DType::WQ8 {
            KernelStem::IndexSelectWQ8
        } else {
            KernelStem::IndexSelectF32
        }
    }

    /// Constructs the cache key of the select kernel variant.
    pub fn kernel_key(
        &self,
        workgroup_size: &WorkgroupSize,
        inplace: bool,
        dst: &Tensor,
        kernel_element: KernelElement,
    ) -> (r: KernelKey)
        requires
            self.input@.view.dt == DType::F32 || self.input@.view.dt == DType::WQ8,
        ensures
            r@.stem == self.stem_spec(),
            r@.input_dts == seq![self.input@.view.dt, self.indices@.view.dt],
            r@.output_dt == dst@.view.dt,
            r@.workgroup_size == *workgroup_size,
            r@.inplace == inplace,
            r@.element == kernel_element,
            r@.additional is None,
    {
        let stem: KernelStem = if matches!(self.input.dt(), DType::WQ8) {
            KernelStem::IndexSelectWQ8
        } else {
            KernelStem::IndexSelectF32
        };
        let mut srcs: Vec<&Tensor> = Vec::new();
        srcs.push(&self.input);
        srcs.push(&self.indices);
        let r = KernelKey::new(stem, &srcs, dst, workgroup_size, inplace, kernel_element, None);
        proof {
            assert(srcs.deep_view() =~= seq![self.input@, self.indices@]);
            assert(r@.input_dts =~= seq![self.input@.view.dt, self.indices@.view.dt]);
        }
        r
    }

    pub fn kernel_element(&self, _dst: &Tensor) -> (r: KernelElement)
        ensures
            r == KernelElement::Scalar,
    {
        KernelElement::Scalar
    }

    /// Workgroups needed: one thread per output element, or per packed
    /// group of four for the quantized table, rounded up to whole
    /// workgroups.
    pub fn calculate_dispatch(&self, dst: &Tensor) -> (r: Result<Workload, OperationError>)
        requires
            dst.wf(),
            self.input@.view.dt == DType::F32 || self.input@.view.dt == DType::WQ8,
        ensures
            r matches Ok(w) && w == crate::workload::standard_workload_spec(
                prod(dst@.view.shape),
                if self.input@.view.dt == DType::WQ8 {
                    4int
                } else {
                    1int
                },
            ),
    {
        let numel: usize = dst.shape().numel();
        let w = if matches!(self.input.dt(), DType::WQ8) {
            Workload::standard(numel, 4)
        } else {
            Workload::standard(numel, 1)
        };
        Ok(w)
    }

    /// The storage layout: table and indices read-only, output read-write;
    /// the quantized table carries its scale segment as a third input.
    pub fn storage_bind_group_layout(&self, _inplace: bool) -> (r: Result<
        BindGroupLayoutDescriptor,
        OperationError,
    >)
        requires
            self.input@.view.dt == DType::F32 || self.input@.view.dt == DType::WQ8,
        ensures
            self.input@.view.dt == DType::F32 ==> (r matches Ok(d) && d == (
            BindGroupLayoutDescriptor { num_read_only: 2usize, num_read_write: 1usize, uniform: false })),
            self.input@.view.dt == DType::WQ8 ==> (r matches Ok(d) && d == (
            BindGroupLayoutDescriptor { num_read_only: 3usize, num_read_write: 1usize, uniform: false })),
    {
        if matches!(self.input.dt(), DType::WQ8) {
            Ok(BindGroupLayoutDescriptor::ternary())
        } else {
            Ok(BindGroupLayoutDescriptor::binary())
        }
    }

    /// The metadata words this op writes, in layout order.
    pub open spec fn meta_values(&self, dst: StorageViewV) -> Seq<DynMetaField> {
        seq![
            DynMetaField::U32(prod(dst.shape) as u32),
            DynMetaField::U32(
                prod(
                    self.input@.view.shape.subrange(
                        self.dim + 1,
                        self.input@.view.shape.len() as int,
                    ),
                ) as u32,
            ),
            DynMetaField::U32(prod(self.indices@.view.shape) as u32),
            DynMetaField::U32(self.input@.view.shape[self.dim as int] as u32),
        ]
    }

    /// Packs the four metadata words at the next record offset; each is
    /// read back exactly from the bytes.
    pub fn write_metadata(&self, uniform: &mut CpuUniform, dst: &Tensor) -> (r: Result<
        u64,
        OperationError,
    >)
        requires
            crate::op::invariants_ok(self),
            dst.wf(),
            self.input.wf(),
            self.indices.wf(),
            old(uniform)@.len() + 512 <= usize::MAX,
        ensures
            r matches Ok(off) && {
                &&& off == align_up(old(uniform)@.len() as int, 256)
                &&& off % 256 == 0
                &&& forall|i: int|
                    0 <= i < self.meta_values(dst@.view).len() ==> field_decodes(
                        final(uniform)@,
                        off + field_offset(self.meta_values(dst@.view), i),
                        self.meta_values(dst@.view)[i],
                    )
            },
            final(uniform)@.subrange(0, old(uniform)@.len() as int) == old(uniform)@,
    {
        let dst_numel: u32 = dst.shape().numel() as u32;
        let right_numel: u32 = right_numel_of(&self.input.view.shape, self.dim);
        let ids_numel: u32 = self.indices.shape().numel() as u32;
        let src_dim_numel: u32 = self.input.view.shape.dim(self.dim) as u32;
        proof {
            lemma_prod_suffix_bound(self.input@.view.shape, self.dim as int);
            crate::shape::lemma_prod_suffix_step(self.input@.view.shape, self.dim as int);
            crate::shape::lemma_prod_suffix_bound(self.input@.view.shape, self.dim + 1);
        }
        let mut meta = DynKernelMetadata::new();
        meta.add_field("dst_numel", DynMetaField::U32(dst_numel));
        meta.add_field("right_numel", DynMetaField::U32(right_numel));
        meta.add_field("ids_numel", DynMetaField::U32(ids_numel));
        meta.add_field("src_dim_numel", DynMetaField::U32(src_dim_numel));
        proof {
            assert(meta.values() =~= self.meta_values(dst@.view));
        }
        let off: u64 = meta.write(uniform);
        Ok(off)
    }
}

/// Elements to the right of axis `dim`: the product of the later extents.
fn right_numel_of(shape: &Shape, dim: usize) -> (r: u32)
    requires
        shape.wf(),
        dim < shape@.len(),
    ensures
        r == prod(shape@.subrange(dim + 1, shape@.len() as int)),
{
    let n: usize = shape.rank();
    let mut acc: u64 = 1;
    let mut i: usize = n;
    proof {
        assert(shape@.subrange(n as int, n as int) =~= Seq::<usize>::empty());
    }
    while i > dim + 1
        invariant
            dim + 1 <= i <= n,
            dim < shape@.len(),
            n == shape@.len(),
            shape.wf(),
            acc == prod(shape@.subrange(i as int, n as int)),
            1 <= acc <= u32::MAX,
        decreases i,
    {
        i = i - 1;
        proof {
            crate::shape::lemma_prod_suffix_step(shape@, i as int);
            crate::shape::lemma_prod_suffix_bound(shape@, i as int);
            assert(prod(shape@.subrange(i as int, n as int)) == shape@[i as int] * acc);
            assert(shape@[i as int] * acc == acc * shape@[i as int]) by (nonlinear_arith);
        }
        acc = acc * (shape.dim(i) as u64);
        assert(acc == prod(shape@.subrange(i as int, n as int)));
    }
    acc as u32
}

impl OpGuards for IndexSelect {
    open spec fn shapes_ok(&self) -> bool {
        self.input@.view.shape.len() == 2 && self.indices@.view.shape.len() == 1
    }

    open spec fn dtypes_ok(&self) -> bool {
        self.indices@.view.dt == DType::I32
    }

    open spec fn custom_ok(&self) -> bool {
        (self.dim as int) < self.input@.view.shape.len()
    }

    fn check_shapes(&self) -> (r: bool) {
        self.input.rank() == 2 && self.indices.rank() == 1
    }

    fn check_dtypes(&self) -> (r: bool) {
        matches!(self.indices.dt(), DType::I32)
    }

    fn check_custom(&self) -> (r: bool) {
        self.dim < self.input.rank()
    }
}

impl Operation for IndexSelect {
    open spec fn output_view_spec(&self) -> StorageViewV {
        StorageViewV {
            shape: self.output_shape_spec(),
            dt: DType::F32,
            strides: crate::shape::strides_of(self.output_shape_spec()).map_values(
                |s: int| s as usize,
            ),
        }
    }

    open spec fn view_req(&self) -> bool {
        &&& crate::op::invariants_ok(self)
        &&& forall|i: int|
            0 <= i < self.output_shape_spec().len() ==> #[trigger] self.output_shape_spec()[i] >= 1
        &&& prod(self.output_shape_spec()) <= u32::MAX
    }

    fn compute_view(&self) -> (r: Result<StorageView, OperationError>) {
        let mut output_shape: Shape = self.input.view.shape.duplicate();
        let ids: usize = self.indices.view.shape.dim(0);
        set_dim(&mut output_shape, self.dim, ids);
        proof {
            assert(output_shape@ =~= self.output_shape_spec());
        }
        let strides = Strides::from_shape(&output_shape);
        proof {
            assert(strides@ =~= self.output_view_spec().strides);
        }
        Ok(StorageView::new(output_shape, DType::F32, strides))
    }
}

/// Replaces one extent of a dimension list.
pub fn set_dim(shape: &mut Shape, i: usize, v: usize)
    requires
        i < old(shape)@.len(),
    ensures
        final(shape)@ == old(shape)@.update(i as int, v),
{
    shape.dims.set(i, v);
}

} // verus!
