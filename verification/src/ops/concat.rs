use vstd::prelude::*;
use vstd::string::StringExecFns;

use crate::dtype::DType;
use crate::kernel_builder::{binding_text, bindings_prefix_text, initial_globals_text,
    main_header_text, source_text, BindingMode, BindingType, BuiltIn, DeviceFeatures,
    KernelBindingV, WgslKernelBuilder};
use crate::op::{KernelElement, KernelKey, KernelStem, OpGuards, Operation, OperationError};
use crate::resources::BindGroupLayoutDescriptor;
use crate::shape::{lemma_prod_pos, lemma_prod_prefix_le, prod, strides_of, Shape, Strides};
use crate::strutil::{dec_str, digit_str};
use crate::tensor::{StorageView, StorageViewV, Tensor, TensorV};
use crate::uniform::{meta_struct_text, DynKernelMetadata, DynMetaField, UVec4};
use crate::workload::{Workload, WorkgroupSize};

verus! {

/// Stacks its operands along one axis; all other axes must agree.
#[derive(Debug)]
pub struct Concat {
    pub inputs: Vec<Tensor>,
    pub dim: usize,
}

/// Total extent of axis `d` over the first `k` operands.
pub open spec fn dim_sum(ins: Seq<TensorV>, d: int, k: int) -> int
    decreases k,
{
    if k <= 0 {
        0
    } else {
        dim_sum(ins, d, k - 1) + ins[k - 1].view.shape[d]
    }
}

/// An extent never exceeds the whole shape's element count.
pub proof fn lemma_dim_le_prod(dims: Seq<usize>, d: int)
    requires
        0 <= d < dims.len(),
        forall|i: int| 0 <= i < dims.len() ==> dims[i] >= 1,
    ensures
        dims[d] <= prod(dims),
{
    lemma_prod_prefix_le(dims, d + 1);
    let a = dims.subrange(0, d);
    let b = dims.subrange(0, d + 1);
    assert(b.drop_last() =~= a);
    assert(prod(b) == prod(a) * b.last());
    lemma_prod_pos(a);
    assert(prod(a) * b.last() >= 1 * b.last()) by (nonlinear_arith)
        requires
            prod(a) >= 1,
            b.last() >= 0,
    ;
}

impl Concat {
    pub fn new(inputs: Vec<Tensor>, dim: usize) -> (r: Concat)
        ensures
            r.inputs.deep_view() == inputs.deep_view() && r.dim == dim,
    {
        Concat { inputs, dim }
    }

    pub open spec fn ins(&self) -> Seq<TensorV> {
        self.inputs.deep_view()
    }

    /// The output dimension list: the first operand's, with the stacked
    /// axis summed over all operands.
    pub open spec fn output_shape_spec(&self) -> Seq<usize> {
        self.ins()[0].view.shape.update(
            self.dim as int,
            dim_sum(self.ins(), self.dim as int, self.ins().len() as int) as usize,
        )
    }

    /// All operands well formed, and the stacked output still within the
    /// device's index space.
    pub open spec fn inputs_wf(&self) -> bool {
        &&& forall|i: int, a: int|
            0 <= i < self.ins().len() && 0 <= a < self.ins()[i].view.shape.len() ==> (
            #[trigger] self.ins()[i].view.shape[a]) >= 1
        &&& forall|i: int| 0 <= i < self.ins().len() ==> prod(#[trigger] self.ins()[i].view.shape) <= u32::MAX
    }
}

impl OpGuards for Concat {
    open spec fn shapes_ok(&self) -> bool {
        let ins = self.ins();
        &&& 1 < ins.len() <= 8
        &&& forall|i: int|
            0 <= i < ins.len() ==> (#[trigger] ins[i].view.shape.len()) == ins[0].view.shape.len()
        &&& ins[0].view.shape.len() <= 4
        &&& (self.dim as int) < ins[0].view.shape.len()
        &&& forall|i: int, a: int|
            0 <= i < ins.len() && 0 <= a < ins[0].view.shape.len() && a != self.dim ==> (
            #[trigger] ins[i].view.shape[a]) == ins[0].view.shape[a]
    }

    open spec fn dtypes_ok(&self) -> bool {
        forall|i: int|
            0 <= i < self.ins().len() ==> (#[trigger] self.ins()[i].view.dt)
                == self.ins()[0].view.dt
    }

    fn check_shapes(&self) -> (r: bool) {
        let n: usize = self.inputs.len();
        if n <= 1 || n > 8 {
            return false;
        }
        let rank: usize = self.inputs[0].rank();
        if rank > 4 {
            return false;
        }
        if self.dim >= rank {
            return false;
        }
        let mut i: usize = 0;
        while i < n
            invariant
                i <= n,
                n == self.ins().len(),
                rank == self.ins()[0].view.shape.len(),
                forall|k: int| 0 <= k < i ==> (#[trigger] self.ins()[k].view.shape.len()) == rank,
            decreases n - i,
        {
            if self.inputs[i].rank() != rank {
                proof {
                    assert(self.ins()[i as int].view.shape.len() != rank);
                }
                return false;
            }
            i = i + 1;
        }
        let mut i2: usize = 0;
        while i2 < n
            invariant
                i2 <= n,
                n == self.ins().len(),
                rank == self.ins()[0].view.shape.len(),
                self.dim < rank,
                forall|k: int| 0 <= k < n ==> (#[trigger] self.ins()[k].view.shape.len()) == rank,
                forall|k: int, a: int|
                    0 <= k < i2 && 0 <= a < rank && a != self.dim ==> (
                    #[trigger] self.ins()[k].view.shape[a]) == self.ins()[0].view.shape[a],
            decreases n - i2,
        {
            let mut a: usize = 0;
            while a < rank
                invariant
                    a <= rank,
                    i2 < n,
                    n == self.ins().len(),
                    rank == self.ins()[0].view.shape.len(),
                    self.dim < rank,
                    forall|k: int|
                        0 <= k < n ==> (#[trigger] self.ins()[k].view.shape.len()) == rank,
                    forall|b: int|
                        0 <= b < a && b != self.dim ==> (
                        #[trigger] self.ins()[i2 as int].view.shape[b])
                            == self.ins()[0].view.shape[b],
                decreases rank - a,
            {
                if a != self.dim {
                    proof {
                        assert(self.ins()[i2 as int].view.shape.len() == rank);
                        assert(self.ins()[i2 as int] == self.inputs@[i2 as int]@);
                        assert(self.ins()[0] == self.inputs@[0]@);
                    }
                    if self.inputs[i2].view.shape.dim(a) != self.inputs[0].view.shape.dim(a) {
                        proof {
                            assert(self.ins()[i2 as int].view.shape[a as int]
                                != self.ins()[0].view.shape[a as int]);
                        }
                        return false;
                    }
                }
                a = a + 1;
            }
            i2 = i2 + 1;
        }
        true
    }

    fn check_dtypes(&self) -> (r: bool) {
        let n: usize = self.inputs.len();
        if n == 0 {
            proof {
                assert(self.dtypes_ok());
            }
            return true;
        }
        let first: crate::dtype::DType = self.inputs[0].dt();
        let mut i: usize = 0;
        while i < n
            invariant
                i <= n,
                n == self.ins().len(),
                n > 0,
                first == self.ins()[0].view.dt,
                forall|k: int| 0 <= k < i ==> (#[trigger] self.ins()[k].view.dt) == first,
            decreases n - i,
        {
            if self.inputs[i].dt() != first {
                proof {
                    assert(self.ins()[i as int].view.dt != first);
                }
                return false;
            }
            i = i + 1;
        }
        true
    }

    fn check_custom(&self) -> (r: bool) {
        true
    }
}

impl Operation for Concat {
    open spec fn output_view_spec(&self) -> StorageViewV {
        StorageViewV {
            shape: self.output_shape_spec(),
            dt: self.ins()[0].view.dt,
            strides: strides_of(self.output_shape_spec()).map_values(|s: int| s as usize),
        }
    }

    open spec fn view_req(&self) -> bool {
        &&& crate::op::invariants_ok(self)
        &&& self.inputs_wf()
        &&& dim_sum(self.ins(), self.dim as int, self.ins().len() as int) <= u32::MAX
        &&& prod(self.output_shape_spec()) <= u32::MAX
    }

    fn compute_view(&self) -> (r: Result<StorageView, OperationError>) {
        let n: usize = self.inputs.len();
        let mut total: u64 = 0;
        let mut i: usize = 0;
        while i < n
            invariant
                i <= n,
                n == self.ins().len(),
                self.shapes_ok(),
                self.inputs_wf(),
                total == dim_sum(self.ins(), self.dim as int, i as int),
                total <= i * (u32::MAX as int),
            decreases n - i,
        {
            proof {
                assert(self.ins()[i as int].view.shape.len() == self.ins()[0].view.shape.len());
                lemma_dim_le_prod(self.ins()[i as int].view.shape, self.dim as int);
            }
            total = total + (self.inputs[i].view.shape.dim(self.dim) as u64);
            proof {
                assert(total <= (i + 1) * (u32::MAX as int)) by (nonlinear_arith)
                    requires
                        total <= i * (u32::MAX as int) + u32::MAX,
                ;
            }
            i = i + 1;
        }
        proof {
            lemma_dim_sum_pos(self.ins(), self.dim as int, n as int);
            assert(total <= u32::MAX);
            assert forall|a: int|
                0 <= a < self.output_shape_spec().len() implies #[trigger] self.output_shape_spec()[a]
                >= 1 by {
                if a != self.dim {
                    assert(self.ins()[0].view.shape[a] >= 1);
                } else {
                    assert(1 <= dim_sum(self.ins(), self.dim as int, n as int) <= u32::MAX);
                }
            }
        }
        let mut output_shape: Shape = self.inputs[0].view.shape.duplicate();
        crate::ops::select::set_dim(&mut output_shape, self.dim, total as usize);
        proof {
            assert(output_shape@ =~= self.output_shape_spec());
            assert(output_shape.wf()) by {
                assert(forall|a: int|
                    0 <= a < output_shape@.len() ==> #[trigger] output_shape@[a] >= 1) by {
                    assert(forall|a: int|
                        0 <= a < self.ins()[0].view.shape.len() ==> (
                        #[trigger] self.ins()[0].view.shape[a]) >= 1);
                    lemma_dim_sum_pos(self.ins(), self.dim as int, self.ins().len() as int);
                }
            }
        }
        let strides = Strides::from_shape(&output_shape);
        proof {
            assert(strides@ =~= self.output_view_spec().strides);
        }
        Ok(StorageView::new(output_shape, self.inputs[0].dt(), strides))
    }
}

/// With at least one operand of positive extent, the stacked axis is
/// positive.
proof fn lemma_dim_sum_pos(ins: Seq<TensorV>, d: int, k: int)
    requires
        k >= 1,
        k <= ins.len(),
        forall|i: int, a: int|
            0 <= i < ins.len() && 0 <= a < ins[i].view.shape.len() ==> (
            #[trigger] ins[i].view.shape[a]) >= 1,
        forall|i: int|
            0 <= i < ins.len() ==> (#[trigger] ins[i].view.shape.len())
                == ins[0].view.shape.len(),
        0 <= d < ins[0].view.shape.len(),
    ensures
        dim_sum(ins, d, k) >= 1,
    decreases k,
{
    assert(ins[k - 1].view.shape.len() == ins[0].view.shape.len());
    assert(ins[k - 1].view.shape[d] >= 1);
    assert(dim_sum(ins, d, k) == dim_sum(ins, d, k - 1) + ins[k - 1].view.shape[d]);
    if k > 1 {
        lemma_dim_sum_pos(ins, d, k - 1);
    } else {
        assert(dim_sum(ins, d, 0) == 0);
    }
}


/// The four promoted row-major strides of a shape, as kernels receive
/// them.
pub open spec fn promoted_strides_spec(shape: Seq<usize>) -> UVec4 {
    let s = strides_of(Shape::promote_spec(shape, 4));
    UVec4 { x: s[0] as u32, y: s[1] as u32, z: s[2] as u32, w: s[3] as u32 }
}

/// The names of the per-input stride fields, first `k` of them.
pub open spec fn stride_names_prefix(k: int) -> Seq<Seq<char>>
    decreases k,
{
    if k <= 0 {
        Seq::<Seq<char>>::empty()
    } else {
        stride_names_prefix(k - 1).push("x"@ + dec_str(k - 1) + "_stride"@)
    }
}

pub open spec fn stride_values_prefix(ins: Seq<TensorV>, k: int) -> Seq<DynMetaField>
    decreases k,
{
    if k <= 0 {
        Seq::<DynMetaField>::empty()
    } else {
        stride_values_prefix(ins, k - 1).push(
            DynMetaField::Vec4U32(promoted_strides_spec(ins[k - 1].view.shape)),
        )
    }
}

/// The names of the cumulative-boundary fields, first `k` of them.
pub open spec fn cum_names_prefix(k: int) -> Seq<Seq<char>>
    decreases k,
{
    if k <= 0 {
        Seq::<Seq<char>>::empty()
    } else {
        cum_names_prefix(k - 1).push("cum"@ + dec_str(k - 1))
    }
}

pub open spec fn cum_values_prefix(ins: Seq<TensorV>, d: int, k: int) -> Seq<DynMetaField>
    decreases k,
{
    if k <= 0 {
        Seq::<DynMetaField>::empty()
    } else {
        cum_values_prefix(ins, d, k - 1).push(DynMetaField::U32(dim_sum(ins, d, k) as u32))
    }
}

impl Concat {
    /// The metadata field names of this op, in layout order.
    pub open spec fn meta_names(&self) -> Seq<Seq<char>> {
        stride_names_prefix(self.ins().len() as int) + seq!["dst_stride"@, "dst_numel"@]
            + cum_names_prefix(self.ins().len() as int) + seq!["dim"@]
    }

    /// The metadata field values of this op, in layout order: each input's
    /// promoted strides, the output's promoted strides and element count,
    /// the running boundaries of the stacked axis, and the promoted axis.
    pub open spec fn meta_values(&self) -> Seq<DynMetaField> {
        let d = self.dim as int;
        stride_values_prefix(self.ins(), self.ins().len() as int) + seq![
            DynMetaField::Vec4U32(promoted_strides_spec(self.output_shape_spec())),
            DynMetaField::U32(prod(self.output_shape_spec()) as u32),
        ] + cum_values_prefix(self.ins(), d, self.ins().len() as int) + seq![
            DynMetaField::U32((self.dim + 4 - self.ins()[0].view.shape.len()) as u32),
        ]
    }

    pub fn kernel_element(&self, _dst: &Tensor) -> (r: KernelElement)
        ensures
            r == KernelElement::Scalar,
    {
        KernelElement::Scalar
    }

    /// One thread per output element, rounded up to whole workgroups.
    pub fn calculate_dispatch(&self, dst: &Tensor) -> (r: Result<Workload, OperationError>)
        requires
            dst.wf(),
        ensures
            r matches Ok(w) && w == crate::workload::standard_workload_spec(
                prod(dst@.view.shape),
                1,
            ),
    {
        Ok(Workload::standard(dst.shape().numel(), 1))
    }

    pub fn storage_bind_group_layout(&self, _inplace: bool) -> (r: Result<
        BindGroupLayoutDescriptor,
        OperationError,
    >)
        ensures
            r matches Ok(d) && d == (BindGroupLayoutDescriptor {
                num_read_only: self.inputs@.len() as usize,
                num_read_write: 1usize,
                uniform: false,
            }),
    {
        Ok(BindGroupLayoutDescriptor::nthary(self.inputs.len()))
    }

    pub fn kernel_key(
        &self,
        workgroup_size: &WorkgroupSize,
        inplace: bool,
        dst: &Tensor,
        kernel_element: KernelElement,
    ) -> (r: KernelKey)
        ensures
            r@ == (crate::op::KernelKeyV {
                stem: KernelStem::Concat,
                input_dts: self.ins().map_values(|t: TensorV| t.view.dt),
                output_dt: dst@.view.dt,
                workgroup_size: *workgroup_size,
                inplace,
                additional: None,
                element: kernel_element,
            }),
    {
        let op = crate::op::LazyOp::Concat(Concat { inputs: duplicate_tensors(&self.inputs), dim: self.dim });
        let srcs = op.srcs();
        let r = KernelKey::new(
            KernelStem::Concat,
            &srcs,
            dst,
            workgroup_size,
            inplace,
            kernel_element,
            None,
        );
        proof {
            assert(srcs.deep_view() == self.ins());
        }
        r
    }

    /// Derives the metadata record of this op: the field list the rendered
    /// struct and the uniform bytes are both generated from.
    pub fn metadata(&self, dst: &Tensor) -> (r: DynKernelMetadata)
        requires
            self.view_req(),
            dst.wf(),
            dst@.view.shape == self.output_shape_spec(),
        ensures
            r.names() == self.meta_names(),
            r.values() == self.meta_values(),
    {
        let n: usize = self.inputs.len();
        let mut meta = DynKernelMetadata::new();
        let mut i: usize = 0;
        while i < n
            invariant
                i <= n,
                n == self.ins().len(),
                self.view_req(),
                meta.names() =~= stride_names_prefix(i as int),
                meta.values() =~= stride_values_prefix(self.ins(), i as int),
            decreases n - i,
        {
            proof {
                assert(self.ins()[i as int] == self.inputs@[i as int]@);
                assert(self.ins()[i as int].view.shape.len() == self.ins()[0].view.shape.len());
            }
            proof {
                assert(i < 10) by {
                    assert(self.ins().len() <= 8);
                }
            }
            let mut nm = String::new();
            nm.append("x");
            nm.append(digit_str(i as u32));
            nm.append("_stride");
            let sv = promoted_strides_of(&self.inputs[i].view.shape);
            let ghost pre_names = meta.names();
            let ghost pre_values = meta.values();
            meta.add_field(nm.as_str(), DynMetaField::Vec4U32(sv));
            proof {
                assert(nm@ =~= "x"@ + dec_str(i as int) + "_stride"@);
                assert(meta.names() =~= pre_names.push(nm@));
                assert(meta.values() =~= pre_values.push(DynMetaField::Vec4U32(sv)));
                assert(meta.names() =~= stride_names_prefix(i + 1));
                assert(meta.values() =~= stride_values_prefix(self.ins(), i + 1));
            }
            i = i + 1;
        }
        let dst_strides = promoted_strides_of(&dst.view.shape);
        meta.add_field("dst_stride", DynMetaField::Vec4U32(dst_strides));
        let dst_numel: u32 = dst.view.shape.numel() as u32;
        meta.add_field("dst_numel", DynMetaField::U32(dst_numel));
        let ghost mid_names = meta.names();
        let ghost mid_values = meta.values();
        let mut acc: u64 = 0;
        let mut c: usize = 0;
        while c < n
            invariant
                c <= n,
                n == self.ins().len(),
                self.view_req(),
                acc == dim_sum(self.ins(), self.dim as int, c as int),
                0 <= acc <= u32::MAX,
                meta.names() =~= mid_names + cum_names_prefix(c as int),
                meta.values() =~= mid_values + cum_values_prefix(
                    self.ins(),
                    self.dim as int,
                    c as int,
                ),
            decreases n - c,
        {
            proof {
                assert(self.ins()[c as int] == self.inputs@[c as int]@);
                assert(self.ins()[c as int].view.shape.len() == self.ins()[0].view.shape.len());
                lemma_dim_le_prod(self.ins()[c as int].view.shape, self.dim as int);
                lemma_dim_sum_le(self.ins(), self.dim as int, c + 1, n as int);
            }
            acc = acc + (self.inputs[c].view.shape.dim(self.dim) as u64);
            proof {
                assert(c < 10) by {
                    assert(self.ins().len() <= 8);
                }
            }
            let mut nm = String::new();
            nm.append("cum");
            nm.append(digit_str(c as u32));
            let ghost pre_names = meta.names();
            let ghost pre_values = meta.values();
            meta.add_field(nm.as_str(), DynMetaField::U32(acc as u32));
            proof {
                assert(nm@ =~= "cum"@ + dec_str(c as int));
                assert(meta.names() =~= pre_names.push(nm@));
                assert(meta.values() =~= pre_values.push(DynMetaField::U32(acc as u32)));
                assert(cum_names_prefix(c + 1) =~= cum_names_prefix(c as int).push(
                    "cum"@ + dec_str(c as int),
                ));
                assert(meta.names() =~= mid_names + cum_names_prefix(c + 1));
                assert(meta.values() =~= mid_values + cum_values_prefix(
                    self.ins(),
                    self.dim as int,
                    c + 1,
                ));
            }
            c = c + 1;
        }
        let promoted_dim: u32 = (self.dim + (4 - self.inputs[0].rank())) as u32;
        let ghost pre_names2 = meta.names();
        let ghost pre_values2 = meta.values();
        meta.add_field("dim", DynMetaField::U32(promoted_dim));
        proof {
            assert(meta.names() =~= pre_names2.push("dim"@));
            assert(meta.values() =~= pre_values2.push(DynMetaField::U32(promoted_dim)));
            assert(meta.names() =~= self.meta_names());
            assert(meta.values() =~= self.meta_values());
        }
        meta
    }
}

/// Running boundaries stay within the full stacked extent.
proof fn lemma_dim_sum_le(ins: Seq<TensorV>, d: int, k: int, n: int)
    requires
        0 <= k <= n <= ins.len(),
        forall|i: int, a: int|
            0 <= i < ins.len() && 0 <= a < ins[i].view.shape.len() ==> (
            #[trigger] ins[i].view.shape[a]) >= 1,
        forall|i: int|
            0 <= i < ins.len() ==> (#[trigger] ins[i].view.shape.len())
                == ins[0].view.shape.len(),
        0 <= d < ins[0].view.shape.len(),
    ensures
        dim_sum(ins, d, k) <= dim_sum(ins, d, n),
    decreases n - k,
{
    if k < n {
        lemma_dim_sum_le(ins, d, k + 1, n);
        assert(ins[k].view.shape.len() == ins[0].view.shape.len());
        assert(ins[k].view.shape[d] >= 1);
    }
}

/// Computes the promoted strides of a shape as a four-word vector.
fn promoted_strides_of(shape: &Shape) -> (r: UVec4)
    requires
        shape.wf(),
        shape@.len() <= 4,
    ensures
        r == promoted_strides_spec(shape@),
{
    let p: Shape = shape.promote(4);
    proof {
        Shape::lemma_promote_wf(shape@, 4);
    }
    let s: Strides = Strides::from_shape(&p);
    UVec4 { x: s.elems[0] as u32, y: s.elems[1] as u32, z: s.elems[2] as u32, w: s.elems[3] as u32 }
}

/// Duplicates a tensor list by value.
pub fn duplicate_tensors(ts: &Vec<Tensor>) -> (r: Vec<Tensor>)
    ensures
        r.deep_view() == ts.deep_view(),
{
    let mut r: Vec<Tensor> = Vec::new();
    let n: usize = ts.len();
    let mut i: usize = 0;
    while i < n
        invariant
            i <= n,
            n == ts@.len(),
            r@.len() == i,
            forall|k: int| 0 <= k < i ==> #[trigger] r.deep_view()[k] == ts.deep_view()[k],
        decreases n - i,
    {
        let ghost prev = r@;
        let ghost prevdv = r.deep_view();
        let t = ts[i].duplicate();
        r.push(t);
        proof {
            assert forall|k: int| 0 <= k < i + 1 implies #[trigger] r.deep_view()[k]
                == ts.deep_view()[k] by {
                assert(ts.deep_view()[k] == ts@[k].deep_view());
                assert(r.deep_view()[k] == r@[k].deep_view());
                if k < i as int {
                    assert(r@[k] == prev[k]);
                    assert(prevdv[k] == prev[k].deep_view());
                    assert(prevdv[k] == ts.deep_view()[k]);
                }
            }
        }
        i = i + 1;
    }
    proof {
        assert(r.deep_view() =~= ts.deep_view());
    }
    r
}


/// The fixed opening of the concat kernel's entry point: one thread per
/// output element, early exit past the end, and the output index.
pub open spec fn concat_prelude_text() -> Seq<char> {
    "    let x_offset = workgroup_id.x * 64u;\n    let dst_offset = (workgroup_id.y * num_workgroups.x * 64u) + x_offset + local_invocation_index;\n    if (dst_offset >= metadata.dst_numel) {\n        return;\n    }\n    var dst_index = offsetToNdIndex(dst_offset, metadata.dst_stride);\n    let dim = metadata.dim;\n    if (dst_index[dim] < metadata.cum0) {\n        let src_offset = ndIndexToOffset(dst_index, metadata.x0_stride);\n        Y[dst_offset] = X0[src_offset];\n        return;\n    }\n"@
}

/// The branch reading operand `i`: inside its cumulative boundary, shift
/// the stacked axis back and copy from that operand.
pub open spec fn concat_branch_text(i: int) -> Seq<char> {
    "    if (dst_index[dim] < metadata.cum"@ + dec_str(i)
        + ") {\n        dst_index[dim] -= metadata.cum"@ + dec_str(i - 1)
        + ";\n        let src_offset = ndIndexToOffset(dst_index, metadata.x"@ + dec_str(i)
        + "_stride);\n        Y[dst_offset] = X"@ + dec_str(i)
        + "[src_offset];\n        return;\n    }\n"@
}

/// The branches for operands one up to `k`.
pub open spec fn concat_branches_text(k: int) -> Seq<char>
    decreases k,
{
    if k <= 1 {
        Seq::<char>::empty()
    } else {
        concat_branches_text(k - 1) + concat_branch_text(k - 1)
    }
}

/// The WGSL element array type of a data type.
pub open spec fn accessor_text(dt: DType) -> Seq<char> {
    if dt == DType::F16 {
        "array<f16>"@
    } else {
        "array<f32>"@
    }
}

/// The storage bindings of a concat kernel: operands first, then the
/// output; first `k` of the operand bindings.
pub open spec fn concat_binding_views(n: int, dt: DType, k: int) -> Seq<KernelBindingV>
    decreases k,
{
    if k <= 0 {
        Seq::<KernelBindingV>::empty()
    } else {
        concat_binding_views(n, dt, k - 1).push(
            KernelBindingV {
                name: "X"@ + dec_str(k - 1),
                group: 0u32,
                binding: (k - 1) as u32,
                ty: BindingType::Storage,
                mode: BindingMode::ReadOnly,
                accessor: accessor_text(dt),
            },
        )
    }
}

impl Concat {
    /// Declares the kernel's bindings: every operand read-only, the output
    /// read-write, and the shared metadata uniform.
    pub fn register_bindings(&self, builder: &mut WgslKernelBuilder, _inplace: bool) -> (r: Result<
        (),
        OperationError,
    >)
        requires
            self.view_req(),
            old(builder).bindings@.len() == 0,
        ensures
            r is Ok,
            final(builder).bindings.deep_view() =~= concat_binding_views(
                self.ins().len() as int,
                self.ins()[0].view.dt,
                self.ins().len() as int,
            ).push(
                KernelBindingV {
                    name: "Y"@,
                    group: 0u32,
                    binding: self.ins().len() as u32,
                    ty: BindingType::Storage,
                    mode: BindingMode::ReadWrite,
                    accessor: accessor_text(self.ins()[0].view.dt),
                },
            ).push(
                KernelBindingV {
                    name: "metadata"@,
                    group: 1u32,
                    binding: (self.ins().len() + 1) as u32,
                    ty: BindingType::Uniform,
                    mode: BindingMode::ReadOnly,
                    accessor: "Meta"@,
                },
            ),
            final(builder).main == old(builder).main,
            final(builder).globals == old(builder).globals,
            final(builder).workgroup_size == old(builder).workgroup_size,
            final(builder).features == old(builder).features,
    {
        let n: usize = self.inputs.len();
        let acc: &str = if matches!(self.inputs[0].dt(), DType::F16) {
            "array<f16>"
        } else {
            "array<f32>"
        };
        let mut i: usize = 0;
        while i < n
            invariant
                i <= n,
                n == self.ins().len(),
                self.view_req(),
                acc@ == accessor_text(self.ins()[0].view.dt),
                builder.bindings@.len() == i,
                builder.bindings.deep_view() =~= concat_binding_views(
                    n as int,
                    self.ins()[0].view.dt,
                    i as int,
                ),
                builder.main == old(builder).main,
                builder.globals == old(builder).globals,
                builder.workgroup_size == old(builder).workgroup_size,
                builder.features == old(builder).features,
            decreases n - i,
        {
            proof {
                assert(i < 10) by {
                    assert(self.ins().len() <= 8);
                }
            }
            let mut nm = String::new();
            nm.append("X");
            nm.append(digit_str(i as u32));
            builder.register_storage(nm.as_str(), BindingMode::ReadOnly, acc);
            proof {
                assert(nm@ =~= "X"@ + dec_str(i as int));
                assert(builder.bindings.deep_view() =~= concat_binding_views(
                    n as int,
                    self.ins()[0].view.dt,
                    i + 1,
                ));
            }
            i = i + 1;
        }
        builder.register_storage("Y", BindingMode::ReadWrite, acc);
        builder.register_uniform();
        Ok(())
    }

    /// Writes the rendered metadata struct among the kernel's globals; it
    /// lists exactly the fields the uniform writer packs.
    pub fn write_metadata(&self, builder: &mut WgslKernelBuilder, meta: &DynKernelMetadata)
        ensures
            final(builder).globals@ == old(builder).globals@ + meta_struct_text(
                meta.names(),
                meta.values(),
            ),
            final(builder).bindings == old(builder).bindings,
            final(builder).main == old(builder).main,
            final(builder).workgroup_size == old(builder).workgroup_size,
            final(builder).features == old(builder).features,
    {
        let fragment = meta.render();
        builder.write_metadata(fragment);
    }

    /// Generates the concat kernel: index helpers and metadata among the
    /// globals, the operand bindings, and a branch per operand selected by
    /// its cumulative boundary along the stacked axis.
    #[verifier::rlimit(100)]
    pub fn build_concat(
        &self,
        inplace: bool,
        workgroup_size: &WorkgroupSize,
        metadata: &DynKernelMetadata,
        features: DeviceFeatures,
    ) -> (r: WgslKernelBuilder)
        requires
            self.view_req(),
        ensures
            source_text(&r) == concat_source_spec(
                self.ins().len() as int,
                self.ins()[0].view.dt,
                *workgroup_size,
                features,
                meta_struct_text(metadata.names(), metadata.values()),
            ),
    {
        let mut kernel_builder = WgslKernelBuilder::new(
            *workgroup_size,
            concat_builtins(),
            features,
        );
        let _ok = self.register_bindings(&mut kernel_builder, inplace);
        kernel_builder.write_offset_to_index();
        kernel_builder.write_index_to_offset();
        self.write_metadata(&mut kernel_builder, metadata);
        kernel_builder.write_main(
            "    let x_offset = workgroup_id.x * 64u;\n    let dst_offset = (workgroup_id.y * num_workgroups.x * 64u) + x_offset + local_invocation_index;\n    if (dst_offset >= metadata.dst_numel) {\n        return;\n    }\n    var dst_index = offsetToNdIndex(dst_offset, metadata.dst_stride);\n    let dim = metadata.dim;\n    if (dst_index[dim] < metadata.cum0) {\n        let src_offset = ndIndexToOffset(dst_index, metadata.x0_stride);\n        Y[dst_offset] = X0[src_offset];\n        return;\n    }\n",
        );
        proof {
            assert(kernel_builder.main@ =~= main_header_text(
                *workgroup_size,
                concat_builtins_spec(),
            ) + concat_prelude_text() + concat_branches_text(1));
        }
        let ghost fixed_bindings = kernel_builder.bindings;
        let ghost fixed_globals = kernel_builder.globals;
        let n: usize = self.inputs.len();
        let mut i: usize = 1;
        while i < n
            invariant
                1 <= i,
                i <= n,
                n == self.ins().len(),
                self.view_req(),
                kernel_builder.main@ == main_header_text(*workgroup_size, concat_builtins_spec())
                    + concat_prelude_text() + concat_branches_text(i as int),
                kernel_builder.bindings == fixed_bindings,
                kernel_builder.globals == fixed_globals,
                kernel_builder.workgroup_size == *workgroup_size,
            decreases n - i,
        {
            proof {
                assert(i < 10) by {
                    assert(self.ins().len() <= 8);
                }
            }
            kernel_builder.write_main("    if (dst_index[dim] < metadata.cum");
            kernel_builder.write_main(digit_str(i as u32));
            kernel_builder.write_main(") {\n        dst_index[dim] -= metadata.cum");
            kernel_builder.write_main(digit_str((i - 1) as u32));
            kernel_builder.write_main(
                ";\n        let src_offset = ndIndexToOffset(dst_index, metadata.x",
            );
            kernel_builder.write_main(digit_str(i as u32));
            kernel_builder.write_main("_stride);\n        Y[dst_offset] = X");
            kernel_builder.write_main(digit_str(i as u32));
            kernel_builder.write_main("[src_offset];\n        return;\n    }\n");
            proof {
                assert(kernel_builder.main@ =~= main_header_text(
                    *workgroup_size,
                    concat_builtins_spec(),
                ) + concat_prelude_text() + concat_branches_text(i + 1));
            }
            i = i + 1;
        }
        proof {
            let nn = self.ins().len() as int;
            let dt = self.ins()[0].view.dt;
            let bindings = concat_binding_views(nn, dt, nn).push(
                KernelBindingV {
                    name: "Y"@,
                    group: 0u32,
                    binding: nn as u32,
                    ty: BindingType::Storage,
                    mode: BindingMode::ReadWrite,
                    accessor: accessor_text(dt),
                },
            ).push(
                KernelBindingV {
                    name: "metadata"@,
                    group: 1u32,
                    binding: (nn + 1) as u32,
                    ty: BindingType::Uniform,
                    mode: BindingMode::ReadOnly,
                    accessor: "Meta"@,
                },
            );
            assert(kernel_builder.bindings.deep_view() == bindings);
            lemma_concat_binding_views_len(nn, dt, nn);
            assert(kernel_builder.bindings@.len() == nn + 2) by {
                assert(kernel_builder.bindings.deep_view().len() == nn + 2);
            }
            assert(kernel_builder.globals@ == initial_globals_text(features)
                + crate::kernel_builder::offset_to_index_text()
                + crate::kernel_builder::index_to_offset_text() + meta_struct_text(
                metadata.names(),
                metadata.values(),
            ));
            assert(kernel_builder.main@ == main_header_text(*workgroup_size, concat_builtins_spec())
                + concat_prelude_text() + concat_branches_text(nn));
            assert(bindings_prefix_text(
                kernel_builder.bindings.deep_view(),
                kernel_builder.bindings@.len() as int,
            ) == bindings_prefix_text(bindings, nn + 2));
            assert(source_text(&kernel_builder) == concat_source_spec(
                nn,
                dt,
                *workgroup_size,
                features,
                meta_struct_text(metadata.names(), metadata.values()),
            ));
        }
        kernel_builder
    }
}

/// Prefix lengths of the metadata field lists.
pub proof fn lemma_meta_prefix_lens(ins: Seq<TensorV>, d: int, k: int)
    requires
        k >= 0,
    ensures
        stride_values_prefix(ins, k).len() == k,
        cum_values_prefix(ins, d, k).len() == k,
    decreases k,
{
    if k > 0 {
        lemma_meta_prefix_lens(ins, d, k - 1);
    }
}

/// The operand binding list has one entry per operand.
proof fn lemma_concat_binding_views_len(n: int, dt: DType, k: int)
    requires
        k >= 0,
    ensures
        concat_binding_views(n, dt, k).len() == k,
    decreases k,
{
    if k > 0 {
        lemma_concat_binding_views_len(n, dt, k - 1);
    }
}

/// The built-ins a concat kernel's entry point receives.
pub open spec fn concat_builtins_spec() -> Seq<BuiltIn> {
    seq![BuiltIn::LocalInvocationIndex, BuiltIn::NumWorkgroups, BuiltIn::WorkgroupId]
}

fn concat_builtins() -> (r: Vec<BuiltIn>)
    ensures
        r@ == concat_builtins_spec(),
{
    let mut v: Vec<BuiltIn> = Vec::new();
    v.push(BuiltIn::LocalInvocationIndex);
    v.push(BuiltIn::NumWorkgroups);
    v.push(BuiltIn::WorkgroupId);
    proof {
        assert(v@ =~= concat_builtins_spec());
    }
    v
}

/// The complete text of a concat kernel for `n` operands of type `dt`.
pub open spec fn concat_source_spec(
    n: int,
    dt: DType,
    wgs: WorkgroupSize,
    features: DeviceFeatures,
    meta_text: Seq<char>,
) -> Seq<char> {
    let bindings = concat_binding_views(n, dt, n).push(
        KernelBindingV {
            name: "Y"@,
            group: 0u32,
            binding: n as u32,
            ty: BindingType::Storage,
            mode: BindingMode::ReadWrite,
            accessor: accessor_text(dt),
        },
    ).push(
        KernelBindingV {
            name: "metadata"@,
            group: 1u32,
            binding: (n + 1) as u32,
            ty: BindingType::Uniform,
            mode: BindingMode::ReadOnly,
            accessor: "Meta"@,
        },
    );
    initial_globals_text(features) + crate::kernel_builder::offset_to_index_text()
        + crate::kernel_builder::index_to_offset_text() + meta_text + bindings_prefix_text(
        bindings,
        n + 2,
    ) + (main_header_text(wgs, concat_builtins_spec()) + concat_prelude_text()
        + concat_branches_text(n)) + "}\n"@
}

} // verus!