use vstd::prelude::*;

use crate::dtype::DType;
use crate::kernel_builder::{bindings_prefix_text, initial_globals_text, main_header_text,
    offset_to_index_text, source_text, BindingMode, BindingType, BuiltIn, DeviceFeatures,
    KernelBindingV, WgslKernelBuilder};
use crate::op::{KernelElement, KernelKey, OpGuards, Operation, OperationError};
use crate::ops::concat::{accessor_text, promoted_strides_spec};
use crate::shape::{prod, strides_of, Shape, Strides};
use crate::tensor::{StorageView, StorageViewV, Tensor, TensorV};
use crate::uniform::{meta_struct_text, CpuUniform, DynKernelMetadata, DynMetaField, UVec4};
use crate::workload::{Workload, WorkgroupSize};

verus! {

/// One inclusive-exclusive index range of a slice.
#[derive(Debug, Copy, Clone, PartialEq, Eq, Structural)]
pub struct DimRange {
    pub start: usize,
    pub end: usize,
}

/// Reorders the axes of its operand: output axis `i` reads source axis
/// `dims[i]`.
#[derive(Debug)]
pub struct Permute {
    pub src: Tensor,
    pub dims: Vec<usize>,
}

/// Cuts a rectangular window out of its operand.
#[derive(Debug)]
pub struct Slice {
    pub src: Tensor,
    pub indices: Vec<DimRange>,
}

/// Repeats length-one axes of its operand up to a target shape.
#[derive(Debug)]
pub struct Broadcast {
    pub src: Tensor,
    pub to: Shape,
}

/// The index-transforming operations one reindex kernel family covers.
#[derive(Debug)]
pub enum Reindex {
    Permute(Permute),
    Slice(Slice),
    Broadcast(Broadcast),
}

impl Slice {
    pub fn new(src: Tensor, indices: Vec<DimRange>) -> (r: Slice)
        ensures
            r.src@ == src@ && r.indices@ == indices@,
    {
        Slice { src, indices }
    }

    pub fn indices(&self) -> (r: &Vec<DimRange>)
        ensures
            r@ == self.indices@,
    {
        &self.indices
    }

    pub open spec fn output_shape_spec(&self) -> Seq<usize> {
        Seq::new(self.indices@.len(), |i: int| (self.indices@[i].end - self.indices@[i].start) as usize)
    }
}

impl Permute {
    pub fn new(src: Tensor, dims: Vec<usize>) -> (r: Permute)
        ensures
            r.src@ == src@ && r.dims@ == dims@,
    {
        Permute { src, dims }
    }

    /// Whether `dims` names every source axis exactly once.
    pub open spec fn is_permutation(&self) -> bool {
        &&& self.dims@.len() == self.src@.view.shape.len()
        &&& forall|i: int|
            0 <= i < self.dims@.len() ==> (#[trigger] self.dims@[i]) < self.dims@.len()
        &&& forall|i: int, j: int|
            0 <= i < j < self.dims@.len() ==> self.dims@[i] != self.dims@[j]
    }

    pub open spec fn output_shape_spec(&self) -> Seq<usize> {
        Seq::new(self.dims@.len(), |i: int| self.src@.view.shape[self.dims@[i] as int])
    }

    /// The permutation as rank-four kernels see it: prepended identity
    /// axes, the original axes shifted up.
    pub open spec fn promote_spec(&self) -> Seq<usize> {
        let pad = 4 - self.dims@.len();
        Seq::new(4, |i: int|
            if i < pad {
                i as usize
            } else {
                (self.dims@[i - pad] + pad) as usize
            })
    }

    pub fn promote(&self) -> (r: Vec<usize>)
        requires
            self.dims@.len() <= 4,
            self.is_permutation(),
        ensures
            r@ == self.promote_spec(),
    {
        let pad: usize = 4 - self.dims.len();
        let mut out: Vec<usize> = Vec::new();
        let mut i: usize = 0;
        while i < pad
            invariant
                i <= pad,
                pad == 4 - self.dims@.len(),
                out@ =~= self.promote_spec().subrange(0, i as int),
            decreases pad - i,
        {
            out.push(i);
            proof {
                assert(out@ =~= self.promote_spec().subrange(0, i + 1));
            }
            i = i + 1;
        }
        let n: usize = self.dims.len();
        let mut j: usize = 0;
        while j < n
            invariant
                j <= n,
                n == self.dims@.len(),
                pad == 4 - n,
                self.is_permutation(),
                out@ =~= self.promote_spec().subrange(0, pad + j),
            decreases n - j,
        {
            out.push(self.dims[j] + pad);
            proof {
                assert(out@ =~= self.promote_spec().subrange(0, pad + j + 1));
            }
            j = j + 1;
        }
        proof {
            assert(out@ =~= self.promote_spec());
        }
        out
    }
}

impl Broadcast {
    pub fn new(src: Tensor, to: Shape) -> (r: Broadcast)
        ensures
            r.src@ == src@ && r.to@ == to@,
    {
        Broadcast { src, to }
    }
}

impl OpGuards for Permute {
    open spec fn shapes_ok(&self) -> bool {
        self.is_permutation() && self.dims@.len() <= 4
    }

    open spec fn dtypes_ok(&self) -> bool {
        true
    }

    fn check_shapes(&self) -> (r: bool) {
        let n: usize = self.dims.len();
        if n != self.src.rank() || n > 4 {
            return false;
        }
        let mut i: usize = 0;
        while i < n
            invariant
                i <= n,
                n == self.dims@.len(),
                forall|k: int| 0 <= k < i ==> (#[trigger] self.dims@[k]) < n,
                forall|k: int, l: int| 0 <= k < l < i ==> self.dims@[k] != self.dims@[l],
            decreases n - i,
        {
            if self.dims[i] >= n {
                return false;
            }
            let mut j: usize = 0;
            while j < i
                invariant
                    j <= i < n,
                    n == self.dims@.len(),
                    forall|l: int| 0 <= l < j ==> self.dims@[l] != self.dims@[i as int],
                decreases i - j,
            {
                if self.dims[j] == self.dims[i] {
                    return false;
                }
                j = j + 1;
            }
            i = i + 1;
        }
        true
    }

    fn check_dtypes(&self) -> (r: bool) {
        true
    }

    fn check_custom(&self) -> (r: bool) {
        true
    }
}

impl Operation for Permute {
    open spec fn output_view_spec(&self) -> StorageViewV {
        StorageViewV {
            shape: self.output_shape_spec(),
            dt: self.src@.view.dt,
            strides: strides_of(self.output_shape_spec()).map_values(|s: int| s as usize),
        }
    }

    open spec fn view_req(&self) -> bool {
        &&& crate::op::invariants_ok(self)
        &&& forall|i: int|
            0 <= i < self.output_shape_spec().len() ==> #[trigger] self.output_shape_spec()[i] >= 1
        &&& prod(self.output_shape_spec()) <= u32::MAX
    }

    fn compute_view(&self) -> (r: Result<StorageView, OperationError>) {
        let n: usize = self.dims.len();
        let mut dims: Vec<usize> = Vec::new();
        let mut i: usize = 0;
        while i < n
            invariant
                i <= n,
                n == self.dims@.len(),
                self.is_permutation(),
                n == self.src@.view.shape.len(),
                dims@ =~= self.output_shape_spec().subrange(0, i as int),
            decreases n - i,
        {
            dims.push(self.src.view.shape.dim(self.dims[i]));
            proof {
                assert(dims@ =~= self.output_shape_spec().subrange(0, i + 1));
            }
            i = i + 1;
        }
        proof {
            assert(dims@ =~= self.output_shape_spec());
        }
        let shape = Shape::new(dims);
        let strides = Strides::from_shape(&shape);
        proof {
            assert(strides@ =~= self.output_view_spec().strides);
        }
        Ok(StorageView::new(shape, self.src.dt(), strides))
    }
}

impl OpGuards for Slice {
    open spec fn shapes_ok(&self) -> bool {
        &&& self.indices@.len() == self.src@.view.shape.len()
        &&& forall|i: int|
            0 <= i < self.indices@.len() ==> (#[trigger] self.indices@[i]).start
                <= self.indices@[i].end
        &&& forall|i: int|
            0 <= i < self.indices@.len() ==> (#[trigger] self.indices@[i]).end
                <= self.src@.view.shape[i]
    }

    open spec fn dtypes_ok(&self) -> bool {
        true
    }

    fn check_shapes(&self) -> (r: bool) {
        let n: usize = self.indices.len();
        if n != self.src.rank() {
            return false;
        }
        let mut i: usize = 0;
        while i < n
            invariant
                i <= n,
                n == self.indices@.len(),
                n == self.src@.view.shape.len(),
                forall|k: int|
                    0 <= k < i ==> (#[trigger] self.indices@[k]).start <= self.indices@[k].end,
                forall|k: int|
                    0 <= k < i ==> (#[trigger] self.indices@[k]).end <= self.src@.view.shape[k],
            decreases n - i,
        {
            let r: DimRange = self.indices[i];
            if r.start > r.end || r.end > self.src.view.shape.dim(i) {
                return false;
            }
            i = i + 1;
        }
        true
    }

    fn check_dtypes(&self) -> (r: bool) {
        true
    }

    fn check_custom(&self) -> (r: bool) {
        true
    }
}

impl Operation for Slice {
    open spec fn output_view_spec(&self) -> StorageViewV {
        StorageViewV {
            shape: self.output_shape_spec(),
            dt: self.src@.view.dt,
            strides: strides_of(self.output_shape_spec()).map_values(|s: int| s as usize),
        }
    }

    open spec fn view_req(&self) -> bool {
        &&& crate::op::invariants_ok(self)
        &&& forall|i: int|
            0 <= i < self.output_shape_spec().len() ==> #[trigger] self.output_shape_spec()[i] >= 1
        &&& prod(self.output_shape_spec()) <= u32::MAX
    }

    fn compute_view(&self) -> (r: Result<StorageView, OperationError>) {
        let n: usize = self.indices.len();
        let mut dims: Vec<usize> = Vec::new();
        let mut i: usize = 0;
        while i < n
            invariant
                i <= n,
                n == self.indices@.len(),
                self.shapes_ok(),
                dims@ =~= self.output_shape_spec().subrange(0, i as int),
            decreases n - i,
        {
            let r: DimRange = self.indices[i];
            dims.push(r.end - r.start);
            proof {
                assert(dims@ =~= self.output_shape_spec().subrange(0, i + 1));
            }
            i = i + 1;
        }
        proof {
            assert(dims@ =~= self.output_shape_spec());
        }
        let shape = Shape::new(dims);
        let strides = Strides::from_shape(&shape);
        proof {
            assert(strides@ =~= self.output_view_spec().strides);
        }
        Ok(StorageView::new(shape, self.src.dt(), strides))
    }
}

impl OpGuards for Broadcast {
    open spec fn shapes_ok(&self) -> bool {
        &&& self.to@.len() == self.src@.view.shape.len()
        &&& forall|i: int|
            0 <= i < self.to@.len() ==> self.src@.view.shape[i] == self.to@[i]
                || self.src@.view.shape[i] == 1
    }

    open spec fn dtypes_ok(&self) -> bool {
        true
    }

    fn check_shapes(&self) -> (r: bool) {
        let n: usize = self.to.rank();
        if n != self.src.rank() {
            return false;
        }
        let mut i: usize = 0;
        while i < n
            invariant
                i <= n,
                n == self.to@.len(),
                n == self.src@.view.shape.len(),
                forall|k: int|
                    0 <= k < i ==> self.src@.view.shape[k] == self.to@[k]
                        || self.src@.view.shape[k] == 1,
            decreases n - i,
        {
            let s: usize = self.src.view.shape.dim(i);
            if s != self.to.dim(i) && s != 1 {
                return false;
            }
            i = i + 1;
        }
        true
    }

    fn check_dtypes(&self) -> (r: bool) {
        true
    }

    fn check_custom(&self) -> (r: bool) {
        true
    }
}

impl Operation for Broadcast {
    open spec fn output_view_spec(&self) -> StorageViewV {
        StorageViewV {
            shape: self.to@,
            dt: self.src@.view.dt,
            strides: strides_of(self.to@).map_values(|s: int| s as usize),
        }
    }

    open spec fn view_req(&self) -> bool {
        crate::op::invariants_ok(self) && self.to.wf()
    }

    fn compute_view(&self) -> (r: Result<StorageView, OperationError>) {
        let shape = self.to.duplicate();
        let strides = Strides::from_shape(&shape);
        proof {
            assert(strides@ =~= self.output_view_spec().strides);
        }
        Ok(StorageView::new(shape, self.src.dt(), strides))
    }
}

impl Reindex {
    pub open spec fn src_spec(&self) -> TensorV {
        match self {
            Reindex::Permute(p) => p.src@,
            Reindex::Slice(s) => s.src@,
            Reindex::Broadcast(b) => b.src@,
        }
    }

    pub fn src(&self) -> (r: &Tensor)
        ensures
            r@ == self.src_spec(),
    {
        match self {
            Reindex::Permute(p) => &p.src,
            Reindex::Slice(s) => &s.src,
            Reindex::Broadcast(b) => &b.src,
        }
    }

    pub open spec fn kernel_name_spec(&self) -> Seq<char> {
        match self {
            Reindex::Permute(_) => "permute"@,
            Reindex::Slice(_) => "slice"@,
            Reindex::Broadcast(_) => "broadcast"@,
        }
    }

    pub fn kernel_name(&self) -> (r: &'static str)
        ensures
            r@ == self.kernel_name_spec(),
    {
        match self {
            Reindex::Permute(_) => "permute",
            Reindex::Slice(_) => "slice",
            Reindex::Broadcast(_) => "broadcast",
        }
    }

    pub open spec fn stem_spec(&self) -> crate::op::KernelStem {
        match self {
            Reindex::Permute(_) => crate::op::KernelStem::Permute,
            Reindex::Slice(_) => crate::op::KernelStem::Slice,
            Reindex::Broadcast(_) => crate::op::KernelStem::Broadcast,
        }
    }
}

impl OpGuards for Reindex {
    open spec fn shapes_ok(&self) -> bool {
        match self {
            Reindex::Permute(p) => p.shapes_ok(),
            Reindex::Slice(s) => s.shapes_ok(),
            Reindex::Broadcast(b) => b.shapes_ok(),
        }
    }

    open spec fn dtypes_ok(&self) -> bool {
        match self {
            Reindex::Permute(p) => p.dtypes_ok(),
            Reindex::Slice(s) => s.dtypes_ok(),
            Reindex::Broadcast(b) => b.dtypes_ok(),
        }
    }

    open spec fn custom_ok(&self) -> bool {
        match self {
            Reindex::Permute(p) => p.custom_ok(),
            Reindex::Slice(s) => s.custom_ok(),
            Reindex::Broadcast(b) => b.custom_ok(),
        }
    }

    fn check_shapes(&self) -> (r: bool) {
        match self {
            Reindex::Permute(p) => p.check_shapes(),
            Reindex::Slice(s) => s.check_shapes(),
            Reindex::Broadcast(b) => b.check_shapes(),
        }
    }

    fn check_dtypes(&self) -> (r: bool) {
        match self {
            Reindex::Permute(p) => p.check_dtypes(),
            Reindex::Slice(s) => s.check_dtypes(),
            Reindex::Broadcast(b) => b.check_dtypes(),
        }
    }

    fn check_custom(&self) -> (r: bool) {
        match self {
            Reindex::Permute(p) => p.check_custom(),
            Reindex::Slice(s) => s.check_custom(),
            Reindex::Broadcast(b) => b.check_custom(),
        }
    }
}

impl Operation for Reindex {
    open spec fn output_view_spec(&self) -> StorageViewV {
        match self {
            Reindex::Permute(p) => p.output_view_spec(),
            Reindex::Slice(s) => s.output_view_spec(),
            Reindex::Broadcast(b) => b.output_view_spec(),
        }
    }

    open spec fn view_req(&self) -> bool {
        match self {
            Reindex::Permute(p) => p.view_req(),
            Reindex::Slice(s) => s.view_req(),
            Reindex::Broadcast(b) => b.view_req(),
        }
    }

    fn compute_view(&self) -> (r: Result<StorageView, OperationError>) {
        match self {
            Reindex::Permute(p) => p.compute_view(),
            Reindex::Slice(s) => s.compute_view(),
            Reindex::Broadcast(b) => b.compute_view(),
        }
    }
}


/// The reindex kernel family: one generated shader whose index transform
/// is selected by the member operation.
#[derive(Debug)]
pub enum ReindexKernels {
    Standard(Reindex),
}

/// The fixed-layout metadata record every reindex kernel reads.
#[derive(Debug, Copy, Clone, PartialEq, Eq, Structural)]
pub struct ReindexMeta {
    pub src_shape: UVec4,
    pub dst_shape: UVec4,
    pub src_stride: UVec4,
    pub dst_stride: UVec4,
    pub src_numel: u32,
    pub dst_numel: u32,
    pub perm: UVec4,
    pub src_offsets: UVec4,
}

/// The field names of the reindex metadata record, in layout order.
pub open spec fn reindex_meta_names() -> Seq<Seq<char>> {
    seq![
        "src_shape"@,
        "dst_shape"@,
        "src_stride"@,
        "dst_stride"@,
        "src_numel"@,
        "dst_numel"@,
        "perm"@,
        "src_offsets"@,
    ]
}

/// The field values of a reindex metadata record, in layout order.
pub open spec fn reindex_meta_values(m: ReindexMeta) -> Seq<DynMetaField> {
    seq![
        DynMetaField::Vec4U32(m.src_shape),
        DynMetaField::Vec4U32(m.dst_shape),
        DynMetaField::Vec4U32(m.src_stride),
        DynMetaField::Vec4U32(m.dst_stride),
        DynMetaField::U32(m.src_numel),
        DynMetaField::U32(m.dst_numel),
        DynMetaField::Vec4U32(m.perm),
        DynMetaField::Vec4U32(m.src_offsets),
    ]
}

/// The four promoted extents of a shape, as kernels receive them.
pub open spec fn promoted_extents_spec(shape: Seq<usize>) -> UVec4 {
    let p = Shape::promote_spec(shape, 4);
    UVec4 { x: p[0] as u32, y: p[1] as u32, z: p[2] as u32, w: p[3] as u32 }
}

/// The permutation as a four-word vector: identity on the prepended axes,
/// the declared axes shifted past them.
pub open spec fn perm_vec_spec(p: &Permute) -> UVec4 {
    let d = p.promote_spec();
    UVec4 { x: d[0] as u32, y: d[1] as u32, z: d[2] as u32, w: d[3] as u32 }
}

/// The slice start offset of promoted axis `i`: the declared starts are
/// right-aligned into the four words, earlier words zero.
pub open spec fn promoted_offset_at(indices: Seq<DimRange>, i: int) -> u32 {
    let pad = 4 - indices.len();
    if pad <= i < 4 {
        indices[i - pad].start as u32
    } else {
        0u32
    }
}

pub open spec fn offsets_vec_spec(indices: Seq<DimRange>) -> UVec4 {
    UVec4 {
        x: promoted_offset_at(indices, 0),
        y: promoted_offset_at(indices, 1),
        z: promoted_offset_at(indices, 2),
        w: promoted_offset_at(indices, 3),
    }
}

/// The full metadata record of a reindex op: a function of the member
/// operation and the output shape alone.
pub open spec fn reindex_meta_spec(r: &Reindex, dst_shape: Seq<usize>) -> ReindexMeta {
    ReindexMeta {
        src_shape: promoted_extents_spec(r.src_spec().view.shape),
        dst_shape: promoted_extents_spec(dst_shape),
        src_stride: promoted_strides_spec(r.src_spec().view.shape),
        dst_stride: promoted_strides_spec(dst_shape),
        src_numel: prod(r.src_spec().view.shape) as u32,
        dst_numel: prod(dst_shape) as u32,
        perm: match r {
            Reindex::Permute(p) => perm_vec_spec(p),
            _ => UVec4 { x: 0u32, y: 0u32, z: 0u32, w: 0u32 },
        },
        src_offsets: match r {
            Reindex::Slice(sl) => offsets_vec_spec(sl.indices@),
            _ => UVec4 { x: 0u32, y: 0u32, z: 0u32, w: 0u32 },
        },
    }
}

/// What the metadata derivation needs of a reindex op: a well-formed
/// source within the device index space at rank four or below, a real
/// permutation, and slice starts within the device word.
pub open spec fn reindex_wf(r: &Reindex) -> bool {
    &&& (forall|i: int|
        0 <= i < r.src_spec().view.shape.len() ==> (#[trigger] r.src_spec().view.shape[i]) >= 1)
    &&& prod(r.src_spec().view.shape) <= u32::MAX
    &&& r.src_spec().view.shape.len() <= 4
    &&& (match r {
        Reindex::Permute(p) => p.is_permutation(),
        Reindex::Slice(sl) => sl.indices@.len() <= 4 && (forall|k: int|
            0 <= k < sl.indices@.len() ==> (#[trigger] sl.indices@[k]).start <= u32::MAX),
        Reindex::Broadcast(_) => true,
    })
}

impl ReindexMeta {
    /// The record as the shared field list both the rendered struct and
    /// the uniform writer are generated from.
    pub fn to_field_list(&self) -> (r: DynKernelMetadata)
        ensures
            r.names() == reindex_meta_names(),
            r.values() == reindex_meta_values(*self),
    {
        let mut meta = DynKernelMetadata::new();
        meta.add_field("src_shape", DynMetaField::Vec4U32(self.src_shape));
        meta.add_field("dst_shape", DynMetaField::Vec4U32(self.dst_shape));
        meta.add_field("src_stride", DynMetaField::Vec4U32(self.src_stride));
        meta.add_field("dst_stride", DynMetaField::Vec4U32(self.dst_stride));
        meta.add_field("src_numel", DynMetaField::U32(self.src_numel));
        meta.add_field("dst_numel", DynMetaField::U32(self.dst_numel));
        meta.add_field("perm", DynMetaField::Vec4U32(self.perm));
        meta.add_field("src_offsets", DynMetaField::Vec4U32(self.src_offsets));
        proof {
            assert(meta.names() =~= reindex_meta_names());
            assert(meta.values() =~= reindex_meta_values(*self));
        }
        meta
    }

    /// Packs the record at the next uniform offset; each field reads back
    /// exactly per the rendered layout.
    pub fn write(&self, uniform: &mut CpuUniform) -> (r: u64)
        requires
            old(uniform)@.len() + 600 <= usize::MAX,
        ensures
            r == crate::uniform::align_up(old(uniform)@.len() as int, 256),
            r % 256 == 0,
            final(uniform)@.subrange(0, old(uniform)@.len() as int) == old(uniform)@,
            forall|i: int|
                0 <= i < reindex_meta_values(*self).len() ==> crate::uniform::field_decodes(
                    final(uniform)@,
                    r + crate::uniform::field_offset(reindex_meta_values(*self), i),
                    reindex_meta_values(*self)[i],
                ),
    {
        let meta = self.to_field_list();
        meta.write(uniform)
    }

    /// The rendered device-side struct of the record.
    pub fn render_meta(&self) -> (r: crate::kernel_builder::WgslFragment)
        ensures
            r@ == meta_struct_text(reindex_meta_names(), reindex_meta_values(*self)),
    {
        let meta = self.to_field_list();
        meta.render()
    }
}

/// The variant-specific index transform of the kernel body.
pub open spec fn reindex_body_text(r: &Reindex) -> Seq<char> {
    match r {
        Reindex::Permute(_) => "    var src_index = vec4<u32>(0u);\n    src_index[metadata.perm[0]] = dst_index[0];\n    src_index[metadata.perm[1]] = dst_index[1];\n    src_index[metadata.perm[2]] = dst_index[2];\n    src_index[metadata.perm[3]] = dst_index[3];\n"@,
        Reindex::Slice(_) => "    var src_index = dst_index;\n"@,
        Reindex::Broadcast(_) => "    var src_index = select(dst_index, vec4<u32>(0u), metadata.src_shape == vec4<u32>(1u));\n"@,
    }
}

/// The offset helper a reindex kernel uses: the slice start offsets are
/// added before applying the source strides.
pub open spec fn reindex_offset_helper_text() -> Seq<char> {
    "fn ndIndexToOffset(index: vec4<u32>, src_offsets: vec4<u32>, stride: vec4<u32>) -> u32 {\n    return dot(index + src_offsets, stride);\n}\n"@
}

/// The fixed opening of a reindex kernel's entry point.
pub open spec fn reindex_prelude_text() -> Seq<char> {
    "    let x_offset = workgroup_id.x * 64u;\n    var dst_offset = (workgroup_id.y * num_workgroups.x * 64u) + x_offset + local_invocation_index;\n    if (dst_offset >= metadata.dst_numel) {\n        return;\n    }\n    let dst_index = offsetToNdIndex(dst_offset, metadata.dst_stride);\n"@
}

/// The fixed closing of a reindex kernel's entry point: convert back to a
/// source offset and copy one element.
pub open spec fn reindex_tail_text() -> Seq<char> {
    "    let src_offset = ndIndexToOffset(src_index, metadata.src_offsets, metadata.src_stride);\n    Y[dst_offset] = X[src_offset];\n"@
}

/// The built-ins a reindex kernel's entry point receives.
pub open spec fn reindex_builtins_spec() -> Seq<BuiltIn> {
    seq![BuiltIn::LocalInvocationIndex, BuiltIn::WorkgroupId, BuiltIn::NumWorkgroups]
}

/// The bindings of a reindex kernel: one input, the output, the metadata.
pub open spec fn reindex_binding_views(dt: DType) -> Seq<KernelBindingV> {
    seq![
        KernelBindingV {
            name: "X"@,
            group: 0u32,
            binding: 0u32,
            ty: BindingType::Storage,
            mode: BindingMode::ReadOnly,
            accessor: accessor_text(dt),
        },
        KernelBindingV {
            name: "Y"@,
            group: 0u32,
            binding: 1u32,
            ty: BindingType::Storage,
            mode: BindingMode::ReadWrite,
            accessor: accessor_text(dt),
        },
        KernelBindingV {
            name: "metadata"@,
            group: 1u32,
            binding: 2u32,
            ty: BindingType::Uniform,
            mode: BindingMode::ReadOnly,
            accessor: "Meta"@,
        },
    ]
}

/// The complete text of a reindex kernel.
pub open spec fn reindex_source_spec(
    r: &Reindex,
    dt: DType,
    wgs: WorkgroupSize,
    features: DeviceFeatures,
    meta_text: Seq<char>,
) -> Seq<char> {
    initial_globals_text(features) + offset_to_index_text() + reindex_offset_helper_text()
        + meta_text + bindings_prefix_text(reindex_binding_views(dt), 3) + (main_header_text(
        wgs,
        reindex_builtins_spec(),
    ) + reindex_prelude_text() + reindex_body_text(r) + reindex_tail_text()) + "}\n"@
}

impl ReindexKernels {
    pub fn kernel_element(&self, _dst: &Tensor) -> (r: KernelElement)
        ensures
            r == KernelElement::Scalar,
    {
        KernelElement::Scalar
    }

    /// One thread per output element, rounded up to whole workgroups.
    pub fn calculate_dispatch(&self, dst: &Tensor) -> (r: Result<Workload, OperationError>)
        requires
            dst.wf(),
        ensures
            r matches Ok(w) && w == crate::workload::standard_workload_spec(
                prod(dst@.view.shape),
                1,
            ),
    {
        Ok(Workload::standard(dst.shape().numel(), 1))
    }

    /// Declares the kernel's bindings.
    pub fn register_bindings(&self, builder: &mut WgslKernelBuilder, dt: DType) -> (r: Result<
        (),
        OperationError,
    >)
        requires
            old(builder).bindings@.len() == 0,
        ensures
            r is Ok,
            final(builder).bindings.deep_view() =~= reindex_binding_views(dt),
            final(builder).main == old(builder).main,
            final(builder).globals == old(builder).globals,
            final(builder).workgroup_size == old(builder).workgroup_size,
            final(builder).features == old(builder).features,
    {
        register_reindex_bindings(builder, dt);
        Ok(())
    }

    /// Derives the metadata record: promoted shapes, strides and element
    /// counts of source and destination, the promoted permutation, and the
    /// promoted slice start offsets.
    pub fn metadata(&self, dst: &Tensor) -> (r: Result<ReindexMeta, OperationError>)
        requires
            self.wf_for_metadata(),
            dst.wf(),
            dst@.view.shape.len() <= 4,
        ensures
            r matches Ok(m) && m == reindex_meta_spec(self.reindex(), dst@.view.shape),
    {
        self.reindex_ref().metadata_record(dst)
    }

    /// What the metadata derivation needs of the member operation.
    pub open spec fn wf_for_metadata(&self) -> bool {
        reindex_wf(self.reindex())
    }

    pub open spec fn reindex(&self) -> &Reindex {
        match self {
            ReindexKernels::Standard(r) => r,
        }
    }

    fn reindex_ref(&self) -> (r: &Reindex)
        ensures
            r == self.reindex(),
    {
        match self {
            ReindexKernels::Standard(r) => r,
        }
    }

    /// Generates the reindex kernel: the index helpers and metadata among
    /// the globals, the in/out bindings, and the member operation's index
    /// transform between the shared prelude and tail.
    pub fn render(
        &self,
        inplace: bool,
        workgroup_size: &WorkgroupSize,
        meta: &ReindexMeta,
        dt: DType,
        features: DeviceFeatures,
    ) -> (r: WgslKernelBuilder)
        ensures
            source_text(&r) == reindex_source_spec(
                self.reindex(),
                dt,
                *workgroup_size,
                features,
                meta_struct_text(reindex_meta_names(), reindex_meta_values(*meta)),
            ),
    {
        self.reindex_ref().render_kernel(inplace, workgroup_size, meta, dt, features)
    }
}

fn reindex_builtins() -> (r: Vec<BuiltIn>)
    ensures
        r@ == reindex_builtins_spec(),
{
    let mut v: Vec<BuiltIn> = Vec::new();
    v.push(BuiltIn::LocalInvocationIndex);
    v.push(BuiltIn::WorkgroupId);
    v.push(BuiltIn::NumWorkgroups);
    proof {
        assert(v@ =~= reindex_builtins_spec());
    }
    v
}


/// Declares a reindex kernel's bindings: the input read-only, the output
/// read-write, and the shared metadata uniform.
fn register_reindex_bindings(builder: &mut WgslKernelBuilder, dt: DType)
    requires
        old(builder).bindings@.len() == 0,
    ensures
        final(builder).bindings.deep_view() =~= reindex_binding_views(dt),
        final(builder).main == old(builder).main,
        final(builder).globals == old(builder).globals,
        final(builder).workgroup_size == old(builder).workgroup_size,
        final(builder).features == old(builder).features,
{
    let acc: &str = if matches!(dt, DType::F16) {
        "array<f16>"
    } else {
        "array<f32>"
    };
    builder.register_storage("X", BindingMode::ReadOnly, acc);
    builder.register_storage("Y", BindingMode::ReadWrite, acc);
    builder.register_uniform();
}

impl Reindex {
    /// Constructs the cache key of this reindex kernel variant.
    pub fn kernel_key(
        &self,
        workgroup_size: &WorkgroupSize,
        inplace: bool,
        dst: &Tensor,
        kernel_element: KernelElement,
    ) -> (r: KernelKey)
        ensures
            r@ == (crate::op::KernelKeyV {
                stem: self.stem_spec(),
                input_dts: seq![self.src_spec().view.dt],
                output_dt: dst@.view.dt,
                workgroup_size: *workgroup_size,
                inplace,
                additional: None,
                element: kernel_element,
            }),
    {
        let stem: crate::op::KernelStem = match self {
            Reindex::Permute(_) => crate::op::KernelStem::Permute,
            Reindex::Slice(_) => crate::op::KernelStem::Slice,
            Reindex::Broadcast(_) => crate::op::KernelStem::Broadcast,
        };
        let mut srcs: Vec<&Tensor> = Vec::new();
        srcs.push(self.src());
        let r = KernelKey::new(stem, &srcs, dst, workgroup_size, inplace, kernel_element, None);
        proof {
            assert(srcs.deep_view() =~= seq![self.src_spec()]);
            assert(r@.input_dts =~= seq![self.src_spec().view.dt]);
        }
        r
    }

    /// Derives the metadata record exactly as its defining function gives
    /// it.
    pub fn metadata_record(&self, dst: &Tensor) -> (r: Result<ReindexMeta, OperationError>)
        requires
            reindex_wf(self),
            dst.wf(),
            dst@.view.shape.len() <= 4,
        ensures
            r matches Ok(m) && m == reindex_meta_spec(self, dst@.view.shape),
    {
        let src = self.src();
        let src_shape_p: Shape = src.view.shape.promote(4);
        let dst_shape_p: Shape = dst.view.shape.promote(4);
        proof {
            Shape::lemma_promote_wf(src@.view.shape, 4);
            Shape::lemma_promote_wf(dst@.view.shape, 4);
        }
        let src_strides = Strides::from_shape(&src_shape_p);
        let dst_strides = Strides::from_shape(&dst_shape_p);
        let src_numel: u32 = src_shape_p.numel() as u32;
        let dst_numel: u32 = dst_shape_p.numel() as u32;
        let src_shape = UVec4::new(
            src_shape_p.dims[0] as u32,
            src_shape_p.dims[1] as u32,
            src_shape_p.dims[2] as u32,
            src_shape_p.dims[3] as u32,
        );
        let dst_shape = UVec4::new(
            dst_shape_p.dims[0] as u32,
            dst_shape_p.dims[1] as u32,
            dst_shape_p.dims[2] as u32,
            dst_shape_p.dims[3] as u32,
        );
        let src_stride = UVec4::new(
            src_strides.elems[0] as u32,
            src_strides.elems[1] as u32,
            src_strides.elems[2] as u32,
            src_strides.elems[3] as u32,
        );
        let dst_stride = UVec4::new(
            dst_strides.elems[0] as u32,
            dst_strides.elems[1] as u32,
            dst_strides.elems[2] as u32,
            dst_strides.elems[3] as u32,
        );
        let perm: UVec4 = match self {
            Reindex::Permute(p) => {
                let dims = p.promote();
                UVec4::new(dims[0] as u32, dims[1] as u32, dims[2] as u32, dims[3] as u32)
            },
            _ => UVec4::splat(0),
        };
        let src_offsets: UVec4 = match self {
            Reindex::Slice(sl) => {
                let starts = sl.indices();
                let pad: usize = 4 - starts.len();
                let mut offs: Vec<u32> = Vec::new();
                offs.push(0);
                offs.push(0);
                offs.push(0);
                offs.push(0);
                let mut i: usize = 0;
                let m: usize = starts.len();
                while i < m
                    invariant
                        i <= m,
                        m == starts@.len(),
                        m <= 4,
                        pad == 4 - m,
                        offs@.len() == 4,
                        forall|j: int| 0 <= j < pad ==> offs@[j] == 0u32,
                        forall|j: int|
                            0 <= j < i ==> offs@[pad + j] == (#[trigger] starts@[j]).start as u32,
                        forall|j: int| pad + i <= j < 4 ==> offs@[j] == 0u32,
                    decreases m - i,
                {
                    offs.set(pad + i, starts[i].start as u32);
                    i = i + 1;
                }
                let v = UVec4::new(offs[0], offs[1], offs[2], offs[3]);
                proof {
                    assert(v == offsets_vec_spec(sl.indices@));
                }
                v
            },
            _ => UVec4::splat(0),
        };
        proof {
            assert(src_shape == promoted_extents_spec(src@.view.shape));
            assert(dst_shape == promoted_extents_spec(dst@.view.shape));
            assert(src_stride == promoted_strides_spec(src@.view.shape));
            assert(dst_stride == promoted_strides_spec(dst@.view.shape));
        }
        Ok(
            ReindexMeta {
                src_shape,
                dst_shape,
                src_stride,
                dst_stride,
                src_numel,
                dst_numel,
                perm,
                src_offsets,
            },
        )
    }

    /// Generates the reindex kernel text for this operation.
    pub fn render_kernel(
        &self,
        _inplace: bool,
        workgroup_size: &WorkgroupSize,
        meta: &ReindexMeta,
        dt: DType,
        features: DeviceFeatures,
    ) -> (r: WgslKernelBuilder)
        ensures
            source_text(&r) == reindex_source_spec(
                self,
                dt,
                *workgroup_size,
                features,
                meta_struct_text(reindex_meta_names(), reindex_meta_values(*meta)),
            ),
    {
        let mut builder = WgslKernelBuilder::new(*workgroup_size, reindex_builtins(), features);
        register_reindex_bindings(&mut builder, dt);
        builder.write_offset_to_index();
        builder.write_global(
            "fn ndIndexToOffset(index: vec4<u32>, src_offsets: vec4<u32>, stride: vec4<u32>) -> u32 {\n    return dot(index + src_offsets, stride);\n}\n",
        );
        let fragment = meta.render_meta();
        builder.write_metadata(fragment);
        builder.write_main(
            "    let x_offset = workgroup_id.x * 64u;\n    var dst_offset = (workgroup_id.y * num_workgroups.x * 64u) + x_offset + local_invocation_index;\n    if (dst_offset >= metadata.dst_numel) {\n        return;\n    }\n    let dst_index = offsetToNdIndex(dst_offset, metadata.dst_stride);\n",
        );
        match self {
            Reindex::Permute(_) => {
                builder.write_main(
                    "    var src_index = vec4<u32>(0u);\n    src_index[metadata.perm[0]] = dst_index[0];\n    src_index[metadata.perm[1]] = dst_index[1];\n    src_index[metadata.perm[2]] = dst_index[2];\n    src_index[metadata.perm[3]] = dst_index[3];\n",
                );
            },
            Reindex::Slice(_) => {
                builder.write_main("    var src_index = dst_index;\n");
            },
            Reindex::Broadcast(_) => {
                builder.write_main(
                    "    var src_index = select(dst_index, vec4<u32>(0u), metadata.src_shape == vec4<u32>(1u));\n",
                );
            },
        }
        builder.write_main(
            "    let src_offset = ndIndexToOffset(src_index, metadata.src_offsets, metadata.src_stride);\n    Y[dst_offset] = X[src_offset];\n",
        );
        proof {
            assert(builder.bindings.deep_view() == reindex_binding_views(dt));
            assert(builder.bindings@.len() == 3) by {
                assert(builder.bindings.deep_view().len() == 3);
            }
            assert(bindings_prefix_text(builder.bindings.deep_view(), 3) == bindings_prefix_text(
                reindex_binding_views(dt),
                3,
            ));
            assert(source_text(&builder) == reindex_source_spec(
                self,
                dt,
                *workgroup_size,
                features,
                meta_struct_text(reindex_meta_names(), reindex_meta_values(*meta)),
            ));
        }
        builder
    }
}

} // verus!
