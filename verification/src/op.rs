use vstd::prelude::*;
use vstd::string::StringExecFns;

use crate::dtype::DType;
use crate::kernel_builder::KernelBuildError;
use crate::ops::concat::Concat;
use crate::ops::reindex::Reindex;
use crate::ops::select::IndexSelect;
use crate::strutil::{dec_str, push_dec};
use crate::tensor::{StorageViewV, Tensor, TensorV};
use crate::workload::{wgs_key_str, WorkgroupSize};

verus! {

/// Error of requesting a device object that a resource pool never created.
/// This cannot arise from the verified paths, which only hand out handles
/// the pools have vended; it reports a corrupted handle.
#[derive(Debug, Copy, Clone, PartialEq, Eq, Structural)]
pub enum PoolError {
    ResourceNotFound,
}

/// Everything that can go wrong compiling one operation.
#[derive(Debug)]
pub enum OperationError {
    CompileError(String),
    StorageLayoutError(PoolError),
    KernelBuildError(KernelBuildError),
}

/// Runtime guards for operation correctness, checked once per graph
/// construction. Each check mirrors a spec predicate exactly.
pub trait OpGuards {
    spec fn shapes_ok(&self) -> bool;

    spec fn dtypes_ok(&self) -> bool;

    open spec fn custom_ok(&self) -> bool {
        true
    }

    fn check_shapes(&self) -> (r: bool)
        ensures
            r == self.shapes_ok(),
    ;

    fn check_dtypes(&self) -> (r: bool)
        ensures
            r == self.dtypes_ok(),
    ;

    fn check_custom(&self) -> (r: bool)
        ensures
            r == self.custom_ok(),
    ;
}

/// All the shape and type invariants of a node together.
pub open spec fn invariants_ok<T: OpGuards + ?Sized>(op: &T) -> bool {
    op.shapes_ok() && op.dtypes_ok() && op.custom_ok()
}

/// A node of the lazy graph: its invariants and the view of its result.
pub trait Operation: OpGuards {
    /// The type, shape and strides of the resultant tensor.
    spec fn output_view_spec(&self) -> StorageViewV;

    /// What `compute_view` asks of the node: its invariants; ops whose
    /// output layout must fit the device index space also state that bound
    /// here.
    open spec fn view_req(&self) -> bool {
        invariants_ok(self)
    }

    fn check_invariants(&self) -> (r: bool)
        ensures
            r == (self.shapes_ok() && self.dtypes_ok() && self.custom_ok()),
    {
        let s = self.check_shapes();
        let d = self.check_dtypes();
        let c = self.check_custom();
        s && d && c
    }

    fn compute_view(&self) -> (r: Result<crate::tensor::StorageView, OperationError>)
        requires
            self.view_req(),
            invariants_ok(self),
        ensures
            r matches Ok(v) && v@ == self.output_view_spec(),
    ;
}

/// Whether two dimension lists are equal.
pub fn shape_eq(a: &crate::shape::Shape, b: &crate::shape::Shape) -> (r: bool)
    ensures
        r == (a@ == b@),
{
    if a.rank() != b.rank() {
        proof {
            assert(a@.len() != b@.len());
        }
        return false;
    }
    let n: usize = a.rank();
    let mut i: usize = 0;
    while i < n
        invariant
            i <= n,
            n == a@.len(),
            n == b@.len(),
            forall|k: int| 0 <= k < i ==> a@[k] == b@[k],
        decreases n - i,
    {
        if a.dim(i) != b.dim(i) {
            proof {
                assert(a@[i as int] != b@[i as int]);
            }
            return false;
        }
        i = i + 1;
    }
    proof {
        assert(a@ =~= b@);
    }
    true
}

/// Whether two type lists are equal.
fn dtype_vec_eq(a: &Vec<DType>, b: &Vec<DType>) -> (r: bool)
    ensures
        r == (a@ == b@),
{
    if a.len() != b.len() {
        proof {
            assert(a@.len() != b@.len());
        }
        return false;
    }
    let n: usize = a.len();
    let mut i: usize = 0;
    while i < n
        invariant
            i <= n,
            n == a@.len(),
            n == b@.len(),
            forall|k: int| 0 <= k < i ==> a@[k] == b@[k],
        decreases n - i,
    {
        if a[i] != b[i] {
            proof {
                assert(a@[i as int] != b@[i as int]);
            }
            return false;
        }
        i = i + 1;
    }
    proof {
        assert(a@ =~= b@);
    }
    true
}

/// Element-wise operations over two operands of one shape.
#[derive(Debug, Copy, Clone, PartialEq, Eq, Hash, Structural)]
pub enum BinaryOp {
    Add,
    Sub,
    Mul,
    Div,
}

#[derive(Debug)]
pub struct Binary {
    pub lhs: Tensor,
    pub rhs: Tensor,
    pub op: BinaryOp,
}

impl Binary {
    pub fn new(lhs: Tensor, rhs: Tensor, op: BinaryOp) -> (r: Binary)
        ensures
            r.lhs@ == lhs@ && r.rhs@ == rhs@ && r.op == op,
    {
        Binary { lhs, rhs, op }
    }

    pub open spec fn kernel_stem(&self) -> KernelStem {
        KernelStem::Binary(self.op)
    }
}

impl OpGuards for Binary {
    open spec fn shapes_ok(&self) -> bool {
        self.lhs@.view.shape == self.rhs@.view.shape
    }

    open spec fn dtypes_ok(&self) -> bool {
        self.lhs@.view.dt == self.rhs@.view.dt
    }

    fn check_shapes(&self) -> (r: bool) {
        shape_eq(&self.lhs.view.shape, &self.rhs.view.shape)
    }

    fn check_dtypes(&self) -> (r: bool) {
        self.lhs.dt() == self.rhs.dt()
    }

    fn check_custom(&self) -> (r: bool) {
        true
    }
}

impl Operation for Binary {
    open spec fn output_view_spec(&self) -> StorageViewV {
        StorageViewV {
            shape: self.lhs@.view.shape,
            dt: self.lhs@.view.dt,
            strides: self.lhs@.view.strides,
        }
    }

    fn compute_view(&self) -> (r: Result<crate::tensor::StorageView, OperationError>) {
        Ok(self.lhs.view.duplicate())
    }
}

/// Element-wise operations over a single operand.
#[derive(Debug, Copy, Clone, PartialEq, Eq, Hash, Structural)]
pub enum UnaryOp {
    Relu,
    Gelu,
    Sigmoid,
}

#[derive(Debug)]
pub struct Unary {
    pub input: Tensor,
    pub op: UnaryOp,
}

impl Unary {
    pub fn new(input: Tensor, op: UnaryOp) -> (r: Unary)
        ensures
            r.input@ == input@ && r.op == op,
    {
        Unary { input, op }
    }

    pub open spec fn kernel_stem(&self) -> KernelStem {
        KernelStem::Unary(self.op)
    }
}

impl OpGuards for Unary {
    open spec fn shapes_ok(&self) -> bool {
        true
    }

    open spec fn dtypes_ok(&self) -> bool {
        true
    }

    fn check_shapes(&self) -> (r: bool) {
        true
    }

    fn check_dtypes(&self) -> (r: bool) {
        true
    }

    fn check_custom(&self) -> (r: bool) {
        true
    }
}

impl Operation for Unary {
    open spec fn output_view_spec(&self) -> StorageViewV {
        self.input@.view
    }

    fn compute_view(&self) -> (r: Result<crate::tensor::StorageView, OperationError>) {
        Ok(self.input.view.duplicate())
    }
}

/// Reinterpretation of an operand in another element type.
#[derive(Debug)]
pub struct Cast {
    pub input: Tensor,
    pub to: DType,
}

impl Cast {
    pub fn new(input: Tensor, to: DType) -> (r: Cast)
        ensures
            r.input@ == input@ && r.to == to,
    {
        Cast { input, to }
    }
}

impl OpGuards for Cast {
    open spec fn shapes_ok(&self) -> bool {
        true
    }

    open spec fn dtypes_ok(&self) -> bool {
        true
    }

    fn check_shapes(&self) -> (r: bool) {
        true
    }

    fn check_dtypes(&self) -> (r: bool) {
        true
    }

    fn check_custom(&self) -> (r: bool) {
        true
    }
}

impl Operation for Cast {
    open spec fn output_view_spec(&self) -> StorageViewV {
        StorageViewV {
            shape: self.input@.view.shape,
            dt: self.to,
            strides: self.input@.view.strides,
        }
    }

    fn compute_view(&self) -> (r: Result<crate::tensor::StorageView, OperationError>) {
        let mut v = self.input.view.duplicate();
        v.dt = self.to;
        Ok(v)
    }
}

/// The element count of a dimension list, when the list is well formed:
/// every extent positive and the product within the device index space.
pub fn checked_numel(shape: &crate::shape::Shape) -> (r: Option<u64>)
    ensures
        r is Some <==> shape.wf(),
        r matches Some(v) ==> v == crate::shape::prod(shape@),
{
    let n: usize = shape.rank();
    let mut acc: u64 = 1;
    let mut i: usize = 0;
    proof {
        assert(shape@.subrange(0, 0) =~= Seq::<usize>::empty());
    }
    while i < n
        invariant
            i <= n,
            n == shape@.len(),
            acc == crate::shape::prod(shape@.subrange(0, i as int)),
            1 <= acc <= u32::MAX,
            forall|k: int| 0 <= k < i ==> (#[trigger] shape@[k]) >= 1,
        decreases n - i,
    {
        let d: usize = shape.dim(i);
        if d == 0 {
            proof {
                assert(shape@[i as int] < 1);
            }
            return None;
        }
        if d > u32::MAX as usize {
            proof {
                if forall|k: int| 0 <= k < shape@.len() ==> (#[trigger] shape@[k]) >= 1 {
                    crate::ops::concat::lemma_dim_le_prod(shape@, i as int);
                }
            }
            return None;
        }
        proof {
            assert(shape@.subrange(0, i + 1).drop_last() == shape@.subrange(0, i as int));
            assert(crate::shape::prod(shape@.subrange(0, i + 1)) == crate::shape::prod(
                shape@.subrange(0, i as int),
            ) * shape@[i as int]);
            assert(1 <= acc * d <= u32::MAX as int * u32::MAX as int) by (nonlinear_arith)
                requires
                    1 <= acc <= u32::MAX,
                    1 <= d <= u32::MAX,
            ;
        }
        acc = acc * (d as u64);
        if acc > u32::MAX as u64 {
            proof {
                if forall|k: int| 0 <= k < shape@.len() ==> (#[trigger] shape@[k]) >= 1 {
                    crate::shape::lemma_prod_prefix_le(shape@, i + 1);
                }
            }
            return None;
        }
        i = i + 1;
    }
    proof {
        assert(shape@.subrange(0, n as int) == shape@);
    }
    Some(acc)
}

/// Reinterprets an operand under a new dimension list of the same element
/// count: no data moves, and the output may alias its operand's buffer.
#[derive(Debug)]
pub struct Reshape {
    pub input: Tensor,
    pub shape: crate::shape::Shape,
}

impl Reshape {
    pub fn new(input: Tensor, shape: crate::shape::Shape) -> (r: Reshape)
        ensures
            r.input@ == input@ && r.shape@ == shape@,
    {
        Reshape { input, shape }
    }
}

impl OpGuards for Reshape {
    open spec fn shapes_ok(&self) -> bool {
        &&& self.input.view.shape.wf()
        &&& self.shape.wf()
        &&& crate::shape::prod(self.shape@) == crate::shape::prod(self.input@.view.shape)
    }

    open spec fn dtypes_ok(&self) -> bool {
        true
    }

    fn check_shapes(&self) -> (r: bool) {
        match (checked_numel(&self.input.view.shape), checked_numel(&self.shape)) {
            (Some(a), Some(b)) => a == b,
            _ => false,
        }
    }

    fn check_dtypes(&self) -> (r: bool) {
        true
    }

    fn check_custom(&self) -> (r: bool) {
        true
    }
}

impl Operation for Reshape {
    open spec fn output_view_spec(&self) -> StorageViewV {
        StorageViewV {
            shape: self.shape@,
            dt: self.input@.view.dt,
            strides: crate::shape::strides_of(self.shape@).map_values(|s: int| s as usize),
        }
    }

    fn compute_view(&self) -> (r: Result<crate::tensor::StorageView, OperationError>) {
        let shape = self.shape.duplicate();
        let strides = crate::shape::Strides::from_shape(&shape);
        proof {
            assert(strides@ =~= self.output_view_spec().strides);
        }
        Ok(crate::tensor::StorageView::new(shape, self.input.dt(), strides))
    }
}

/// The deferred operation producing one tensor of the graph.
#[derive(Debug)]
pub enum LazyOp {
    Const,
    Binary(Binary),
    Unary(Unary),
    Cast(Cast),
    View(Reshape),
    Reindex(Reindex),
    Concat(Concat),
    Select(IndexSelect),
}

impl LazyOp {
    /// The views of the operation's source tensors, in order.
    pub open spec fn srcs_spec(&self) -> Seq<TensorV> {
        match self {
            LazyOp::Const => Seq::<TensorV>::empty(),
            LazyOp::Binary(b) => seq![b.lhs@, b.rhs@],
            LazyOp::Unary(u) => seq![u.input@],
            LazyOp::Cast(c) => seq![c.input@],
            LazyOp::View(v) => seq![v.input@],
            LazyOp::Reindex(r) => seq![r.src_spec()],
            LazyOp::Concat(c) => c.inputs.deep_view(),
            LazyOp::Select(s) => seq![s.input@, s.indices@],
        }
    }

    pub fn srcs(&self) -> (r: Vec<&Tensor>)
        ensures
            r.deep_view() == self.srcs_spec(),
    {
        let mut v: Vec<&Tensor> = Vec::new();
        match self {
            LazyOp::Const => {
            },
            LazyOp::Binary(b) => {
                v.push(&b.lhs);
                v.push(&b.rhs);
            },
            LazyOp::Unary(u) => {
                v.push(&u.input);
            },
            LazyOp::Cast(c) => {
                v.push(&c.input);
            },
            LazyOp::View(vw) => {
                v.push(&vw.input);
            },
            LazyOp::Reindex(r) => {
                v.push(r.src());
            },
            LazyOp::Concat(c) => {
                let n: usize = c.inputs.len();
                let mut i: usize = 0;
                while i < n
                    invariant
                        i <= n,
                        n == c.inputs@.len(),
                        v@.len() == i,
                        forall|k: int|
                            0 <= k < i ==> #[trigger] v.deep_view()[k]
                                == c.inputs.deep_view()[k],
                    decreases n - i,
                {
                    let ghost prev = v@;
                    let ghost prevdv = v.deep_view();
                    v.push(&c.inputs[i]);
                    proof {
                        assert forall|k: int| 0 <= k < i + 1 implies #[trigger] v.deep_view()[k]
                            == c.inputs.deep_view()[k] by {
                            assert(c.inputs.deep_view()[k] == c.inputs@[k].deep_view());
                            assert(v.deep_view()[k] == v@[k].deep_view());
                            if k < i as int {
                                assert(v@[k] == prev[k]);
                                assert(prevdv[k] == prev[k].deep_view());
                                assert(prevdv[k] == c.inputs.deep_view()[k]);
                            }
                        }
                    }
                    i = i + 1;
                }
                proof {
                    assert(v.deep_view() =~= c.inputs.deep_view());
                }
            },
            LazyOp::Select(s) => {
                v.push(&s.input);
                v.push(&s.indices);
            },
        }
        proof {
            assert(v.deep_view() =~= self.srcs_spec());
        }
        v
    }

    /// Whether the op may write its result into a source's buffer.
    pub open spec fn supports_inplace_spec(&self) -> bool {
        match self {
            LazyOp::Binary(_) => true,
            LazyOp::Unary(_) => true,
            LazyOp::Cast(_) => true,
            LazyOp::View(_) => true,
            _ => false,
        }
    }

    pub fn supports_inplace(&self) -> (r: bool)
        ensures
            r == self.supports_inplace_spec(),
    {
        matches!(self, LazyOp::Binary(_) | LazyOp::Unary(_) | LazyOp::Cast(_) | LazyOp::View(_))
    }

    /// Which source index is eligible for in-place reuse. Every op that
    /// supports in-place execution names its aliasable source explicitly.
    pub open spec fn inplace_source_spec(&self) -> Option<usize> {
        match self {
            LazyOp::Binary(_) => Some(0usize),
            LazyOp::Unary(_) => Some(0usize),
            LazyOp::Cast(_) => Some(0usize),
            LazyOp::View(_) => Some(0usize),
            _ => None,
        }
    }

    pub fn inplace_source(&self) -> (r: Option<usize>)
        ensures
            r == self.inplace_source_spec(),
            r is Some <==> self.supports_inplace_spec(),
            r matches Some(i) ==> (i as int) < self.srcs_spec().len(),
    {
        match self {
            LazyOp::Binary(_) => Some(0),
            LazyOp::Unary(_) => Some(0),
            LazyOp::Cast(_) => Some(0),
            LazyOp::View(_) => Some(0),
            _ => None,
        }
    }

    pub fn is_const(&self) -> (r: bool)
        ensures
            r == (self matches LazyOp::Const),
    {
        matches!(self, LazyOp::Const)
    }

    /// The kernel family name of the op.
    pub fn name(&self) -> (r: String)
        ensures
            r@ == self.name_spec(),
    {
        match self {
            LazyOp::Const => String::from_str("Const"),
            LazyOp::Binary(b) => match b.op {
                BinaryOp::Add => String::from_str("add"),
                BinaryOp::Sub => String::from_str("sub"),
                BinaryOp::Mul => String::from_str("mul"),
                BinaryOp::Div => String::from_str("div"),
            },
            LazyOp::Unary(u) => match u.op {
                UnaryOp::Relu => String::from_str("relu"),
                UnaryOp::Gelu => String::from_str("gelu"),
                UnaryOp::Sigmoid => String::from_str("sigmoid"),
            },
            LazyOp::Cast(_) => String::from_str("cast"),
            LazyOp::View(_) => String::from_str("View"),
            LazyOp::Reindex(r) => String::from_str(r.kernel_name()),
            LazyOp::Concat(_) => String::from_str("concat"),
            LazyOp::Select(_) => String::from_str("index_select"),
        }
    }

    pub open spec fn name_spec(&self) -> Seq<char> {
        match self {
            LazyOp::Const => "Const"@,
            LazyOp::Binary(b) => match b.op {
                BinaryOp::Add => "add"@,
                BinaryOp::Sub => "sub"@,
                BinaryOp::Mul => "mul"@,
                BinaryOp::Div => "div"@,
            },
            LazyOp::Unary(u) => match u.op {
                UnaryOp::Relu => "relu"@,
                UnaryOp::Gelu => "gelu"@,
                UnaryOp::Sigmoid => "sigmoid"@,
            },
            LazyOp::Cast(_) => "cast"@,
            LazyOp::View(_) => "View"@,
            LazyOp::Reindex(r) => r.kernel_name_spec(),
            LazyOp::Concat(_) => "concat"@,
            LazyOp::Select(_) => "index_select"@,
        }
    }

    /// The shape and type invariants of the node, all of them.
    pub open spec fn invariants_spec(&self) -> bool {
        match self {
            LazyOp::Const => true,
            LazyOp::Binary(b) => invariants_ok(b),
            LazyOp::Unary(u) => invariants_ok(u),
            LazyOp::Cast(c) => invariants_ok(c),
            LazyOp::View(v) => invariants_ok(v),
            LazyOp::Reindex(r) => invariants_ok(r),
            LazyOp::Concat(c) => invariants_ok(c),
            LazyOp::Select(s) => invariants_ok(s),
        }
    }

    pub fn check_invariants(&self) -> (r: bool)
        ensures
            r == self.invariants_spec(),
    {
        match self {
            LazyOp::Const => true,
            LazyOp::Binary(b) => b.check_invariants(),
            LazyOp::Unary(u) => u.check_invariants(),
            LazyOp::Cast(c) => c.check_invariants(),
            LazyOp::View(v) => v.check_invariants(),
            LazyOp::Reindex(r) => r.check_invariants(),
            LazyOp::Concat(c) => c.check_invariants(),
            LazyOp::Select(s) => s.check_invariants(),
        }
    }
}

/// The vector width one generated thread handles.
#[derive(Debug, Copy, Clone, PartialEq, Eq, Hash, Structural)]
pub enum KernelElement {
    Scalar,
    Vec2,
    Vec4,
}

impl KernelElement {
    /// Elements one thread handles.
    pub fn as_size(&self) -> (r: usize)
        ensures
            r == self.as_size_spec(),
    {
        match self {
            KernelElement::Scalar => 1,
            KernelElement::Vec2 => 2,
            KernelElement::Vec4 => 4,
        }
    }

    pub open spec fn as_size_spec(self) -> usize {
        match self {
            KernelElement::Scalar => 1usize,
            KernelElement::Vec2 => 2usize,
            KernelElement::Vec4 => 4usize,
        }
    }

    pub fn as_str(&self) -> (r: &'static str)
        ensures
            r@ == self.as_str_spec(),
    {
        match self {
            KernelElement::Scalar => "scalar",
            KernelElement::Vec2 => "vec2",
            KernelElement::Vec4 => "vec4",
        }
    }

    pub open spec fn as_str_spec(self) -> Seq<char> {
        match self {
            KernelElement::Scalar => "scalar"@,
            KernelElement::Vec2 => "vec2"@,
            KernelElement::Vec4 => "vec4"@,
        }
    }
}

/// The kernel family a cache key begins with.
#[derive(Debug, Copy, Clone, PartialEq, Eq, Hash, Structural)]
pub enum KernelStem {
    Concat,
    Permute,
    Slice,
    Broadcast,
    IndexSelectF32,
    IndexSelectWQ8,
    Cast,
    Binary(BinaryOp),
    Unary(UnaryOp),
}

impl KernelStem {
    pub fn as_str(&self) -> (r: &'static str)
        ensures
            r@ == self.as_str_spec(),
    {
        match self {
            KernelStem::Concat => "concat",
            KernelStem::Permute => "permute",
            KernelStem::Slice => "slice",
            KernelStem::Broadcast => "broadcast",
            KernelStem::IndexSelectF32 => "f32_index_select",
            KernelStem::IndexSelectWQ8 => "wq8_index_select",
            KernelStem::Cast => "cast",
            KernelStem::Binary(BinaryOp::Add) => "add",
            KernelStem::Binary(BinaryOp::Sub) => "sub",
            KernelStem::Binary(BinaryOp::Mul) => "mul",
            KernelStem::Binary(BinaryOp::Div) => "div",
            KernelStem::Unary(UnaryOp::Relu) => "relu",
            KernelStem::Unary(UnaryOp::Gelu) => "gelu",
            KernelStem::Unary(UnaryOp::Sigmoid) => "sigmoid",
        }
    }

    pub open spec fn as_str_spec(self) -> Seq<char> {
        match self {
            KernelStem::Concat => "concat"@,
            KernelStem::Permute => "permute"@,
            KernelStem::Slice => "slice"@,
            KernelStem::Broadcast => "broadcast"@,
            KernelStem::IndexSelectF32 => "f32_index_select"@,
            KernelStem::IndexSelectWQ8 => "wq8_index_select"@,
            KernelStem::Cast => "cast"@,
            KernelStem::Binary(BinaryOp::Add) => "add"@,
            KernelStem::Binary(BinaryOp::Sub) => "sub"@,
            KernelStem::Binary(BinaryOp::Mul) => "mul"@,
            KernelStem::Binary(BinaryOp::Div) => "div"@,
            KernelStem::Unary(UnaryOp::Relu) => "relu"@,
            KernelStem::Unary(UnaryOp::Gelu) => "gelu"@,
            KernelStem::Unary(UnaryOp::Sigmoid) => "sigmoid"@,
        }
    }
}

/// Identity of a generated kernel variant, used for compilation caching.
/// Structured, so that no two distinct component lists can collide; the
/// rendered text is kept alongside for diagnostics.
#[derive(Debug)]
pub struct KernelKey {
    pub stem: KernelStem,
    pub input_dts: Vec<DType>,
    pub output_dt: DType,
    pub workgroup_size: WorkgroupSize,
    pub inplace: bool,
    pub additional: Option<u32>,
    pub element: KernelElement,
    pub rendered: String,
}

/// Mathematical image of a `KernelKey`: every component that identifies
/// the generated device code.
pub struct KernelKeyV {
    pub stem: KernelStem,
    pub input_dts: Seq<DType>,
    pub output_dt: DType,
    pub workgroup_size: WorkgroupSize,
    pub inplace: bool,
    pub additional: Option<u32>,
    pub element: KernelElement,
}

impl View for KernelKey {
    type V = KernelKeyV;

    open spec fn view(&self) -> KernelKeyV {
        KernelKeyV {
            stem: self.stem,
            input_dts: self.input_dts@,
            output_dt: self.output_dt,
            workgroup_size: self.workgroup_size,
            inplace: self.inplace,
            additional: self.additional,
            element: self.element,
        }
    }
}

/// Rendered text of a key: the components joined by underscores.
pub open spec fn key_render_dts(dts: Seq<DType>, k: int) -> Seq<char>
    decreases k,
{
    if k <= 0 {
        Seq::<char>::empty()
    } else {
        key_render_dts(dts, k - 1) + dts[k - 1].as_str_spec() + "_"@
    }
}

pub open spec fn bool_str(b: bool) -> Seq<char> {
    if b {
        "true"@
    } else {
        "false"@
    }
}

pub open spec fn key_render(v: KernelKeyV) -> Seq<char> {
    v.stem.as_str_spec() + "_"@ + key_render_dts(v.input_dts, v.input_dts.len() as int)
        + v.output_dt.as_str_spec() + "_"@ + wgs_key_str(v.workgroup_size) + "_"@ + bool_str(
        v.inplace,
    ) + "_"@ + (match v.additional {
        Some(a) => dec_str(a as int) + "_"@,
        None => Seq::<char>::empty(),
    }) + v.element.as_str_spec()
}

impl KernelKey {
    pub fn as_str(&self) -> (r: &str)
        ensures
            r@ == self.rendered@,
    {
        self.rendered.as_str()
    }

    pub fn new(
        stem: KernelStem,
        inputs: &Vec<&Tensor>,
        output: &Tensor,
        workgroup_size: &WorkgroupSize,
        inplace: bool,
        kernel_element: KernelElement,
        additional: Option<u32>,
    ) -> (r: KernelKey)
        ensures
            r@ == (KernelKeyV {
                stem,
                input_dts: inputs.deep_view().map_values(|t: TensorV| t.view.dt),
                output_dt: output@.view.dt,
                workgroup_size: *workgroup_size,
                inplace,
                additional,
                element: kernel_element,
            }),
            r.rendered@ == key_render(r@),
    {
        let mut input_dts: Vec<DType> = Vec::new();
        let mut s = String::new();
        s.append(stem.as_str());
        s.append("_");
        let n: usize = inputs.len();
        let mut i: usize = 0;
        while i < n
            invariant
                i <= n,
                n == inputs@.len(),
                input_dts@ =~= inputs.deep_view().map_values(|t: TensorV| t.view.dt).subrange(
                    0,
                    i as int,
                ),
                s@ == stem.as_str_spec() + "_"@ + key_render_dts(
                    inputs.deep_view().map_values(|t: TensorV| t.view.dt),
                    i as int,
                ),
            decreases n - i,
        {
            let dt: DType = inputs[i].dt();
            input_dts.push(dt);
            s.append(dt.as_str());
            s.append("_");
            proof {
                let dts = inputs.deep_view().map_values(|t: TensorV| t.view.dt);
                assert(dts[i as int] == inputs.deep_view()[i as int].view.dt);
                assert(input_dts@ =~= dts.subrange(0, i + 1));
                assert(s@ =~= stem.as_str_spec() + "_"@ + key_render_dts(dts, i + 1));
            }
            i = i + 1;
        }
        let output_dt: DType = output.dt();
        s.append(output_dt.as_str());
        s.append("_");
        let wgs_key = workgroup_size.as_key();
        s.append(wgs_key.as_str());
        s.append("_");
        if inplace {
            s.append("true");
        } else {
            s.append("false");
        }
        s.append("_");
        match additional {
            Some(a) => {
                push_dec(&mut s, a);
                s.append("_");
            },
            None => {
            },
        }
        s.append(kernel_element.as_str());
        let r = KernelKey {
            stem,
            input_dts,
            output_dt,
            workgroup_size: *workgroup_size,
            inplace,
            additional,
            element: kernel_element,
            rendered: s,
        };
        proof {
            let dts = inputs.deep_view().map_values(|t: TensorV| t.view.dt);
            assert(dts.subrange(0, n as int) =~= dts);
            assert(r.rendered@ =~= key_render(r@));
        }
        r
    }

    /// Whether two keys identify the same kernel variant.
    pub fn key_eq(&self, other: &KernelKey) -> (r: bool)
        ensures
            r == (self@ == other@),
    {
        let stems_eq: bool = kernel_stem_eq(self.stem, other.stem);
        let adds_eq: bool = match (self.additional, other.additional) {
            (Some(a), Some(b)) => a == b,
            (None, None) => true,
            _ => false,
        };
        let dts_eq: bool = dtype_vec_eq(&self.input_dts, &other.input_dts);
        let r = stems_eq && dts_eq && self.output_dt == other.output_dt && self.workgroup_size
            == other.workgroup_size && self.inplace == other.inplace && adds_eq && self.element
            == other.element;
        proof {
            if r {
                assert(self@ == other@);
            }
        }
        r
    }

    pub fn duplicate(&self) -> (r: KernelKey)
        ensures
            r@ == self@,
            r.rendered@ == self.rendered@,
    {
        let mut input_dts: Vec<DType> = Vec::new();
        let n: usize = self.input_dts.len();
        let mut i: usize = 0;
        while i < n
            invariant
                i <= n,
                n == self.input_dts@.len(),
                input_dts@ =~= self.input_dts@.subrange(0, i as int),
            decreases n - i,
        {
            input_dts.push(self.input_dts[i]);
            proof {
                assert(input_dts@ =~= self.input_dts@.subrange(0, i + 1));
            }
            i = i + 1;
        }
        proof {
            assert(input_dts@ =~= self.input_dts@);
        }
        KernelKey {
            stem: self.stem,
            input_dts,
            output_dt: self.output_dt,
            workgroup_size: self.workgroup_size,
            inplace: self.inplace,
            additional: self.additional,
            element: self.element,
            rendered: String::from_str(self.rendered.as_str()),
        }
    }
}

fn kernel_stem_eq(a: KernelStem, b: KernelStem) -> (r: bool)
    ensures
        r == (a == b),
{
    match (a, b) {
        (KernelStem::Concat, KernelStem::Concat) => true,
        (KernelStem::Permute, KernelStem::Permute) => true,
        (KernelStem::Slice, KernelStem::Slice) => true,
        (KernelStem::Broadcast, KernelStem::Broadcast) => true,
        (KernelStem::IndexSelectF32, KernelStem::IndexSelectF32) => true,
        (KernelStem::IndexSelectWQ8, KernelStem::IndexSelectWQ8) => true,
        (KernelStem::Cast, KernelStem::Cast) => true,
        (KernelStem::Binary(x), KernelStem::Binary(y)) => x == y,
        (KernelStem::Unary(x), KernelStem::Unary(y)) => x == y,
        _ => false,
    }
}

/// Two operations that differ in any identifying component — input types,
/// output type, workgroup-size signature, in-place flag or kernel element —
/// have different kernel keys.
pub proof fn lemma_key_uniqueness(a: KernelKeyV, b: KernelKeyV)
    requires
        a.input_dts != b.input_dts || a.output_dt != b.output_dt || a.workgroup_size
            != b.workgroup_size || a.inplace != b.inplace || a.element != b.element,
    ensures
        a != b,
{
}

/// Structurally identical operations produce equal kernel keys: the key is
/// a function of its components alone, and so is its rendered text.
pub proof fn lemma_key_determinism(a: KernelKeyV, b: KernelKeyV)
    requires
        a.stem == b.stem,
        a.input_dts == b.input_dts,
        a.output_dt == b.output_dt,
        a.workgroup_size == b.workgroup_size,
        a.inplace == b.inplace,
        a.additional == b.additional,
        a.element == b.element,
    ensures
        a == b,
        key_render(a) == key_render(b),
{
}

} // verus!
