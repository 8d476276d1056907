use vstd::prelude::*;

use crate::dtype::DType;
use crate::pool::PooledGPUBuffer;
use crate::shape::{prod, strides_of, Shape, Strides};

verus! {

/// Type, shape and strides of one logical tensor value.
#[derive(Debug)]
pub struct StorageView {
    pub shape: Shape,
    pub dt: DType,
    pub strides: Strides,
}

/// Mathematical image of a `StorageView`.
pub struct StorageViewV {
    pub shape: Seq<usize>,
    pub dt: DType,
    pub strides: Seq<usize>,
}

impl View for StorageView {
    type V = StorageViewV;

    open spec fn view(&self) -> StorageViewV {
        StorageViewV { shape: self.shape@, dt: self.dt, strides: self.strides@ }
    }
}

impl StorageView {
    pub open spec fn wf(self) -> bool {
        &&& self.shape.wf()
        &&& self@.strides.len() == self@.shape.len()
    }

    pub fn new(shape: Shape, dt: DType, strides: Strides) -> (r: StorageView)
        ensures
            r@.shape == shape@,
            r@.dt == dt,
            r@.strides == strides@,
    {
        StorageView { shape, dt, strides }
    }

    /// A contiguous view over `shape`.
    pub fn contiguous(shape: Shape, dt: DType) -> (r: StorageView)
        requires
            shape.wf(),
        ensures
            r@.shape == shape@,
            r@.dt == dt,
            r.wf(),
            forall|i: int| 0 <= i < r@.strides.len() ==> r@.strides[i] == strides_of(shape@)[i],
    {
        let strides = Strides::from_shape(&shape);
        StorageView { shape, dt, strides }
    }

    pub fn duplicate(&self) -> (r: StorageView)
        ensures
            r@ == self@,
    {
        StorageView { shape: self.shape.duplicate(), dt: self.dt, strides: self.strides.duplicate() }
    }
}

/// Where a resolved tensor's bytes live. Bytes still host-side cannot be
/// bound by the allocator and make it fail.
#[derive(Debug, Copy, Clone, PartialEq, Eq, Structural)]
pub enum Storage {
    CPU,
    GPU(PooledGPUBuffer),
}

/// One logical tensor: identity, layout, and — once resolved — its storage.
#[derive(Debug)]
pub struct Tensor {
    pub id: u64,
    pub view: StorageView,
    pub storage: Option<Storage>,
}

/// Mathematical image of a `Tensor`.
pub struct TensorV {
    pub id: u64,
    pub view: StorageViewV,
    pub storage: Option<Storage>,
}

impl View for Tensor {
    type V = TensorV;

    open spec fn view(&self) -> TensorV {
        TensorV { id: self.id, view: self.view@, storage: self.storage }
    }
}

impl DeepView for Tensor {
    type V = TensorV;

    open spec fn deep_view(&self) -> TensorV {
        self@
    }
}

impl TensorV {
    pub open spec fn resolved(self) -> bool {
        self.storage is Some
    }

    pub open spec fn gpu_resident(self) -> bool {
        self.storage matches Some(Storage::GPU(_))
    }

    /// Byte size of the tensor's contiguous contents.
    pub open spec fn num_bytes_spec(self) -> int {
        prod(self.view.shape) * self.view.dt.size_of_spec()
    }
}

impl Tensor {
    pub open spec fn wf(self) -> bool {
        self.view.wf()
    }

    pub fn new(id: u64, view: StorageView, storage: Option<Storage>) -> (r: Tensor)
        ensures
            r@.id == id,
            r@.view == view@,
            r@.storage == storage,
    {
        Tensor { id, view, storage }
    }

    pub fn dt(&self) -> (r: DType)
        ensures
            r == self@.view.dt,
    {
        self.view.dt
    }

    pub fn shape(&self) -> (r: &Shape)
        ensures
            r@ == self@.view.shape,
    {
        &self.view.shape
    }

    pub fn rank(&self) -> (r: usize)
        ensures
            r == self@.view.shape.len(),
    {
        self.view.shape.rank()
    }

    pub fn resolved(&self) -> (r: bool)
        ensures
            r == self@.resolved(),
    {
        self.storage.is_some()
    }

    pub fn num_bytes(&self) -> (r: u64)
        requires
            self.wf(),
        ensures
            r == self@.num_bytes_spec(),
            r <= u32::MAX as int * 4,
    {
        let n: u64 = self.view.shape.numel() as u64;
        let w: u64 = self.view.dt.size_of() as u64;
        proof {
            assert(n * w <= u32::MAX as int * 4) by (nonlinear_arith)
                requires
                    n <= u32::MAX,
                    w <= 4,
            ;
        }
        n * w
    }

    pub fn duplicate(&self) -> (r: Tensor)
        ensures
            r@ == self@,
    {
        Tensor { id: self.id, view: self.view.duplicate(), storage: self.storage }
    }
}


/// Whether two dimension or stride lists are equal.
fn usize_vecs_eq(a: &Vec<usize>, b: &Vec<usize>) -> (r: bool)
    ensures
        r == (a@ == b@),
{
    if a.len() != b.len() {
        proof {
            assert(a@.len() != b@.len());
        }
        return false;
    }
    let n: usize = a.len();
    let mut i: usize = 0;
    while i < n
        invariant
            i <= n,
            n == a@.len(),
            n == b@.len(),
            forall|k: int| 0 <= k < i ==> a@[k] == b@[k],
        decreases n - i,
    {
        if a[i] != b[i] {
            proof {
                assert(a@[i as int] != b@[i as int]);
            }
            return false;
        }
        i = i + 1;
    }
    proof {
        assert(a@ =~= b@);
    }
    true
}

impl Tensor {
    /// Whether two tensors carry the same identity, layout and storage.
    pub fn view_eq(&self, other: &Tensor) -> (r: bool)
        ensures
            r == (self@ == other@),
    {
        if self.id != other.id {
            return false;
        }
        if self.view.dt != other.view.dt {
            return false;
        }
        if !usize_vecs_eq(&self.view.shape.dims, &other.view.shape.dims) {
            proof {
                assert(self@.view.shape != other@.view.shape);
            }
            return false;
        }
        if !usize_vecs_eq(&self.view.strides.elems, &other.view.strides.elems) {
            proof {
                assert(self@.view.strides != other@.view.strides);
            }
            return false;
        }
        let storage_eq: bool = match (&self.storage, &other.storage) {
            (Option::None, Option::None) => true,
            (Option::Some(a), Option::Some(b)) => *a == *b,
            _ => false,
        };
        if !storage_eq {
            return false;
        }
        proof {
            assert(self@.view == other@.view);
            assert(self@ == other@);
        }
        true
    }
}

} // verus!
