use vstd::prelude::*;

verus! {

/// Product of a dimension list.
pub open spec fn prod(dims: Seq<usize>) -> int
    decreases dims.len(),
{
    if dims.len() == 0 {
        1
    } else {
        prod(dims.drop_last()) * dims.last()
    }
}

/// With every dimension positive, a prefix's product never exceeds the whole.
pub proof fn lemma_prod_prefix_le(dims: Seq<usize>, k: int)
    requires
        0 <= k <= dims.len(),
        forall|i: int| 0 <= i < dims.len() ==> dims[i] >= 1,
    ensures
        1 <= prod(dims.subrange(0, k)) <= prod(dims),
    decreases dims.len() - k,
{
    if k == dims.len() {
        assert(dims.subrange(0, k) == dims);
        lemma_prod_pos(dims);
    } else {
        lemma_prod_prefix_le(dims, k + 1);
        let a = dims.subrange(0, k);
        let b = dims.subrange(0, k + 1);
        assert(b.drop_last() == a);
        assert(prod(b) == prod(a) * b.last());
        lemma_prod_pos(a);
        assert(prod(a) * b.last() >= prod(a) * 1) by (nonlinear_arith)
            requires
                prod(a) >= 1,
                b.last() >= 1,
        ;
    }
}

pub proof fn lemma_prod_pos(dims: Seq<usize>)
    requires
        forall|i: int| 0 <= i < dims.len() ==> dims[i] >= 1,
    ensures
        prod(dims) >= 1,
    decreases dims.len(),
{
    if dims.len() > 0 {
        assert(forall|i: int|
            0 <= i < dims.drop_last().len() ==> #[trigger] dims.drop_last()[i] >= 1);
        lemma_prod_pos(dims.drop_last());
        assert(prod(dims.drop_last()) * dims.last() >= 1) by (nonlinear_arith)
            requires
                prod(dims.drop_last()) >= 1,
                dims.last() >= 1,
        ;
    }
}

/// The dimension list of a tensor, outermost first.
#[derive(Debug, Clone)]
pub struct Shape {
    pub dims: Vec<usize>,
}

impl View for Shape {
    type V = Seq<usize>;

    open spec fn view(&self) -> Seq<usize> {
        self.dims@
    }
}

impl Shape {
    /// Shapes the engine accepts: positive extents whose element count fits
    /// the device's 32-bit index space.
    pub open spec fn wf(self) -> bool {
        &&& forall|i: int| 0 <= i < self@.len() ==> self@[i] >= 1
        &&& prod(self@) <= u32::MAX
    }

    pub fn new(dims: Vec<usize>) -> (r: Shape)
        ensures
            r@ == dims@,
    {
        Shape { dims }
    }

    pub fn rank(&self) -> (r: usize)
        ensures
            r == self@.len(),
    {
        self.dims.len()
    }

    pub fn dim(&self, i: usize) -> (r: usize)
        requires
            i < self@.len(),
        ensures
            r == self@[i as int],
    {
        self.dims[i]
    }

    /// Number of elements.
    pub fn numel(&self) -> (r: usize)
        requires
            self.wf(),
        ensures
            r == prod(self@),
            1 <= r <= u32::MAX,
    {
        let mut acc: usize = 1;
        let mut i: usize = 0;
        let n: usize = self.dims.len();
        proof {
            assert(self@.subrange(0, 0) =~= Seq::<usize>::empty());
        }
        while i < n
            invariant
                i <= n,
                n == self@.len(),
                self.wf(),
                acc == prod(self@.subrange(0, i as int)),
                1 <= acc <= u32::MAX,
            decreases n - i,
        {
            proof {
                lemma_prod_prefix_le(self@, i + 1);
                assert(self@.subrange(0, i + 1).drop_last() == self@.subrange(0, i as int));
                assert(prod(self@.subrange(0, i + 1)) == prod(self@.subrange(0, i as int))
                    * self@[i as int]);
            }
            acc = acc * self.dims[i];
            i = i + 1;
        }
        proof {
            assert(self@.subrange(0, n as int) == self@);
        }
        acc
    }

    pub fn duplicate(&self) -> (r: Shape)
        ensures
            r@ == self@,
    {
        let mut dims: Vec<usize> = Vec::new();
        let mut i: usize = 0;
        let n: usize = self.dims.len();
        while i < n
            invariant
                i <= n,
                n == self@.len(),
                dims@ == self@.subrange(0, i as int),
            decreases n - i,
        {
            dims.push(self.dims[i]);
            proof {
                assert(dims@ == self@.subrange(0, i + 1));
            }
            i = i + 1;
        }
        proof {
            assert(dims@ == self@);
        }
        Shape { dims }
    }

    /// The shape as seen by rank-`to` kernels: leading length-one axes are
    /// prepended until the rank reaches `to`.
    pub open spec fn promote_spec(s: Seq<usize>, to: int) -> Seq<usize> {
        Seq::new((to - s.len()) as nat, |i: int| 1usize) + s
    }

    pub fn promote(&self, to: usize) -> (r: Shape)
        requires
            self@.len() <= to,
        ensures
            r@ == Shape::promote_spec(self@, to as int),
            r@.len() == to,
    {
        let mut dims: Vec<usize> = Vec::new();
        let pad: usize = to - self.dims.len();
        let mut i: usize = 0;
        while i < pad
            invariant
                i <= pad,
                dims@ == Seq::new(i as nat, |k: int| 1usize),
            decreases pad - i,
        {
            dims.push(1);
            proof {
                assert(dims@ == Seq::new((i + 1) as nat, |k: int| 1usize));
            }
            i = i + 1;
        }
        let mut j: usize = 0;
        let n: usize = self.dims.len();
        while j < n
            invariant
                j <= n,
                n == self@.len(),
                pad == to - n,
                n <= to,
                dims@ == Seq::new(pad as nat, |k: int| 1usize) + self@.subrange(0, j as int),
            decreases n - j,
        {
            dims.push(self.dims[j]);
            proof {
                assert(dims@ == Seq::new(pad as nat, |k: int| 1usize) + self@.subrange(
                    0,
                    j + 1,
                ));
            }
            j = j + 1;
        }
        proof {
            assert(self@.subrange(0, n as int) == self@);
        }
        Shape { dims }
    }

    /// A promoted shape keeps its element count and stays well formed.
    pub proof fn lemma_promote_wf(s: Seq<usize>, to: int)
        requires
            s.len() <= to,
            forall|i: int| 0 <= i < s.len() ==> s[i] >= 1,
        ensures
            prod(Shape::promote_spec(s, to)) == prod(s),
            forall|i: int|
                0 <= i < Shape::promote_spec(s, to).len() ==> Shape::promote_spec(s, to)[i] >= 1,
        decreases to - s.len(),
    {
        let p = Shape::promote_spec(s, to);
        if s.len() == to {
            assert(p =~= s);
        } else {
            let q = Shape::promote_spec(s, to - 1);
            Shape::lemma_promote_wf(s, to - 1);
            assert(p =~= seq![1usize] + q);
            lemma_prod_unit_prefix(q);
        }
    }
}

proof fn lemma_prod_unit_prefix(s: Seq<usize>)
    ensures
        prod(seq![1usize] + s) == prod(s),
    decreases s.len(),
{
    let t = seq![1usize] + s;
    if s.len() == 0 {
        assert(t == seq![1usize]);
        assert(t.drop_last() =~= Seq::<usize>::empty());
        assert(prod(t) == prod(t.drop_last()) * t.last());
    } else {
        assert(t.drop_last() =~= seq![1usize] + s.drop_last());
        lemma_prod_unit_prefix(s.drop_last());
        assert(prod(t) == prod(seq![1usize] + s.drop_last()) * s.last());
        assert(prod(s) == prod(s.drop_last()) * s.last());
    }
}

/// Row-major strides, in elements, of a contiguous layout of `dims`:
/// the stride of an axis is the product of all later extents.
pub open spec fn strides_of(dims: Seq<usize>) -> Seq<int> {
    Seq::new(dims.len(), |i: int| prod(dims.subrange(i + 1, dims.len() as int)))
}

/// Per-axis step between consecutive indices, in elements.
#[derive(Debug, Clone)]
pub struct Strides {
    pub elems: Vec<usize>,
}

impl View for Strides {
    type V = Seq<usize>;

    open spec fn view(&self) -> Seq<usize> {
        self.elems@
    }
}

impl Strides {
    /// Contiguous row-major strides of a shape.
    pub fn from_shape(shape: &Shape) -> (r: Strides)
        requires
            shape.wf(),
        ensures
            r@.len() == shape@.len(),
            forall|i: int| 0 <= i < r@.len() ==> r@[i] == strides_of(shape@)[i],
            forall|i: int| 0 <= i < r@.len() ==> 1 <= #[trigger] r@[i] <= u32::MAX,
    {
        let n: usize = shape.dims.len();
        let mut rev: Vec<usize> = Vec::new();
        let mut acc: usize = 1;
        let mut i: usize = n;
        proof {
            assert(shape@.subrange(n as int, n as int) =~= Seq::<usize>::empty());
        }
        while i > 0
            invariant
                i <= n,
                n == shape@.len(),
                shape.wf(),
                acc == prod(shape@.subrange(i as int, n as int)),
                1 <= acc <= u32::MAX,
                rev@.len() == n - i,
                forall|k: int|
                    0 <= k < rev@.len() ==> rev@[k] == prod(
                        shape@.subrange(n - k, n as int),
                    ),
                forall|k: int| 0 <= k < rev@.len() ==> 1 <= #[trigger] rev@[k] <= u32::MAX,
            decreases i,
        {
            i = i - 1;
            rev.push(acc);
            proof {
                lemma_prod_suffix_step(shape@, i as int);
                lemma_prod_suffix_bound(shape@, i as int);
                assert(prod(shape@.subrange(i as int, n as int)) == shape@[i as int] * acc);
                assert(shape@[i as int] * acc == acc * shape@[i as int]) by (nonlinear_arith);
            }
            acc = acc * shape.dims[i];
            assert(acc == prod(shape@.subrange(i as int, n as int)));
        }
        let mut elems: Vec<usize> = Vec::new();
        let mut j: usize = 0;
        while j < n
            invariant
                j <= n,
                n == shape@.len(),
                rev@.len() == n,
                forall|k: int|
                    0 <= k < rev@.len() ==> rev@[k] == prod(
                        shape@.subrange(n - k, n as int),
                    ),
                forall|k: int| 0 <= k < rev@.len() ==> 1 <= #[trigger] rev@[k] <= u32::MAX,
                elems@.len() == j,
                forall|k: int|
                    0 <= k < j ==> elems@[k] == prod(shape@.subrange(k + 1, n as int)),
                forall|k: int| 0 <= k < j ==> 1 <= #[trigger] elems@[k] <= u32::MAX,
            decreases n - j,
        {
            elems.push(rev[n - 1 - j]);
            j = j + 1;
        }
        Strides { elems }
    }

    pub fn duplicate(&self) -> (r: Strides)
        ensures
            r@ == self@,
    {
        let mut elems: Vec<usize> = Vec::new();
        let mut i: usize = 0;
        let n: usize = self.elems.len();
        while i < n
            invariant
                i <= n,
                n == self@.len(),
                elems@ == self@.subrange(0, i as int),
            decreases n - i,
        {
            elems.push(self.elems[i]);
            proof {
                assert(elems@ == self@.subrange(0, i + 1));
            }
            i = i + 1;
        }
        proof {
            assert(elems@ == self@);
        }
        Strides { elems }
    }
}

pub proof fn lemma_prod_suffix_step(dims: Seq<usize>, i: int)
    requires
        0 <= i < dims.len(),
    ensures
        prod(dims.subrange(i, dims.len() as int)) == dims[i] * prod(
            dims.subrange(i + 1, dims.len() as int),
        ),
    decreases dims.len() - i,
{
    let n = dims.len() as int;
    if i == n - 1 {
        let s = dims.subrange(i, n);
        assert(s.len() == 1);
        assert(s.drop_last() =~= Seq::<usize>::empty());
        assert(prod(s) == prod(s.drop_last()) * s.last());
        assert(dims.subrange(i + 1, n) =~= Seq::<usize>::empty());
    } else {
        lemma_prod_suffix_step(dims, i + 1);
        let s = dims.subrange(i, n);
        let t = dims.subrange(i + 1, n);
        assert(s.drop_last() =~= dims.subrange(i, n - 1));
        assert(t.drop_last() =~= dims.subrange(i + 1, n - 1));
        lemma_prod_suffix_step_inner(dims, i);
    }
}

proof fn lemma_prod_suffix_step_inner(dims: Seq<usize>, i: int)
    requires
        0 <= i < dims.len(),
    ensures
        prod(dims.subrange(i, dims.len() as int)) == dims[i] * prod(
            dims.subrange(i + 1, dims.len() as int),
        ),
    decreases dims.len() - i,
{
    let n = dims.len() as int;
    let s = dims.subrange(i, n);
    let t = dims.subrange(i + 1, n);
    if t.len() == 0 {
        assert(s.drop_last() =~= Seq::<usize>::empty());
        assert(prod(s) == prod(s.drop_last()) * s.last());
    } else {
        assert(s.drop_last() =~= dims.subrange(i, n - 1));
        assert(t.drop_last() =~= dims.subrange(i + 1, n - 1));
        lemma_prod_suffix_step_inner(dims.subrange(0, n - 1), i);
        assert(dims.subrange(0, n - 1).subrange(i, n - 1) =~= dims.subrange(i, n - 1));
        assert(dims.subrange(0, n - 1).subrange(i + 1, n - 1) =~= dims.subrange(i + 1, n - 1));
        assert(prod(s) == prod(s.drop_last()) * s.last());
        assert(prod(t) == prod(t.drop_last()) * t.last());
        assert(dims[i] * (prod(t.drop_last()) * t.last()) == (dims[i] * prod(t.drop_last()))
            * t.last()) by (nonlinear_arith);
    }
}

pub proof fn lemma_prod_suffix_bound(dims: Seq<usize>, i: int)
    requires
        0 <= i <= dims.len(),
        forall|k: int| 0 <= k < dims.len() ==> dims[k] >= 1,
        prod(dims) <= u32::MAX,
    ensures
        1 <= prod(dims.subrange(i, dims.len() as int)) <= u32::MAX,
    decreases i,
{
    let n = dims.len() as int;
    let s = dims.subrange(i, n);
    assert(forall|k: int| 0 <= k < s.len() ==> s[k] >= 1);
    lemma_prod_pos(s);
    if i == 0 {
        assert(s =~= dims);
    } else {
        lemma_prod_suffix_bound(dims, i - 1);
        lemma_prod_suffix_step(dims, i - 1);
        let t = dims.subrange(i - 1, n);
        assert(prod(t) == dims[i - 1] * prod(s));
        assert(dims[i - 1] * prod(s) >= 1 * prod(s)) by (nonlinear_arith)
            requires
                dims[i - 1] >= 1,
                prod(s) >= 1,
        ;
    }
}

} // verus!
