use vstd::prelude::*;

use crate::op::{KernelKey, KernelKeyV, PoolError};

verus! {

/// Shape of a storage bind group layout: how many read-only and read-write
/// buffers it binds, or the shared dynamic-offset uniform layout.
#[derive(Debug, Copy, Clone, PartialEq, Eq, Structural)]
pub struct BindGroupLayoutDescriptor {
    pub num_read_only: usize,
    pub num_read_write: usize,
    pub uniform: bool,
}

impl BindGroupLayoutDescriptor {
    /// One input, one output.
    pub fn unary() -> (r: Self)
        ensures
            r == (BindGroupLayoutDescriptor { num_read_only: 1usize, num_read_write: 1usize, uniform: false }),
    {
        BindGroupLayoutDescriptor { num_read_only: 1, num_read_write: 1, uniform: false }
    }

    /// One input read in place, no separate output.
    pub fn unary_inplace() -> (r: Self)
        ensures
            r == (BindGroupLayoutDescriptor { num_read_only: 0usize, num_read_write: 1usize, uniform: false }),
    {
        BindGroupLayoutDescriptor { num_read_only: 0, num_read_write: 1, uniform: false }
    }

    pub fn binary() -> (r: Self)
        ensures
            r == (BindGroupLayoutDescriptor { num_read_only: 2usize, num_read_write: 1usize, uniform: false }),
    {
        BindGroupLayoutDescriptor { num_read_only: 2, num_read_write: 1, uniform: false }
    }

    pub fn ternary() -> (r: Self)
        ensures
            r == (BindGroupLayoutDescriptor { num_read_only: 3usize, num_read_write: 1usize, uniform: false }),
    {
        BindGroupLayoutDescriptor { num_read_only: 3, num_read_write: 1, uniform: false }
    }

    /// `n` inputs, one output.
    pub fn nthary(n: usize) -> (r: Self)
        ensures
            r == (BindGroupLayoutDescriptor { num_read_only: n, num_read_write: 1usize, uniform: false }),
    {
        BindGroupLayoutDescriptor { num_read_only: n, num_read_write: 1, uniform: false }
    }

    /// The shared metadata uniform group.
    pub fn uniform() -> (r: Self)
        ensures
            r == (BindGroupLayoutDescriptor { num_read_only: 0usize, num_read_write: 0usize, uniform: true }),
    {
        BindGroupLayoutDescriptor { num_read_only: 0, num_read_write: 0, uniform: true }
    }
}

/// The bind group layouts a pipeline binds, in group order, as pool
/// handles.
#[derive(Debug)]
pub struct PipelineLayoutDescriptor {
    pub entries: Vec<usize>,
}

impl View for PipelineLayoutDescriptor {
    type V = Seq<usize>;

    open spec fn view(&self) -> Seq<usize> {
        self.entries@
    }
}

/// A compiled shader module in the pool: its cache key and the parsed
/// device module.
#[derive(Debug)]
pub struct KernelModuleEntry {
    pub key: KernelKey,
    pub module: naga::Module,
}

/// What a compute pipeline is built from.
#[derive(Debug)]
pub struct ComputePipelineDescriptor {
    pub pipeline_layout: usize,
    pub kernel_key: KernelKey,
    pub kernel_module: usize,
}

/// Mathematical image of a `ComputePipelineDescriptor`.
pub struct ComputePipelineDescriptorV {
    pub pipeline_layout: int,
    pub kernel_key: KernelKeyV,
    pub kernel_module: int,
}

impl View for ComputePipelineDescriptor {
    type V = ComputePipelineDescriptorV;

    open spec fn view(&self) -> ComputePipelineDescriptorV {
        ComputePipelineDescriptorV {
            pipeline_layout: self.pipeline_layout as int,
            kernel_key: self.kernel_key@,
            kernel_module: self.kernel_module as int,
        }
    }
}

/// First index of `d` among the layouts, if any.
pub open spec fn bgl_index_of(s: Seq<BindGroupLayoutDescriptor>, d: BindGroupLayoutDescriptor) -> (
    r: Option<int>
)
    decreases s.len(),
{
    if s.len() == 0 {
        None
    } else if s[0] == d {
        Some(0int)
    } else {
        match bgl_index_of(s.drop_first(), d) {
            Some(i) => Some(i + 1),
            None => None,
        }
    }
}

/// First index of view `v` among the pipeline layouts, if any.
pub open spec fn pl_index_of(s: Seq<Seq<usize>>, v: Seq<usize>) -> Option<int>
    decreases s.len(),
{
    if s.len() == 0 {
        None
    } else if s[0] == v {
        Some(0int)
    } else {
        match pl_index_of(s.drop_first(), v) {
            Some(i) => Some(i + 1),
            None => None,
        }
    }
}

/// First index of key view `k` among the module entries, if any.
pub open spec fn module_index_of(s: Seq<KernelKeyV>, k: KernelKeyV) -> Option<int>
    decreases s.len(),
{
    if s.len() == 0 {
        None
    } else if s[0] == k {
        Some(0int)
    } else {
        match module_index_of(s.drop_first(), k) {
            Some(i) => Some(i + 1),
            None => None,
        }
    }
}

/// First index of pipeline descriptor view `v`, if any.
pub open spec fn pipeline_index_of(
    s: Seq<ComputePipelineDescriptorV>,
    v: ComputePipelineDescriptorV,
) -> Option<int>
    decreases s.len(),
{
    if s.len() == 0 {
        None
    } else if s[0] == v {
        Some(0int)
    } else {
        match pipeline_index_of(s.drop_first(), v) {
            Some(i) => Some(i + 1),
            None => None,
        }
    }
}

/// The per-device caches of immutable GPU objects, each keyed by its
/// descriptor: creation is at most once per distinct descriptor, and every
/// handle is an index into its pool.
#[derive(Debug)]
pub struct ResourcePools {
    pub bind_group_layouts: Vec<BindGroupLayoutDescriptor>,
    pub pipeline_layouts: Vec<PipelineLayoutDescriptor>,
    pub modules: Vec<KernelModuleEntry>,
    pub pipelines: Vec<ComputePipelineDescriptor>,
}

impl ResourcePools {
    pub open spec fn module_keys(&self) -> Seq<KernelKeyV> {
        self.modules@.map_values(|e: KernelModuleEntry| e.key@)
    }

    pub open spec fn pipeline_views(&self) -> Seq<ComputePipelineDescriptorV> {
        self.pipelines@.map_values(|p: ComputePipelineDescriptor| p@)
    }

    pub open spec fn pl_views(&self) -> Seq<Seq<usize>> {
        self.pipeline_layouts@.map_values(|p: PipelineLayoutDescriptor| p@)
    }

    pub fn new() -> (r: Self)
        ensures
            r.bind_group_layouts@.len() == 0,
            r.pl_views().len() == 0,
            r.module_keys().len() == 0,
            r.pipeline_views().len() == 0,
    {
        ResourcePools {
            bind_group_layouts: Vec::new(),
            pipeline_layouts: Vec::new(),
            modules: Vec::new(),
            pipelines: Vec::new(),
        }
    }

    /// Looks the layout up; creates the device object only on a miss.
    pub fn get_or_create_bind_group_layout(&mut self, d: &BindGroupLayoutDescriptor) -> (r: usize)
        ensures
            match bgl_index_of(old(self).bind_group_layouts@, *d) {
                Some(i) => r == i && final(self).bind_group_layouts@
                    == old(self).bind_group_layouts@,
                None => r == old(self).bind_group_layouts@.len()
                    && final(self).bind_group_layouts@
                    == old(self).bind_group_layouts@.push(*d),
            },
            final(self).bind_group_layouts@[r as int] == *d,
            r < final(self).bind_group_layouts@.len(),
            final(self).pl_views() == old(self).pl_views(),
            final(self).module_keys() == old(self).module_keys(),
            final(self).pipeline_views() == old(self).pipeline_views(),
    {
        let n: usize = self.bind_group_layouts.len();
        let mut i: usize = 0;
        while i < n
            invariant
                i <= n,
                n == self.bind_group_layouts@.len(),
                forall|k: int| 0 <= k < i ==> self.bind_group_layouts@[k] != *d,
            decreases n - i,
        {
            let e: BindGroupLayoutDescriptor = self.bind_group_layouts[i];
            if e.num_read_only == d.num_read_only && e.num_read_write == d.num_read_write
                && e.uniform == d.uniform {
                proof {
                    lemma_bgl_index_first(self.bind_group_layouts@, *d, i as int);
                }
                return i;
            }
            i = i + 1;
        }
        proof {
            lemma_bgl_index_none(self.bind_group_layouts@, *d);
        }
        self.bind_group_layouts.push(*d);
        n
    }
}

/// If every entry below `i` differs from `d` and entry `i` equals `d`, the
/// first index of `d` is `i`.
proof fn lemma_bgl_index_first(s: Seq<BindGroupLayoutDescriptor>, d: BindGroupLayoutDescriptor, i: int)
    requires
        0 <= i < s.len(),
        s[i] == d,
        forall|k: int| 0 <= k < i ==> s[k] != d,
    ensures
        bgl_index_of(s, d) == Some(i),
    decreases i,
{
    if i == 0 {
    } else {
        lemma_bgl_index_first(s.drop_first(), d, i - 1);
    }
}

/// If no entry equals `d`, there is no index of `d`.
proof fn lemma_bgl_index_none(s: Seq<BindGroupLayoutDescriptor>, d: BindGroupLayoutDescriptor)
    requires
        forall|k: int| 0 <= k < s.len() ==> s[k] != d,
    ensures
        bgl_index_of(s, d) is None,
    decreases s.len(),
{
    if s.len() > 0 {
        lemma_bgl_index_none(s.drop_first(), d);
    }
}


impl ResourcePools {
    /// Looks the pipeline layout up by its entries; creates on a miss.
    pub fn get_or_create_pipeline_layout(&mut self, d: PipelineLayoutDescriptor) -> (r: usize)
        ensures
            r < final(self).pl_views().len(),
            final(self).pl_views()[r as int] == d@,
            match pl_index_of(old(self).pl_views(), d@) {
                Some(i) => r == i && final(self).pl_views() == old(self).pl_views(),
                None => r == old(self).pl_views().len() && final(self).pl_views() == old(
                    self,
                ).pl_views().push(d@),
            },
            final(self).bind_group_layouts@ == old(self).bind_group_layouts@,
            final(self).module_keys() == old(self).module_keys(),
            final(self).pipeline_views() == old(self).pipeline_views(),
    {
        let n: usize = self.pipeline_layouts.len();
        let mut i: usize = 0;
        while i < n
            invariant
                i <= n,
                n == self.pl_views().len(),
                forall|k: int| 0 <= k < i ==> self.pl_views()[k] != d@,
            decreases n - i,
        {
            proof {
                assert(self.pl_views()[i as int] == self.pipeline_layouts@[i as int]@);
            }
            if usize_vec_eq(&self.pipeline_layouts[i].entries, &d.entries) {
                proof {
                    lemma_pl_index_first(self.pl_views(), d@, i as int);
                }
                return i;
            }
            i = i + 1;
        }
        proof {
            lemma_pl_index_none(self.pl_views(), d@);
        }
        self.pipeline_layouts.push(d);
        proof {
            assert(self.pl_views() =~= old(self).pl_views().push(
                self.pipeline_layouts@.last()@,
            ));
        }
        n
    }

    /// Looks a compiled module up by its kernel key; stores the given
    /// module only on a miss, so each distinct key is compiled once.
    pub fn get_or_create_compute_module(&mut self, key: KernelKey, module: naga::Module) -> (r:
        usize)
        ensures
            r < final(self).module_keys().len(),
            final(self).module_keys()[r as int] == key@,
            match module_index_of(old(self).module_keys(), key@) {
                Some(i) => r == i && final(self).module_keys() == old(self).module_keys(),
                None => r == old(self).module_keys().len() && final(self).module_keys() == old(
                    self,
                ).module_keys().push(key@),
            },
            final(self).bind_group_layouts@ == old(self).bind_group_layouts@,
            final(self).pl_views() == old(self).pl_views(),
            final(self).pipeline_views() == old(self).pipeline_views(),
    {
        let n: usize = self.modules.len();
        let mut i: usize = 0;
        while i < n
            invariant
                i <= n,
                n == self.module_keys().len(),
                n == self.modules@.len(),
                forall|k: int| 0 <= k < i ==> self.module_keys()[k] != key@,
            decreases n - i,
        {
            proof {
                assert(self.module_keys()[i as int] == self.modules@[i as int].key@);
            }
            if self.modules[i].key.key_eq(&key) {
                proof {
                    lemma_module_index_first(self.module_keys(), key@, i as int);
                }
                return i;
            }
            i = i + 1;
        }
        proof {
            lemma_module_index_none(self.module_keys(), key@);
        }
        self.modules.push(KernelModuleEntry { key, module });
        proof {
            assert(self.module_keys() =~= old(self).module_keys().push(
                self.modules@.last().key@,
            ));
        }
        n
    }

    /// Looks the compute pipeline up by its descriptor; creates on a miss.
    pub fn get_or_create_compute_pipeline(&mut self, d: ComputePipelineDescriptor) -> (r: usize)
        ensures
            r < final(self).pipeline_views().len(),
            final(self).pipeline_views()[r as int] == d@,
            match pipeline_index_of(old(self).pipeline_views(), d@) {
                Some(i) => r == i && final(self).pipeline_views() == old(self).pipeline_views(),
                None => r == old(self).pipeline_views().len() && final(self).pipeline_views()
                    == old(self).pipeline_views().push(d@),
            },
            final(self).bind_group_layouts@ == old(self).bind_group_layouts@,
            final(self).pl_views() == old(self).pl_views(),
            final(self).module_keys() == old(self).module_keys(),
    {
        let n: usize = self.pipelines.len();
        let mut i: usize = 0;
        while i < n
            invariant
                i <= n,
                n == self.pipeline_views().len(),
                n == self.pipelines@.len(),
                forall|k: int| 0 <= k < i ==> self.pipeline_views()[k] != d@,
            decreases n - i,
        {
            proof {
                assert(self.pipeline_views()[i as int] == self.pipelines@[i as int]@);
            }
            let e = &self.pipelines[i];
            if e.pipeline_layout == d.pipeline_layout && e.kernel_module == d.kernel_module
                && e.kernel_key.key_eq(&d.kernel_key) {
                proof {
                    lemma_pipeline_index_first(self.pipeline_views(), d@, i as int);
                }
                return i;
            }
            i = i + 1;
        }
        proof {
            lemma_pipeline_index_none(self.pipeline_views(), d@);
        }
        self.pipelines.push(d);
        proof {
            assert(self.pipeline_views() =~= old(self).pipeline_views().push(
                self.pipelines@.last()@,
            ));
        }
        n
    }
}

/// Whether two handle lists are equal.
fn usize_vec_eq(a: &Vec<usize>, b: &Vec<usize>) -> (r: bool)
    ensures
        r == (a@ == b@),
{
    if a.len() != b.len() {
        proof {
            assert(a@.len() != b@.len());
        }
        return false;
    }
    let n: usize = a.len();
    let mut i: usize = 0;
    while i < n
        invariant
            i <= n,
            n == a@.len(),
            n == b@.len(),
            forall|k: int| 0 <= k < i ==> a@[k] == b@[k],
        decreases n - i,
    {
        if a[i] != b[i] {
            proof {
                assert(a@[i as int] != b@[i as int]);
            }
            return false;
        }
        i = i + 1;
    }
    proof {
        assert(a@ =~= b@);
    }
    true
}


/// If every view below `i` differs from `v` and view `i` equals `v`, the
/// first index of `v` is `i`.
proof fn lemma_pl_index_first(s: Seq<Seq<usize>>, v: Seq<usize>, i: int)
    requires
        0 <= i < s.len(),
        s[i] == v,
        forall|k: int| 0 <= k < i ==> s[k] != v,
    ensures
        pl_index_of(s, v) == Some(i),
    decreases i,
{
    if i > 0 {
        lemma_pl_index_first(s.drop_first(), v, i - 1);
    }
}

proof fn lemma_pl_index_none(s: Seq<Seq<usize>>, v: Seq<usize>)
    requires
        forall|k: int| 0 <= k < s.len() ==> s[k] != v,
    ensures
        pl_index_of(s, v) is None,
    decreases s.len(),
{
    if s.len() > 0 {
        lemma_pl_index_none(s.drop_first(), v);
    }
}

proof fn lemma_module_index_first(s: Seq<KernelKeyV>, k: KernelKeyV, i: int)
    requires
        0 <= i < s.len(),
        s[i] == k,
        forall|j: int| 0 <= j < i ==> s[j] != k,
    ensures
        module_index_of(s, k) == Some(i),
    decreases i,
{
    if i > 0 {
        lemma_module_index_first(s.drop_first(), k, i - 1);
    }
}

proof fn lemma_module_index_none(s: Seq<KernelKeyV>, k: KernelKeyV)
    requires
        forall|j: int| 0 <= j < s.len() ==> s[j] != k,
    ensures
        module_index_of(s, k) is None,
    decreases s.len(),
{
    if s.len() > 0 {
        lemma_module_index_none(s.drop_first(), k);
    }
}

proof fn lemma_pipeline_index_first(s: Seq<ComputePipelineDescriptorV>, v: ComputePipelineDescriptorV, i: int)
    requires
        0 <= i < s.len(),
        s[i] == v,
        forall|k: int| 0 <= k < i ==> s[k] != v,
    ensures
        pipeline_index_of(s, v) == Some(i),
    decreases i,
{
    if i > 0 {
        lemma_pipeline_index_first(s.drop_first(), v, i - 1);
    }
}

proof fn lemma_pipeline_index_none(s: Seq<ComputePipelineDescriptorV>, v: ComputePipelineDescriptorV)
    requires
        forall|k: int| 0 <= k < s.len() ==> s[k] != v,
    ensures
        pipeline_index_of(s, v) is None,
    decreases s.len(),
{
    if s.len() > 0 {
        lemma_pipeline_index_none(s.drop_first(), v);
    }
}


/// A found first index survives appending.
pub proof fn lemma_bgl_index_push_preserve(
    s: Seq<BindGroupLayoutDescriptor>,
    d: BindGroupLayoutDescriptor,
    x: BindGroupLayoutDescriptor,
)
    requires
        bgl_index_of(s, d) is Some,
    ensures
        bgl_index_of(s.push(x), d) == bgl_index_of(s, d),
    decreases s.len(),
{
    assert(s.len() > 0);
    if s[0] == d {
        assert(s.push(x)[0] == d);
    } else {
        assert(s.push(x)[0] == s[0]);
        assert(s.push(x).drop_first() =~= s.drop_first().push(x));
        lemma_bgl_index_push_preserve(s.drop_first(), d, x);
    }
}

/// An absent descriptor is found right where it is appended.
pub proof fn lemma_bgl_index_push_new(s: Seq<BindGroupLayoutDescriptor>, d: BindGroupLayoutDescriptor)
    requires
        bgl_index_of(s, d) is None,
    ensures
        bgl_index_of(s.push(d), d) == Some(s.len() as int),
    decreases s.len(),
{
    if s.len() == 0 {
        assert(s.push(d)[0] == d);
    } else {
        assert(s[0] != d);
        assert(s.push(d)[0] == s[0]);
        assert(s.push(d).drop_first() =~= s.drop_first().push(d));
        lemma_bgl_index_push_new(s.drop_first(), d);
    }
}

pub proof fn lemma_pl_index_push_preserve(s: Seq<Seq<usize>>, v: Seq<usize>, x: Seq<usize>)
    requires
        pl_index_of(s, v) is Some,
    ensures
        pl_index_of(s.push(x), v) == pl_index_of(s, v),
    decreases s.len(),
{
    assert(s.len() > 0);
    if s[0] == v {
        assert(s.push(x)[0] == v);
    } else {
        assert(s.push(x)[0] == s[0]);
        assert(s.push(x).drop_first() =~= s.drop_first().push(x));
        lemma_pl_index_push_preserve(s.drop_first(), v, x);
    }
}

pub proof fn lemma_pl_index_push_new(s: Seq<Seq<usize>>, v: Seq<usize>)
    requires
        pl_index_of(s, v) is None,
    ensures
        pl_index_of(s.push(v), v) == Some(s.len() as int),
    decreases s.len(),
{
    if s.len() == 0 {
        assert(s.push(v)[0] == v);
    } else {
        assert(s[0] != v);
        assert(s.push(v)[0] == s[0]);
        assert(s.push(v).drop_first() =~= s.drop_first().push(v));
        lemma_pl_index_push_new(s.drop_first(), v);
    }
}

pub proof fn lemma_module_index_push_preserve(s: Seq<KernelKeyV>, k: KernelKeyV, x: KernelKeyV)
    requires
        module_index_of(s, k) is Some,
    ensures
        module_index_of(s.push(x), k) == module_index_of(s, k),
    decreases s.len(),
{
    assert(s.len() > 0);
    if s[0] == k {
        assert(s.push(x)[0] == k);
    } else {
        assert(s.push(x)[0] == s[0]);
        assert(s.push(x).drop_first() =~= s.drop_first().push(x));
        lemma_module_index_push_preserve(s.drop_first(), k, x);
    }
}

pub proof fn lemma_module_index_push_new(s: Seq<KernelKeyV>, k: KernelKeyV)
    requires
        module_index_of(s, k) is None,
    ensures
        module_index_of(s.push(k), k) == Some(s.len() as int),
    decreases s.len(),
{
    if s.len() == 0 {
        assert(s.push(k)[0] == k);
    } else {
        assert(s[0] != k);
        assert(s.push(k)[0] == s[0]);
        assert(s.push(k).drop_first() =~= s.drop_first().push(k));
        lemma_module_index_push_new(s.drop_first(), k);
    }
}

pub proof fn lemma_pipeline_index_push_preserve(
    s: Seq<ComputePipelineDescriptorV>,
    v: ComputePipelineDescriptorV,
    x: ComputePipelineDescriptorV,
)
    requires
        pipeline_index_of(s, v) is Some,
    ensures
        pipeline_index_of(s.push(x), v) == pipeline_index_of(s, v),
    decreases s.len(),
{
    assert(s.len() > 0);
    if s[0] == v {
        assert(s.push(x)[0] == v);
    } else {
        assert(s.push(x)[0] == s[0]);
        assert(s.push(x).drop_first() =~= s.drop_first().push(x));
        lemma_pipeline_index_push_preserve(s.drop_first(), v, x);
    }
}

pub proof fn lemma_pipeline_index_push_new(
    s: Seq<ComputePipelineDescriptorV>,
    v: ComputePipelineDescriptorV,
)
    requires
        pipeline_index_of(s, v) is None,
    ensures
        pipeline_index_of(s.push(v), v) == Some(s.len() as int),
    decreases s.len(),
{
    if s.len() == 0 {
        assert(s.push(v)[0] == v);
    } else {
        assert(s[0] != v);
        assert(s.push(v)[0] == s[0]);
        assert(s.push(v).drop_first() =~= s.drop_first().push(v));
        lemma_pipeline_index_push_new(s.drop_first(), v);
    }
}

} // verus!
