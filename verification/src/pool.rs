use vstd::prelude::*;

verus! {

pub const USAGE_MAP_READ: u32 = 1;

pub const USAGE_MAP_WRITE: u32 = 2;

pub const USAGE_COPY_SRC: u32 = 4;

pub const USAGE_COPY_DST: u32 = 8;

pub const USAGE_UNIFORM: u32 = 64;

pub const USAGE_STORAGE: u32 = 128;

/// Usage of every ordinary storage buffer the planner allocates.
pub const USAGE_STANDARD: u32 = USAGE_STORAGE | USAGE_COPY_SRC | USAGE_COPY_DST;

/// What a device buffer is created from; two equal descriptors are
/// interchangeable.
#[derive(Debug, Copy, Clone, PartialEq, Eq, Hash, Structural)]
pub struct BufferDescriptor {
    pub size: u64,
    pub usage: u32,
    pub mapped_at_creation: bool,
}

impl BufferDescriptor {
    pub fn new(size: u64, usage: u32, mapped_at_creation: bool) -> (r: Self)
        ensures
            r == (BufferDescriptor { size, usage, mapped_at_creation }),
    {
        BufferDescriptor { size, usage, mapped_at_creation }
    }
}

/// A pooled device allocation: the handle names the device object, the
/// descriptor records what it was created from.
#[derive(Debug, Copy, Clone, PartialEq, Eq, Hash, Structural)]
pub struct PooledGPUBuffer {
    pub handle: u64,
    pub descriptor: BufferDescriptor,
}

/// Handle by which a pooled buffer is retrieved.
pub type GpuBufferHandle = u64;

/// Earlier pool entries survive an operation: the pool only appends, so
/// buffers already created stay available for later graphs.
pub open spec fn pool_extends(
    old_entries: Seq<PooledGPUBuffer>,
    new_entries: Seq<PooledGPUBuffer>,
) -> bool {
    &&& old_entries.len() <= new_entries.len()
    &&& new_entries.subrange(0, old_entries.len() as int) == old_entries
}

pub proof fn lemma_pool_extends_trans(
    a: Seq<PooledGPUBuffer>,
    b: Seq<PooledGPUBuffer>,
    c: Seq<PooledGPUBuffer>,
)
    requires
        pool_extends(a, b),
        pool_extends(b, c),
    ensures
        pool_extends(a, c),
{
    assert forall|i: int| 0 <= i < a.len() implies c.subrange(0, a.len() as int)[i] == a[i] by {
        assert(c.subrange(0, b.len() as int)[i] == c[i]);
        assert(b.subrange(0, a.len() as int)[i] == b[i]);
    }
    assert(c.subrange(0, a.len() as int) =~= a);
}

pub proof fn lemma_pool_extends_push(s: Seq<PooledGPUBuffer>, x: PooledGPUBuffer)
    ensures
        pool_extends(s, s.push(x)),
{
    assert(s.push(x).subrange(0, s.len() as int) =~= s);
}

/// The process-wide pool of device buffers. Buffer `i` of the pool has
/// handle `i`, so handles below `len` are exactly the live ones.
#[derive(Debug)]
pub struct BufferPool {
    pub entries: Vec<PooledGPUBuffer>,
    pub pass_index: u64,
}

impl BufferPool {
    pub open spec fn wf(self) -> bool {
        forall|i: int| 0 <= i < self.entries@.len() ==> (#[trigger] self.entries@[i]).handle == i
    }

    pub fn new() -> (r: Self)
        ensures
            r.wf(),
            r.entries@.len() == 0,
    {
        BufferPool { entries: Vec::new(), pass_index: 0 }
    }

    pub fn begin_pass(&mut self, pass_index: u64)
        requires
            old(self).wf(),
        ensures
            final(self).wf(),
            final(self).entries@ == old(self).entries@,
            final(self).pass_index == pass_index,
    {
        self.pass_index = pass_index;
    }

    /// Creates a fresh device buffer for `desc`; its handle is new to the
    /// pool.
    pub fn get_or_create(&mut self, desc: &BufferDescriptor) -> (r: PooledGPUBuffer)
        requires
            old(self).wf(),
            old(self).entries@.len() < u64::MAX,
        ensures
            final(self).wf(),
            r.handle == old(self).entries@.len(),
            r.descriptor == *desc,
            final(self).entries@ == old(self).entries@.push(r),
            final(self).pass_index == old(self).pass_index,
    {
        let handle: u64 = self.entries.len() as u64;
        let buf = PooledGPUBuffer { handle, descriptor: *desc };
        self.entries.push(buf);
        buf
    }

    pub fn get(&self, handle: GpuBufferHandle) -> (r: PooledGPUBuffer)
        requires
            self.wf(),
            handle < self.entries@.len(),
        ensures
            r == self.entries@[handle as int],
            r.handle == handle,
    {
        assert(self.entries@[handle as int].handle == handle as int);
        let n: usize = self.entries.len();
        assert(handle < n as u64);
        self.entries[handle as usize]
    }

    pub fn num_resources(&self) -> (r: usize)
        ensures
            r == self.entries@.len(),
    {
        self.entries.len()
    }

    /// Bytes of device memory the pool holds in total, saturating within
    /// the machine word.
    pub fn total_gpu_size_in_bytes(&self) -> (r: u64)
        ensures
            r == saturating_size_total(self.entries@, self.entries@.len() as int),
    {
        let mut total: u64 = 0;
        let mut i: usize = 0;
        let n: usize = self.entries.len();
        while i < n
            invariant
                i <= n,
                n == self.entries@.len(),
                total == saturating_size_total(self.entries@, i as int),
            decreases n - i,
        {
            let sz: u64 = self.entries[i].descriptor.size;
            if total <= u64::MAX - sz {
                total = total + sz;
            }
            i = i + 1;
        }
        total
    }
}


/// The sizes of the first `k` pooled buffers summed, skipping any
/// addition that would overflow the machine word.
pub open spec fn saturating_size_total(entries: Seq<PooledGPUBuffer>, k: int) -> int
    decreases k,
{
    if k <= 0 {
        0
    } else {
        let t = saturating_size_total(entries, k - 1);
        if t + entries[k - 1].descriptor.size <= u64::MAX {
            t + entries[k - 1].descriptor.size
        } else {
            t
        }
    }
}

} // verus!
