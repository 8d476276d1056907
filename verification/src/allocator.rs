use vstd::prelude::*;

use crate::op::LazyOp;
use crate::pool::{lemma_pool_extends_push, lemma_pool_extends_trans, pool_extends,
    BufferDescriptor, BufferPool, PooledGPUBuffer, USAGE_STANDARD};
use crate::tensor::{Storage, Tensor, TensorV};

verus! {

/// Failure of a graph allocation pass.
#[derive(Debug, Copy, Clone, PartialEq, Eq, Structural)]
pub enum AllocatorError {
    /// A resolved tensor's bytes are not resident on the device, so no
    /// buffer can be bound for it.
    BufferNotFound,
}

/// One vertex of the execution order: a tensor and the operation that
/// produces it.
#[derive(Debug)]
pub struct TensorNode {
    pub tensor: Tensor,
    pub op: LazyOp,
}

impl TensorNode {
    pub fn new(tensor: Tensor, op: LazyOp) -> (r: TensorNode)
        ensures
            r.tensor@ == tensor@,
            r.op == op,
    {
        TensorNode { tensor, op }
    }
}

/// A buffer assigned to graph tensors during one allocation pass.
#[derive(Debug, Copy, Clone, PartialEq, Eq, Structural)]
pub struct GraphBuffer(pub PooledGPUBuffer);

impl GraphBuffer {
    pub fn inner(&self) -> (r: &PooledGPUBuffer)
        ensures
            r == self.0,
    {
        &self.0
    }

    pub fn from_pooled(buf: PooledGPUBuffer) -> (r: GraphBuffer)
        ensures
            r.0 == buf,
    {
        GraphBuffer(buf)
    }
}

/// First position of the tensor with identity `id`, or `-1`.
pub open spec fn find_id_from(order: Seq<TensorNode>, id: u64, i: int) -> int
    decreases order.len() - i,
{
    if i < 0 || i >= order.len() {
        -1
    } else if order[i].tensor@.id == id {
        i
    } else {
        find_id_from(order, id, i + 1)
    }
}

pub open spec fn find_id(order: Seq<TensorNode>, id: u64) -> int {
    find_id_from(order, id, 0)
}

pub proof fn lemma_find_id_from(order: Seq<TensorNode>, id: u64, i: int)
    requires
        0 <= i <= order.len(),
    ensures
        find_id_from(order, id, i) == -1 ==> forall|j: int|
            i <= j < order.len() ==> order[j].tensor@.id != id,
        find_id_from(order, id, i) != -1 ==> i <= find_id_from(order, id, i) < order.len()
            && order[find_id_from(order, id, i)].tensor@.id == id && (forall|j: int|
            i <= j < find_id_from(order, id, i) ==> order[j].tensor@.id != id),
    decreases order.len() - i,
{
    if i < order.len() && order[i].tensor@.id != id {
        lemma_find_id_from(order, id, i + 1);
    }
}

/// How many operations of the order read the tensor with identity `id`.
pub open spec fn count_id(srcs: Seq<TensorV>, id: u64) -> int
    decreases srcs.len(),
{
    if srcs.len() == 0 {
        0
    } else {
        count_id(srcs.drop_last(), id) + if srcs.last().id == id {
            1int
        } else {
            0int
        }
    }
}

pub open spec fn consumer_count_upto(order: Seq<TensorNode>, id: u64, k: int) -> int
    decreases k,
{
    if k <= 0 {
        0
    } else {
        consumer_count_upto(order, id, k - 1) + count_id(order[k - 1].op.srcs_spec(), id)
    }
}

pub open spec fn consumer_count(order: Seq<TensorNode>, id: u64) -> int {
    consumer_count_upto(order, id, order.len() as int)
}

pub proof fn lemma_count_id_bound(srcs: Seq<TensorV>, id: u64)
    ensures
        0 <= count_id(srcs, id) <= srcs.len(),
    decreases srcs.len(),
{
    if srcs.len() > 0 {
        lemma_count_id_bound(srcs.drop_last(), id);
    }
}

pub proof fn lemma_consumer_count_bound(order: Seq<TensorNode>, id: u64, k: int)
    requires
        0 <= k <= order.len(),
        forall|i: int| 0 <= i < order.len() ==> (#[trigger] order[i].op.srcs_spec()).len() <= 8,
    ensures
        0 <= consumer_count_upto(order, id, k) <= 8 * k,
    decreases k,
{
    if k > 0 {
        lemma_consumer_count_bound(order, id, k - 1);
        lemma_count_id_bound(order[k - 1].op.srcs_spec(), id);
    }
}

/// A well-formed execution order: topologically sorted, each source the
/// tensor of an earlier node, identities unique, shapes well formed, and
/// every op of bounded arity.
pub open spec fn wf_order(order: Seq<TensorNode>) -> bool {
    &&& 1 <= order.len() <= u32::MAX
    &&& forall|i: int, j: int|
        0 <= i < j < order.len() ==> order[i].tensor@.id != order[j].tensor@.id
    &&& forall|i: int, k: int|
        0 <= i < order.len() && 0 <= k < order[i].op.srcs_spec().len() ==> exists|j: int|
            0 <= j < i && (#[trigger] order[j].tensor@) == (#[trigger] order[i].op.srcs_spec()[k])
    &&& forall|i: int| 0 <= i < order.len() ==> (#[trigger] order[i].op.srcs_spec()).len() <= 8
    &&& forall|i: int| 0 <= i < order.len() ==> (#[trigger] order[i].tensor).wf()
}

/// The index a source's identity resolves to lies strictly below its
/// consumer.
pub proof fn lemma_src_index(order: Seq<TensorNode>, i: int, k: int)
    requires
        wf_order(order),
        0 <= i < order.len(),
        0 <= k < order[i].op.srcs_spec().len(),
    ensures
        0 <= find_id(order, order[i].op.srcs_spec()[k].id) < i,
        order[find_id(order, order[i].op.srcs_spec()[k].id)].tensor@
            == order[i].op.srcs_spec()[k],
{
    let s = order[i].op.srcs_spec()[k];
    let j = choose|j: int| 0 <= j < i && (#[trigger] order[j].tensor@) == s;
    lemma_find_id_from(order, s.id, 0);
    let f = find_id(order, s.id);
    if f == -1 {
        assert(order[j].tensor@.id != s.id);
        assert(false);
    }
    if f != j {
        assert(order[f].tensor@.id == order[j].tensor@.id);
        if f < j {
            assert(order[f].tensor@.id != order[j].tensor@.id);
        } else {
            assert(order[j].tensor@.id != order[f].tensor@.id);
        }
        assert(false);
    }
}

/// The node whose buffer an in-place chain starting at node `i` finally
/// reads and writes: the walk steps to the declared aliasable source while
/// the producing op supports in-place execution, the source is virtual and
/// it has exactly one consumer.
pub open spec fn true_source(order: Seq<TensorNode>, i: int) -> int
    decreases i,
{
    let nd = order[i];
    if nd.tensor@.storage is Some || !nd.op.supports_inplace_spec() {
        i
    } else {
        match nd.op.inplace_source_spec() {
            None => i,
            Some(k) => if (k as int) < nd.op.srcs_spec().len() {
                let s = nd.op.srcs_spec()[k as int];
                let j = find_id(order, s.id);
                if 0 <= j < i && order[j].tensor@.storage is None && consumer_count(order, s.id)
                    == 1 {
                    true_source(order, j)
                } else {
                    i
                }
            } else {
                i
            },
        }
    }
}

pub proof fn lemma_true_source_range(order: Seq<TensorNode>, i: int)
    requires
        0 <= i < order.len(),
    ensures
        0 <= true_source(order, i) <= i,
        order[true_source(order, i)].tensor@.storage is Some ==> true_source(order, i) == i,
    decreases i,
{
    let nd = order[i];
    if !(nd.tensor@.storage is Some) && nd.op.supports_inplace_spec() {
        match nd.op.inplace_source_spec() {
            None => {
            },
            Some(k) => {
                if (k as int) < nd.op.srcs_spec().len() {
                    let s = nd.op.srcs_spec()[k as int];
                    let j = find_id(order, s.id);
                    if 0 <= j < i && order[j].tensor@.storage is None && consumer_count(
                        order,
                        s.id,
                    ) == 1 {
                        lemma_true_source_range(order, j);
                    }
                }
            },
        }
    }
}

/// An unresolved true source stays a fixed point of the walk.
pub proof fn lemma_true_source_idempotent(order: Seq<TensorNode>, i: int)
    requires
        0 <= i < order.len(),
    ensures
        true_source(order, true_source(order, i)) == true_source(order, i),
    decreases i,
{
    let nd = order[i];
    if !(nd.tensor@.storage is Some) && nd.op.supports_inplace_spec() {
        match nd.op.inplace_source_spec() {
            None => {
            },
            Some(k) => {
                if (k as int) < nd.op.srcs_spec().len() {
                    let s = nd.op.srcs_spec()[k as int];
                    let j = find_id(order, s.id);
                    if 0 <= j < i && order[j].tensor@.storage is None && consumer_count(
                        order,
                        s.id,
                    ) == 1 {
                        lemma_true_source_idempotent(order, j);
                    }
                }
            },
        }
    }
}

/// The buffers assigned to tensors by one allocation pass, keyed by
/// tensor identity; a later insertion for a key shadows an earlier one.
#[derive(Debug)]
pub struct BufferMap {
    pub entries: Vec<(u64, GraphBuffer)>,
}

/// The latest buffer inserted for `id`, if any.
pub open spec fn map_get(s: Seq<(u64, GraphBuffer)>, id: u64) -> Option<GraphBuffer>
    decreases s.len(),
{
    if s.len() == 0 {
        None
    } else if s.last().0 == id {
        Some(s.last().1)
    } else {
        map_get(s.drop_last(), id)
    }
}

impl BufferMap {
    pub open spec fn get_spec(&self, id: u64) -> Option<GraphBuffer> {
        map_get(self.entries@, id)
    }

    pub fn new() -> (r: BufferMap)
        ensures
            forall|id: u64| r.get_spec(id) is None,
    {
        BufferMap { entries: Vec::new() }
    }

    pub fn get(&self, id: u64) -> (r: Option<GraphBuffer>)
        ensures
            r == self.get_spec(id),
    {
        let n: usize = self.entries.len();
        proof {
            assert(self.entries@.subrange(0, n as int) == self.entries@);
        }
        let mut i: usize = n;
        while i > 0
            invariant
                i <= n,
                n == self.entries@.len(),
                map_get(self.entries@, id) == map_get(self.entries@.subrange(0, i as int), id),
            decreases i,
        {
            i = i - 1;
            let e: (u64, GraphBuffer) = self.entries[i];
            proof {
                assert(self.entries@.subrange(0, i + 1).last() == self.entries@[i as int]);
                assert(self.entries@.subrange(0, i + 1).drop_last() == self.entries@.subrange(
                    0,
                    i as int,
                ));
            }
            if e.0 == id {
                return Some(e.1);
            }
        }
        proof {
            assert(self.entries@.subrange(0, 0) =~= Seq::<(u64, GraphBuffer)>::empty());
        }
        None
    }

    pub fn insert(&mut self, id: u64, buf: GraphBuffer)
        ensures
            final(self).get_spec(id) == Some(buf),
            forall|k: u64| k != id ==> final(self).get_spec(k) == old(self).get_spec(k),
    {
        self.entries.push((id, buf));
        proof {
            assert(self.entries@.last() == (id, buf));
            assert(self.entries@.drop_last() == old(self).entries@);
        }
    }
}

/// Every assigned buffer's handle lies below `h`.
pub open spec fn map_handles_below(m: &BufferMap, h: int) -> bool {
    forall|id: u64| (#[trigger] m.get_spec(id)) matches Some(b) ==> b.0.handle < h
}

/// The liveness interval and byte size of one virtual tensor, derived for
/// one allocation pass.
#[derive(Debug, Copy, Clone, PartialEq, Eq, Structural)]
pub struct TensorUsageRecord {
    pub id: u64,
    pub producer: usize,
    pub last_consumer: usize,
    pub last_consumer_id: u64,
    pub size: u64,
}

/// Whether operation `i` reads a source whose in-place chain ends at node
/// `j`.
pub open spec fn consumed_from(order: Seq<TensorNode>, j: int, i: int) -> bool {
    &&& 0 <= i < order.len()
    &&& order[i].tensor@.storage is None
    &&& exists|k: int|
        0 <= k < order[i].op.srcs_spec().len() && !((#[trigger] order[i].op.srcs_spec()[k]).storage
            is Some) && 0 <= find_id(order, order[i].op.srcs_spec()[k].id) < order.len()
            && true_source(order, find_id(order, order[i].op.srcs_spec()[k].id)) == j
}

/// Whether node `j` owns a usage record: it is virtual and some operation
/// reads it (through in-place chains).
pub open spec fn is_record(order: Seq<TensorNode>, j: int) -> bool {
    &&& 0 <= j < order.len()
    &&& order[j].tensor@.storage is None
    &&& exists|i: int| consumed_from(order, j, i)
}

/// The position of the last operation that reads node `j`, or `-1`.
pub open spec fn last_consumer_upto(order: Seq<TensorNode>, j: int, k: int) -> int
    decreases k,
{
    if k <= 0 {
        -1
    } else if consumed_from(order, j, k - 1) {
        k - 1
    } else {
        last_consumer_upto(order, j, k - 1)
    }
}

pub open spec fn last_consumer(order: Seq<TensorNode>, j: int) -> int {
    last_consumer_upto(order, j, order.len() as int)
}

/// Whether the liveness spans (`p1`, `l1`) and (`p2`, `l2`) intersect.
pub open spec fn intervals_overlap(p1: int, l1: int, p2: int, l2: int) -> bool {
    (if p1 >= p2 {
        p1
    } else {
        p2
    }) <= (if l1 <= l2 {
        l1
    } else {
        l2
    })
}

/// Whether `i` reads a source whose chain ends at `j` — decided exactly.
fn consumed_from_exec(order: &Vec<TensorNode>, j: usize, i: usize) -> (r: bool)
    requires
        wf_order(order@),
        i < order@.len(),
        j < order@.len(),
    ensures
        r == consumed_from(order@, j as int, i as int),
{
    if order[i].tensor.resolved() {
        return false;
    }
    let srcs = order[i].op.srcs();
    proof {
        assert(srcs.deep_view() == order@[i as int].op.srcs_spec());
    }
    let m: usize = srcs.len();
    let mut k: usize = 0;
    while k < m
        invariant
            k <= m,
            m == srcs.deep_view().len(),
            wf_order(order@),
            i < order@.len(),
            j < order@.len(),
            !(order@[i as int].tensor@.storage is Some),
            srcs.deep_view() == order@[i as int].op.srcs_spec(),
            forall|k2: int|
                0 <= k2 < k ==> !(!((#[trigger] order@[i as int].op.srcs_spec()[k2]).storage
                    is Some) && 0 <= find_id(order@, order@[i as int].op.srcs_spec()[k2].id)
                    < order@.len() && true_source(
                    order@,
                    find_id(order@, order@[i as int].op.srcs_spec()[k2].id),
                ) == j),
        decreases m - k,
    {
        proof {
            assert(srcs.deep_view()[k as int] == srcs@[k as int].deep_view());
        }
        if !srcs[k].resolved() {
            let sid: u64 = srcs[k].id;
            proof {
                lemma_src_index(order@, i as int, k as int);
            }
            match find_node(order, sid) {
                Some(f) => {
                    let ts: usize = determine_tensor_source(order, f);
                    if ts == j {
                        proof {
                            let sv = order@[i as int].op.srcs_spec()[k as int];
                            assert(!(sv.storage is Some));
                            assert(0 <= find_id(order@, sv.id) < order@.len());
                            assert(true_source(order@, find_id(order@, sv.id)) == j);
                            assert(consumed_from(order@, j as int, i as int));
                        }
                        return true;
                    }
                },
                None => {
                    proof {
                        assert(false);
                    }
                },
            }
        }
        k = k + 1;
    }
    false
}

/// Derives the usage records of one pass: for every virtual tensor that
/// some operation reads, its producer position, last-consumer position and
/// byte size, in producer order.
pub fn calculate_usage_records(order: &Vec<TensorNode>) -> (r: Vec<TensorUsageRecord>)
    requires
        wf_order(order@),
    ensures
        forall|p: int|
            0 <= p < r@.len() ==> {
                let rec = #[trigger] r@[p];
                &&& is_record(order@, rec.producer as int)
                &&& rec.producer < order@.len()
                &&& rec.id == order@[rec.producer as int].tensor@.id
                &&& rec.last_consumer == last_consumer(order@, rec.producer as int)
                &&& rec.size == order@[rec.producer as int].tensor@.num_bytes_spec()
            },
        forall|p: int, q: int| 0 <= p < q < r@.len() ==> r@[p].producer < r@[q].producer,
        forall|j: int|
            is_record(order@, j) ==> exists|p: int|
                0 <= p < r@.len() && (#[trigger] r@[p].producer) == j,
{
    let n: usize = order.len();
    let mut records: Vec<TensorUsageRecord> = Vec::new();
    let mut j: usize = 0;
    while j < n
        invariant
            j <= n,
            n == order@.len(),
            wf_order(order@),
            forall|p: int|
                0 <= p < records@.len() ==> {
                    let rec = #[trigger] records@[p];
                    &&& is_record(order@, rec.producer as int)
                    &&& rec.producer < j
                    &&& rec.id == order@[rec.producer as int].tensor@.id
                    &&& rec.last_consumer == last_consumer(order@, rec.producer as int)
                    &&& rec.size == order@[rec.producer as int].tensor@.num_bytes_spec()
                },
            forall|p: int, q: int|
                0 <= p < q < records@.len() ==> records@[p].producer < records@[q].producer,
            forall|j2: int|
                0 <= j2 < j && is_record(order@, j2) ==> exists|p: int|
                    0 <= p < records@.len() && (#[trigger] records@[p].producer) == j2,
        decreases n - j,
    {
        if !order[j].tensor.resolved() {
            let mut last: Option<usize> = None;
            let mut i: usize = 0;
            while i < n
                invariant
                    i <= n,
                    j < n,
                    n == order@.len(),
                    wf_order(order@),
                    match last {
                        Some(l) => last_consumer_upto(order@, j as int, i as int) == l,
                        None => last_consumer_upto(order@, j as int, i as int) == -1,
                    },
                decreases n - i,
            {
                if consumed_from_exec(order, j, i) {
                    last = Some(i);
                }
                i = i + 1;
            }
            match last {
                Some(l) => {
                    proof {
                        assert(consumed_from(order@, j as int, l as int)) by {
                            lemma_last_consumer_is_consumed(order@, j as int, n as int);
                        }
                        assert(is_record(order@, j as int));
                    }
                    let rec = TensorUsageRecord {
                        id: order[j].tensor.id,
                        producer: j,
                        last_consumer: l,
                        last_consumer_id: order[l].tensor.id,
                        size: order[j].tensor.num_bytes(),
                    };
                    let ghost oldrecs = records@;
                    records.push(rec);
                    proof {
                        assert forall|j2: int| 0 <= j2 < j + 1 && is_record(order@, j2)
                            implies exists|p: int|
                            0 <= p < records@.len() && (#[trigger] records@[p].producer) == j2 by {
                            if j2 == j {
                                assert(records@[records@.len() - 1].producer == j);
                            } else {
                                let p = choose|p: int|
                                    0 <= p < oldrecs.len() && (#[trigger] oldrecs[p].producer)
                                        == j2;
                                assert(records@[p].producer == j2);
                            }
                        }
                    }
                },
                None => {
                    proof {
                        assert(!is_record(order@, j as int)) by {
                            if is_record(order@, j as int) {
                                let i0 = choose|i0: int| consumed_from(order@, j as int, i0);
                                lemma_last_consumer_found(order@, j as int, i0, n as int);
                            }
                        }
                    }
                },
            }
        } else {
            proof {
                assert(!is_record(order@, j as int));
            }
        }
        j = j + 1;
    }
    records
}

/// A non-negative last-consumer position is itself a consumer.
proof fn lemma_last_consumer_is_consumed(order: Seq<TensorNode>, j: int, k: int)
    requires
        last_consumer_upto(order, j, k) != -1,
    ensures
        consumed_from(order, j, last_consumer_upto(order, j, k)),
        0 <= last_consumer_upto(order, j, k) < k,
    decreases k,
{
    if k > 0 && !consumed_from(order, j, k - 1) {
        lemma_last_consumer_is_consumed(order, j, k - 1);
    }
}

/// If some operation at or above `i0` consumes `j`, the scan finds one.
proof fn lemma_last_consumer_found(order: Seq<TensorNode>, j: int, i0: int, k: int)
    requires
        consumed_from(order, j, i0),
        i0 < k,
    ensures
        last_consumer_upto(order, j, k) != -1,
    decreases k,
{
    if k - 1 != i0 && !consumed_from(order, j, k - 1) {
        lemma_last_consumer_found(order, j, i0, k - 1);
    }
}

/// If the in-place walk moves off a node, that node is nobody's true
/// source: true sources are fixed points of the walk.
pub proof fn lemma_elided_not_fixed(order: Seq<TensorNode>, f: int)
    requires
        0 <= f < order.len(),
        true_source(order, f) != f,
    ensures
        forall|x: int| 0 <= x < order.len() ==> true_source(order, x) != f,
{
    assert forall|x: int| 0 <= x < order.len() implies true_source(order, x) != f by {
        lemma_true_source_idempotent(order, x);
    }
}

/// Looks a tensor up by identity.
pub fn find_node(order: &Vec<TensorNode>, id: u64) -> (r: Option<usize>)
    ensures
        match r {
            Some(j) => find_id(order@, id) == j && j < order@.len()
                && order@[j as int].tensor@.id == id,
            None => find_id(order@, id) == -1,
        },
{
    let n: usize = order.len();
    let mut i: usize = 0;
    while i < n
        invariant
            i <= n,
            n == order@.len(),
            find_id(order@, id) == find_id_from(order@, id, i as int),
            forall|j: int| 0 <= j < i ==> order@[j].tensor@.id != id,
        decreases n - i,
    {
        if order[i].tensor.id == id {
            proof {
                lemma_find_id_from(order@, id, 0);
            }
            return Some(i);
        }
        i = i + 1;
    }
    None
}

/// Counts the operations that read the tensor with identity `id`.
pub fn consumers_of(order: &Vec<TensorNode>, id: u64) -> (r: u64)
    requires
        wf_order(order@),
    ensures
        r == consumer_count(order@, id),
{
    let n: usize = order.len();
    let mut total: u64 = 0;
    let mut i: usize = 0;
    while i < n
        invariant
            i <= n,
            n == order@.len(),
            wf_order(order@),
            total == consumer_count_upto(order@, id, i as int),
            total <= 8 * i,
        decreases n - i,
    {
        let srcs = order[i].op.srcs();
        let m: usize = srcs.len();
        proof {
            assert(srcs.deep_view() == order@[i as int].op.srcs_spec());
            assert(order@[i as int].op.srcs_spec().len() <= 8);
        }
        let mut k: usize = 0;
        let mut here: u64 = 0;
        while k < m
            invariant
                k <= m,
                m == srcs.deep_view().len(),
                here == count_id(srcs.deep_view().subrange(0, k as int), id),
                here <= k,
            decreases m - k,
        {
            proof {
                lemma_count_id_bound(srcs.deep_view().subrange(0, k as int), id);
                assert(srcs.deep_view().subrange(0, k + 1).drop_last() == srcs.deep_view().subrange(
                    0,
                    k as int,
                ));
                assert(srcs.deep_view().subrange(0, k + 1).last() == srcs.deep_view()[k as int]);
                assert(srcs.deep_view()[k as int] == srcs@[k as int].deep_view());
            }
            if srcs[k].id == id {
                here = here + 1;
            }
            k = k + 1;
        }
        proof {
            assert(srcs.deep_view().subrange(0, m as int) == srcs.deep_view());
            lemma_consumer_count_bound(order@, id, i as int);
        }
        total = total + here;
        i = i + 1;
    }
    total
}

/// Walks an in-place chain up to the node whose buffer is really used.
pub fn determine_tensor_source(order: &Vec<TensorNode>, i: usize) -> (r: usize)
    requires
        wf_order(order@),
        i < order@.len(),
    ensures
        r == true_source(order@, i as int),
        r <= i,
    decreases i,
{
    proof {
        lemma_true_source_range(order@, i as int);
    }
    let nd = &order[i];
    if nd.tensor.resolved() || !nd.op.supports_inplace() {
        return i;
    }
    match nd.op.inplace_source() {
        None => i,
        Some(k) => {
            let srcs = nd.op.srcs();
            proof {
                assert(srcs.deep_view() == order@[i as int].op.srcs_spec());
            }
            if k < srcs.len() {
                proof {
                    assert(srcs.deep_view()[k as int] == srcs@[k as int].deep_view());
                }
                let sid: u64 = srcs[k].id;
                match find_node(order, sid) {
                    Some(j) => {
                        if j < i && !order[j].tensor.resolved() {
                            let c: u64 = consumers_of(order, sid);
                            if c == 1 {
                                determine_tensor_source(order, j)
                            } else {
                                i
                            }
                        } else {
                            i
                        }
                    },
                    None => i,
                }
            } else {
                i
            }
        },
    }
}


/// The graph memory allocator: owns the device buffer pool and assigns one
/// physical buffer to every virtual tensor of an execution order.
#[derive(Debug)]
pub struct BufferAllocator {
    pub pool: BufferPool,
}

impl BufferAllocator {
    pub fn new() -> (r: BufferAllocator)
        ensures
            r.pool.wf(),
            r.pool.entries@.len() == 0,
    {
        BufferAllocator { pool: BufferPool::new() }
    }

    pub fn begin_pass(&mut self, pass_index: u64)
        requires
            old(self).pool.wf(),
        ensures
            final(self).pool.wf(),
            final(self).pool.entries@ == old(self).pool.entries@,
            final(self).pool.pass_index == pass_index,
    {
        self.pool.begin_pass(pass_index);
    }

    pub fn get(&self, handle: crate::pool::GpuBufferHandle) -> (r: PooledGPUBuffer)
        requires
            self.pool.wf(),
            handle < self.pool.entries@.len(),
        ensures
            r == self.pool.entries@[handle as int],
    {
        self.pool.get(handle)
    }

    pub fn create_buffer(&mut self, desc: &BufferDescriptor) -> (r: PooledGPUBuffer)
        requires
            old(self).pool.wf(),
            old(self).pool.entries@.len() < u64::MAX,
        ensures
            final(self).pool.wf(),
            r.handle == old(self).pool.entries@.len(),
            r.descriptor == *desc,
            final(self).pool.entries@ == old(self).pool.entries@.push(r),
            pool_extends(old(self).pool.entries@, final(self).pool.entries@),
    {
        let r = self.pool.get_or_create(desc);
        proof {
            lemma_pool_extends_push(old(self).pool.entries@, r);
        }
        r
    }

    /// Creates the shared uniform buffer for metadata bytes: the contents
    /// are padded out past the next dynamic-offset granule, and the caller
    /// uploads the returned bytes into the returned buffer.
    pub fn create_uniform_init(&mut self, uniform: crate::uniform::CpuUniform) -> (r: (
        PooledGPUBuffer,
        Vec<u8>,
    ))
        requires
            old(self).pool.wf(),
            old(self).pool.entries@.len() < u64::MAX,
            uniform@.len() + 256 <= usize::MAX,
        ensures
            final(self).pool.wf(),
            pool_extends(old(self).pool.entries@, final(self).pool.entries@),
            r.1@.len() == uniform@.len() + 256 - uniform@.len() % 256,
            r.1@.subrange(0, uniform@.len() as int) == uniform@,
            forall|i: int| uniform@.len() <= i < r.1@.len() ==> r.1@[i] == 0u8,
            r.0.descriptor.size == r.1@.len(),
            r.0.descriptor.usage == crate::pool::USAGE_UNIFORM | crate::pool::USAGE_COPY_DST,
            r.0.descriptor.mapped_at_creation == false,
    {
        let mut bytes: Vec<u8> = uniform.into_inner();
        let n: usize = bytes.len();
        let target: usize = n + 256 - n % 256;
        while bytes.len() < target
            invariant
                bytes@.len() <= target,
                n <= target <= usize::MAX,
                bytes@.subrange(0, n as int) == uniform@,
                n <= bytes@.len(),
                n == uniform@.len(),
                forall|i: int| n <= i < bytes@.len() ==> bytes@[i] == 0u8,
            decreases target - bytes@.len(),
        {
            bytes.push(0u8);
            proof {
                assert(bytes@.subrange(0, n as int) =~= uniform@);
            }
        }
        let desc = BufferDescriptor::new(
            bytes.len() as u64,
            crate::pool::USAGE_UNIFORM | crate::pool::USAGE_COPY_DST,
            false,
        );
        let buf = self.pool.get_or_create(&desc);
        proof {
            lemma_pool_extends_push(old(self).pool.entries@, buf);
        }
        (buf, bytes)
    }

    /// Takes the best-fitting free buffer at least as large as requested,
    /// or creates a fresh one.
    fn graph_allocate(
        &mut self,
        descriptor: BufferDescriptor,
        free: &mut Vec<GraphBuffer>,
        disable_reuse: bool,
    ) -> (r: GraphBuffer)
        requires
            old(self).pool.wf(),
            old(self).pool.entries@.len() < u64::MAX,
        ensures
            final(self).pool.wf(),
            pool_extends(old(self).pool.entries@, final(self).pool.entries@),
            old(self).pool.entries@.len() <= final(self).pool.entries@.len() <= old(self).pool.entries@.len() + 1,
            r.0.descriptor.size >= descriptor.size,
            disable_reuse ==> final(self).pool.entries@ == old(self).pool.entries@.push(r.0)
                && final(free)@ == old(free)@,
            final(self).pool.entries@.len() > old(self).pool.entries@.len() ==> r.0.handle == old(self).pool.entries@.len() && r.0.descriptor == descriptor && final(free)@ == old(
                free,
            )@,
            final(self).pool.entries@.len() == old(self).pool.entries@.len() ==> (exists|i: int|
                0 <= i < old(free)@.len() && (#[trigger] old(free)@[i]) == r && final(free)@
                    == old(free)@.remove(i)) && (forall|j: int|
                0 <= j < old(free)@.len() && (#[trigger] old(free)@[j]).0.descriptor.size
                    >= descriptor.size ==> r.0.descriptor.size <= old(free)@[j].0.descriptor.size),
            !disable_reuse && (exists|j: int|
                0 <= j < old(free)@.len() && (#[trigger] old(free)@[j]).0.descriptor.size
                    >= descriptor.size) ==> final(self).pool.entries@.len() == old(self).pool.entries@.len(),
    {
        let mut closest_index: Option<usize> = None;
        let mut closest_size_diff: u64 = 0;
        if !disable_reuse {
            let nfree: usize = free.len();
            let mut idx: usize = 0;
            while idx < nfree
                invariant
                    idx <= nfree,
                    nfree == free@.len(),
                    match closest_index {
                        Some(ci) => ci < idx && free@[ci as int].0.descriptor.size
                            >= descriptor.size && free@[ci as int].0.descriptor.size
                            - descriptor.size == closest_size_diff && (forall|j: int|
                            0 <= j < idx && (#[trigger] free@[j]).0.descriptor.size
                                >= descriptor.size ==> free@[ci as int].0.descriptor.size
                                <= free@[j].0.descriptor.size),
                        None => forall|j: int|
                            0 <= j < idx ==> (#[trigger] free@[j]).0.descriptor.size
                                < descriptor.size,
                    },
                decreases nfree - idx,
            {
                let current_size: u64 = free[idx].0.descriptor.size;
                if current_size >= descriptor.size {
                    let size_diff: u64 = current_size - descriptor.size;
                    let better: bool = match closest_index {
                        Some(_) => size_diff < closest_size_diff,
                        None => true,
                    };
                    if better {
                        closest_index = Some(idx);
                        closest_size_diff = size_diff;
                    }
                }
                idx = idx + 1;
            }
        }
        match closest_index {
            Some(ci) => {
                let r: GraphBuffer = free.remove(ci);
                proof {
                    assert(old(free)@[ci as int] == r);
                    assert(self.pool.entries@.subrange(0, self.pool.entries@.len() as int)
                        =~= self.pool.entries@);
                }
                r
            },
            None => {
                let buf = GraphBuffer(self.pool.get_or_create(&descriptor));
                proof {
                    lemma_pool_extends_push(old(self).pool.entries@, buf.0);
                }
                buf
            },
        }
    }
}


pub open spec fn node_id(order: Seq<TensorNode>, j: int) -> u64 {
    order[j].tensor@.id
}

/// Whether spans of two usage records intersect.
fn overlaps(a: &TensorUsageRecord, b: &TensorUsageRecord) -> (r: bool)
    ensures
        r == intervals_overlap(
            a.producer as int,
            a.last_consumer as int,
            b.producer as int,
            b.last_consumer as int,
        ),
{
    let max_first: usize = if a.producer >= b.producer {
        a.producer
    } else {
        b.producer
    };
    let min_last: usize = if a.last_consumer <= b.last_consumer {
        a.last_consumer
    } else {
        b.last_consumer
    };
    max_first <= min_last
}

/// Whether `obj` can hold record `ri` without clashing with any earlier
/// record already assigned to it.
fn conflict_free(
    records: &Vec<TensorUsageRecord>,
    assignments: &BufferMap,
    ri: usize,
    obj: GraphBuffer,
) -> (r: bool)
    requires
        ri < records@.len(),
    ensures
        r == forall|q: int|
            0 <= q < ri ==> !(assignments.get_spec((#[trigger] records@[q]).id) == Some(obj)
                && intervals_overlap(
                records@[ri as int].producer as int,
                records@[ri as int].last_consumer as int,
                records@[q].producer as int,
                records@[q].last_consumer as int,
            )),
{
    let rec: TensorUsageRecord = records[ri];
    let mut q: usize = 0;
    while q < ri
        invariant
            q <= ri < records@.len(),
            rec == records@[ri as int],
            forall|q2: int|
                0 <= q2 < q ==> !(assignments.get_spec((#[trigger] records@[q2]).id) == Some(obj)
                    && intervals_overlap(
                    records@[ri as int].producer as int,
                    records@[ri as int].last_consumer as int,
                    records@[q2].producer as int,
                    records@[q2].last_consumer as int,
                )),
        decreases ri - q,
    {
        let x: TensorUsageRecord = records[q];
        match assignments.get(x.id) {
            Some(b) => {
                if b == obj && overlaps(&rec, &x) {
                    return false;
                }
            },
            None => {
            },
        }
        q = q + 1;
    }
    true
}


impl BufferAllocator {
    /// Assigns a buffer to every usage record in topological order,
    /// reusing a previously created shared buffer whenever its records'
    /// intervals stay disjoint, and creating a fresh one otherwise.
    #[verifier::rlimit(100)]
    fn assign_records(
        &mut self,
        order: &Vec<TensorNode>,
        records: &Vec<TensorUsageRecord>,
        assignments: &mut BufferMap,
        disable_reuse: bool,
    )
        requires
            wf_order(order@),
            old(self).pool.wf(),
            old(self).pool.entries@.len() + records@.len() < u64::MAX,
            map_handles_below(old(assignments), old(self).pool.entries@.len() as int),
            forall|p: int|
                0 <= p < records@.len() ==> {
                    let rec = #[trigger] records@[p];
                    &&& is_record(order@, rec.producer as int)
                    &&& rec.producer < order@.len()
                    &&& rec.id == node_id(order@, rec.producer as int)
                    &&& rec.last_consumer == last_consumer(order@, rec.producer as int)
                },
            forall|p: int, q: int|
                0 <= p < q < records@.len() ==> records@[p].producer < records@[q].producer,
        ensures
            final(self).pool.wf(),
            pool_extends(old(self).pool.entries@, final(self).pool.entries@),
            old(self).pool.entries@.len() <= final(self).pool.entries@.len() <= old(self).pool.entries@.len() + records@.len(),
            map_handles_below(final(assignments), final(self).pool.entries@.len() as int),
            forall|id: u64|
                (#[trigger] old(assignments).get_spec(id)) is Some ==> final(assignments).get_spec(id) == old(assignments).get_spec(id),
            forall|id: u64|
                old(assignments).get_spec(id) is None && (forall|p: int|
                    0 <= p < records@.len() ==> (#[trigger] records@[p]).id != id) ==> (
                #[trigger] final(assignments).get_spec(id)) is None,
            forall|p: int|
                0 <= p < records@.len() ==> (#[trigger] final(assignments).get_spec(
                    records@[p].id,
                )) is Some,
            forall|p: int|
                0 <= p < records@.len() && old(assignments).get_spec(records@[p].id) is None ==> ((
                #[trigger] final(assignments).get_spec(records@[p].id)) matches Some(b)
                    && b.0.handle >= old(self).pool.entries@.len()),
            forall|p: int, q: int|
                0 <= p < records@.len() && 0 <= q < records@.len() && p != q && final(assignments).get_spec((#[trigger] records@[p]).id) == final(assignments).get_spec(
                    (#[trigger] records@[q]).id,
                ) && !(old(assignments).get_spec(records@[p].id) is Some && old(assignments).get_spec(records@[q].id) is Some) ==> !intervals_overlap(
                    records@[p].producer as int,
                    records@[p].last_consumer as int,
                    records@[q].producer as int,
                    records@[q].last_consumer as int,
                ),
    {
        let ghost l0 = self.pool.entries@.len() as int;
        proof {
            assert forall|p: int, q: int| 0 <= p < q < records@.len() implies records@[p].id
                != records@[q].id by {
                assert(records@[p].producer < records@[q].producer);
            }
        }
        proof {
            assert(self.pool.entries@.subrange(0, self.pool.entries@.len() as int)
                =~= self.pool.entries@);
        }
        let nrec: usize = records.len();
        let mut shared: Vec<GraphBuffer> = Vec::new();
        let mut ri: usize = 0;
        while ri < nrec
            invariant
                ri <= nrec,
                nrec == records@.len(),
                wf_order(order@),
                self.pool.wf(),
                l0 == old(self).pool.entries@.len(),
                pool_extends(old(self).pool.entries@, self.pool.entries@),
                l0 <= self.pool.entries@.len() <= l0 + ri,
                l0 + records@.len() < u64::MAX,
                map_handles_below(old(assignments), l0),
                map_handles_below(assignments, self.pool.entries@.len() as int),
                forall|si: int|
                    0 <= si < shared@.len() ==> l0 <= (#[trigger] shared@[si]).0.handle
                        < self.pool.entries@.len(),
                forall|p: int|
                    0 <= p < records@.len() ==> {
                        let rec = #[trigger] records@[p];
                        &&& is_record(order@, rec.producer as int)
                        &&& rec.producer < order@.len()
                        &&& rec.id == node_id(order@, rec.producer as int)
                        &&& rec.last_consumer == last_consumer(order@, rec.producer as int)
                    },
                forall|p: int, q: int|
                    0 <= p < q < records@.len() ==> records@[p].id != records@[q].id,
                forall|id: u64|
                    (#[trigger] old(assignments).get_spec(id)) is Some ==> assignments.get_spec(id)
                        == old(assignments).get_spec(id),
                forall|id: u64|
                    old(assignments).get_spec(id) is None && (forall|p: int|
                        0 <= p < records@.len() ==> (#[trigger] records@[p]).id != id) ==> (
                    #[trigger] assignments.get_spec(id)) is None,
                forall|p: int|
                    ri <= p < records@.len() && old(assignments).get_spec(records@[p].id) is None
                        ==> (#[trigger] assignments.get_spec(records@[p].id)) is None,
                forall|p: int|
                    0 <= p < ri ==> (#[trigger] assignments.get_spec(records@[p].id)) is Some,
                forall|p: int|
                    0 <= p < ri && old(assignments).get_spec(records@[p].id) is None ==> ((
                    #[trigger] assignments.get_spec(records@[p].id)) matches Some(b) && b.0.handle
                        >= l0),
                forall|p: int, q: int|
                    0 <= p < ri && 0 <= q < ri && p != q && assignments.get_spec(
                        (#[trigger] records@[p]).id,
                    ) == assignments.get_spec((#[trigger] records@[q]).id) && !(old(assignments).get_spec(records@[p].id) is Some && old(assignments).get_spec(
                        records@[q].id,
                    ) is Some) ==> !intervals_overlap(
                        records@[p].producer as int,
                        records@[p].last_consumer as int,
                        records@[q].producer as int,
                        records@[q].last_consumer as int,
                    ),
            decreases nrec - ri,
        {
            let r: TensorUsageRecord = records[ri];
            let ghost pre_get_ri = assignments.get_spec(records@[ri as int].id);
            match assignments.get(r.id) {
                Some(_) => {
                    proof {
                        assert(old(assignments).get_spec(records@[ri as int].id) is Some);
                        assert forall|p: int, q: int|
                            0 <= p < ri + 1 && 0 <= q < ri + 1 && p != q && assignments.get_spec(
                                (#[trigger] records@[p]).id,
                            ) == assignments.get_spec((#[trigger] records@[q]).id) && !(old(assignments).get_spec(records@[p].id) is Some && old(assignments).get_spec(
                                records@[q].id,
                            ) is Some) implies !intervals_overlap(
                            records@[p].producer as int,
                            records@[p].last_consumer as int,
                            records@[q].producer as int,
                            records@[q].last_consumer as int,
                        ) by {
                            if p == ri as int || q == ri as int {
                                let other = if p == ri as int {
                                    q
                                } else {
                                    p
                                };
                                assert(old(assignments).get_spec(records@[other].id) is None);
                                assert(assignments.get_spec(records@[other].id) matches Some(b)
                                    && b.0.handle >= l0);
                                assert(assignments.get_spec(records@[ri as int].id) == old(assignments).get_spec(records@[ri as int].id));
                                assert(false);
                            }
                        }
                    }
                },
                None => {
                    let mut chosen: Option<GraphBuffer> = None;
                    if !disable_reuse {
                        let ns: usize = shared.len();
                        let mut si: usize = 0;
                        while si < ns && chosen.is_none()
                            invariant
                                si <= ns,
                                ns == shared@.len(),
                                ri < records@.len(),
                                match chosen {
                                    Some(obj) => l0 <= obj.0.handle < self.pool.entries@.len()
                                        && (forall|q: int|
                                        0 <= q < ri ==> !(assignments.get_spec(
                                            (#[trigger] records@[q]).id,
                                        ) == Some(obj) && intervals_overlap(
                                            records@[ri as int].producer as int,
                                            records@[ri as int].last_consumer as int,
                                            records@[q].producer as int,
                                            records@[q].last_consumer as int,
                                        ))),
                                    None => true,
                                },
                                forall|si2: int|
                                    0 <= si2 < shared@.len() ==> l0 <= (
                                    #[trigger] shared@[si2]).0.handle < self.pool.entries@.len(),
                            decreases ns - si,
                        {
                            let obj: GraphBuffer = shared[si];
                            if conflict_free(records, assignments, ri, obj) {
                                chosen = Some(obj);
                            }
                            si = si + 1;
                        }
                    }
                    let ghost pre_map = *assignments;
                    let ghost pre_plen = self.pool.entries@.len() as int;
                    let assigned: GraphBuffer = match chosen {
                        Some(obj) => obj,
                        None => {
                            let ghost pre_pool = self.pool.entries@;
                            let desc = BufferDescriptor::new(r.size, USAGE_STANDARD, false);
                            let buf = GraphBuffer(self.pool.get_or_create(&desc));
                            shared.push(buf);
                            proof {
                                lemma_pool_extends_push(pre_pool, buf.0);
                                lemma_pool_extends_trans(
                                    old(self).pool.entries@,
                                    pre_pool,
                                    self.pool.entries@,
                                );
                            }
                            buf
                        },
                    };
                    assignments.insert(r.id, assigned);
                    proof {
                        assert forall|p: int, q: int|
                            0 <= p < ri + 1 && 0 <= q < ri + 1 && p != q && assignments.get_spec(
                                (#[trigger] records@[p]).id,
                            ) == assignments.get_spec((#[trigger] records@[q]).id) && !(old(assignments).get_spec(records@[p].id) is Some && old(assignments).get_spec(
                                records@[q].id,
                            ) is Some) implies !intervals_overlap(
                            records@[p].producer as int,
                            records@[p].last_consumer as int,
                            records@[q].producer as int,
                            records@[q].last_consumer as int,
                        ) by {
                            if p == ri as int || q == ri as int {
                                let other = if p == ri as int {
                                    q
                                } else {
                                    p
                                };
                                assert(records@[other].id != records@[ri as int].id);
                                assert(assignments.get_spec(records@[other].id)
                                    == pre_map.get_spec(records@[other].id));
                                assert(assignments.get_spec(records@[ri as int].id) == Some(
                                    assigned,
                                ));
                                if chosen is Some {
                                    if pre_map.get_spec(records@[other].id) == Some(assigned) {
                                        assert(!intervals_overlap(
                                            records@[ri as int].producer as int,
                                            records@[ri as int].last_consumer as int,
                                            records@[other].producer as int,
                                            records@[other].last_consumer as int,
                                        ));
                                    }
                                } else {
                                    assert(assigned.0.handle == pre_plen);
                                    if pre_map.get_spec(records@[other].id) is Some {
                                        assert(pre_map.get_spec(records@[other].id)->Some_0.0.handle
                                            < pre_plen);
                                    }
                                }
                            } else {
                                assert(records@[p].id != records@[ri as int].id);
                                assert(records@[q].id != records@[ri as int].id);
                            }
                        }
                        assert forall|id: u64|
                            (#[trigger] assignments.get_spec(id)) is Some implies assignments.get_spec(
                            id)->Some_0.0.handle < self.pool.entries@.len() by {
                            if id != records@[ri as int].id {
                                assert(assignments.get_spec(id) == pre_map.get_spec(id));
                            }
                        }
                    }
                },
            }
            ri = ri + 1;
        }
    }
}


/// A node's own identity resolves to its position.
pub proof fn lemma_find_own(order: Seq<TensorNode>, j: int)
    requires
        wf_order(order),
        0 <= j < order.len(),
    ensures
        find_id(order, node_id(order, j)) == j,
{
    lemma_find_id_from(order, node_id(order, j), 0);
    let f = find_id(order, node_id(order, j));
    if f == -1 {
        assert(order[j].tensor@.id != node_id(order, j));
        assert(false);
    }
    if f != j {
        if f < j {
            assert(order[f].tensor@.id != order[j].tensor@.id);
        } else {
            assert(order[j].tensor@.id != order[f].tensor@.id);
        }
        assert(false);
    }
}

/// Whether the source at position `k` of operation `i` is virtual and its
/// producing node is elided by the in-place walk.
pub open spec fn elided_src(order: Seq<TensorNode>, i: int, k: int) -> bool {
    &&& 0 <= i < order.len()
    &&& !(order[i].tensor@.storage is Some)
    &&& 0 <= k < order[i].op.srcs_spec().len()
    &&& !(order[i].op.srcs_spec()[k].storage is Some)
    &&& true_source(order, find_id(order, order[i].op.srcs_spec()[k].id)) != find_id(
        order,
        order[i].op.srcs_spec()[k].id,
    )
}

/// The buffer each virtual source finally reads: its in-place chain's true
/// source's buffer. Elided tensors are pointed at the buffer their chain
/// survives into.
#[verifier::rlimit(100)]
fn apply_inplace_assignments(order: &Vec<TensorNode>, assignments: &mut BufferMap)
    requires
        wf_order(order@),
        forall|j: int|
            #[trigger] is_record(order@, j) ==> old(assignments).get_spec(node_id(order@, j))
                is Some,
        forall|i: int, k: int|
            #[trigger] elided_src(order@, i, k) ==> old(assignments).get_spec(
                order@[i].op.srcs_spec()[k].id,
            ) is None,
    ensures
        forall|id: u64|
            (#[trigger] old(assignments).get_spec(id)) is Some ==> final(assignments).get_spec(id)
                == old(assignments).get_spec(id),
        forall|i: int, k: int|
            0 <= i < order@.len() && !(order@[i].tensor@.storage is Some) && 0 <= k
                < order@[i].op.srcs_spec().len() && !((#[trigger] order@[i].op.srcs_spec()[k]).storage
                is Some) ==> final(assignments).get_spec(order@[i].op.srcs_spec()[k].id) == final(assignments).get_spec(
                node_id(
                    order@,
                    true_source(order@, find_id(order@, order@[i].op.srcs_spec()[k].id)),
                ),
            ) && final(assignments).get_spec(order@[i].op.srcs_spec()[k].id) is Some,
{
    let ghost base = old(assignments).entries@;
    let n: usize = order.len();
    let mut i: usize = 0;
    while i < n
        invariant
            i <= n,
            n == order@.len(),
            wf_order(order@),
            base == old(assignments).entries@,
            forall|j: int|
                #[trigger] is_record(order@, j) ==> map_get(base, node_id(order@, j)) is Some,
            forall|i2: int, k2: int|
                #[trigger] elided_src(order@, i2, k2) ==> map_get(
                    base,
                    order@[i2].op.srcs_spec()[k2].id,
                ) is None,
            forall|id: u64|
                (#[trigger] map_get(base, id)) is Some ==> assignments.get_spec(id) == map_get(
                    base,
                    id,
                ),
            forall|j: int|
                0 <= j < order@.len() && true_source(order@, j) == j ==> (
                #[trigger] assignments.get_spec(node_id(order@, j))) == map_get(
                    base,
                    node_id(order@, j),
                ),
            forall|i2: int, k2: int|
                0 <= i2 < i && !(order@[i2].tensor@.storage is Some) && 0 <= k2
                    < order@[i2].op.srcs_spec().len() && !((
                #[trigger] order@[i2].op.srcs_spec()[k2]).storage is Some)
                    ==> assignments.get_spec(order@[i2].op.srcs_spec()[k2].id)
                    == assignments.get_spec(
                    node_id(
                        order@,
                        true_source(order@, find_id(order@, order@[i2].op.srcs_spec()[k2].id)),
                    ),
                ) && assignments.get_spec(order@[i2].op.srcs_spec()[k2].id) is Some,
        decreases n - i,
    {
        if !order[i].tensor.resolved() {
            let m: usize = order[i].op.srcs().len();
            proof {
                assert(m == order@[i as int].op.srcs_spec().len());
            }
            let mut k: usize = 0;
            while k < m
                invariant
                    k <= m,
                    i < n,
                    n == order@.len(),
                    wf_order(order@),
                    base == old(assignments).entries@,
                    m == order@[i as int].op.srcs_spec().len(),
                    !(order@[i as int].tensor@.storage is Some),
                    forall|j: int|
                        #[trigger] is_record(order@, j) ==> map_get(base, node_id(order@, j))
                            is Some,
                    forall|i2: int, k2: int|
                        #[trigger] elided_src(order@, i2, k2) ==> map_get(
                            base,
                            order@[i2].op.srcs_spec()[k2].id,
                        ) is None,
                    forall|id: u64|
                        (#[trigger] map_get(base, id)) is Some ==> assignments.get_spec(id)
                            == map_get(base, id),
                    forall|j: int|
                        0 <= j < order@.len() && true_source(order@, j) == j ==> (
                        #[trigger] assignments.get_spec(node_id(order@, j))) == map_get(
                            base,
                            node_id(order@, j),
                        ),
                    forall|i2: int, k2: int|
                        (0 <= i2 < i || (i2 == i && 0 <= k2 < k)) && 0 <= i2 < order@.len() && !(
                        order@[i2].tensor@.storage is Some) && 0 <= k2
                            < order@[i2].op.srcs_spec().len() && !((
                        #[trigger] order@[i2].op.srcs_spec()[k2]).storage is Some)
                            ==> assignments.get_spec(order@[i2].op.srcs_spec()[k2].id)
                            == assignments.get_spec(
                            node_id(
                                order@,
                                true_source(
                                    order@,
                                    find_id(order@, order@[i2].op.srcs_spec()[k2].id),
                                ),
                            ),
                        ) && assignments.get_spec(order@[i2].op.srcs_spec()[k2].id) is Some,
                decreases m - k,
            {
                let ghost pre_a = *assignments;
                process_source(order, assignments, i, k, Ghost(base));
                proof {
                    lemma_alias_region_extends(
                        order@,
                        pre_a,
                        *assignments,
                        base,
                        i as int,
                        k as int,
                    );
                }
                k = k + 1;
            }
        }
        i = i + 1;
    }
}

/// Pointing one more virtual source at its surviving buffer keeps every
/// previously established alias intact: the touched identity is never a
/// fixed point of the walk, so no chain's target moves.
proof fn lemma_alias_region_extends(
    order: Seq<TensorNode>,
    pre: BufferMap,
    post: BufferMap,
    base: Seq<(u64, GraphBuffer)>,
    i: int,
    k: int,
)
    requires
        wf_order(order),
        0 <= i < order.len(),
        !(order[i].tensor@.storage is Some),
        0 <= k < order[i].op.srcs_spec().len(),
        forall|id: u64|
            id != order[i].op.srcs_spec()[k].id ==> post.get_spec(id) == pre.get_spec(id),
        !elided_src(order, i, k) ==> post.entries@ == pre.entries@,
        forall|j: int|
            0 <= j < order.len() && true_source(order, j) == j ==> (
            #[trigger] post.get_spec(node_id(order, j))) == map_get(base, node_id(order, j)),
        forall|j: int|
            0 <= j < order.len() && true_source(order, j) == j ==> (
            #[trigger] pre.get_spec(node_id(order, j))) == map_get(base, node_id(order, j)),
        !(order[i].op.srcs_spec()[k].storage is Some) ==> post.get_spec(
            order[i].op.srcs_spec()[k].id,
        ) == post.get_spec(
            node_id(order, true_source(order, find_id(order, order[i].op.srcs_spec()[k].id))),
        ) && post.get_spec(order[i].op.srcs_spec()[k].id) is Some,
        forall|i2: int, k2: int|
            (0 <= i2 < i || (i2 == i && 0 <= k2 < k)) && 0 <= i2 < order.len() && !(
            order[i2].tensor@.storage is Some) && 0 <= k2 < order[i2].op.srcs_spec().len() && !((
            #[trigger] order[i2].op.srcs_spec()[k2]).storage is Some) ==> pre.get_spec(
                order[i2].op.srcs_spec()[k2].id,
            ) == pre.get_spec(
                node_id(
                    order,
                    true_source(order, find_id(order, order[i2].op.srcs_spec()[k2].id)),
                ),
            ) && pre.get_spec(order[i2].op.srcs_spec()[k2].id) is Some,
    ensures
        forall|i2: int, k2: int|
            (0 <= i2 < i || (i2 == i && 0 <= k2 < k + 1)) && 0 <= i2 < order.len() && !(
            order[i2].tensor@.storage is Some) && 0 <= k2 < order[i2].op.srcs_spec().len() && !((
            #[trigger] order[i2].op.srcs_spec()[k2]).storage is Some) ==> post.get_spec(
                order[i2].op.srcs_spec()[k2].id,
            ) == post.get_spec(
                node_id(
                    order,
                    true_source(order, find_id(order, order[i2].op.srcs_spec()[k2].id)),
                ),
            ) && post.get_spec(order[i2].op.srcs_spec()[k2].id) is Some,
{
    let sv = order[i].op.srcs_spec()[k];
    assert forall|i2: int, k2: int|
        ((0 <= i2 < i || (i2 == i && 0 <= k2 < k + 1)) && 0 <= i2 < order.len() && !(
        order[i2].tensor@.storage is Some) && 0 <= k2 < order[i2].op.srcs_spec().len() && !((
        #[trigger] order[i2].op.srcs_spec()[k2]).storage is Some)) implies post.get_spec(
        order[i2].op.srcs_spec()[k2].id,
    ) == post.get_spec(
        node_id(order, true_source(order, find_id(order, order[i2].op.srcs_spec()[k2].id))),
    ) && post.get_spec(order[i2].op.srcs_spec()[k2].id) is Some by {
        let s2 = order[i2].op.srcs_spec()[k2];
        lemma_src_index(order, i2, k2);
        lemma_src_index(order, i, k);
        let f2 = find_id(order, s2.id);
        let ts2 = true_source(order, f2);
        lemma_true_source_range(order, f2);
        lemma_true_source_idempotent(order, f2);
        if i2 == i && k2 == k {
        } else if s2.id == sv.id {
            assert(order[find_id(order, sv.id)].tensor@ == sv);
            assert(order[f2].tensor@ == s2);
            assert(s2 == sv);
        } else {
            assert(post.get_spec(s2.id) == pre.get_spec(s2.id));
            if node_id(order, ts2) == sv.id {
                lemma_find_own(order, ts2);
                assert(ts2 == find_id(order, sv.id));
                if elided_src(order, i, k) {
                    assert(true_source(order, find_id(order, sv.id)) != find_id(order, sv.id));
                    assert(true_source(order, ts2) == ts2);
                    assert(false);
                } else {
                    assert(post.entries@ == pre.entries@);
                }
            } else {
                assert(post.get_spec(node_id(order, ts2)) == pre.get_spec(node_id(order, ts2)));
            }
        }
    }
}

/// Handles one source occurrence: if its source is virtual, points it at
/// its in-place chain's surviving buffer.
#[verifier::rlimit(100)]
fn process_source(
    order: &Vec<TensorNode>,
    assignments: &mut BufferMap,
    i: usize,
    k: usize,
    Ghost(base): Ghost<Seq<(u64, GraphBuffer)>>,
)
    requires
        wf_order(order@),
        i < order@.len(),
        !(order@[i as int].tensor@.storage is Some),
        (k as int) < order@[i as int].op.srcs_spec().len(),
        forall|j: int|
            #[trigger] is_record(order@, j) ==> map_get(base, node_id(order@, j)) is Some,
        forall|i2: int, k2: int|
            #[trigger] elided_src(order@, i2, k2) ==> map_get(
                base,
                order@[i2].op.srcs_spec()[k2].id,
            ) is None,
        forall|id: u64|
            (#[trigger] map_get(base, id)) is Some ==> old(assignments).get_spec(id) == map_get(
                base,
                id,
            ),
        forall|j: int|
            0 <= j < order@.len() && true_source(order@, j) == j ==> (
            #[trigger] old(assignments).get_spec(node_id(order@, j))) == map_get(
                base,
                node_id(order@, j),
            ),
    ensures
        forall|id: u64|
            id != order@[i as int].op.srcs_spec()[k as int].id ==> final(assignments).get_spec(id)
                == old(assignments).get_spec(id),
        forall|id: u64|
            (#[trigger] map_get(base, id)) is Some ==> final(assignments).get_spec(id) == map_get(
                base,
                id,
            ),
        forall|j: int|
            0 <= j < order@.len() && true_source(order@, j) == j ==> (
            #[trigger] final(assignments).get_spec(node_id(order@, j))) == map_get(
                base,
                node_id(order@, j),
            ),
        !(order@[i as int].op.srcs_spec()[k as int].storage is Some) ==> final(assignments).get_spec(order@[i as int].op.srcs_spec()[k as int].id) == final(assignments).get_spec(
            node_id(
                order@,
                true_source(
                    order@,
                    find_id(order@, order@[i as int].op.srcs_spec()[k as int].id),
                ),
            ),
        ) && final(assignments).get_spec(order@[i as int].op.srcs_spec()[k as int].id) is Some,
        !elided_src(order@, i as int, k as int) ==> final(assignments).entries@ == old(assignments).entries@,
{
    let srcs = order[i].op.srcs();
    proof {
        assert(srcs.deep_view() == order@[i as int].op.srcs_spec());
        assert(srcs.deep_view()[k as int] == srcs@[k as int].deep_view());
    }
    if !srcs[k].resolved() {
        proof {
            lemma_src_index(order@, i as int, k as int);
        }
        let sid: u64 = srcs[k].id;
        match find_node(order, sid) {
            Some(f) => {
                let ts: usize = determine_tensor_source(order, f);
                proof {
                    lemma_true_source_range(order@, f as int);
                    lemma_true_source_idempotent(order@, f as int);
                    assert(consumed_from(order@, ts as int, i as int)) by {
                        let sv = order@[i as int].op.srcs_spec()[k as int];
                        assert(!(sv.storage is Some));
                        assert(0 <= find_id(order@, sv.id) < order@.len());
                        assert(true_source(order@, find_id(order@, sv.id)) == ts as int);
                    }
                    assert(!(order@[ts as int].tensor@.storage is Some));
                    assert(is_record(order@, ts as int));
                    lemma_find_own(order@, ts as int);
                }
                if ts != f {
                    proof {
                        assert(elided_src(order@, i as int, k as int));
                        lemma_elided_not_fixed(order@, f as int);
                    }
                    let tid: u64 = order[ts].tensor.id;
                    match assignments.get(tid) {
                        Some(v) => {
                            assignments.insert(sid, v);
                            proof {
                                assert(node_id(order@, f as int) == sid);
                                assert(true_source(order@, f as int) != f as int);
                                assert forall|j: int|
                                    0 <= j < order@.len() && true_source(order@, j) == j implies (
                                #[trigger] assignments.get_spec(node_id(order@, j))) == map_get(
                                    base,
                                    node_id(order@, j),
                                ) by {
                                    if node_id(order@, j) == sid {
                                        lemma_find_own(order@, j);
                                    }
                                }
                                assert forall|id: u64| (#[trigger] map_get(base, id))
                                    is Some implies assignments.get_spec(id) == map_get(
                                    base,
                                    id,
                                ) by {
                                    if id == sid {
                                        assert(map_get(base, sid) is None);
                                    }
                                }
                            }
                        },
                        None => {
                            proof {
                                assert(false);
                            }
                        },
                    }
                } else {
                    proof {
                        assert(node_id(order@, ts as int) == sid);
                    }
                }
            },
            None => {
                proof {
                    assert(false);
                }
            },
        }
    }
}


/// A recorded node is a fixed point of the in-place walk.
pub proof fn lemma_record_fixed(order: Seq<TensorNode>, j: int)
    requires
        is_record(order, j),
    ensures
        true_source(order, j) == j,
{
    let i0 = choose|i0: int| consumed_from(order, j, i0);
    let k0 = choose|k0: int|
        0 <= k0 < order[i0].op.srcs_spec().len() && !((#[trigger] order[i0].op.srcs_spec()[k0]).storage
            is Some) && 0 <= find_id(order, order[i0].op.srcs_spec()[k0].id) < order.len()
            && true_source(order, find_id(order, order[i0].op.srcs_spec()[k0].id)) == j;
    let f = find_id(order, order[i0].op.srcs_spec()[k0].id);
    lemma_true_source_idempotent(order, f);
}

/// A resolved node is a fixed point of the in-place walk.
pub proof fn lemma_resolved_fixed(order: Seq<TensorNode>, i: int)
    requires
        0 <= i < order.len(),
        order[i].tensor@.storage is Some,
    ensures
        true_source(order, i) == i,
{
    reveal(true_source);
}

/// Record positions are bounded by their strictly increasing producers.
proof fn lemma_rec_index_bound(records: Seq<TensorUsageRecord>, p: int)
    requires
        0 <= p < records.len(),
        forall|a: int, b: int|
            0 <= a < b < records.len() ==> records[a].producer < records[b].producer,
    ensures
        records[p].producer >= p,
    decreases p,
{
    if p > 0 {
        lemma_rec_index_bound(records, p - 1);
    }
}

/// Every device-resident storage buffer of the order has a handle below
/// `h` — it came from this allocator's pool.
pub open spec fn storage_handles_below(order: Seq<TensorNode>, h: int) -> bool {
    forall|i: int|
        0 <= i < order.len() ==> ((#[trigger] order[i].tensor@.storage) matches Some(
            Storage::GPU(b),
        ) ==> b.handle < h)
}

impl BufferAllocator {
    /// Assigns buffers to all usage records by interval-safe reuse, then
    /// points every virtual source at its in-place chain's surviving
    /// buffer.
    #[verifier::rlimit(100)]
    pub fn greedy_by_size(
        &mut self,
        order: &Vec<TensorNode>,
        assignments: &mut BufferMap,
        disable_reuse: bool,
    )
        requires
            wf_order(order@),
            old(self).pool.wf(),
            old(self).pool.entries@.len() + order@.len() < u64::MAX,
            map_handles_below(old(assignments), old(self).pool.entries@.len() as int),
            forall|i: int, k: int|
                #[trigger] elided_src(order@, i, k) ==> old(assignments).get_spec(
                    order@[i].op.srcs_spec()[k].id,
                ) is None,
        ensures
            final(self).pool.wf(),
            pool_extends(old(self).pool.entries@, final(self).pool.entries@),
            old(self).pool.entries@.len() <= final(self).pool.entries@.len(),
            forall|id: u64|
                (#[trigger] old(assignments).get_spec(id)) is Some ==> final(assignments).get_spec(
                    id,
                ) == old(assignments).get_spec(id),
            forall|j: int|
                #[trigger] is_record(order@, j) ==> final(assignments).get_spec(
                    node_id(order@, j),
                ) is Some,
            forall|j: int|
                #[trigger] is_record(order@, j) && old(assignments).get_spec(node_id(order@, j))
                    is None ==> ((final(assignments).get_spec(node_id(order@, j))) matches Some(b)
                    && b.0.handle >= old(self).pool.entries@.len()),
            forall|j1: int, j2: int|
                #[trigger] is_record(order@, j1) && #[trigger] is_record(order@, j2) && j1 != j2
                    && final(assignments).get_spec(node_id(order@, j1)) == final(assignments).get_spec(node_id(order@, j2)) && !(old(assignments).get_spec(node_id(order@, j1))
                    is Some && old(assignments).get_spec(node_id(order@, j2)) is Some)
                    ==> !intervals_overlap(
                    j1,
                    last_consumer(order@, j1),
                    j2,
                    last_consumer(order@, j2),
                ),
            forall|i: int, k: int|
                0 <= i < order@.len() && !(order@[i].tensor@.storage is Some) && 0 <= k
                    < order@[i].op.srcs_spec().len() && !((#[trigger] order@[i].op.srcs_spec()[k]).storage
                    is Some) ==> final(assignments).get_spec(order@[i].op.srcs_spec()[k].id)
                    == final(assignments).get_spec(
                    node_id(
                        order@,
                        true_source(order@, find_id(order@, order@[i].op.srcs_spec()[k].id)),
                    ),
                ) && final(assignments).get_spec(order@[i].op.srcs_spec()[k].id) is Some,
    {
        let records = calculate_usage_records(order);
        proof {
            assert(records@.len() <= order@.len()) by {
                if records@.len() > order@.len() {
                    lemma_rec_index_bound(records@, records@.len() - 1);
                }
            }
        }
        self.assign_records(order, &records, assignments, disable_reuse);
        proof {
            assert forall|j: int| #[trigger] is_record(order@, j) implies assignments.get_spec(
                node_id(order@, j),
            ) is Some by {
                let p = choose|p: int|
                    0 <= p < records@.len() && (#[trigger] records@[p].producer) == j;
                assert(assignments.get_spec(records@[p].id) is Some);
            }
            assert forall|j: int|
                #[trigger] is_record(order@, j) && old(assignments).get_spec(node_id(order@, j))
                    is None implies ((assignments.get_spec(node_id(order@, j))) matches Some(b)
                && b.0.handle >= old(self).pool.entries@.len()) by {
                let p = choose|p: int|
                    0 <= p < records@.len() && (#[trigger] records@[p].producer) == j;
                assert(records@[p].id == node_id(order@, j));
            }
            assert forall|j1: int, j2: int|
                #[trigger] is_record(order@, j1) && #[trigger] is_record(order@, j2) && j1 != j2
                    && assignments.get_spec(node_id(order@, j1)) == assignments.get_spec(
                    node_id(order@, j2),
                ) && !(old(assignments).get_spec(node_id(order@, j1)) is Some && old(assignments).get_spec(node_id(order@, j2)) is Some) implies !intervals_overlap(
                j1,
                last_consumer(order@, j1),
                j2,
                last_consumer(order@, j2),
            ) by {
                let p1 = choose|p: int|
                    0 <= p < records@.len() && (#[trigger] records@[p].producer) == j1;
                let p2 = choose|p: int|
                    0 <= p < records@.len() && (#[trigger] records@[p].producer) == j2;
                assert(records@[p1].id == node_id(order@, j1));
                assert(records@[p2].id == node_id(order@, j2));
                assert(records@[p1].last_consumer == last_consumer(order@, j1));
                assert(records@[p2].last_consumer == last_consumer(order@, j2));
                assert(p1 != p2);
            }
            assert forall|i: int, k: int| #[trigger] elided_src(order@, i, k)
                implies assignments.get_spec(order@[i].op.srcs_spec()[k].id) is None by {
                let sid = order@[i].op.srcs_spec()[k].id;
                lemma_src_index(order@, i, k);
                let f = find_id(order@, sid);
                assert(old(assignments).get_spec(sid) is None);
                assert forall|p: int| 0 <= p < records@.len() implies (#[trigger] records@[p]).id
                    != sid by {
                    if records@[p].id == sid {
                        let j = records@[p].producer as int;
                        assert(is_record(order@, j));
                        lemma_record_fixed(order@, j);
                        lemma_find_own(order@, j);
                        assert(j == f);
                        assert(true_source(order@, f) != f);
                    }
                }
            }
        }
        apply_inplace_assignments(order, assignments);
    }

    /// Plans all buffers for one execution order: constants keep their
    /// resident buffers, the designated output gets a dedicated buffer via
    /// its in-place true source, every other virtual tensor is assigned by
    /// interval-safe greedy reuse. Fails exactly when a resolved tensor's
    /// bytes are not on the device.
    #[verifier::rlimit(100)]
    pub fn allocate_cfg(&mut self, order: &Vec<TensorNode>, disable_reuse: bool) -> (r: Result<
        BufferMap,
        AllocatorError,
    >)
        requires
            wf_order(order@),
            old(self).pool.wf(),
            old(self).pool.entries@.len() + order@.len() + 1 < u64::MAX,
            storage_handles_below(order@, old(self).pool.entries@.len() as int),
        ensures
            final(self).pool.wf(),
            pool_extends(old(self).pool.entries@, final(self).pool.entries@),
            r is Err <==> exists|i: int|
                0 <= i < order@.len() && (#[trigger] order@[i].tensor@.storage) == Some(
                    Storage::CPU,
                ),
            r matches Ok(a) ==> {
                let out = order@.len() - 1;
                let ts_out = true_source(order@, out);
                &&& forall|i: int|
                    0 <= i < order@.len() ==> ((#[trigger] order@[i].tensor@.storage) matches Some(
                        Storage::GPU(b),
                    ) ==> a.get_spec(node_id(order@, i)) == Some(GraphBuffer(b)))
                &&& forall|j: int|
                    #[trigger] is_record(order@, j) ==> a.get_spec(node_id(order@, j)) is Some
                &&& a.get_spec(node_id(order@, out)) is Some
                &&& a.get_spec(node_id(order@, out)) == a.get_spec(node_id(order@, ts_out))
                &&& forall|j1: int, j2: int|
                    #[trigger] is_record(order@, j1) && #[trigger] is_record(order@, j2) && j1
                        != j2 && a.get_spec(node_id(order@, j1)) == a.get_spec(node_id(order@, j2))
                        ==> !intervals_overlap(
                        j1,
                        last_consumer(order@, j1),
                        j2,
                        last_consumer(order@, j2),
                    )
                &&& forall|j: int|
                    #[trigger] is_record(order@, j) && j != ts_out ==> a.get_spec(
                        node_id(order@, j),
                    ) != a.get_spec(node_id(order@, out))
                &&& forall|i: int, k: int|
                    0 <= i < order@.len() && !(order@[i].tensor@.storage is Some) && 0 <= k
                        < order@[i].op.srcs_spec().len() && !((
                    #[trigger] order@[i].op.srcs_spec()[k]).storage is Some) ==> a.get_spec(
                        order@[i].op.srcs_spec()[k].id,
                    ) == a.get_spec(
                        node_id(
                            order@,
                            true_source(order@, find_id(order@, order@[i].op.srcs_spec()[k].id)),
                        ),
                    ) && a.get_spec(order@[i].op.srcs_spec()[k].id) is Some
            },
    {
        let ghost l_init = self.pool.entries@.len() as int;
        let n: usize = order.len();
        let mut assignments = BufferMap::new();
        let mut i: usize = 0;
        while i < n
            invariant
                i <= n,
                n == order@.len(),
                wf_order(order@),
                self.pool.wf(),
                l_init == self.pool.entries@.len(),
                storage_handles_below(order@, l_init),
                forall|i2: int|
                    0 <= i2 < i ==> !((#[trigger] order@[i2].tensor@.storage) == Some(
                        Storage::CPU,
                    )),
                forall|i2: int|
                    0 <= i2 < i ==> ((#[trigger] order@[i2].tensor@.storage) matches Some(
                        Storage::GPU(b),
                    ) ==> assignments.get_spec(node_id(order@, i2)) == Some(GraphBuffer(b))),
                forall|id: u64|
                    (#[trigger] assignments.get_spec(id)) is Some ==> exists|i2: int|
                        0 <= i2 < i && node_id(order@, i2) == id && order@[i2].tensor@.storage
                            is Some,
                map_handles_below(&assignments, l_init),
            decreases n - i,
        {
            let ghost pre_map = assignments;
            match &order[i].tensor.storage {
                Option::None => {
                },
                Option::Some(Storage::CPU) => {
                    proof {
                        assert(order@[i as int].tensor@.storage == Some(Storage::CPU));
                        assert(self.pool.entries@.subrange(0, self.pool.entries@.len() as int)
                            =~= self.pool.entries@);
                    }
                    return Err(AllocatorError::BufferNotFound);
                },
                Option::Some(Storage::GPU(b)) => {
                    let buf = GraphBuffer(*b);
                    assignments.insert(order[i].tensor.id, buf);
                    proof {
                        assert forall|id: u64| (#[trigger] assignments.get_spec(id))
                            is Some implies exists|i2: int|
                            0 <= i2 < i + 1 && node_id(order@, i2) == id
                                && order@[i2].tensor@.storage is Some by {
                            if id != node_id(order@, i as int) {
                                assert(pre_map.get_spec(id) is Some);
                            }
                        }
                    }
                },
            }
            i = i + 1;
        }
        let out: usize = n - 1;
        let out_src: usize = determine_tensor_source(order, out);
        let out_id: u64 = order[out].tensor.id;
        let out_src_id: u64 = order[out_src].tensor.id;
        proof {
            lemma_true_source_range(order@, out as int);
        }
        let ghost seeded = assignments;
        let output_buffer: GraphBuffer = match assignments.get(out_src_id) {
            Some(b) => b,
            None => {
                let mut free: Vec<GraphBuffer> = Vec::new();
                let desc = BufferDescriptor::new(
                    order[out_src].tensor.num_bytes(),
                    USAGE_STANDARD,
                    false,
                );
                self.graph_allocate(desc, &mut free, disable_reuse)
            },
        };
        assignments.insert(out_id, output_buffer);
        if out_src != out {
            assignments.insert(out_src_id, output_buffer);
        }
        proof {
            lemma_find_own(order@, out as int);
        }
        let ghost l_greedy = self.pool.entries@.len() as int;
        let ghost pre_greedy = assignments;
        proof {
            assert(output_buffer.0.handle < l_greedy);
            assert(map_handles_below(&assignments, l_greedy));
            assert forall|i2: int, k2: int| #[trigger] elided_src(order@, i2, k2)
                implies assignments.get_spec(order@[i2].op.srcs_spec()[k2].id) is None by {
                let sid = order@[i2].op.srcs_spec()[k2].id;
                lemma_src_index(order@, i2, k2);
                let f = find_id(order@, sid);
                lemma_elided_not_fixed(order@, f);
                lemma_true_source_range(order@, f);
                if assignments.get_spec(sid) is Some {
                    if sid == out_id {
                        lemma_find_own(order@, out as int);
                        assert(f == out as int);
                        assert(f < i2 < order@.len());
                        assert(false);
                    } else if sid == out_src_id {
                        lemma_find_own(order@, out_src as int);
                        assert(true_source(order@, out_src as int) == out_src as int) by {
                            lemma_true_source_idempotent(order@, out as int);
                        }
                        assert(false);
                    } else {
                        assert(seeded.get_spec(sid) is Some);
                        let i3 = choose|i3: int|
                            0 <= i3 < n && node_id(order@, i3) == sid && order@[i3].tensor@.storage
                                is Some;
                        lemma_find_own(order@, i3);
                        assert(f == i3);
                        assert(order@[f].tensor@.storage is Some);
                        assert(order@[f].tensor@ == order@[i2].op.srcs_spec()[k2]);
                        assert(false);
                    }
                }
            }
        }
        let ghost mid_pool = self.pool.entries@;
        proof {
            assert(pool_extends(old(self).pool.entries@, mid_pool)) by {
                if self.pool.entries@.len() == old(self).pool.entries@.len() {
                    assert(self.pool.entries@.subrange(0, self.pool.entries@.len() as int)
                        =~= self.pool.entries@);
                }
            }
        }
        self.greedy_by_size(order, &mut assignments, disable_reuse);
        proof {
            lemma_pool_extends_trans(old(self).pool.entries@, mid_pool, self.pool.entries@);
            let ts_out = true_source(order@, out as int);
            assert(ts_out == out_src as int);
            assert(assignments.get_spec(out_id) == pre_greedy.get_spec(out_id));
            assert(assignments.get_spec(out_src_id) == pre_greedy.get_spec(out_src_id));
            assert(pre_greedy.get_spec(out_id) == Some(output_buffer));
            assert(pre_greedy.get_spec(out_src_id) == Some(output_buffer));
            assert forall|j: int| #[trigger] is_record(order@, j) && j != ts_out
                implies assignments.get_spec(node_id(order@, j)) != assignments.get_spec(
                node_id(order@, out as int),
            ) by {
                if pre_greedy.get_spec(node_id(order@, j)) is Some {
                    if node_id(order@, j) == out_id {
                        lemma_find_own(order@, j);
                        lemma_find_own(order@, out as int);
                        assert(j == out as int);
                        assert(is_record(order@, out as int));
                        let i0 = choose|i0: int| consumed_from(order@, out as int, i0);
                        let k0 = choose|k0: int|
                            0 <= k0 < order@[i0].op.srcs_spec().len() && !((
                            #[trigger] order@[i0].op.srcs_spec()[k0]).storage is Some) && 0
                                <= find_id(order@, order@[i0].op.srcs_spec()[k0].id)
                                < order@.len() && true_source(
                                order@,
                                find_id(order@, order@[i0].op.srcs_spec()[k0].id),
                            ) == out as int;
                        lemma_src_index(order@, i0, k0);
                        lemma_true_source_range(
                            order@,
                            find_id(order@, order@[i0].op.srcs_spec()[k0].id),
                        );
                        assert(false);
                    } else if node_id(order@, j) == out_src_id {
                        lemma_find_own(order@, j);
                        lemma_find_own(order@, out_src as int);
                        assert(j == ts_out);
                        assert(false);
                    } else {
                        assert(seeded.get_spec(node_id(order@, j)) is Some);
                        let i3 = choose|i3: int|
                            0 <= i3 < n && node_id(order@, i3) == node_id(order@, j)
                                && order@[i3].tensor@.storage is Some;
                        lemma_find_own(order@, i3);
                        lemma_find_own(order@, j);
                        assert(i3 == j);
                        assert(false);
                    }
                } else {
                    assert((assignments.get_spec(node_id(order@, j))) matches Some(b)
                        && b.0.handle >= l_greedy);
                    assert(output_buffer.0.handle < l_greedy);
                }
            }
            assert forall|j: int| #[trigger] is_record(order@, j)
                implies pre_greedy.get_spec(node_id(order@, j)) is Some ==> j == ts_out by {
                if pre_greedy.get_spec(node_id(order@, j)) is Some && j != ts_out {
                    if node_id(order@, j) == out_id {
                        lemma_find_own(order@, j);
                        lemma_find_own(order@, out as int);
                        assert(j == out as int);
                        let i0 = choose|i0: int| consumed_from(order@, out as int, i0);
                        let k0 = choose|k0: int|
                            0 <= k0 < order@[i0].op.srcs_spec().len() && !((
                            #[trigger] order@[i0].op.srcs_spec()[k0]).storage is Some) && 0
                                <= find_id(order@, order@[i0].op.srcs_spec()[k0].id)
                                < order@.len() && true_source(
                                order@,
                                find_id(order@, order@[i0].op.srcs_spec()[k0].id),
                            ) == out as int;
                        lemma_src_index(order@, i0, k0);
                        lemma_true_source_range(
                            order@,
                            find_id(order@, order@[i0].op.srcs_spec()[k0].id),
                        );
                        assert(false);
                    } else if node_id(order@, j) == out_src_id {
                        lemma_find_own(order@, j);
                        lemma_find_own(order@, out_src as int);
                        assert(false);
                    } else {
                        assert(seeded.get_spec(node_id(order@, j)) is Some);
                        let i3 = choose|i3: int|
                            0 <= i3 < n && node_id(order@, i3) == node_id(order@, j)
                                && order@[i3].tensor@.storage is Some;
                        lemma_find_own(order@, i3);
                        lemma_find_own(order@, j);
                        assert(i3 == j);
                        assert(false);
                    }
                }
            }
            assert forall|i2: int|
                0 <= i2 < order@.len() && ((#[trigger] order@[i2].tensor@.storage) matches Some(
                    Storage::GPU(b),
                )) implies assignments.get_spec(node_id(order@, i2)) == Some(
                GraphBuffer(order@[i2].tensor@.storage->Some_0->GPU_0),
            ) by {
                assert(seeded.get_spec(node_id(order@, i2)) == Some(
                    GraphBuffer(order@[i2].tensor@.storage->Some_0->GPU_0),
                ));
                if node_id(order@, i2) == out_id || node_id(order@, i2) == out_src_id {
                    if node_id(order@, i2) == out_id {
                        lemma_find_own(order@, i2);
                        lemma_find_own(order@, out as int);
                        assert(i2 == out as int);
                        assert(output_buffer == GraphBuffer(
                            order@[i2].tensor@.storage->Some_0->GPU_0,
                        )) by {
                            lemma_resolved_fixed(order@, out as int);
                            assert(out_src == out);
                        }
                    } else {
                        lemma_find_own(order@, i2);
                        lemma_find_own(order@, out_src as int);
                        assert(i2 == out_src as int);
                        assert(output_buffer == GraphBuffer(
                            order@[i2].tensor@.storage->Some_0->GPU_0,
                        ));
                    }
                }
            }
        }
        Ok(assignments)
    }
}


/// Whether source `c` of operation `a` is the tensor of an earlier node.
pub open spec fn src_linked(order: Seq<TensorNode>, a: int, c: int) -> bool {
    exists|j: int|
        0 <= j < a && (#[trigger] order[j].tensor@) == (#[trigger] order[a].op.srcs_spec()[c])
}

/// Decides at run time everything the planner's contract asks of an
/// execution order — for callers whose graphs arrive from outside the
/// process: a well-formed, topologically sorted order whose resident
/// buffers all came from a pool of `pool_len` entries.
pub fn check_order(order: &Vec<TensorNode>, pool_len: u64) -> (r: bool)
    ensures
        r == (wf_order(order@) && storage_handles_below(order@, pool_len as int)),
{
    let n: usize = order.len();
    if n < 1 {
        return false;
    }
    if n > u32::MAX as usize {
        return false;
    }
    let mut i: usize = 0;
    while i < n
        invariant
            i <= n,
            n == order@.len(),
            forall|a: int, b: int|
                0 <= a < b < i ==> order@[a].tensor@.id != order@[b].tensor@.id,
        decreases n - i,
    {
        let mut j: usize = 0;
        while j < i
            invariant
                j <= i < n,
                n == order@.len(),
                forall|b: int| 0 <= b < j ==> order@[b].tensor@.id != order@[i as int].tensor@.id,
            decreases i - j,
        {
            if order[j].tensor.id == order[i].tensor.id {
                proof {
                    assert(order@[j as int].tensor@.id == order@[i as int].tensor@.id);
                }
                return false;
            }
            j = j + 1;
        }
        i = i + 1;
    }
    let mut i2: usize = 0;
    while i2 < n
        invariant
            i2 <= n,
            n == order@.len(),
            forall|a: int| 0 <= a < i2 ==> (#[trigger] order@[a].op.srcs_spec()).len() <= 8,
            forall|a: int, c: int|
                0 <= a < i2 && 0 <= c < order@[a].op.srcs_spec().len() ==> #[trigger] src_linked(
                    order@,
                    a,
                    c,
                ),
            forall|a: int| 0 <= a < i2 ==> (#[trigger] order@[a].tensor).wf(),
            forall|a: int|
                0 <= a < i2 ==> ((#[trigger] order@[a].tensor@.storage) matches Some(
                    Storage::GPU(b),
                ) ==> b.handle < pool_len as int),
        decreases n - i2,
    {
        let srcs = order[i2].op.srcs();
        proof {
            assert(srcs.deep_view() == order@[i2 as int].op.srcs_spec());
        }
        let m: usize = srcs.len();
        if m > 8 {
            return false;
        }
        let mut k: usize = 0;
        while k < m
            invariant
                k <= m,
                i2 < n,
                n == order@.len(),
                m == srcs.deep_view().len(),
                srcs.deep_view() == order@[i2 as int].op.srcs_spec(),
                forall|k2: int| 0 <= k2 < k ==> #[trigger] src_linked(order@, i2 as int, k2),
            decreases m - k,
        {
            proof {
                assert(srcs.deep_view()[k as int] == srcs@[k as int].deep_view());
            }
            let mut found: bool = false;
            let mut j: usize = 0;
            while j < i2
                invariant
                    j <= i2 < n,
                    n == order@.len(),
                    k < m,
                    m == srcs.deep_view().len(),
                    srcs.deep_view() == order@[i2 as int].op.srcs_spec(),
                    srcs.deep_view()[k as int] == srcs@[k as int].deep_view(),
                    found <==> exists|j2: int|
                        0 <= j2 < j && (#[trigger] order@[j2].tensor@) == srcs.deep_view()[k as int],
                decreases i2 - j,
            {
                if order[j].tensor.view_eq(srcs[k]) {
                    found = true;
                    proof {
                        assert(order@[j as int].tensor@ == srcs.deep_view()[k as int]);
                    }
                }
                j = j + 1;
            }
            if !found {
                proof {
                    assert(!(exists|j2: int|
                        0 <= j2 < i2 && (#[trigger] order@[j2].tensor@) == order@[i2 as int].op.srcs_spec()[k as int]));
                    assert(!wf_order(order@));
                }
                return false;
            }
            proof {
                assert(exists|j2: int|
                    0 <= j2 < i2 && (#[trigger] order@[j2].tensor@) == (
                    #[trigger] order@[i2 as int].op.srcs_spec()[k as int]));
                assert(src_linked(order@, i2 as int, k as int));
            }
            k = k + 1;
        }
        proof {
            assert(forall|k2: int|
                0 <= k2 < order@[i2 as int].op.srcs_spec().len() ==> #[trigger] src_linked(
                    order@,
                    i2 as int,
                    k2,
                ));
        }
        if crate::op::checked_numel(&order[i2].tensor.view.shape).is_none() {
            proof {
                assert(!order@[i2 as int].tensor.wf());
            }
            return false;
        }
        if order[i2].tensor.view.strides.elems.len() != order[i2].tensor.view.shape.dims.len() {
            proof {
                assert(!order@[i2 as int].tensor.wf());
            }
            return false;
        }
        let handle_ok: bool = match &order[i2].tensor.storage {
            Option::Some(Storage::GPU(b)) => b.handle < pool_len,
            _ => true,
        };
        if !handle_ok {
            proof {
                assert(order@[i2 as int].tensor@.storage matches Some(Storage::GPU(b))
                    && b.handle >= pool_len);
                assert(!storage_handles_below(order@, pool_len as int));
            }
            return false;
        }
        proof {
            assert(order@[i2 as int].tensor@.storage matches Some(Storage::GPU(b)) ==> b.handle
                < pool_len as int);
            assert(order@[i2 as int].op.srcs_spec().len() <= 8);
            assert(order@[i2 as int].tensor.view.shape.wf());
            assert(order@[i2 as int].tensor.wf());
            assert forall|a: int, c: int|
                0 <= a < i2 + 1 && 0 <= c < order@[a].op.srcs_spec().len() implies #[trigger] src_linked(
                order@,
                a,
                c,
            ) by {
                if a == i2 as int {
                    assert(src_linked(order@, i2 as int, c));
                }
            }
        }
        i2 = i2 + 1;
    }
    proof {
        assert forall|a: int, c: int|
            0 <= a < order@.len() && 0 <= c < order@[a].op.srcs_spec().len() implies exists|j: int|
            0 <= j < a && (#[trigger] order@[j].tensor@) == (
            #[trigger] order@[a].op.srcs_spec()[c]) by {
            assert(src_linked(order@, a, c));
        }
        assert(wf_order(order@));
        assert(storage_handles_below(order@, pool_len as int));
    }
    true
}

} // verus!
