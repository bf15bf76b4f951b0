//! Buffers for processing the nodes of a graph: a pool of cleared buffers
//! and, for each node, the input and output buffers reused between calls.
//!
//! The sample type is generic; `zero` is the value a cleared buffer holds.
use crate::graph::NodeId;
use vstd::prelude::*;

verus! {

/// `n` copies of `zero`.
pub open spec fn zeros<T>(zero: T, n: nat) -> Seq<T> {
    Seq::new(n, |i: int| zero)
}

/// The buffer `b` brought to length `n`: cut, or extended with `zero`.
pub open spec fn resized<T>(b: Seq<T>, n: nat, zero: T) -> Seq<T> {
    if n <= b.len() {
        b.take(n as int)
    } else {
        b + zeros(zero, (n - b.len()) as nat)
    }
}

/// The samples of each buffer.
pub open spec fn buffers_view<T>(bufs: Seq<Vec<T>>) -> Seq<Seq<T>> {
    bufs.map_values(|b: Vec<T>| b@)
}

/// A node's buffers prepared for a call with `count` buffers of `size`
/// samples: when the count changed, `count` fresh cleared buffers; otherwise
/// each buffer is cleared if it has the right length, and resized (keeping
/// its samples) if not.
pub open spec fn prepared<T>(bufs: Seq<Seq<T>>, count: nat, size: nat, zero: T) -> Seq<Seq<T>> {
    if bufs.len() != count {
        Seq::new(count, |i: int| zeros(zero, size))
    } else {
        bufs.map_values(
            |b: Seq<T>|
                if b.len() != size {
                    resized(b, size, zero)
                } else {
                    zeros(zero, size)
                },
        )
    }
}

/// Number of buffers a pool holding `available` buffers hands out for a
/// call with `count` buffers: it runs dry after `available`.
pub open spec fn after_acquiring(available: nat, count: nat) -> nat {
    if count <= available {
        (available - count) as nat
    } else {
        0
    }
}

/// Number of the buffers `bufs` that have `size` samples.
pub open spec fn sized_count<T>(bufs: Seq<Seq<T>>, size: nat) -> nat
    decreases bufs.len(),
{
    if bufs.len() == 0 {
        0
    } else {
        sized_count(bufs.drop_last(), size) + if bufs.last().len() == size {
            1nat
        } else {
            0nat
        }
    }
}

/// Number of the buffers of all the nodes in `list` that have `size`
/// samples.
pub open spec fn returned_count<T>(list: Seq<NodeBuffers<T>>, size: nat) -> nat
    decreases list.len(),
{
    if list.len() == 0 {
        0
    } else {
        returned_count(list.drop_last(), size) + sized_count(list.last().inputs_view(), size)
            + sized_count(list.last().outputs_view(), size)
    }
}

/// Temporary buffers of one node.
pub struct NodeBuffers<T> {
    /// Input buffers.
    pub inputs: Vec<Vec<T>>,
    /// Output buffers.
    pub outputs: Vec<Vec<T>>,
}

impl<T> NodeBuffers<T> {
    /// Samples of each input buffer.
    pub open spec fn inputs_view(&self) -> Seq<Seq<T>> {
        buffers_view(self.inputs@)
    }

    /// Samples of each output buffer.
    pub open spec fn outputs_view(&self) -> Seq<Seq<T>> {
        buffers_view(self.outputs@)
    }

    /// No buffers.
    pub fn new() -> (b: Self)
        ensures
            b.inputs@.len() == 0,
            b.outputs@.len() == 0,
    {
        NodeBuffers { inputs: Vec::new(), outputs: Vec::new() }
    }
}

/// Pool of cleared buffers of one length, for reuse.
pub struct BufferPool<T> {
    buffers: Vec<Vec<T>>,
    buffer_size: usize,
    zero: T,
}

impl<T: Copy> BufferPool<T> {
    /// Every pooled buffer is cleared and has the pool's length.
    pub closed spec fn wf(&self) -> bool {
        forall|i: int|
            0 <= i < self.buffers@.len() ==> (#[trigger] self.buffers@[i])@ == zeros(
                self.zero,
                self.buffer_size as nat,
            )
    }

    /// Number of buffers in the pool.
    pub closed spec fn available(&self) -> nat {
        self.buffers@.len()
    }

    /// Length of the pooled buffers.
    pub closed spec fn size(&self) -> nat {
        self.buffer_size as nat
    }

    /// The value of a cleared sample.
    pub closed spec fn zero_value(&self) -> T {
        self.zero
    }

    /// A pool of `pool_size` cleared buffers of `buffer_size` samples.
    pub fn new(pool_size: usize, buffer_size: usize, zero: T) -> (p: Self)
        ensures
            p.wf(),
            p.available() == pool_size,
            p.size() == buffer_size,
            p.zero_value() == zero,
    {
        let mut buffers: Vec<Vec<T>> = Vec::new();
        let mut i: usize = 0;
        while i < pool_size
            invariant
                i <= pool_size,
                buffers@.len() == i,
                forall|j: int|
                    0 <= j < i ==> (#[trigger] buffers@[j])@ == zeros(zero, buffer_size as nat),
            decreases pool_size - i,
        {
            buffers.push(cleared_buffer(buffer_size, zero));
            i = i + 1;
        }
        BufferPool { buffers, buffer_size, zero }
    }

    /// Take a cleared buffer of `size` samples: a pooled one brought to that
    /// length, or a new one when the pool is empty.
    pub fn acquire(&mut self, size: usize) -> (b: Vec<T>)
        requires
            old(self).wf(),
        ensures
            final(self).wf(),
            b@ == zeros(old(self).zero_value(), size as nat),
            final(self).available() == after_acquiring(old(self).available(), 1),
            final(self).size() == old(self).size(),
            final(self).zero_value() == old(self).zero_value(),
    {
        match self.buffers.pop() {
            Some(mut buffer) => {
                proof {
                    assert(buffer@ == old(self).buffers@[old(self).buffers@.len() - 1]@);
                }
                if buffer.len() != size {
                    resize_buffer(&mut buffer, size, self.zero);
                } else {
                    fill_buffer(&mut buffer, self.zero);
                }
                proof {
                    assert(buffer@ =~= zeros(self.zero, size as nat));
                }
                buffer
            },
            None => cleared_buffer(size, self.zero),
        }
    }

    /// Return a buffer to the pool, cleared; a buffer of another length is
    /// dropped.
    pub fn release(&mut self, buffer: Vec<T>)
        requires
            old(self).wf(),
        ensures
            final(self).wf(),
            final(self).available() == if buffer@.len() == old(self).size() {
                old(self).available() + 1
            } else {
                old(self).available()
            },
            final(self).size() == old(self).size(),
            final(self).zero_value() == old(self).zero_value(),
    {
        let mut buffer = buffer;
        if buffer.len() == self.buffer_size {
            fill_buffer(&mut buffer, self.zero);
            self.buffers.push(buffer);
            proof {
                assert forall|i: int| 0 <= i < self.buffers@.len() implies (
                #[trigger] self.buffers@[i])@ == zeros(self.zero, self.buffer_size as nat) by {
                    if i < self.buffers@.len() - 1 {
                        assert(self.buffers@[i] == old(self).buffers@[i]);
                    }
                }
            }
        }
    }
}

/// A buffer of `size` copies of `zero`.
fn cleared_buffer<T: Copy>(size: usize, zero: T) -> (b: Vec<T>)
    ensures
        b@ == zeros(zero, size as nat),
{
    let mut b: Vec<T> = Vec::new();
    let mut i: usize = 0;
    while i < size
        invariant
            i <= size,
            b@ == zeros(zero, i as nat),
        decreases size - i,
    {
        b.push(zero);
        i = i + 1;
        assert(b@ =~= zeros(zero, i as nat));
    }
    b
}

/// Overwrite every sample of `b` with `zero`.
fn fill_buffer<T: Copy>(b: &mut Vec<T>, zero: T)
    ensures
        final(b)@ == zeros(zero, old(b)@.len()),
{
    let mut i: usize = 0;
    while i < b.len()
        invariant
            i <= b@.len(),
            b@.len() == old(b)@.len(),
            forall|j: int| 0 <= j < i ==> b@[j] == zero,
        decreases b@.len() - i,
    {
        b.set(i, zero);
        i = i + 1;
    }
    assert(b@ =~= zeros(zero, old(b)@.len()));
}

/// Bring `b` to `size` samples, keeping its first samples and extending it
/// with `zero`.
fn resize_buffer<T: Copy>(b: &mut Vec<T>, size: usize, zero: T)
    ensures
        final(b)@ == resized(old(b)@, size as nat, zero),
{
    if size <= b.len() {
        b.truncate(size);
        assert(b@ =~= old(b)@.take(size as int));
    } else {
        let old_len = b.len();
        while b.len() < size
            invariant
                old_len == old(b)@.len(),
                old_len <= b@.len() <= size,
                b@ == old(b)@ + zeros(zero, (b@.len() - old_len) as nat),
            decreases size - b@.len(),
        {
            let ghost prev = b@;
            b.push(zero);
            assert(b@ =~= old(b)@ + zeros(zero, (b@.len() - old_len) as nat));
        }
    }
}

/// Per-node buffers of a graph, taken from a shared pool.
pub struct BufferManager<T> {
    nodes: Vec<NodeId>,
    node_buffers: Vec<NodeBuffers<T>>,
    buffer_pool: BufferPool<T>,
}

impl<T: Copy> BufferManager<T> {
    /// One set of buffers per node, no node twice.
    pub closed spec fn wf(&self) -> bool {
        &&& self.buffer_pool.wf()
        &&& self.nodes@.len() == self.node_buffers@.len()
        &&& self.nodes@.no_duplicates()
    }

    /// The nodes that have buffers.
    pub closed spec fn node_list(&self) -> Seq<NodeId> {
        self.nodes@
    }

    /// The buffers of each node, in the order of `node_list`.
    pub closed spec fn buffer_list(&self) -> Seq<NodeBuffers<T>> {
        self.node_buffers@
    }

    /// The pool the buffers are taken from.
    pub closed spec fn pool(&self) -> BufferPool<T> {
        self.buffer_pool
    }

    /// A manager with no node buffers and a pool of 16 cleared buffers of
    /// 4096 samples.
    pub fn new(zero: T) -> (m: Self)
        ensures
            m.wf(),
            m.node_list() == Seq::<NodeId>::empty(),
            m.buffer_list() == Seq::<NodeBuffers<T>>::empty(),
            m.pool().available() == 16,
            m.pool().size() == 4096,
            m.pool().zero_value() == zero,
    {
        BufferManager {
            nodes: Vec::new(),
            node_buffers: Vec::new(),
            buffer_pool: BufferPool::new(16, 4096, zero),
        }
    }

    /// Position of `node` among the nodes that have buffers.
    fn find(&self, node: NodeId) -> (r: Option<usize>)
        requires
            self.wf(),
        ensures
            match r {
                Some(i) => i < self.nodes@.len() && self.nodes@[i as int] == node,
                None => !self.nodes@.contains(node),
            },
    {
        let mut i: usize = 0;
        while i < self.nodes.len()
            invariant
                i <= self.nodes@.len(),
                forall|j: int| 0 <= j < i ==> self.nodes@[j] != node,
            decreases self.nodes@.len() - i,
        {
            if self.nodes[i] == node {
                return Some(i);
            }
            i = i + 1;
        }
        None
    }

    /// Bring one list of buffers to `count` buffers of `size` samples, as
    /// `prepared` describes, taking fresh buffers from the pool when the
    /// count changed.
    fn prepare(
        pool: &mut BufferPool<T>,
        bufs: &mut Vec<Vec<T>>,
        count: usize,
        size: usize,
    )
        requires
            old(pool).wf(),
        ensures
            final(pool).wf(),
            buffers_view(final(bufs)@) == prepared(
                buffers_view(old(bufs)@),
                count as nat,
                size as nat,
                old(pool).zero_value(),
            ),
            final(pool).available() == if old(bufs)@.len() != count {
                after_acquiring(old(pool).available(), count as nat)
            } else {
                old(pool).available()
            },
            final(pool).size() == old(pool).size(),
            final(pool).zero_value() == old(pool).zero_value(),
    {
        let zero = pool.zero;
        if bufs.len() != count {
            bufs.clear();
            let mut i: usize = 0;
            while i < count
                invariant
                    pool.wf(),
                    pool.zero == zero,
                    zero == old(pool).zero_value(),
                    pool.size() == old(pool).size(),
                    i <= count,
                    bufs@.len() == i,
                    forall|j: int|
                        0 <= j < i ==> (#[trigger] bufs@[j])@ == zeros(zero, size as nat),
                    pool.available() == after_acquiring(old(pool).available(), i as nat),
                decreases count - i,
            {
                let b = pool.acquire(size);
                bufs.push(b);
                i = i + 1;
            }
            assert(buffers_view(bufs@) =~= Seq::new(count as nat, |i: int| zeros(zero, size as nat)));
        } else {
            let mut i: usize = 0;
            while i < bufs.len()
                invariant
                    i <= bufs@.len(),
                    bufs@.len() == old(bufs)@.len(),
                    forall|j: int|
                        0 <= j < i ==> (#[trigger] bufs@[j])@ == (if old(bufs)@[j]@.len() != size {
                            resized(old(bufs)@[j]@, size as nat, zero)
                        } else {
                            zeros(zero, size as nat)
                        }),
                    forall|j: int| i <= j < bufs@.len() ==> #[trigger] bufs@[j] == old(bufs)@[j],
                decreases bufs@.len() - i,
            {
                let mut b: Vec<T> = Vec::new();
                std::mem::swap(&mut b, &mut bufs[i]);
                if b.len() != size {
                    resize_buffer(&mut b, size, zero);
                } else {
                    fill_buffer(&mut b, zero);
                }
                bufs.set(i, b);
                i = i + 1;
            }
            assert(buffers_view(bufs@) =~= prepared(
                buffers_view(old(bufs)@),
                count as nat,
                size as nat,
                zero,
            ));
        }
    }

    /// Return every buffer of `bufs` to the pool.
    fn release_list(pool: &mut BufferPool<T>, bufs: Vec<Vec<T>>)
        requires
            old(pool).wf(),
        ensures
            final(pool).wf(),
            final(pool).available() == old(pool).available() + sized_count(
                buffers_view(bufs@),
                old(pool).size(),
            ),
            final(pool).size() == old(pool).size(),
            final(pool).zero_value() == old(pool).zero_value(),
    {
        let mut bufs = bufs;
        let ghost all = buffers_view(bufs@);
        while bufs.len() > 0
            invariant
                pool.wf(),
                pool.size() == old(pool).size(),
                pool.zero_value() == old(pool).zero_value(),
                pool.available() + sized_count(buffers_view(bufs@), pool.size()) == old(
                    pool,
                ).available() + sized_count(all, pool.size()),
            decreases bufs@.len(),
        {
            let ghost before = bufs@;
            let b = bufs.pop().unwrap();
            assert(buffers_view(before).drop_last() =~= buffers_view(bufs@));
            pool.release(b);
        }
    }

    /// Return every node buffer to the pool and forget the nodes.
    pub fn release_all(&mut self)
        requires
            old(self).wf(),
        ensures
            final(self).wf(),
            final(self).node_list() == Seq::<NodeId>::empty(),
            final(self).buffer_list() == Seq::<NodeBuffers<T>>::empty(),
            final(self).pool().available() == old(self).pool().available() + returned_count(
                old(self).buffer_list(),
                old(self).pool().size(),
            ),
            final(self).pool().size() == old(self).pool().size(),
            final(self).pool().zero_value() == old(self).pool().zero_value(),
    {
        let mut entries: Vec<NodeBuffers<T>> = Vec::new();
        std::mem::swap(&mut entries, &mut self.node_buffers);
        let ghost all = entries@;
        while entries.len() > 0
            invariant
                self.node_buffers@.len() == 0,
                self.buffer_pool.wf(),
                self.buffer_pool.size() == old(self).pool().size(),
                self.buffer_pool.zero_value() == old(self).pool().zero_value(),
                self.buffer_pool.available() + returned_count(entries@, self.buffer_pool.size())
                    == old(self).pool().available() + returned_count(all, self.buffer_pool.size()),
            decreases entries@.len(),
        {
            let ghost before = entries@;
            let nb = entries.pop().unwrap();
            assert(before.drop_last() =~= entries@);
            Self::release_list(&mut self.buffer_pool, nb.inputs);
            Self::release_list(&mut self.buffer_pool, nb.outputs);
        }
        self.nodes.clear();
    }

    /// The buffers of `node_id`, prepared for a call with `num_inputs`
    /// input and `num_outputs` output buffers of `buffer_size` samples (see
    /// `prepared`); a node met for the first time gets its entry first.
    pub fn get_buffers(
        &mut self,
        node_id: NodeId,
        num_inputs: usize,
        num_outputs: usize,
        buffer_size: usize,
    ) -> (r: &mut NodeBuffers<T>)
        requires
            old(self).wf(),
        ensures
            final(self).wf(),
            final(self).node_list().len() == final(self).buffer_list().len(),
            final(self).pool().size() == old(self).pool().size(),
            final(self).pool().zero_value() == old(self).pool().zero_value(),
            ({
                let known = old(self).node_list().contains(node_id);
                let i = old(self).node_list().index_of(node_id);
                let zero = old(self).pool().zero_value();
                let ins: Seq<Seq<T>> = if known {
                    old(self).buffer_list()[i].inputs_view()
                } else {
                    Seq::empty()
                };
                let outs: Seq<Seq<T>> = if known {
                    old(self).buffer_list()[i].outputs_view()
                } else {
                    Seq::empty()
                };
                let after_inputs = if ins.len() != num_inputs {
                    after_acquiring(old(self).pool().available(), num_inputs as nat)
                } else {
                    old(self).pool().available()
                };
                &&& r.inputs_view() == prepared(ins, num_inputs as nat, buffer_size as nat, zero)
                &&& r.outputs_view() == prepared(outs, num_outputs as nat, buffer_size as nat, zero)
                &&& final(self).pool().available() == if outs.len() != num_outputs {
                    after_acquiring(after_inputs, num_outputs as nat)
                } else {
                    after_inputs
                }
                &&& known ==> final(self).node_list() == old(self).node_list()
                    && final(self).buffer_list() == old(self).buffer_list().update(i, *final(r))
                &&& !known ==> final(self).node_list() == old(self).node_list().push(node_id)
                    && final(self).buffer_list() == old(self).buffer_list().push(*final(r))
            }),
    {
        let idx = match self.find(node_id) {
            Some(i) => i,
            None => {
                self.nodes.push(node_id);
                self.node_buffers.push(NodeBuffers::new());
                self.nodes.len() - 1
            },
        };
        let mut buffers = NodeBuffers::new();
        std::mem::swap(&mut buffers, &mut self.node_buffers[idx]);
        Self::prepare(&mut self.buffer_pool, &mut buffers.inputs, num_inputs, buffer_size);
        Self::prepare(&mut self.buffer_pool, &mut buffers.outputs, num_outputs, buffer_size);
        self.node_buffers.set(idx, buffers);
        &mut self.node_buffers[idx]
    }
}

/// Runs one node over its buffers; the processing itself belongs to the
/// node.
pub struct NodeProcessor;

impl NodeProcessor {
    /// A processor.
    pub fn new() -> Self {
        NodeProcessor
    }
}

} // verus!
