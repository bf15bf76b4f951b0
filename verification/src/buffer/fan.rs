//! Fan-out and fan-in buffers for routing one producer to several consumers
//! and several producers to one consumer.
use crate::buffer::pipe::block_view;
use crate::buffer::StatsCounts;
use vstd::prelude::*;

verus! {

/// Buffer broadcasting blocks of `N` samples from one producer to
/// `CONSUMERS` consumers; each consumer reads each written block once.
pub struct FanOutBuffer<T, const N: usize, const CONSUMERS: usize> {
    storage: [T; N],
    version: usize,
    read_versions: Vec<usize>,
    valid: bool,
    stats: StatsCounts,
}

impl<T: Copy, const N: usize, const CONSUMERS: usize> FanOutBuffer<T, N, CONSUMERS> {
    /// The block last written.
    pub closed spec fn block(&self) -> Seq<T> {
        self.storage@
    }

    /// Number of writes since creation.
    pub closed spec fn version(&self) -> nat {
        self.version as nat
    }

    /// For each consumer, the version it last read (0 before its first read
    /// and after a reset).
    pub closed spec fn last_read(&self) -> Seq<usize> {
        self.read_versions@
    }

    /// The statistics counters.
    pub closed spec fn stats(&self) -> StatsCounts {
        self.stats
    }

    /// Whether a block has been written since creation or the last reset.
    pub closed spec fn valid(&self) -> bool {
        self.valid
    }

    /// Whether consumer `c` has a block it has not read.
    pub open spec fn has_new(&self, c: int) -> bool {
        self.last_read()[c] != self.version() && self.valid()
    }

    /// One read version per consumer, none ahead of the writes.
    pub closed spec fn wf(&self) -> bool {
        &&& CONSUMERS > 0
        &&& self.read_versions@.len() == CONSUMERS
        &&& forall|c: int| 0 <= c < CONSUMERS ==> self.read_versions@[c] <= self.version
    }

    /// Create an empty fan-out buffer whose storage holds `fill`.
    pub fn new(fill: T) -> (b: Self)
        requires
            CONSUMERS > 0,
        ensures
            b.wf(),
            !b.valid(),
            b.version() == 0,
            b.last_read() == Seq::new(CONSUMERS as nat, |i: int| 0usize),
            b.block() == Seq::new(N as nat, |i: int| fill),
            b.stats() == StatsCounts::zero(),
    {
        let mut read_versions: Vec<usize> = Vec::new();
        let mut i: usize = 0;
        while i < CONSUMERS
            invariant
                i <= CONSUMERS,
                read_versions@ == Seq::new(i as nat, |j: int| 0usize),
            decreases CONSUMERS - i,
        {
            read_versions.push(0);
            i = i + 1;
            assert(read_versions@ =~= Seq::new(i as nat, |j: int| 0usize));
        }
        let b = FanOutBuffer {
            storage: [fill; N],
            version: 0,
            read_versions,
            valid: false,
            stats: StatsCounts::new(),
        };
        assert(b.block() =~= Seq::new(N as nat, |i: int| fill));
        b
    }

    /// Write a block for all consumers. The version goes up by one with no
    /// wrap, so it must be below `usize::MAX`.
    pub fn write(&mut self, data: &[T; N])
        requires
            old(self).wf(),
            old(self).version() < usize::MAX,
        ensures
            final(self).wf(),
            fan_out_written(*old(self), data@, *final(self)),
    {
        self.storage = *data;
        self.version = self.version + 1;
        self.valid = true;
        self.stats.record_write();
        self.stats.update_peak(1);
    }

    /// Read the current block for `consumer_id` if that consumer has not read
    /// it yet; `None` for an unknown consumer.
    pub fn try_read(&mut self, consumer_id: usize) -> (r: Option<[T; N]>)
        requires
            old(self).wf(),
        ensures
            final(self).wf(),
            fan_out_taken(*old(self), consumer_id as int, block_view(r), *final(self)),
    {
        if consumer_id >= CONSUMERS {
            return None;
        }
        let current_version = self.version;
        let last_read = self.read_versions[consumer_id];
        if last_read == current_version || !self.valid {
            self.stats.record_underflow();
            return None;
        }
        let result = self.storage;
        self.read_versions.set(consumer_id, current_version);
        self.stats.record_read();
        Some(result)
    }

    /// Whether `consumer_id` has a block it has not read.
    pub fn has_new_data(&self, consumer_id: usize) -> (r: bool)
        requires
            self.wf(),
        ensures
            r == (consumer_id < CONSUMERS && self.has_new(consumer_id as int)),
    {
        if consumer_id >= CONSUMERS {
            return false;
        }
        let current_version = self.version;
        let last_read = self.read_versions[consumer_id];
        current_version != last_read && self.valid
    }

    /// Number of consumers.
    pub fn consumer_count(&self) -> (r: usize)
        ensures
            r == CONSUMERS,
    {
        CONSUMERS
    }

    /// Number of writes so far.
    pub fn current_version(&self) -> (r: usize)
        ensures
            r == self.version(),
    {
        self.version
    }

    /// The version `consumer_id` last read; `None` for an unknown consumer.
    pub fn last_read_version(&self, consumer_id: usize) -> (r: Option<usize>)
        requires
            self.wf(),
        ensures
            r == if consumer_id < CONSUMERS {
                Some(self.last_read()[consumer_id as int])
            } else {
                None::<usize>
            },
    {
        if consumer_id >= CONSUMERS {
            None
        } else {
            Some(self.read_versions[consumer_id])
        }
    }

    /// Mark the buffer empty, forget what each consumer read, and reset the
    /// statistics; the version count is kept.
    pub fn reset(&mut self)
        requires
            old(self).wf(),
        ensures
            final(self).wf(),
            !final(self).valid(),
            final(self).version() == old(self).version(),
            final(self).block() == old(self).block(),
            final(self).last_read() == Seq::new(CONSUMERS as nat, |i: int| 0usize),
            final(self).stats() == StatsCounts::zero(),
    {
        self.valid = false;
        let mut i: usize = 0;
        while i < CONSUMERS
            invariant
                i <= CONSUMERS,
                self.read_versions@.len() == CONSUMERS,
                forall|j: int| 0 <= j < i ==> self.read_versions@[j] == 0,
                self.version == old(self).version,
                self.storage == old(self).storage,
                !self.valid,
            decreases CONSUMERS - i,
        {
            self.read_versions.set(i, 0);
            i = i + 1;
        }
        self.stats.reset();
        assert(self.read_versions@ =~= Seq::new(CONSUMERS as nat, |i: int| 0usize));
    }

    /// Capacity of a block in samples.
    pub fn capacity(&self) -> (r: usize)
        ensures
            r == N,
    {
        N
    }

    /// Number of blocks held: 1 once a block was written since creation or
    /// the last reset, else 0.
    pub fn len(&self) -> (r: usize)
        ensures
            r == if self.valid() {
                1usize
            } else {
                0usize
            },
    {
        if self.valid {
            1
        } else {
            0
        }
    }

    /// The statistics counters of this buffer.
    pub fn stats_counts(&self) -> (r: StatsCounts)
        ensures
            r == self.stats(),
    {
        self.stats.counts()
    }
}

/// Buffer gathering blocks of `N` samples from `PRODUCERS` producers for one
/// consumer, which mixes the fresh blocks.
///
/// A producer's block is fresh while its write count exceeds the number of
/// reads the consumer has made.
pub struct FanInBuffer<T, const N: usize, const PRODUCERS: usize> {
    storage: Vec<[T; N]>,
    valid: Vec<bool>,
    write_seq: Vec<usize>,
    read_seq: usize,
    stats: StatsCounts,
}

impl<T: Copy, const N: usize, const PRODUCERS: usize> FanInBuffer<T, N, PRODUCERS> {
    /// The block each producer last wrote.
    pub closed spec fn blocks(&self) -> Seq<Seq<T>> {
        self.storage@.map_values(|b: [T; N]| b@)
    }

    /// The statistics counters.
    pub closed spec fn stats(&self) -> StatsCounts {
        self.stats
    }

    /// Whether each producer has written since creation or its last clear.
    pub closed spec fn valid(&self) -> Seq<bool> {
        self.valid@
    }

    /// Write count of each producer.
    pub closed spec fn write_counts(&self) -> Seq<usize> {
        self.write_seq@
    }

    /// Number of successful reads of the consumer.
    pub closed spec fn reads(&self) -> nat {
        self.read_seq as nat
    }

    /// Whether producer `p` holds a fresh block.
    pub open spec fn is_fresh(&self, p: int) -> bool {
        self.valid()[p] && self.write_counts()[p] > self.reads()
    }

    /// One slot per producer.
    pub closed spec fn wf(&self) -> bool {
        &&& PRODUCERS > 0
        &&& self.storage@.len() == PRODUCERS
        &&& self.valid@.len() == PRODUCERS
        &&& self.write_seq@.len() == PRODUCERS
    }

    /// Create an empty fan-in buffer whose storage holds `fill`.
    pub fn new(fill: T) -> (b: Self)
        requires
            PRODUCERS > 0,
        ensures
            b.wf(),
            b.valid() == Seq::new(PRODUCERS as nat, |i: int| false),
            b.write_counts() == Seq::new(PRODUCERS as nat, |i: int| 0usize),
            b.reads() == 0,
            b.stats() == StatsCounts::zero(),
    {
        let mut storage: Vec<[T; N]> = Vec::new();
        let mut valid: Vec<bool> = Vec::new();
        let mut write_seq: Vec<usize> = Vec::new();
        let mut i: usize = 0;
        while i < PRODUCERS
            invariant
                i <= PRODUCERS,
                storage@.len() == i,
                valid@ == Seq::new(i as nat, |j: int| false),
                write_seq@ == Seq::new(i as nat, |j: int| 0usize),
            decreases PRODUCERS - i,
        {
            storage.push([fill; N]);
            valid.push(false);
            write_seq.push(0);
            i = i + 1;
            assert(valid@ =~= Seq::new(i as nat, |j: int| false));
            assert(write_seq@ =~= Seq::new(i as nat, |j: int| 0usize));
        }
        FanInBuffer { storage, valid, write_seq, read_seq: 0, stats: StatsCounts::new() }
    }

    /// Write a block from `producer_id`; an unknown producer is ignored.
    pub fn write(&mut self, producer_id: usize, data: &[T; N])
        requires
            old(self).wf(),
            producer_id < PRODUCERS ==> old(self).write_counts()[producer_id as int] < usize::MAX,
        ensures
            final(self).wf(),
            fan_in_written(*old(self), producer_id as int, data@, *final(self)),
    {
        if producer_id >= PRODUCERS {
            return;
        }
        self.storage.set(producer_id, *data);
        self.valid.set(producer_id, true);
        let seq = self.write_seq[producer_id];
        self.write_seq.set(producer_id, seq + 1);
        self.stats.record_write();
        assert(self.blocks() =~= old(self).blocks().update(producer_id as int, data@));
    }

    /// Take the fresh blocks, in producer order, for the consumer to mix.
    ///
    /// When at least one producer is fresh, the read count advances by one
    /// and the blocks of all fresh producers are returned; otherwise `None`.
    pub fn try_read_blocks(&mut self) -> (r: Option<Vec<[T; N]>>)
        requires
            old(self).wf(),
        ensures
            final(self).wf(),
            fan_in_taken(*old(self), blocks_view(r), *final(self)),
            r matches Some(v) ==> v@.len() == fresh_count(
                old(self).valid(),
                old(self).write_counts(),
                old(self).reads(),
                PRODUCERS as int,
            ),
            r matches Some(v) ==> forall|k: int|
                0 <= k < v@.len() ==> exists|p: int|
                    0 <= p < PRODUCERS && old(self).is_fresh(p) && #[trigger] v@[k]@
                        == old(self).blocks()[p],
    {
        proof {
            lemma_fresh_count_is_len(
                self.blocks(),
                self.valid(),
                self.write_counts(),
                self.reads(),
                PRODUCERS as int,
            );
        }
        let mut result: Vec<[T; N]> = Vec::new();
        let current_seq = self.read_seq;
        let mut producer: usize = 0;
        while producer < PRODUCERS
            invariant
                self.wf(),
                self == old(self),
                current_seq == self.read_seq,
                producer <= PRODUCERS,
                result@.map_values(|b: [T; N]| b@) == fresh_blocks(
                    self.blocks(),
                    self.valid(),
                    self.write_counts(),
                    self.reads(),
                    producer as int,
                ),
                result@.len() == 0 ==> forall|p: int| 0 <= p < producer ==> !self.is_fresh(p),
                result@.len() > 0 ==> self.read_seq < usize::MAX,
            decreases PRODUCERS - producer,
        {
            if self.valid[producer] && self.write_seq[producer] > current_seq {
                let ghost prev = result@;
                result.push(self.storage[producer]);
                assert(result@.map_values(|b: [T; N]| b@) =~= prev.map_values(|b: [T; N]| b@).push(
                    self.storage@[producer as int]@,
                ));
            }
            producer = producer + 1;
        }
        if result.len() > 0 {
            self.read_seq = self.read_seq + 1;
            self.stats.record_read();
            self.stats.update_peak(result.len());
            proof {
                let idx = lemma_fresh_blocks_positions(
                    old(self).blocks(),
                    old(self).valid(),
                    old(self).write_counts(),
                    old(self).reads(),
                    PRODUCERS as int,
                );
                let fb = fresh_blocks(
                    old(self).blocks(),
                    old(self).valid(),
                    old(self).write_counts(),
                    old(self).reads(),
                    PRODUCERS as int,
                );
                assert forall|k: int| 0 <= k < result@.len() implies exists|p: int|
                    0 <= p < PRODUCERS && old(self).is_fresh(p) && #[trigger] result@[k]@
                        == old(self).blocks()[p] by {
                    assert(result@.map_values(|b: [T; N]| b@)[k] == fb[k]);
                    assert(fb[k] == old(self).blocks()[idx[k]]);
                    assert(old(self).is_fresh(idx[k]));
                }
            }
            Some(result)
        } else {
            self.stats.record_underflow();
            None
        }
    }

    /// Number of producers.
    pub fn producer_count(&self) -> (r: usize)
        ensures
            r == PRODUCERS,
    {
        PRODUCERS
    }

    /// Whether `producer_id` holds a fresh block.
    pub fn producer_has_data(&self, producer_id: usize) -> (r: bool)
        requires
            self.wf(),
        ensures
            r == (producer_id < PRODUCERS && self.is_fresh(producer_id as int)),
    {
        if producer_id >= PRODUCERS {
            return false;
        }
        let write_seq = self.write_seq[producer_id];
        let read_seq = self.read_seq;
        write_seq > read_seq && self.valid[producer_id]
    }

    /// Number of successful reads of the consumer.
    pub fn read_seq(&self) -> (r: usize)
        ensures
            r == self.reads(),
    {
        self.read_seq
    }

    /// Write count of `producer_id`; `None` for an unknown producer.
    pub fn write_seq(&self, producer_id: usize) -> (r: Option<usize>)
        requires
            self.wf(),
        ensures
            r == if producer_id < PRODUCERS {
                Some(self.write_counts()[producer_id as int])
            } else {
                None::<usize>
            },
    {
        if producer_id >= PRODUCERS {
            None
        } else {
            Some(self.write_seq[producer_id])
        }
    }

    /// Number of producers holding a fresh block.
    pub fn len(&self) -> (r: usize)
        requires
            self.wf(),
        ensures
            r == fresh_count(self.valid(), self.write_counts(), self.reads(), PRODUCERS as int),
    {
        let mut count: usize = 0;
        let mut producer: usize = 0;
        while producer < PRODUCERS
            invariant
                self.wf(),
                producer <= PRODUCERS,
                count == fresh_count(self.valid(), self.write_counts(), self.reads(), producer as int),
                count <= producer,
            decreases PRODUCERS - producer,
        {
            if self.write_seq[producer] > self.read_seq && self.valid[producer] {
                count = count + 1;
            }
            producer = producer + 1;
        }
        count
    }

    /// Reset every producer and the read count, and the statistics.
    pub fn reset(&mut self)
        requires
            old(self).wf(),
        ensures
            final(self).wf(),
            final(self).blocks() == old(self).blocks(),
            final(self).valid() == Seq::new(PRODUCERS as nat, |i: int| false),
            final(self).write_counts() == Seq::new(PRODUCERS as nat, |i: int| 0usize),
            final(self).reads() == 0,
            final(self).stats() == StatsCounts::zero(),
    {
        let mut producer: usize = 0;
        while producer < PRODUCERS
            invariant
                self.wf(),
                producer <= PRODUCERS,
                self.storage == old(self).storage,
                forall|j: int| 0 <= j < producer ==> !self.valid@[j] && self.write_seq@[j] == 0,
            decreases PRODUCERS - producer,
        {
            self.valid.set(producer, false);
            self.write_seq.set(producer, 0);
            producer = producer + 1;
        }
        self.read_seq = 0;
        self.stats.reset();
        assert(self.valid@ =~= Seq::new(PRODUCERS as nat, |i: int| false));
        assert(self.write_seq@ =~= Seq::new(PRODUCERS as nat, |i: int| 0usize));
    }

    /// Clear one producer; an unknown producer is ignored.
    pub fn clear_producer(&mut self, producer_id: usize)
        requires
            old(self).wf(),
        ensures
            final(self).wf(),
            final(self).blocks() == old(self).blocks(),
            final(self).reads() == old(self).reads(),
            final(self).stats() == old(self).stats(),
            producer_id < PRODUCERS ==> final(self).valid() == old(self).valid().update(
                producer_id as int,
                false,
            ) && final(self).write_counts() == old(self).write_counts().update(
                producer_id as int,
                0usize,
            ),
            producer_id >= PRODUCERS ==> final(self).valid() == old(self).valid()
                && final(self).write_counts() == old(self).write_counts(),
    {
        if producer_id < PRODUCERS {
            self.valid.set(producer_id, false);
            self.write_seq.set(producer_id, 0);
        }
    }

    /// Capacity in samples over all producers; `N * PRODUCERS` must fit in a word.
    pub fn capacity(&self) -> (r: usize)
        requires
            N * PRODUCERS <= usize::MAX,
        ensures
            r == N * PRODUCERS,
    {
        N * PRODUCERS
    }

    /// The statistics counters of this buffer.
    pub fn stats_counts(&self) -> (r: StatsCounts)
        ensures
            r == self.stats(),
    {
        self.stats.counts()
    }
}

/// `after` is the fan-out buffer `before` once `data` was written: every
/// consumer's read marks stay as they were.
pub open spec fn fan_out_written<T: Copy, const N: usize, const CONSUMERS: usize>(
    before: FanOutBuffer<T, N, CONSUMERS>,
    data: Seq<T>,
    after: FanOutBuffer<T, N, CONSUMERS>,
) -> bool {
    &&& after.valid()
    &&& after.block() == data
    &&& after.version() == before.version() + 1
    &&& after.last_read() == before.last_read()
    &&& after.stats() == before.stats().wrote(1, 1)
}

/// `after` is the fan-out buffer `before` once consumer `c` tried to read,
/// `r` being what it got: the block, when `c` had not read it yet.
pub open spec fn fan_out_taken<T: Copy, const N: usize, const CONSUMERS: usize>(
    before: FanOutBuffer<T, N, CONSUMERS>,
    c: int,
    r: Option<Seq<T>>,
    after: FanOutBuffer<T, N, CONSUMERS>,
) -> bool {
    &&& after.valid() == before.valid()
    &&& after.block() == before.block()
    &&& after.version() == before.version()
    &&& match r {
        Some(data) => {
            &&& 0 <= c < CONSUMERS
            &&& before.has_new(c)
            &&& data == before.block()
            &&& after.last_read() == before.last_read().update(c, before.version() as usize)
            &&& after.stats() == before.stats().read_back(1)
        },
        None => {
            &&& 0 <= c < CONSUMERS ==> !before.has_new(c)
            &&& after.last_read() == before.last_read()
            &&& after.stats() == if 0 <= c < CONSUMERS {
                before.stats().underflowed()
            } else {
                before.stats()
            }
        },
    }
}

/// Every consumer reads each block once, on its own: after a write, a
/// consumer's read returns the block, its next read returns nothing, and
/// every other consumer still has the block to read.
pub proof fn law_fan_out_each_consumer_reads_once<T: Copy, const N: usize, const CONSUMERS: usize>(
    b0: FanOutBuffer<T, N, CONSUMERS>,
    data: Seq<T>,
    b1: FanOutBuffer<T, N, CONSUMERS>,
    c: int,
    first: Option<Seq<T>>,
    b2: FanOutBuffer<T, N, CONSUMERS>,
    second: Option<Seq<T>>,
    b3: FanOutBuffer<T, N, CONSUMERS>,
)
    requires
        b0.wf(),
        fan_out_written(b0, data, b1),
        0 <= c < CONSUMERS,
        fan_out_taken(b1, c, first, b2),
        fan_out_taken(b2, c, second, b3),
    ensures
        first == Some(data),
        second == None::<Seq<T>>,
        forall|d: int| 0 <= d < CONSUMERS && d != c ==> #[trigger] b3.has_new(d),
{
    assert(b0.last_read()[c] <= b0.version());
    assert forall|d: int| 0 <= d < CONSUMERS && d != c implies #[trigger] b3.has_new(d) by {
        assert(b0.last_read()[d] <= b0.version());
    }
}

/// `after` is the fan-in buffer `before` once producer `p` wrote `data`; an
/// unknown producer changes nothing.
pub open spec fn fan_in_written<T: Copy, const N: usize, const PRODUCERS: usize>(
    before: FanInBuffer<T, N, PRODUCERS>,
    p: int,
    data: Seq<T>,
    after: FanInBuffer<T, N, PRODUCERS>,
) -> bool {
    &&& after.reads() == before.reads()
    &&& after.stats() == if 0 <= p < PRODUCERS {
        before.stats().wrote(1, 0)
    } else {
        before.stats()
    }
    &&& if 0 <= p < PRODUCERS {
        &&& after.blocks() == before.blocks().update(p, data)
        &&& after.valid() == before.valid().update(p, true)
        &&& after.write_counts() == before.write_counts().update(
            p,
            (before.write_counts()[p] + 1) as usize,
        )
    } else {
        &&& after.blocks() == before.blocks()
        &&& after.valid() == before.valid()
        &&& after.write_counts() == before.write_counts()
    }
}

/// The blocks of a fan-in read, if any.
pub open spec fn blocks_view<T, const N: usize>(r: Option<Vec<[T; N]>>) -> Option<Seq<Seq<T>>> {
    match r {
        Some(v) => Some(v@.map_values(|b: [T; N]| b@)),
        None => None,
    }
}

/// `after` is the fan-in buffer `before` once the consumer tried to read,
/// `r` being what it got: the blocks of the fresh producers in producer
/// order, when there is one.
pub open spec fn fan_in_taken<T: Copy, const N: usize, const PRODUCERS: usize>(
    before: FanInBuffer<T, N, PRODUCERS>,
    r: Option<Seq<Seq<T>>>,
    after: FanInBuffer<T, N, PRODUCERS>,
) -> bool {
    &&& after.blocks() == before.blocks()
    &&& after.valid() == before.valid()
    &&& after.write_counts() == before.write_counts()
    &&& match r {
        Some(v) => {
            &&& after.reads() == before.reads() + 1
            &&& v == fresh_blocks(
                before.blocks(),
                before.valid(),
                before.write_counts(),
                before.reads(),
                PRODUCERS as int,
            )
            &&& v.len() > 0
            &&& after.stats() == before.stats().read_back(1).peaked(v.len() as usize)
        },
        None => {
            &&& after.reads() == before.reads()
            &&& after.stats() == before.stats().underflowed()
            &&& forall|q: int| 0 <= q < PRODUCERS ==> !before.is_fresh(q)
        },
    }
}

proof fn lemma_fresh_block_included<T>(
    blocks: Seq<Seq<T>>,
    valid: Seq<bool>,
    counts: Seq<usize>,
    reads: nat,
    hi: int,
    p: int,
)
    requires
        0 <= p < hi,
        valid[p] && counts[p] > reads,
    ensures
        fresh_blocks(blocks, valid, counts, reads, hi).contains(blocks[p]),
    decreases hi,
{
    let prev = fresh_blocks(blocks, valid, counts, reads, hi - 1);
    if p < hi - 1 {
        lemma_fresh_block_included(blocks, valid, counts, reads, hi - 1, p);
        let i = choose|i: int| 0 <= i < prev.len() && prev[i] == blocks[p];
        if valid[hi - 1] && counts[hi - 1] > reads {
            assert(prev.push(blocks[hi - 1])[i] == blocks[p]);
        }
    } else {
        assert(prev.push(blocks[hi - 1])[prev.len() as int] == blocks[p]);
    }
}

/// A producer that keeps up with the consumer is heard: once it writes a
/// block, the consumer's next read succeeds and includes that block.
pub proof fn law_fan_in_write_is_read<T: Copy, const N: usize, const PRODUCERS: usize>(
    b0: FanInBuffer<T, N, PRODUCERS>,
    p: int,
    data: Seq<T>,
    b1: FanInBuffer<T, N, PRODUCERS>,
    r: Option<Seq<Seq<T>>>,
    b2: FanInBuffer<T, N, PRODUCERS>,
)
    requires
        b0.wf(),
        0 <= p < PRODUCERS,
        b0.reads() <= b0.write_counts()[p] < usize::MAX,
        fan_in_written(b0, p, data, b1),
        fan_in_taken(b1, r, b2),
    ensures
        r matches Some(v) && v.contains(data),
        b2.reads() == b0.reads() + 1,
{
    assert(b1.is_fresh(p));
    assert(b1.blocks()[p] == data);
    lemma_fresh_block_included(b1.blocks(), b1.valid(), b1.write_counts(), b1.reads(), PRODUCERS as int, p);
}

/// The blocks gathered from the first `hi` producers are those of the fresh
/// ones, one per fresh producer, in producer order: there are positions
/// `idx`, increasing, each a producer that is valid and has written more
/// often than `reads`, whose blocks make up the result, and every such
/// producer among the first `hi` is one of them.
proof fn lemma_fresh_blocks_positions<T>(
    blocks: Seq<Seq<T>>,
    valid: Seq<bool>,
    counts: Seq<usize>,
    reads: nat,
    hi: int,
) -> (idx: Seq<int>)
    requires
        0 <= hi,
    ensures
        idx.len() == fresh_blocks(blocks, valid, counts, reads, hi).len(),
        forall|k: int|
            0 <= k < idx.len() ==> 0 <= #[trigger] idx[k] < hi && valid[idx[k]] && counts[idx[k]]
                > reads && fresh_blocks(blocks, valid, counts, reads, hi)[k] == blocks[idx[k]],
        forall|k: int, j: int| 0 <= k < j < idx.len() ==> idx[k] < idx[j],
        forall|p: int|
            0 <= p < hi && valid[p] && counts[p] > reads ==> exists|k: int|
                0 <= k < idx.len() && #[trigger] idx[k] == p,
    decreases hi,
{
    if hi == 0 {
        Seq::empty()
    } else {
        let prev = lemma_fresh_blocks_positions(blocks, valid, counts, reads, hi - 1);
        if valid[hi - 1] && counts[hi - 1] > reads {
            let idx = prev.push(hi - 1);
            assert forall|p: int| 0 <= p < hi && valid[p] && counts[p] > reads implies exists|k: int|
                0 <= k < idx.len() && #[trigger] idx[k] == p by {
                if p == hi - 1 {
                    assert(idx[prev.len() as int] == p);
                } else {
                    let k = choose|k: int| 0 <= k < prev.len() && #[trigger] prev[k] == p;
                    assert(idx[k] == p);
                }
            }
            idx
        } else {
            prev
        }
    }
}

/// A read returns only fresh blocks, and all of them: every block it
/// returns is the block of a distinct producer that was valid and had
/// written more often than the consumer had read, in producer order, and
/// every such producer's block is returned. So the number of blocks is the
/// number of fresh producers.
pub proof fn law_fan_in_reads_exactly_the_fresh<T: Copy, const N: usize, const PRODUCERS: usize>(
    before: FanInBuffer<T, N, PRODUCERS>,
    r: Option<Seq<Seq<T>>>,
    after: FanInBuffer<T, N, PRODUCERS>,
)
    requires
        before.wf(),
        fan_in_taken(before, r, after),
    ensures
        r matches Some(v) ==> exists|idx: Seq<int>|
            {
                &&& idx.len() == v.len()
                &&& forall|k: int|
                    0 <= k < idx.len() ==> 0 <= #[trigger] idx[k] < PRODUCERS && before.is_fresh(
                        idx[k],
                    ) && v[k] == before.blocks()[idx[k]]
                &&& forall|k: int, j: int| 0 <= k < j < idx.len() ==> idx[k] < idx[j]
                &&& forall|p: int|
                    0 <= p < PRODUCERS && before.is_fresh(p) ==> exists|k: int|
                        0 <= k < idx.len() && #[trigger] idx[k] == p
            },
        r matches Some(v) ==> v.len() == fresh_count(
            before.valid(),
            before.write_counts(),
            before.reads(),
            PRODUCERS as int,
        ),
        r is None ==> forall|p: int| 0 <= p < PRODUCERS ==> !before.is_fresh(p),
{
    if r is Some {
        let v = r->0;
        let idx = lemma_fresh_blocks_positions(
            before.blocks(),
            before.valid(),
            before.write_counts(),
            before.reads(),
            PRODUCERS as int,
        );
        lemma_fresh_count_is_len(
            before.blocks(),
            before.valid(),
            before.write_counts(),
            before.reads(),
            PRODUCERS as int,
        );
        assert(idx.len() == v.len());
    }
}

/// The fresh blocks and the fresh producers are as many.
proof fn lemma_fresh_count_is_len<T>(
    blocks: Seq<Seq<T>>,
    valid: Seq<bool>,
    counts: Seq<usize>,
    reads: nat,
    hi: int,
)
    ensures
        fresh_blocks(blocks, valid, counts, reads, hi).len() == fresh_count(valid, counts, reads, hi),
    decreases hi,
{
    if hi > 0 {
        lemma_fresh_count_is_len(blocks, valid, counts, reads, hi - 1);
    }
}

/// The blocks of the fresh producers among the first `hi`, in producer order.
pub open spec fn fresh_blocks<T>(
    blocks: Seq<Seq<T>>,
    valid: Seq<bool>,
    counts: Seq<usize>,
    reads: nat,
    hi: int,
) -> Seq<Seq<T>>
    decreases hi,
{
    if hi <= 0 {
        Seq::empty()
    } else {
        let prev = fresh_blocks(blocks, valid, counts, reads, hi - 1);
        if valid[hi - 1] && counts[hi - 1] > reads {
            prev.push(blocks[hi - 1])
        } else {
            prev
        }
    }
}

/// Number of fresh producers among the first `hi`.
pub open spec fn fresh_count(valid: Seq<bool>, counts: Seq<usize>, reads: nat, hi: int) -> nat
    decreases hi,
{
    if hi <= 0 {
        0
    } else {
        fresh_count(valid, counts, reads, hi - 1) + if valid[hi - 1] && counts[hi - 1] > reads {
            1nat
        } else {
            0nat
        }
    }
}

} // verus!
