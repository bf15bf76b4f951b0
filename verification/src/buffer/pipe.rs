//! Point-to-point buffer between one producer and one consumer.
use crate::buffer::StatsCounts;
use vstd::prelude::*;

verus! {

/// The samples of a block read, if any.
pub open spec fn block_view<T, const N: usize>(r: Option<[T; N]>) -> Option<Seq<T>> {
    match r {
        Some(data) => Some(data@),
        None => None,
    }
}

/// `after` is the pipe `before` once `data` was written: the block is
/// replaced and waits to be read.
pub open spec fn pipe_written<T: Copy, const N: usize>(
    before: PipeBuffer<T, N>,
    data: Seq<T>,
    after: PipeBuffer<T, N>,
) -> bool {
    &&& after.available()
    &&& after.block() == data
    &&& after.writes() == before.writes() + 1
    &&& after.reads() == before.reads()
    &&& after.stats() == before.stats().wrote(1, 1)
}

/// `after` is the pipe `before` once read, `r` being what the read
/// returned: the waiting block, if there was one; nothing waits afterwards.
pub open spec fn pipe_taken<T: Copy, const N: usize>(
    before: PipeBuffer<T, N>,
    r: Option<Seq<T>>,
    after: PipeBuffer<T, N>,
) -> bool {
    &&& !after.available()
    &&& after.block() == before.block()
    &&& after.writes() == before.writes()
    &&& match r {
        Some(data) => before.available() && data == before.block() && after.reads()
            == before.reads() + 1 && after.stats() == before.stats().read_back(1),
        None => !before.available() && after.reads() == before.reads() && after.stats()
            == before.stats().underflowed(),
    }
}

/// The latest block wins and is read once: after two writes, a read returns
/// the second block, and a second read returns nothing.
pub proof fn law_pipe_latest_block_read_once<T: Copy, const N: usize>(
    p0: PipeBuffer<T, N>,
    a: Seq<T>,
    p1: PipeBuffer<T, N>,
    b: Seq<T>,
    p2: PipeBuffer<T, N>,
    first: Option<Seq<T>>,
    p3: PipeBuffer<T, N>,
    second: Option<Seq<T>>,
    p4: PipeBuffer<T, N>,
)
    requires
        pipe_written(p0, a, p1),
        pipe_written(p1, b, p2),
        pipe_taken(p2, first, p3),
        pipe_taken(p3, second, p4),
    ensures
        first == Some(b),
        second == None::<Seq<T>>,
        p4.reads() == p0.reads() + 1,
        p4.writes() == p0.writes() + 2,
{
}

/// Single-producer, single-consumer buffer holding at most one block of `N`
/// samples.
///
/// A write always replaces the block, whether or not it was read; a read
/// takes the block, after which nothing is available until the next write.
pub struct PipeBuffer<T, const N: usize> {
    storage: [T; N],
    valid: bool,
    write_seq: usize,
    read_seq: usize,
    stats: StatsCounts,
}

impl<T: Copy, const N: usize> PipeBuffer<T, N> {
    /// The block last written.
    pub closed spec fn block(&self) -> Seq<T> {
        self.storage@
    }

    /// The statistics counters.
    pub closed spec fn stats(&self) -> StatsCounts {
        self.stats
    }

    /// Whether a written block is waiting to be read.
    pub closed spec fn available(&self) -> bool {
        self.valid
    }

    /// Number of writes so far.
    pub closed spec fn writes(&self) -> nat {
        self.write_seq as nat
    }

    /// Number of successful reads so far.
    pub closed spec fn reads(&self) -> nat {
        self.read_seq as nat
    }

    /// Reads never outnumber writes, and a waiting block has not been read.
    pub closed spec fn wf(&self) -> bool {
        &&& self.read_seq <= self.write_seq
        &&& self.valid ==> self.read_seq < self.write_seq
    }

    /// Create an empty pipe whose storage holds `fill`.
    pub fn new(fill: T) -> (p: Self)
        ensures
            p.wf(),
            !p.available(),
            p.writes() == 0,
            p.reads() == 0,
            p.stats() == StatsCounts::zero(),
            p.block() == Seq::new(N as nat, |i: int| fill),
    {
        let p = PipeBuffer {
            storage: [fill; N],
            valid: false,
            write_seq: 0,
            read_seq: 0,
            stats: StatsCounts::new(),
        };
        assert(p.block() =~= Seq::new(N as nat, |i: int| fill));
        p
    }

    /// Write a block, replacing any block not yet read. The write count goes
    /// up by one with no wrap, so it must be below `usize::MAX`.
    pub fn write(&mut self, data: &[T; N])
        requires
            old(self).wf(),
            old(self).writes() < usize::MAX,
        ensures
            final(self).wf(),
            pipe_written(*old(self), data@, *final(self)),
    {
        self.storage = *data;
        self.valid = true;
        self.write_seq = self.write_seq + 1;
        self.stats.record_write();
        self.stats.update_peak(1);
    }

    /// Take the block if one is available.
    pub fn try_read(&mut self) -> (r: Option<[T; N]>)
        requires
            old(self).wf(),
        ensures
            final(self).wf(),
            pipe_taken(*old(self), block_view(r), *final(self)),
    {
        if !self.valid {
            self.stats.record_underflow();
            return None;
        }
        let result = self.storage;
        self.valid = false;
        self.read_seq = self.read_seq + 1;
        self.stats.record_read();
        self.stats.update_peak(0);
        Some(result)
    }

    /// Whether a block is waiting to be read.
    pub fn has_data(&self) -> (r: bool)
        ensures
            r == self.available(),
    {
        self.valid
    }

    /// Number of writes so far.
    pub fn write_seq(&self) -> (r: usize)
        ensures
            r == self.writes(),
    {
        self.write_seq
    }

    /// Number of reads so far.
    pub fn read_seq(&self) -> (r: usize)
        ensures
            r == self.reads(),
    {
        self.read_seq
    }

    /// Whether every write has been read.
    pub fn is_caught_up(&self) -> (r: bool)
        ensures
            r == (self.writes() == self.reads()),
    {
        self.write_seq == self.read_seq
    }

    /// Number of blocks overwritten before being read: writes minus reads
    /// minus one, or zero.
    pub fn overwrites(&self) -> (r: usize)
        ensures
            r == if self.writes() > self.reads() {
                self.writes() - self.reads() - 1
            } else {
                0
            },
    {
        if self.write_seq > self.read_seq {
            self.write_seq - self.read_seq - 1
        } else {
            0
        }
    }

    /// Mark the buffer empty and reset its statistics.
    pub fn reset(&mut self)
        requires
            old(self).wf(),
        ensures
            final(self).wf(),
            !final(self).available(),
            final(self).block() == old(self).block(),
            final(self).writes() == old(self).writes(),
            final(self).reads() == old(self).reads(),
            final(self).stats() == StatsCounts::zero(),
    {
        self.valid = false;
        self.stats.reset();
    }

    /// Capacity of a block in samples.
    pub fn capacity(&self) -> (r: usize)
        ensures
            r == N,
    {
        N
    }

    /// Number of blocks waiting: 1 or 0.
    pub fn len(&self) -> (r: usize)
        ensures
            r == if self.available() {
                1usize
            } else {
                0usize
            },
    {
        if self.valid {
            1
        } else {
            0
        }
    }

    /// The statistics counters of this pipe.
    pub fn stats_counts(&self) -> (r: StatsCounts)
        ensures
            r == self.stats(),
    {
        self.stats.counts()
    }
}

} // verus!
