//! Ring buffer of samples with first-in first-out order.
//!
//! The read and write positions are free-running counters that wrap at the
//! word size; a slot is found by masking a counter with `N - 1`, which is why
//! the capacity `N` must be a power of two.
use crate::buffer::StatsCounts;
use crate::error::BufferError;
use vstd::arithmetic::div_mod::{lemma_add_mod_noop, lemma_mod_mod, lemma_fundamental_div_mod};
use vstd::arithmetic::power2::{lemma2_to64, lemma_pow2_adds, lemma_pow2_pos, pow2};
use vstd::bits::lemma_usize_low_bits_mask_is_mod;
use vstd::prelude::*;

verus! {

/// `n` is a power of two that fits in a word.
pub open spec fn is_power_of_two(n: usize) -> bool {
    exists|k: nat| k < usize::BITS && n as nat == #[trigger] pow2(k)
}

/// Number of distinct `usize` values.
pub open spec fn word_modulus() -> int {
    usize::MAX as int + 1
}

proof fn lemma_word_modulus_is_pow2()
    ensures
        word_modulus() == pow2(usize::BITS as nat),
{
    lemma2_to64();
    assert(usize::BITS == 32 || usize::BITS == 64);
}

proof fn lemma_mask_is_mod(x: usize, n: usize)
    requires
        is_power_of_two(n),
    ensures
        x & ((n - 1) as usize) == x % n,
{
    let k = choose|k: nat| k < usize::BITS && n as nat == #[trigger] pow2(k);
    lemma_usize_low_bits_mask_is_mod(x, k);
    lemma_pow2_pos(k);
}

proof fn lemma_power_of_two_divides_modulus(n: usize)
    requires
        is_power_of_two(n),
    ensures
        n > 0,
        word_modulus() % (n as int) == 0,
        word_modulus() / (n as int) > 0,
{
    let k = choose|k: nat| k < usize::BITS && n as nat == #[trigger] pow2(k);
    lemma_word_modulus_is_pow2();
    let rest = (usize::BITS - k) as nat;
    lemma_pow2_adds(k, rest);
    lemma_pow2_pos(k);
    lemma_pow2_pos(rest);
    assert(word_modulus() == pow2(k) * pow2(rest));
    vstd::arithmetic::div_mod::lemma_mod_multiples_basic(pow2(rest) as int, n as int);
    assert(pow2(rest) * pow2(k) == pow2(k) * pow2(rest)) by (nonlinear_arith);
    vstd::arithmetic::div_mod::lemma_div_multiples_vanish(pow2(rest) as int, n as int);
}

/// Reducing modulo the word size does not change the slot.
proof fn lemma_slot_of_wrapped(a: int, n: usize)
    requires
        is_power_of_two(n),
    ensures
        (a % word_modulus()) % (n as int) == a % (n as int),
{
    lemma_power_of_two_divides_modulus(n);
    lemma_fundamental_div_mod(word_modulus(), n as int);
    let q = word_modulus() / (n as int);
    lemma_mod_mod(a, n as int, q);
}

proof fn lemma_wrapping_add_one(r: usize, h: int)
    requires
        h >= 0,
        r as int == h % word_modulus(),
    ensures
        vstd::wrapping::usize_specs::wrapping_add(r, 1) as int == (h + 1) % word_modulus(),
{
    lemma_add_mod_noop(h, 1, word_modulus());
    assert(1int % word_modulus() == 1);
}

proof fn lemma_wrapping_distance(w: usize, r: usize, h: int, len: int)
    requires
        h >= 0,
        0 <= len < word_modulus(),
        r as int == h % word_modulus(),
        w as int == (h + len) % word_modulus(),
    ensures
        vstd::wrapping::usize_specs::wrapping_sub(w, r) as int == len,
{
    lemma_add_mod_noop(h, len, word_modulus());
    assert(len % word_modulus() == len) by {
        vstd::arithmetic::div_mod::lemma_small_mod(len as nat, word_modulus() as nat);
    }
}

/// Positions closer than `n` apart fall in different slots.
proof fn lemma_distinct_slots(h: int, i: int, j: int, n: int)
    requires
        0 <= i < j,
        j - i < n,
    ensures
        (h + i) % n != (h + j) % n,
{
    vstd::arithmetic::div_mod::lemma_fundamental_div_mod(h + i, n);
    vstd::arithmetic::div_mod::lemma_fundamental_div_mod(h + j, n);
    if (h + i) % n == (h + j) % n {
        let qi = (h + i) / n;
        let qj = (h + j) / n;
        assert(n * (qj - qi) == j - i) by (nonlinear_arith)
            requires
                h + i == n * qi + (h + i) % n,
                h + j == n * qj + (h + j) % n,
                (h + i) % n == (h + j) % n,
        ;
        assert(false) by (nonlinear_arith)
            requires
                n * (qj - qi) == j - i,
                0 < j - i,
                j - i < n,
        ;
    }
}

/// The contents of a ring buffer of capacity `cap` holding `v` after a write
/// of `x`, and the result of the write: a full buffer refuses the sample.
pub open spec fn ring_write<T>(v: Seq<T>, cap: nat, x: T) -> (Seq<T>, Result<(), BufferError>) {
    if v.len() < cap {
        (v.push(x), Ok(()))
    } else {
        (v, Err(BufferError::Full))
    }
}

/// The contents of a ring buffer holding `v` after a read, and the result of
/// the read: the oldest sample, or `Empty`.
pub open spec fn ring_read<T>(v: Seq<T>) -> (Seq<T>, Result<T, BufferError>) {
    if v.len() > 0 {
        (v.drop_first(), Ok(v[0]))
    } else {
        (v, Err(BufferError::Empty))
    }
}

/// The contents after writing each of `xs` in turn.
pub open spec fn ring_write_all<T>(v: Seq<T>, cap: nat, xs: Seq<T>) -> Seq<T>
    decreases xs.len(),
{
    if xs.len() == 0 {
        v
    } else {
        ring_write_all(ring_write(v, cap, xs[0]).0, cap, xs.drop_first())
    }
}

/// The results of `n` reads in turn from a buffer holding `v`.
pub open spec fn ring_read_n<T>(v: Seq<T>, n: nat) -> Seq<Result<T, BufferError>>
    decreases n,
{
    if n == 0 {
        Seq::empty()
    } else {
        seq![ring_read(v).1] + ring_read_n(ring_read(v).0, (n - 1) as nat)
    }
}

proof fn lemma_ring_write_all_appends<T>(v: Seq<T>, cap: nat, xs: Seq<T>)
    requires
        v.len() + xs.len() <= cap,
    ensures
        ring_write_all(v, cap, xs) == v + xs,
    decreases xs.len(),
{
    if xs.len() > 0 {
        lemma_ring_write_all_appends(v.push(xs[0]), cap, xs.drop_first());
        assert(v.push(xs[0]) + xs.drop_first() =~= v + xs);
    } else {
        assert(v + xs =~= v);
    }
}

proof fn lemma_ring_read_n_drains<T>(v: Seq<T>)
    ensures
        ring_read_n(v, v.len()) == v.map_values(|x: T| Ok::<T, BufferError>(x)),
    decreases v.len(),
{
    if v.len() > 0 {
        lemma_ring_read_n_drains(v.drop_first());
        assert(seq![Ok::<T, BufferError>(v[0])] + v.drop_first().map_values(
            |x: T| Ok::<T, BufferError>(x),
        ) =~= v.map_values(|x: T| Ok::<T, BufferError>(x)));
    } else {
        assert(v.map_values(|x: T| Ok::<T, BufferError>(x)) =~= Seq::<Result<T, BufferError>>::empty());
    }
}

/// First in, first out: when the samples `xs` fit in a buffer of capacity
/// `cap` that holds `v`, writing them one by one and then reading as many
/// samples as the buffer holds returns `v` followed by `xs`, in order, after
/// which the buffer is empty and a read reports `Empty`.
pub proof fn law_ring_fifo<T>(v: Seq<T>, cap: nat, xs: Seq<T>)
    requires
        v.len() + xs.len() <= cap,
    ensures
        ring_read_n(ring_write_all(v, cap, xs), v.len() + xs.len()) == (v + xs).map_values(
            |x: T| Ok::<T, BufferError>(x),
        ),
        ring_read_n(ring_write_all(v, cap, xs), v.len() + xs.len() + 1).last() == Err::<
            T,
            BufferError,
        >(BufferError::Empty),
{
    lemma_ring_write_all_appends(v, cap, xs);
    lemma_ring_read_n_drains(v + xs);
    lemma_ring_read_n_tail(v + xs);
}

proof fn lemma_ring_read_n_tail<T>(v: Seq<T>)
    ensures
        ring_read_n(v, v.len() + 1).last() == Err::<T, BufferError>(BufferError::Empty),
    decreases v.len(),
{
    if v.len() > 0 {
        lemma_ring_read_n_tail(v.drop_first());
        let rest = ring_read_n(v.drop_first(), v.len() as nat);
        assert(ring_read_n(v, v.len() + 1) == seq![ring_read(v).1] + rest);
        assert((seq![ring_read(v).1] + rest).last() == rest.last());
    } else {
        assert(ring_read_n(v, 1) == seq![ring_read(v).1] + ring_read_n(v, 0));
    }
}

/// A refused write or read leaves the buffer as it was: a full buffer keeps
/// its samples when a write is refused, and an empty one stays empty.
pub proof fn law_ring_refusals_change_nothing<T>(v: Seq<T>, cap: nat, x: T)
    ensures
        v.len() >= cap ==> ring_write(v, cap, x) == (v, Err::<(), BufferError>(BufferError::Full)),
        v.len() == 0 ==> ring_read(v) == (v, Err::<T, BufferError>(BufferError::Empty)),
{
}

/// The counters after a block write that wrote `written` samples, leaving
/// `fill` samples held, and stopped on a full buffer when `refused`.
pub open spec fn block_write_stats(s: StatsCounts, written: nat, fill: usize, refused: bool) -> StatsCounts {
    if refused {
        s.wrote(written, fill).overflowed()
    } else {
        s.wrote(written, fill)
    }
}

/// The counters after a block read that read `count` samples and stopped on
/// an empty buffer when `refused`.
pub open spec fn block_read_stats(s: StatsCounts, count: nat, refused: bool) -> StatsCounts {
    if refused {
        s.read_back(count).underflowed()
    } else {
        s.read_back(count)
    }
}

/// One more write, filling to one more sample, continues the count.
proof fn lemma_wrote_one_more(s: StatsCounts, k: nat, fill: usize)
    requires
        fill < usize::MAX,
    ensures
        s.wrote(k, fill).wrote(1, (fill + 1) as usize) == s.wrote(k + 1, (fill + 1) as usize),
{
    reveal_with_fuel(crate::buffer::bumped_by, 2);
}

/// One more read continues the count.
proof fn lemma_read_one_more(s: StatsCounts, k: nat)
    ensures
        s.read_back(k).read_back(1) == s.read_back(k + 1),
{
    reveal_with_fuel(crate::buffer::bumped_by, 2);
}

/// Ring buffer of `N` samples, first in first out.
///
/// Writers and readers take turns through exclusive (`&mut`) access.
///
/// `N` must be a power of two so that a position is reduced to a slot by
/// masking. Writes append at the back, reads take from the front.
pub struct RingBuffer<T, const N: usize> {
    storage: Vec<Option<T>>,
    write_idx: usize,
    read_idx: usize,
    mask: usize,
    stats: StatsCounts,
    /// Number of samples read since the buffer was created or cleared.
    head: Ghost<int>,
    /// The samples held, oldest first.
    contents: Ghost<Seq<T>>,
}

impl<T: Copy, const N: usize> RingBuffer<T, N> {
    /// The samples held, oldest first.
    pub closed spec fn view(&self) -> Seq<T> {
        self.contents@
    }

    /// The statistics counters.
    pub closed spec fn stats(&self) -> StatsCounts {
        self.stats
    }

    /// The internal positions agree with the samples held.
    pub closed spec fn wf(&self) -> bool {
        let len = self.contents@.len();
        &&& is_power_of_two(N)
        &&& self.mask == N - 1
        &&& self.storage@.len() == N
        &&& self.head@ >= 0
        &&& len <= N
        &&& self.read_idx as int == self.head@ % word_modulus()
        &&& self.write_idx as int == (self.head@ + len) % word_modulus()
        &&& forall|i: int|
            0 <= i < len ==> #[trigger] self.storage@[(self.head@ + i) % (N as int)] == Some(
                self.contents@[i],
            )
    }

    /// Create an empty ring buffer.
    ///
    /// `N` must be a power of two.
    pub fn new() -> (b: Self)
        requires
            is_power_of_two(N),
        ensures
            b.wf(),
            b.view() == Seq::<T>::empty(),
            b.stats() == StatsCounts::zero(),
    {
        let mut storage: Vec<Option<T>> = Vec::new();
        let mut i: usize = 0;
        while i < N
            invariant
                i <= N,
                storage@.len() == i,
            decreases N - i,
        {
            storage.push(None);
            i = i + 1;
        }
        proof {
            lemma_power_of_two_divides_modulus(N);
        }
        RingBuffer {
            storage,
            write_idx: 0,
            read_idx: 0,
            mask: N - 1,
            stats: StatsCounts::new(),
            head: Ghost(0),
            contents: Ghost(Seq::empty()),
        }
    }

    /// Write a single sample at the back.
    ///
    /// Returns `Err(BufferError::Full)`, leaving the buffer unchanged, when it
    /// already holds `N` samples.
    pub fn write(&mut self, sample: T) -> (r: Result<(), BufferError>)
        requires
            old(self).wf(),
        ensures
            final(self).wf(),
            (final(self).view(), r) == ring_write(old(self).view(), N as nat, sample),
            final(self).stats() == if r is Ok {
                old(self).stats().wrote(1, final(self).view().len() as usize)
            } else {
                old(self).stats().overflowed()
            },
    {
        let write = self.write_idx;
        let read = self.read_idx;
        let ghost h = self.head@;
        let ghost len = self.contents@.len() as int;
        proof {
            lemma_power_of_two_divides_modulus(N);
            lemma_wrapping_distance(write, read, h, len);
        }
        if write.wrapping_sub(read) >= N {
            self.stats.record_overflow();
            return Err(BufferError::Full);
        }
        let idx = write & self.mask;
        proof {
            lemma_mask_is_mod(write, N);
            lemma_slot_of_wrapped(h + len, N);
        }
        self.storage.set(idx, Some(sample));
        self.write_idx = write.wrapping_add(1);
        self.contents = Ghost(self.contents@.push(sample));
        proof {
            lemma_wrapping_add_one(write, h + len);
            vstd::arithmetic::div_mod::lemma_mod_twice(h + len, word_modulus());
            assert(self.write_idx as int == (h + len + 1) % word_modulus());
            assert forall|i: int| 0 <= i < len + 1 implies #[trigger] self.storage@[(h + i) % (
            N as int)] == Some(self.contents@[i]) by {
                if i < len {
                    lemma_distinct_slots(h, i, len, N as int);
                }
            }
        }
        self.stats.record_write();
        let fill = self.available();
        self.stats.update_peak(fill);
        Ok(())
    }

    /// Read the oldest sample.
    ///
    /// Returns `Err(BufferError::Empty)`, leaving the buffer unchanged, when it
    /// holds no sample.
    pub fn read(&mut self) -> (r: Result<T, BufferError>)
        requires
            old(self).wf(),
        ensures
            final(self).wf(),
            (final(self).view(), r) == ring_read(old(self).view()),
            final(self).stats() == if r is Ok {
                old(self).stats().read_back(1)
            } else {
                old(self).stats().underflowed()
            },
    {
        let write = self.write_idx;
        let read = self.read_idx;
        let ghost h = self.head@;
        let ghost len = self.contents@.len() as int;
        proof {
            lemma_power_of_two_divides_modulus(N);
            lemma_wrapping_distance(write, read, h, len);
        }
        if read == write {
            self.stats.record_underflow();
            return Err(BufferError::Empty);
        }
        let idx = read & self.mask;
        proof {
            lemma_mask_is_mod(read, N);
            lemma_slot_of_wrapped(h, N);
            assert(self.storage@[(h + 0) % (N as int)] == Some(self.contents@[0]));
        }
        let sample = match self.storage[idx] {
            Some(s) => s,
            None => {
                proof {
                    assert(false);
                }
                return Err(BufferError::Empty);
            },
        };
        self.read_idx = read.wrapping_add(1);
        self.head = Ghost(h + 1);
        self.contents = Ghost(self.contents@.drop_first());
        proof {
            lemma_wrapping_add_one(read, h);
            assert forall|i: int| 0 <= i < len - 1 implies #[trigger] self.storage@[(h + 1 + i) % (
            N as int)] == Some(self.contents@[i]) by {
                assert(self.storage@[(h + (i + 1)) % (N as int)] == Some(old(self).contents@[i + 1]));
                assert(h + 1 + i == h + (i + 1));
            }
        }
        self.stats.record_read();
        Ok(sample)
    }

    /// Number of samples available for reading.
    pub fn available(&self) -> (r: usize)
        requires
            self.wf(),
        ensures
            r == self.view().len(),
    {
        proof {
            lemma_power_of_two_divides_modulus(N);
            lemma_wrapping_distance(self.write_idx, self.read_idx, self.head@, self.contents@.len() as int);
        }
        self.write_idx.wrapping_sub(self.read_idx)
    }

    /// Write a block of samples, stopping when the buffer is full.
    ///
    /// Returns the number of samples written: the first ones of `samples`,
    /// as many as fit.
    pub fn write_block(&mut self, samples: &[T]) -> (written: usize)
        requires
            old(self).wf(),
        ensures
            final(self).wf(),
            written == vstd::math::min(samples@.len() as int, N - old(self).view().len()),
            final(self).view() == old(self).view() + samples@.subrange(0, written as int),
            final(self).stats() == block_write_stats(
                old(self).stats(),
                written as nat,
                (old(self).view().len() + written) as usize,
                written < samples@.len(),
            ),
    {
        let mut written: usize = 0;
        while written < samples.len()
            invariant_except_break
                self.stats() == old(self).stats().wrote(
                    written as nat,
                    (old(self).view().len() + written) as usize,
                ),
            invariant
                self.wf(),
                written <= samples@.len(),
                old(self).view().len() + written <= N,
                self.view() == old(self).view() + samples@.subrange(0, written as int),
            ensures
                self.wf(),
                written == vstd::math::min(samples@.len() as int, N - old(self).view().len()),
                self.view() == old(self).view() + samples@.subrange(0, written as int),
                self.stats() == block_write_stats(
                    old(self).stats(),
                    written as nat,
                    (old(self).view().len() + written) as usize,
                    written < samples@.len(),
                ),
            decreases samples@.len() - written,
        {
            let ghost before = self.view();
            let ghost stats_before = self.stats();
            match self.write(samples[written]) {
                Ok(()) => {
                    proof {
                        lemma_wrote_one_more(
                            old(self).stats(),
                            written as nat,
                            (old(self).view().len() + written) as usize,
                        );
                    }
                    written = written + 1;
                    assert(self.view() == old(self).view() + samples@.subrange(0, written as int));
                    assert(self.view().len() == old(self).view().len() + written);
                    assert(self.stats() == stats_before.wrote(
                        1,
                        (old(self).view().len() + written) as usize,
                    ));
                },
                Err(_) => {
                    break;
                },
            }
        }
        written
    }

    /// Read samples into `samples`, oldest first, stopping when the buffer
    /// is empty.
    ///
    /// Returns the number of samples read; the rest of `samples` is untouched.
    pub fn read_block(&mut self, samples: &mut [T]) -> (count: usize)
        requires
            old(self).wf(),
        ensures
            final(self).wf(),
            count == vstd::math::min(old(samples)@.len() as int, old(self).view().len() as int),
            final(samples)@.len() == old(samples)@.len(),
            final(samples)@.subrange(0, count as int) == old(self).view().subrange(0, count as int),
            final(samples)@.subrange(count as int, old(samples)@.len() as int) == old(
                samples,
            )@.subrange(count as int, old(samples)@.len() as int),
            final(self).view() == old(self).view().subrange(count as int, old(self).view().len() as int),
            final(self).stats() == block_read_stats(
                old(self).stats(),
                count as nat,
                count < old(samples)@.len(),
            ),
    {
        let mut count: usize = 0;
        let len = samples.len();
        while count < len
            invariant_except_break
                self.stats() == old(self).stats().read_back(count as nat),
            invariant
                self.wf(),
                len == samples@.len(),
                len == old(samples)@.len(),
                count <= len,
                count <= old(self).view().len(),
                samples@.subrange(0, count as int) == old(self).view().subrange(0, count as int),
                samples@.subrange(count as int, len as int) == old(samples)@.subrange(
                    count as int,
                    len as int,
                ),
                self.view() == old(self).view().subrange(count as int, old(self).view().len() as int),
            ensures
                self.wf(),
                len == samples@.len(),
                count == vstd::math::min(len as int, old(self).view().len() as int),
                samples@.subrange(0, count as int) == old(self).view().subrange(0, count as int),
                samples@.subrange(count as int, len as int) == old(samples)@.subrange(
                    count as int,
                    len as int,
                ),
                self.view() == old(self).view().subrange(count as int, old(self).view().len() as int),
                self.stats() == block_read_stats(old(self).stats(), count as nat, count < len),
            decreases len - count,
        {
            let ghost stats_before = self.stats();
            match self.read() {
                Ok(val) => {
                    proof {
                        lemma_read_one_more(old(self).stats(), count as nat);
                    }
                    let ghost prev = samples@;
                    samples[count] = val;
                    count = count + 1;
                    assert(samples@.subrange(0, count as int) =~= old(self).view().subrange(
                        0,
                        count as int,
                    )) by {
                        assert forall|i: int| 0 <= i < count implies samples@[i] == old(
                            self,
                        ).view()[i] by {
                            if i < count - 1 {
                                assert(prev.subrange(0, count - 1)[i] == prev[i]);
                            }
                        }
                    }
                    assert(samples@.subrange(count as int, len as int) =~= old(samples)@.subrange(
                        count as int,
                        len as int,
                    )) by {
                        assert forall|i: int| 0 <= i < len - count implies samples@.subrange(
                            count as int,
                            len as int,
                        )[i] == old(samples)@.subrange(count as int, len as int)[i] by {
                            assert(prev.subrange(count - 1, len as int)[i + 1] == prev[count + i]);
                        }
                    }
                    assert(self.view() =~= old(self).view().subrange(
                        count as int,
                        old(self).view().len() as int,
                    ));
                },
                Err(_) => {
                    break;
                },
            }
        }
        count
    }

    /// Remaining space for writing.
    pub fn remaining(&self) -> (r: usize)
        requires
            self.wf(),
        ensures
            r == N - self.view().len(),
    {
        N - self.available()
    }

    /// Whether the buffer holds no sample.
    pub fn is_empty(&self) -> (r: bool)
        requires
            self.wf(),
        ensures
            r == (self.view().len() == 0),
    {
        self.available() == 0
    }

    /// Whether the buffer holds `N` samples.
    pub fn is_full(&self) -> (r: bool)
        requires
            self.wf(),
        ensures
            r == (self.view().len() == N),
    {
        self.available() == N
    }

    /// Total capacity in samples.
    pub fn capacity(&self) -> (r: usize)
        ensures
            r == N,
    {
        N
    }

    /// Number of samples held.
    pub fn len(&self) -> (r: usize)
        requires
            self.wf(),
        ensures
            r == self.view().len(),
    {
        self.available()
    }

    /// Clear the buffer and reset its statistics.
    pub fn clear(&mut self)
        requires
            old(self).wf(),
        ensures
            final(self).wf(),
            final(self).view() == Seq::<T>::empty(),
            final(self).stats() == StatsCounts::zero(),
    {
        self.write_idx = 0;
        self.read_idx = 0;
        self.head = Ghost(0);
        self.contents = Ghost(Seq::empty());
        proof {
            vstd::arithmetic::div_mod::lemma_small_mod(0, word_modulus() as nat);
        }
        self.stats.reset();
    }

    /// The statistics counters of this buffer.
    pub fn stats_counts(&self) -> (r: StatsCounts)
        ensures
            r == self.stats(),
    {
        self.stats.counts()
    }
}

} // verus!
