//! Delay line: a circular buffer for delay and other time-based effects.
use crate::buffer::StatsCounts;
use vstd::prelude::*;

verus! {

/// The remembered samples, most recent first, after `x` is written to a line
/// remembering `v`: `x` comes first and the oldest sample is forgotten.
pub open spec fn delay_shift<T>(v: Seq<T>, x: T) -> Seq<T> {
    seq![x] + v.take(v.len() - 1)
}

/// The remembered samples after each of `xs` is written in turn.
pub open spec fn delay_write_all<T>(v: Seq<T>, xs: Seq<T>) -> Seq<T>
    decreases xs.len(),
{
    if xs.len() == 0 {
        v
    } else {
        delay_write_all(delay_shift(v, xs[0]), xs.drop_first())
    }
}

/// A delay of `d` samples is exact: after the samples `xs` are written in
/// turn to a line remembering `v`, the sample `d` writes back is the one
/// written `d` writes before the last, or, when fewer samples were written,
/// the one that was `d - xs.len()` back before them. So a write with delay
/// `d` returns the sample written `d` writes earlier.
pub proof fn law_delay_is_exact<T>(v: Seq<T>, xs: Seq<T>, d: int)
    requires
        0 <= d < v.len(),
    ensures
        delay_write_all(v, xs).len() == v.len(),
        delay_write_all(v, xs)[d] == if d < xs.len() {
            xs[xs.len() - 1 - d]
        } else {
            v[d - xs.len()]
        },
    decreases xs.len(),
{
    if xs.len() > 0 {
        let v1 = delay_shift(v, xs[0]);
        law_delay_is_exact(v1, xs.drop_first(), d);
        if d > xs.len() - 1 {
            assert(v1[d - xs.len() + 1] == v[d - xs.len()]);
        }
    }
}

/// Circular buffer remembering the last `MAX_DELAY` samples written.
pub struct DelayLine<T, const MAX_DELAY: usize> {
    buffer: Vec<T>,
    write_pos: usize,
    delay_samples: usize,
    fill: T,
    stats: StatsCounts,
}

/// Slot holding the sample written `d` writes before the latest one.
pub open spec fn delay_slot(write_pos: int, d: int, max_delay: int) -> int {
    (write_pos + max_delay - 1 - d) % max_delay
}

/// Reduction of a value below twice the modulus.
proof fn lemma_mod_below_twice(x: int, m: int)
    requires
        0 <= x < 2 * m,
    ensures
        x % m == if x < m {
            x
        } else {
            x - m
        },
{
    if x < m {
        vstd::arithmetic::div_mod::lemma_small_mod(x as nat, m as nat);
    } else {
        vstd::arithmetic::div_mod::lemma_mod_sub_multiples_vanish(x, m);
        vstd::arithmetic::div_mod::lemma_small_mod((x - m) as nat, m as nat);
    }
}

impl<T: Copy, const MAX_DELAY: usize> DelayLine<T, MAX_DELAY> {
    /// The remembered samples, most recent first: entry `d` is the sample
    /// written `d` writes ago (or the fill value where nothing was written).
    pub closed spec fn view(&self) -> Seq<T> {
        Seq::new(
            MAX_DELAY as nat,
            |d: int| self.buffer@[delay_slot(self.write_pos as int, d, MAX_DELAY as int)],
        )
    }

    /// The delay applied by `write`, in samples.
    pub closed spec fn delay(&self) -> nat {
        self.delay_samples as nat
    }

    /// The slot the next sample goes to: the number of writes since the line
    /// was created or cleared, modulo `MAX_DELAY`.
    pub closed spec fn position(&self) -> nat {
        self.write_pos as nat
    }

    /// The value the line is filled with when created or cleared.
    pub closed spec fn fill_value(&self) -> T {
        self.fill
    }

    /// The statistics counters: writes, reads and underflows so far.
    pub closed spec fn stats(&self) -> StatsCounts {
        self.stats
    }

    /// The positions are within the buffer.
    pub closed spec fn wf(&self) -> bool {
        &&& self.buffer@.len() == MAX_DELAY
        &&& if MAX_DELAY > 0 {
            self.write_pos < MAX_DELAY && self.delay_samples < MAX_DELAY
        } else {
            self.write_pos == 0 && self.delay_samples == 0
        }
    }

    /// Create a delay line filled with `fill` and a delay of zero samples.
    pub fn new(fill: T) -> (d: Self)
        ensures
            d.wf(),
            d.view() == Seq::new(MAX_DELAY as nat, |i: int| fill),
            d.delay() == 0,
            d.fill_value() == fill,
            d.position() == 0,
            d.stats() == StatsCounts::zero(),
    {
        let mut buffer: Vec<T> = Vec::new();
        let mut i: usize = 0;
        while i < MAX_DELAY
            invariant
                i <= MAX_DELAY,
                buffer@.len() == i,
                forall|j: int| 0 <= j < i ==> buffer@[j] == fill,
            decreases MAX_DELAY - i,
        {
            buffer.push(fill);
            i = i + 1;
        }
        let d = DelayLine { buffer, write_pos: 0, delay_samples: 0, fill, stats: StatsCounts::new() };
        assert(d.view() =~= Seq::new(MAX_DELAY as nat, |i: int| fill));
        d
    }

    /// Set the delay in samples, limited to `MAX_DELAY - 1`.
    pub fn set_delay_samples(&mut self, samples: usize)
        requires
            old(self).wf(),
            MAX_DELAY > 0,
        ensures
            final(self).wf(),
            final(self).view() == old(self).view(),
            final(self).fill_value() == old(self).fill_value(),
            final(self).position() == old(self).position(),
            final(self).stats() == old(self).stats(),
            final(self).delay() == vstd::math::min(samples as int, MAX_DELAY - 1),
    {
        self.delay_samples = if samples < MAX_DELAY - 1 {
            samples
        } else {
            MAX_DELAY - 1
        };
    }

    /// Current delay in samples.
    pub fn delay_samples(&self) -> (r: usize)
        ensures
            r == self.delay(),
    {
        self.delay_samples
    }

    /// Maximum delay in samples.
    pub fn max_delay(&self) -> (r: usize)
        ensures
            r == MAX_DELAY,
    {
        MAX_DELAY
    }

    /// Write a sample and return the sample delayed by the current delay.
    ///
    /// With a delay of `d`, the result is the sample written `d` writes ago,
    /// the new sample itself when `d` is zero.
    pub fn write(&mut self, input: T) -> (output: T)
        requires
            old(self).wf(),
            MAX_DELAY > 0,
        ensures
            final(self).wf(),
            final(self).delay() == old(self).delay(),
            final(self).fill_value() == old(self).fill_value(),
            final(self).view() == delay_shift(old(self).view(), input),
            final(self).position() == (old(self).position() + 1) % (MAX_DELAY as nat),
            final(self).stats() == old(self).stats().wrote(1, 0).read_back(1),
            output == final(self).view()[old(self).delay() as int],
    {
        let wp = self.write_pos;
        self.buffer.set(wp, input);
        let read_pos = if wp >= self.delay_samples {
            wp - self.delay_samples
        } else {
            MAX_DELAY - (self.delay_samples - wp)
        };
        let output = self.buffer[read_pos];
        self.write_pos = (wp + 1) % MAX_DELAY;
        self.stats.record_write();
        self.stats.record_read();
        proof {
            let m = MAX_DELAY as int;
            let nw = self.write_pos as int;
            lemma_mod_below_twice(wp + 1, m);
            assert forall|d: int| 0 <= d < m implies #[trigger] self.view()[d] == (seq![input]
                + old(self).view().take(m - 1))[d] by {
                lemma_mod_below_twice(nw + m - 1 - d, m);
                if d > 0 {
                    lemma_mod_below_twice(wp + m - 1 - (d - 1), m);
                }
            }
            assert(self.view() =~= seq![input] + old(self).view().take(m - 1));
            let dl = self.delay_samples as int;
            lemma_mod_below_twice(nw + m - 1 - dl, m);
        }
        output
    }

    /// Read the sample written `delay` writes ago (0 is the most recent),
    /// with `delay` limited to `MAX_DELAY - 1`.
    pub fn read_delayed(&self, delay: usize) -> (r: T)
        requires
            self.wf(),
            MAX_DELAY > 0,
        ensures
            r == self.view()[vstd::math::min(delay as int, MAX_DELAY - 1)],
    {
        let delay = if delay < MAX_DELAY - 1 {
            delay
        } else {
            MAX_DELAY - 1
        };
        let read_pos = if self.write_pos > delay {
            self.write_pos - 1 - delay
        } else {
            MAX_DELAY - (delay + 1 - self.write_pos)
        };
        proof {
            lemma_mod_below_twice(
                self.write_pos as int + MAX_DELAY as int - 1 - delay as int,
                MAX_DELAY as int,
            );
        }
        self.buffer[read_pos]
    }

    /// Clear the delay line back to its fill value; the delay is kept.
    pub fn clear(&mut self)
        requires
            old(self).wf(),
        ensures
            final(self).wf(),
            final(self).view() == Seq::new(MAX_DELAY as nat, |i: int| old(self).fill_value()),
            final(self).delay() == old(self).delay(),
            final(self).fill_value() == old(self).fill_value(),
            final(self).position() == 0,
            final(self).stats() == StatsCounts::zero(),
    {
        let mut i: usize = 0;
        while i < MAX_DELAY
            invariant
                self.wf(),
                i <= MAX_DELAY,
                self.fill == old(self).fill,
                self.delay_samples == old(self).delay_samples,
                forall|j: int| 0 <= j < i ==> self.buffer@[j] == self.fill,
            decreases MAX_DELAY - i,
        {
            let f = self.fill;
            self.buffer.set(i, f);
            i = i + 1;
        }
        self.write_pos = 0;
        self.stats.reset();
        proof {
            assert forall|d: int| 0 <= d < MAX_DELAY implies #[trigger] self.view()[d] == self.fill by {
                lemma_mod_below_twice(MAX_DELAY - 1 - d, MAX_DELAY as int);
            }
            assert(self.view() =~= Seq::new(MAX_DELAY as nat, |i: int| old(self).fill_value()));
        }
    }

    /// Current write position: the slot the next sample goes to.
    pub fn write_position(&self) -> (r: usize)
        requires
            self.wf(),
        ensures
            r == self.position(),
            r < MAX_DELAY || r == 0,
    {
        self.write_pos
    }

    /// The statistics counters of this delay line.
    pub fn stats_counts(&self) -> (r: StatsCounts)
        ensures
            r == self.stats(),
    {
        self.stats.counts()
    }
}

} // verus!
