//! Musical timing: the position in bars, beats and sixteenths derived from a
//! sample position.
use vstd::prelude::*;

verus! {

/// Information about the current musical position.
#[derive(Debug, Clone, Copy, PartialEq, Eq, Structural)]
pub struct TickInfo {
    /// Bar number (starting from 0).
    pub bar: u32,
    /// Beat within the bar (0-3, where 0 is the first beat).
    pub beat: u8,
    /// Sixteenth note within the beat (0-3).
    pub sixteenth: u8,
    /// Absolute sample position.
    pub sample_pos: u64,
}

/// The musical position of sample `pos` with `spb` samples per beat and four
/// beats per bar; with zero samples per beat everything but the position is 0.
pub open spec fn tick_at(pos: u64, spb: u64) -> TickInfo {
    if spb == 0 {
        TickInfo { bar: 0, beat: 0, sixteenth: 0, sample_pos: pos }
    } else {
        let beats = pos / spb;
        TickInfo {
            bar: (beats / 4) as u32,
            beat: (beats % 4) as u8,
            sixteenth: (((pos - beats * spb) * 4) / (spb as int)) as u8,
            sample_pos: pos,
        }
    }
}

impl TickInfo {
    /// Create a new tick.
    pub fn new(bar: u32, beat: u8, sixteenth: u8, sample_pos: u64) -> (t: Self)
        ensures
            t == (TickInfo { bar, beat, sixteenth, sample_pos }),
    {
        TickInfo { bar, beat, sixteenth, sample_pos }
    }

    /// Whether this is the start of a new bar: first beat, first sixteenth.
    pub fn is_new_bar(&self) -> (r: bool)
        ensures
            r == (self.beat == 0 && self.sixteenth == 0),
    {
        self.beat == 0 && self.sixteenth == 0
    }

    /// Whether this is the start of a new beat: first sixteenth.
    pub fn is_new_beat(&self) -> (r: bool)
        ensures
            r == (self.sixteenth == 0),
    {
        self.sixteenth == 0
    }

    /// The musical position of sample `pos`, with `samples_per_beat` samples
    /// per beat and four beats per bar.
    ///
    /// The bar count is truncated to 32 bits. Four times the position within
    /// the beat must fit in 64 bits.
    pub fn from_position(pos: u64, samples_per_beat: u64) -> (t: Self)
        requires
            samples_per_beat > 0 ==> (pos % samples_per_beat) * 4 <= u64::MAX,
        ensures
            t == tick_at(pos, samples_per_beat),
            t.beat < 4,
            t.sixteenth < 4,
    {
        if samples_per_beat == 0 {
            return TickInfo { bar: 0, beat: 0, sixteenth: 0, sample_pos: pos };
        }
        let total_beats = pos / samples_per_beat;
        let beat_in_bar = (total_beats % 4) as u8;
        let bar = (total_beats / 4) as u32;
        proof {
            vstd::arithmetic::div_mod::lemma_fundamental_div_mod(pos as int, samples_per_beat as int);
            vstd::arithmetic::div_mod::lemma_mod_bound(pos as int, samples_per_beat as int);
            vstd::arithmetic::mul::lemma_mul_is_commutative(
                total_beats as int,
                samples_per_beat as int,
            );
        }
        let samples_in_beat = pos - total_beats * samples_per_beat;
        let sixteenth = (samples_in_beat * 4 / samples_per_beat) as u8;
        proof {
            assert((samples_in_beat * 4) / (samples_per_beat as int) < 4) by (nonlinear_arith)
                requires
                    samples_in_beat < samples_per_beat,
                    samples_per_beat > 0,
            ;
        }
        TickInfo { bar, beat: beat_in_bar, sixteenth, sample_pos: pos }
    }
}

/// A tick at the start of a bar is also at the start of a beat.
pub proof fn law_new_bar_is_new_beat(t: TickInfo)
    ensures
        (t.beat == 0 && t.sixteenth == 0) ==> t.sixteenth == 0,
{
}

/// `a` comes no later than `b` in bars, beats and sixteenths.
pub open spec fn tick_le(a: TickInfo, b: TickInfo) -> bool {
    ||| a.bar < b.bar
    ||| a.bar == b.bar && a.beat < b.beat
    ||| a.bar == b.bar && a.beat == b.beat && a.sixteenth <= b.sixteenth
}

/// Musical time does not run backwards: at a later sample position the
/// tick is no earlier, as long as the bar count fits in 32 bits.
pub proof fn law_ticks_follow_position(p1: u64, p2: u64, spb: u64)
    requires
        p1 <= p2,
        spb > 0,
        p2 / spb / 4 <= u32::MAX,
    ensures
        tick_le(tick_at(p1, spb), tick_at(p2, spb)),
{
    let s = spb as int;
    let b1 = p1 / spb;
    let b2 = p2 / spb;
    vstd::arithmetic::div_mod::lemma_div_is_ordered(p1 as int, p2 as int, s);
    vstd::arithmetic::div_mod::lemma_div_is_ordered(b1 as int, b2 as int, 4);
    lemma_beat_split(b1 as int);
    lemma_beat_split(b2 as int);
    lemma_sixteenth_bound(p1, spb);
    lemma_sixteenth_bound(p2, spb);
    if b1 == b2 {
        vstd::arithmetic::div_mod::lemma_fundamental_div_mod(p1 as int, s);
        vstd::arithmetic::div_mod::lemma_fundamental_div_mod(p2 as int, s);
        vstd::arithmetic::mul::lemma_mul_is_commutative(b1 as int, s);
        let r1 = p1 - b1 * s;
        let r2 = p2 - b2 * s;
        assert(r1 <= r2);
        vstd::arithmetic::div_mod::lemma_div_is_ordered(r1 * 4, r2 * 4, s);
    }
}

/// A beat count splits into whole bars and a beat within the bar.
proof fn lemma_beat_split(b: int)
    requires
        0 <= b,
    ensures
        b == 4 * (b / 4) + b % 4,
        0 <= b % 4 < 4,
        0 <= b / 4,
{
    vstd::arithmetic::div_mod::lemma_fundamental_div_mod(b, 4);
    vstd::arithmetic::div_mod::lemma_mod_bound(b, 4);
    vstd::arithmetic::div_mod::lemma_div_pos_is_pos(b, 4);
}

/// The position within a beat is below the beat length, so its sixteenth is
/// below four.
proof fn lemma_sixteenth_bound(pos: u64, spb: u64)
    requires
        spb > 0,
    ensures
        0 <= pos - (pos / spb) * spb < spb,
        0 <= ((pos - (pos / spb) * spb) * 4) / (spb as int) < 4,
{
    let s = spb as int;
    vstd::arithmetic::div_mod::lemma_fundamental_div_mod(pos as int, s);
    vstd::arithmetic::div_mod::lemma_mod_bound(pos as int, s);
    vstd::arithmetic::mul::lemma_mul_is_commutative((pos / spb) as int, s);
    let r = pos - (pos / spb) * spb;
    assert(0 <= (r * 4) / s < 4) by (nonlinear_arith)
        requires
            0 <= r < s,
    ;
}

} // verus!
