//! Integer parts of the high-precision (`f64`) processing support: precision
//! choice per node type, dither selection, the `f64` vector width, and the noise generator's
//! linear congruential state.
use vstd::prelude::*;

verus! {

/// Which sample precision a node uses.
#[derive(Debug, Clone, Copy, PartialEq, Eq, Structural)]
pub enum PrecisionMode {
    /// Use `f32`.
    F32,
    /// Use `f64` with conversion.
    F64,
    /// Choose from the node's requirements.
    Auto,
}

/// Kinds of dither.
#[derive(Debug, Clone, Copy, PartialEq, Eq, Structural)]
pub enum DitherType {
    /// No dither.
    NoDither,
    /// Rectangular probability density.
    Rectangular,
    /// Triangular probability density.
    Triangular,
    /// Gaussian probability density.
    Gaussian,
    /// High-pass triangular probability density.
    HighPass,
}

/// Precision requirements of processing.
///
/// The dynamic range and error thresholds are carried as `f64` bit patterns;
/// the choice of precision reads only the mode and the oversampling flag.
#[derive(Debug, Clone, Copy, PartialEq, Eq, Structural)]
pub struct PrecisionConfig {
    /// Precision mode.
    pub mode: PrecisionMode,
    /// Bit pattern of the minimum dynamic range, in dB.
    pub min_dynamic_range_bits: u64,
    /// Bit pattern of the largest error allowed, in dBFS.
    pub max_error_allowed_bits: u64,
    /// Whether oversampling is enabled.
    pub enable_oversampling: bool,
}

impl Default for PrecisionConfig {
    /// Automatic choice, 120 dB dynamic range, -144 dBFS error, no
    /// oversampling.
    fn default() -> (c: Self)
        ensures
            c.mode == PrecisionMode::Auto,
            c.min_dynamic_range_bits == 0x405E_0000_0000_0000u64,
            c.max_error_allowed_bits == 0xC062_0000_0000_0000u64,
            !c.enable_oversampling,
    {
        PrecisionConfig {
            mode: PrecisionMode::Auto,
            min_dynamic_range_bits: 0x405E_0000_0000_0000u64,
            max_error_allowed_bits: 0xC062_0000_0000_0000u64,
            enable_oversampling: false,
        }
    }
}

/// Whether a node of type `node_type` runs in `f64`: never in `F32` mode,
/// always in `F64` mode; in `Auto` mode, for the node types that need it
/// (FM oscillators, wavefolders, elliptic filters, granular synthesis,
/// convolution), not for sine oscillators and biquad filters, and for any
/// other type exactly when oversampling is enabled.
pub open spec fn needs_f64(mode: PrecisionMode, oversampling: bool, node_type: Seq<char>) -> bool {
    match mode {
        PrecisionMode::F32 => false,
        PrecisionMode::F64 => true,
        PrecisionMode::Auto => if node_type == "sine_oscillator"@ {
            false
        } else if node_type == "fm_oscillator"@ {
            true
        } else if node_type == "wavefolder"@ {
            true
        } else if node_type == "biquad_filter"@ {
            false
        } else if node_type == "elliptic_filter"@ {
            true
        } else if node_type == "granular"@ {
            true
        } else if node_type == "convolution"@ {
            true
        } else {
            oversampling
        },
    }
}

/// How the precision is chosen, by mode and node type, whatever the
/// oversampling setting: `F32` always gives `f32` and `F64` always `f64`;
/// in `Auto` mode FM oscillators, wavefolders, elliptic filters, granular
/// synthesis and convolution always get `f64`, sine oscillators and biquad
/// filters always `f32`, and any other node type gets `f64` exactly when
/// oversampling is on.
pub proof fn law_precision_by_node_type(oversampling: bool, node_type: Seq<char>)
    ensures
        !needs_f64(PrecisionMode::F32, oversampling, node_type),
        needs_f64(PrecisionMode::F64, oversampling, node_type),
        node_type == "fm_oscillator"@ || node_type == "wavefolder"@ || node_type
            == "elliptic_filter"@ || node_type == "granular"@ || node_type == "convolution"@
            ==> needs_f64(PrecisionMode::Auto, oversampling, node_type),
        node_type == "sine_oscillator"@ || node_type == "biquad_filter"@ ==> !needs_f64(
            PrecisionMode::Auto,
            oversampling,
            node_type,
        ),
        node_type != "fm_oscillator"@ && node_type != "wavefolder"@ && node_type
            != "elliptic_filter"@ && node_type != "granular"@ && node_type != "convolution"@
            && node_type != "sine_oscillator"@ && node_type != "biquad_filter"@ ==> needs_f64(
            PrecisionMode::Auto,
            oversampling,
            node_type,
        ) == oversampling,
{
    reveal_strlit("sine_oscillator");
    reveal_strlit("fm_oscillator");
    reveal_strlit("wavefolder");
    reveal_strlit("biquad_filter");
    reveal_strlit("elliptic_filter");
    reveal_strlit("granular");
    reveal_strlit("convolution");
    assert("sine_oscillator"@.len() == 15 && "elliptic_filter"@.len() == 15);
    assert("fm_oscillator"@.len() == 13 && "biquad_filter"@.len() == 13);
    assert("wavefolder"@.len() == 10 && "granular"@.len() == 8 && "convolution"@.len() == 11);
    assert("sine_oscillator"@[0] != "elliptic_filter"@[0]);
    assert("fm_oscillator"@[0] != "biquad_filter"@[0]);
}

/// Whether `text` reads `literal`.
fn same_text(text: &String, literal: &str) -> (r: bool)
    ensures
        r == (text@ == literal@),
{
    *text == literal.to_owned()
}

/// Choose the precision of a node: `true` for `f64`, as `needs_f64` states.
pub fn auto_select_precision(config: &PrecisionConfig, node_type: &str) -> (r: bool)
    ensures
        r == needs_f64(config.mode, config.enable_oversampling, node_type@),
        config.mode is F32 ==> !r,
        config.mode is F64 ==> r,
        config.mode is Auto && (node_type@ == "fm_oscillator"@ || node_type@ == "wavefolder"@
            || node_type@ == "elliptic_filter"@ || node_type@ == "granular"@ || node_type@
            == "convolution"@) ==> r,
        config.mode is Auto && (node_type@ == "sine_oscillator"@ || node_type@
            == "biquad_filter"@) ==> !r,
{
    proof {
        law_precision_by_node_type(config.enable_oversampling, node_type@);
    }
    match config.mode {
        PrecisionMode::F32 => false,
        PrecisionMode::F64 => true,
        PrecisionMode::Auto => {
            let t = node_type.to_owned();
            if same_text(&t, "sine_oscillator") {
                false
            } else if same_text(&t, "fm_oscillator") {
                true
            } else if same_text(&t, "wavefolder") {
                true
            } else if same_text(&t, "biquad_filter") {
                false
            } else if same_text(&t, "elliptic_filter") {
                true
            } else if same_text(&t, "granular") {
                true
            } else if same_text(&t, "convolution") {
                true
            } else {
                config.enable_oversampling
            }
        },
    }
}

/// SIMD configuration for `f64` processing.
#[derive(Debug, Clone, Copy, PartialEq, Eq, Structural)]
pub struct F64SimdConfig {
    /// AVX-512 available.
    pub has_avx512: bool,
    /// AVX2 available.
    pub has_avx2: bool,
    /// SSE2 available.
    pub has_sse2: bool,
    /// Number of `f64` lanes to use.
    pub optimal_width: usize,
}

impl F64SimdConfig {
    /// The configuration for a processor with the given features: eight lanes
    /// with AVX-512, four with AVX2, two otherwise.
    pub fn from_features(has_avx512: bool, has_avx2: bool, has_sse2: bool) -> (c: Self)
        ensures
            c.has_avx512 == has_avx512,
            c.has_avx2 == has_avx2,
            c.has_sse2 == has_sse2,
            c.optimal_width == if has_avx512 {
                8usize
            } else if has_avx2 {
                4usize
            } else {
                2usize
            },
    {
        let optimal_width = if has_avx512 {
            8
        } else if has_avx2 {
            4
        } else {
            2
        };
        F64SimdConfig { has_avx512, has_avx2, has_sse2, optimal_width }
    }
}

/// Multiplier of the generator.
pub const LCG_MULTIPLIER: u64 = 1664525;

/// Increment of the generator.
pub const LCG_INCREMENT: u64 = 1013904223;

/// Modulus parameter of the generator.
pub const LCG_MODULUS: u64 = 0x8000_0000;

/// Spacing between the seeds of successive lanes.
pub const LANE_SEED_STEP: u64 = 0x9E37_79B9_7F4A_7C15;

/// Mask of the 31 low bits taken from each state.
pub const SAMPLE_MASK: u64 = 0x7FFF_FFFF;

/// Seed of lane `i`: the seed plus `i` times the lane step, wrapping.
pub open spec fn lane_seed(seed: u64, i: int) -> u64 {
    vstd::wrapping::u64_specs::wrapping_add(
        seed,
        vstd::wrapping::u64_specs::wrapping_mul(i as u64, LANE_SEED_STEP),
    )
}

/// One step of the linear congruential generator, wrapping.
pub open spec fn lcg_step(state: u64) -> u64 {
    vstd::wrapping::u64_specs::wrapping_add(
        vstd::wrapping::u64_specs::wrapping_mul(state, LCG_MULTIPLIER),
        LCG_INCREMENT,
    )
}

/// Linear congruential noise generator with one state per lane.
pub struct SimdNoiseGenerator<const LANES: usize> {
    state: [u64; LANES],
    a: u64,
    c: u64,
    m: u64,
}

impl<const LANES: usize> SimdNoiseGenerator<LANES> {
    /// The state of each lane.
    pub closed spec fn states(&self) -> Seq<u64> {
        self.state@
    }

    /// The generator parameters are the fixed ones.
    pub closed spec fn wf(&self) -> bool {
        &&& self.a == LCG_MULTIPLIER
        &&& self.c == LCG_INCREMENT
        &&& self.m == LCG_MODULUS
    }

    /// Create a generator whose lane `i` starts at `seed + i * step`.
    pub fn new(seed: u64) -> (g: Self)
        ensures
            g.wf(),
            g.states() == Seq::new(LANES as nat, |i: int| lane_seed(seed, i)),
    {
        let mut state = [0u64; LANES];
        let mut i: usize = 0;
        while i < LANES
            invariant
                i <= LANES,
                state@.len() == LANES,
                forall|j: int| 0 <= j < i ==> state@[j] == lane_seed(seed, j),
            decreases LANES - i,
        {
            state[i] = seed.wrapping_add((i as u64).wrapping_mul(LANE_SEED_STEP));
            i = i + 1;
        }
        let g = SimdNoiseGenerator {
            state,
            a: LCG_MULTIPLIER,
            c: LCG_INCREMENT,
            m: LCG_MODULUS,
        };
        assert(g.states() =~= Seq::new(LANES as nat, |i: int| lane_seed(seed, i)));
        g
    }

    /// Advance every lane one step and return the 31 low bits of each new
    /// state, each below `2^31`; dividing by `2^31` gives uniform samples in
    /// `[0, 1)`.
    pub fn next_raw(&mut self) -> (r: [u64; LANES])
        requires
            old(self).wf(),
        ensures
            final(self).wf(),
            final(self).states() == old(self).states().map_values(|s: u64| lcg_step(s)),
            r@ == final(self).states().map_values(|s: u64| s & SAMPLE_MASK),
            forall|i: int| 0 <= i < LANES ==> #[trigger] r@[i] < 0x8000_0000,
    {
        let mut result = [0u64; LANES];
        let mut i: usize = 0;
        while i < LANES
            invariant
                self.wf(),
                i <= LANES,
                result@.len() == LANES,
                self.state@.len() == LANES,
                forall|j: int| 0 <= j < i ==> self.state@[j] == lcg_step(old(self).state@[j]),
                forall|j: int| i <= j < LANES ==> self.state@[j] == old(self).state@[j],
                forall|j: int| 0 <= j < i ==> result@[j] == self.state@[j] & SAMPLE_MASK,
                forall|j: int| 0 <= j < i ==> #[trigger] result@[j] < 0x8000_0000,
            decreases LANES - i,
        {
            let next = self.state[i].wrapping_mul(self.a).wrapping_add(self.c);
            self.state[i] = next;
            result[i] = next & SAMPLE_MASK;
            assert(next & 0x7FFF_FFFFu64 < 0x8000_0000u64) by (bit_vector);
            i = i + 1;
        }
        assert(self.states() =~= old(self).states().map_values(|s: u64| lcg_step(s)));
        assert(result@ =~= self.states().map_values(|s: u64| s & SAMPLE_MASK));
        result
    }
}

} // verus!
