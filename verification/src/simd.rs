//! SIMD capability description: which vector widths to use for `f32` and
//! `f64` samples given the features of the processor.
use vstd::prelude::*;

verus! {

/// Basic SIMD configuration: lane counts for `f32` and `f64`.
#[derive(Debug, Clone, Copy, PartialEq, Eq, Structural)]
pub struct SimdConfig {
    /// Number of `f32` lanes.
    pub f32_width: usize,
    /// Number of `f64` lanes.
    pub f64_width: usize,
}

impl SimdConfig {
    /// The conservative configuration: four `f32` lanes and two `f64` lanes,
    /// the minimum every supported target guarantees.
    pub fn detect() -> (c: Self)
        ensures
            c.f32_width == 4,
            c.f64_width == 2,
    {
        SimdConfig { f32_width: 4, f64_width: 2 }
    }

    /// Portable SIMD is always available.
    pub fn is_simd_available(&self) -> (r: bool)
        ensures
            r,
    {
        true
    }
}

/// Instruction set family chosen for vector processing.
#[derive(Debug, Clone, Copy, PartialEq, Eq, Structural)]
pub enum SimdArchitecture {
    /// x86 SSE.
    X86SSE,
    /// x86 AVX.
    X86AVX,
    /// x86 AVX2.
    X86AVX2,
    /// x86 AVX-512.
    X86AVX512,
    /// ARM NEON.
    ARMNeon,
    /// ARM SVE.
    ARMSve,
    /// PowerPC VSX.
    PowerPCVSX,
    /// RISC-V vector extension.
    RISCVV,
    /// WebAssembly SIMD128.
    WasmSimd128,
    /// No specific vector instructions.
    Generic,
}

/// The processor features that decide the SIMD configuration.
#[derive(Debug, Clone, Copy, PartialEq, Eq, Structural)]
pub struct CpuFeatures {
    /// x86 SSE.
    pub sse: bool,
    /// x86 AVX.
    pub avx: bool,
    /// x86 AVX2.
    pub avx2: bool,
    /// x86 AVX-512 foundation.
    pub avx512: bool,
    /// Fused multiply-add.
    pub fma: bool,
    /// ARM NEON.
    pub neon: bool,
    /// ARM SVE.
    pub sve: bool,
    /// PowerPC VSX.
    pub vsx: bool,
    /// WebAssembly SIMD128.
    pub wasm_simd: bool,
}

/// Full SIMD configuration derived from the processor features.
#[derive(Debug, Clone, Copy, PartialEq, Eq, Structural)]
pub struct AdvancedSimdConfig {
    /// Chosen instruction set family.
    pub arch: SimdArchitecture,
    /// Number of `f32` lanes.
    pub f32_lanes: usize,
    /// Number of `f64` lanes.
    pub f64_lanes: usize,
    /// Fused multiply-add available.
    pub supports_fma: bool,
    /// AVX-512 available.
    pub supports_avx512: bool,
    /// NEON available.
    pub supports_neon: bool,
    /// SVE available.
    pub supports_sve: bool,
    /// VSX available.
    pub supports_vsx: bool,
    /// Preferred buffer alignment in bytes.
    pub optimal_alignment: usize,
}

/// Architecture and lane counts chosen from the features, the widest first.
pub open spec fn choose_architecture(f: CpuFeatures) -> (SimdArchitecture, usize, usize) {
    if f.avx512 {
        (SimdArchitecture::X86AVX512, 16, 8)
    } else if f.avx2 {
        (SimdArchitecture::X86AVX2, 8, 4)
    } else if f.avx {
        (SimdArchitecture::X86AVX, 8, 4)
    } else if f.neon {
        (SimdArchitecture::ARMNeon, 4, 2)
    } else if f.sve {
        (SimdArchitecture::ARMSve, 4, 2)
    } else if f.vsx {
        (SimdArchitecture::PowerPCVSX, 4, 2)
    } else if f.wasm_simd {
        (SimdArchitecture::WasmSimd128, 4, 2)
    } else if f.sse {
        (SimdArchitecture::X86SSE, 4, 2)
    } else {
        (SimdArchitecture::Generic, 1, 1)
    }
}

/// Buffer alignment suited to an architecture.
pub open spec fn alignment_for(arch: SimdArchitecture) -> usize {
    match arch {
        SimdArchitecture::X86AVX512 => 64,
        SimdArchitecture::X86AVX2 | SimdArchitecture::X86AVX => 32,
        _ => 16,
    }
}

/// The configuration derived from the features.
pub open spec fn config_for(f: CpuFeatures) -> AdvancedSimdConfig {
    let (arch, f32_lanes, f64_lanes) = choose_architecture(f);
    AdvancedSimdConfig {
        arch,
        f32_lanes,
        f64_lanes,
        supports_fma: f.fma,
        supports_avx512: f.avx512,
        supports_neon: f.neon,
        supports_sve: f.sve,
        supports_vsx: f.vsx,
        optimal_alignment: alignment_for(arch),
    }
}

/// Whether the processor has any vector instruction set.
pub open spec fn has_vector_unit(f: CpuFeatures) -> bool {
    f.sse || f.avx || f.avx2 || f.avx512 || f.neon || f.sve || f.vsx || f.wasm_simd
}

/// What the configuration chosen from the features is, whatever they are:
/// - with any vector instruction set there is a real SIMD architecture with
///   at least 4 `f32` lanes, twice as many `f32` lanes as `f64` lanes, and an
///   alignment of one `f32` vector (at least 16 bytes);
/// - with none, the generic architecture with one lane of each;
/// - the widest set wins: AVX-512 gives 16 `f32` lanes, AVX2 or AVX 8, and
///   any other set 4; with SSE alone it is `X86SSE` with 4 and 2 lanes;
/// - the feature flags are carried over as they are.
pub proof fn law_simd_config_follows_features(f: CpuFeatures)
    ensures
        has_vector_unit(f) ==> config_for(f).arch != SimdArchitecture::Generic
            && config_for(f).f32_lanes >= 4 && config_for(f).f32_lanes == 2 * config_for(
            f,
        ).f64_lanes && config_for(f).optimal_alignment == 4 * config_for(f).f32_lanes,
        !has_vector_unit(f) ==> config_for(f).arch == SimdArchitecture::Generic
            && config_for(f).f32_lanes == 1 && config_for(f).f64_lanes == 1
            && config_for(f).optimal_alignment == 16,
        f.avx512 ==> config_for(f).arch == SimdArchitecture::X86AVX512 && config_for(f).f32_lanes
            == 16,
        !f.avx512 && (f.avx2 || f.avx) ==> config_for(f).f32_lanes == 8,
        !f.avx512 && !f.avx2 && !f.avx && has_vector_unit(f) ==> config_for(f).f32_lanes == 4,
        f.sse && !f.avx && !f.avx2 && !f.avx512 && !f.neon && !f.sve && !f.vsx && !f.wasm_simd
            ==> config_for(f).arch == SimdArchitecture::X86SSE && config_for(f).f32_lanes == 4
            && config_for(f).f64_lanes == 2,
        config_for(f).supports_fma == f.fma && config_for(f).supports_avx512 == f.avx512
            && config_for(f).supports_neon == f.neon && config_for(f).supports_sve == f.sve
            && config_for(f).supports_vsx == f.vsx,
{
}

impl AdvancedSimdConfig {
    /// The configuration for a processor with the given features.
    pub fn from_features(f: CpuFeatures) -> (c: Self)
        ensures
            c == config_for(f),
            has_vector_unit(f) ==> c.arch != SimdArchitecture::Generic && c.f32_lanes >= 4,
            !has_vector_unit(f) ==> c.arch == SimdArchitecture::Generic && c.f32_lanes == 1,
            f.sse && !f.avx && !f.avx2 && !f.avx512 && !f.neon && !f.sve && !f.vsx && !f.wasm_simd
                ==> c.arch == SimdArchitecture::X86SSE && c.f32_lanes == 4 && c.f64_lanes == 2,
    {
        proof {
            law_simd_config_follows_features(f);
        }
        let (arch, f32_lanes, f64_lanes) = if f.avx512 {
            (SimdArchitecture::X86AVX512, 16, 8)
        } else if f.avx2 {
            (SimdArchitecture::X86AVX2, 8, 4)
        } else if f.avx {
            (SimdArchitecture::X86AVX, 8, 4)
        } else if f.neon {
            (SimdArchitecture::ARMNeon, 4, 2)
        } else if f.sve {
            (SimdArchitecture::ARMSve, 4, 2)
        } else if f.vsx {
            (SimdArchitecture::PowerPCVSX, 4, 2)
        } else if f.wasm_simd {
            (SimdArchitecture::WasmSimd128, 4, 2)
        } else if f.sse {
            (SimdArchitecture::X86SSE, 4, 2)
        } else {
            (SimdArchitecture::Generic, 1, 1)
        };
        let alignment = match arch {
            SimdArchitecture::X86AVX512 => 64,
            SimdArchitecture::X86AVX2 | SimdArchitecture::X86AVX => 32,
            _ => 16,
        };
        AdvancedSimdConfig {
            arch,
            f32_lanes,
            f64_lanes,
            supports_fma: f.fma,
            supports_avx512: f.avx512,
            supports_neon: f.neon,
            supports_sve: f.sve,
            supports_vsx: f.vsx,
            optimal_alignment: alignment,
        }
    }

    /// Whether more than one `f32` lane is available.
    pub fn is_simd_available(&self) -> (r: bool)
        ensures
            r == (self.f32_lanes > 1),
    {
        self.f32_lanes > 1
    }

    /// Recommended buffer size: four vectors of `f32`.
    pub fn recommended_buffer_size(&self) -> (r: usize)
        requires
            self.f32_lanes * 4 <= usize::MAX,
        ensures
            r == self.f32_lanes * 4,
    {
        self.f32_lanes * 4
    }

    /// Lane count for elements of type `T`: the `f32` count for 4-byte types,
    /// the `f64` count for 8-byte types, and 1 otherwise.
    pub fn get_simd_width_for_type<T>(&self) -> (r: usize)
        ensures
            r == if vstd::layout::size_of::<T>() == 4 {
                self.f32_lanes
            } else if vstd::layout::size_of::<T>() == 8 {
                self.f64_lanes
            } else {
                1
            },
    {
        let size = core::mem::size_of::<T>();
        if size == 4 {
            self.f32_lanes
        } else if size == 8 {
            self.f64_lanes
        } else {
            1
        }
    }
}

/// Runtime switches for SIMD processing.
#[derive(Debug, Clone, Copy, PartialEq, Eq, Structural)]
pub struct RuntimeSimdConfig {
    /// SIMD processing enabled.
    pub enabled: bool,
    /// Detect the features automatically.
    pub auto_detect: bool,
    /// Prefer `f32` even when `f64` SIMD is available.
    pub prefer_f32: bool,
    /// Use fused multiply-add.
    pub use_fma: bool,
    /// Unroll loops aggressively.
    pub aggressive_unrolling: bool,
    /// Use cache-aligned buffers.
    pub cache_aligned_buffers: bool,
}

} // verus!
