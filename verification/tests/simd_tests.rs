use kama_core::high_precision::{
    auto_select_precision, F64SimdConfig, PrecisionConfig, PrecisionMode, SimdNoiseGenerator,
};
use kama_core::simd::{AdvancedSimdConfig, CpuFeatures, SimdArchitecture, SimdConfig};

fn all_feature_sets() -> Vec<CpuFeatures> {
    let mut out = Vec::new();
    for bits in 0u32..512 {
        let b = |i: u32| bits & (1 << i) != 0;
        out.push(CpuFeatures {
            sse: b(0),
            avx: b(1),
            avx2: b(2),
            avx512: b(3),
            fma: b(4),
            neon: b(5),
            sve: b(6),
            vsx: b(7),
            wasm_simd: b(8),
        });
    }
    out
}

#[test]
fn test_simd_config() {
    for features in all_feature_sets() {
        let config = AdvancedSimdConfig::from_features(features);
        assert!(config.f32_lanes >= 1);
    }
}

#[test]
fn test_f64_simd_config() {
    for bits in 0u32..8 {
        let config = F64SimdConfig::from_features(bits & 1 != 0, bits & 2 != 0, bits & 4 != 0);
        assert!(config.optimal_width >= 2, "SSE2 should be available on x86_64");
    }
}

#[test]
fn simd_architecture_choice() {
    let none = CpuFeatures {
        sse: false,
        avx: false,
        avx2: false,
        avx512: false,
        fma: false,
        neon: false,
        sve: false,
        vsx: false,
        wasm_simd: false,
    };
    let generic = AdvancedSimdConfig::from_features(none);
    assert_eq!(generic.arch, SimdArchitecture::Generic);
    assert!(!generic.is_simd_available());
    assert_eq!(generic.optimal_alignment, 16);

    let avx2 = AdvancedSimdConfig::from_features(CpuFeatures { avx2: true, avx: true, sse: true, fma: true, ..none });
    assert_eq!(avx2.arch, SimdArchitecture::X86AVX2);
    assert_eq!((avx2.f32_lanes, avx2.f64_lanes, avx2.optimal_alignment), (8, 4, 32));
    assert!(avx2.supports_fma);
    assert_eq!(avx2.recommended_buffer_size(), 32);
    assert_eq!(avx2.get_simd_width_for_type::<f32>(), 8);
    assert_eq!(avx2.get_simd_width_for_type::<f64>(), 4);
    assert_eq!(avx2.get_simd_width_for_type::<u16>(), 1);

    let avx512 = AdvancedSimdConfig::from_features(CpuFeatures { avx512: true, ..none });
    assert_eq!((avx512.arch, avx512.f32_lanes, avx512.optimal_alignment), (SimdArchitecture::X86AVX512, 16, 64));

    let neon = AdvancedSimdConfig::from_features(CpuFeatures { neon: true, sse: true, ..none });
    assert_eq!((neon.arch, neon.f32_lanes, neon.f64_lanes), (SimdArchitecture::ARMNeon, 4, 2));

    let basic = SimdConfig::detect();
    assert_eq!((basic.f32_width, basic.f64_width), (4, 2));
    assert!(basic.is_simd_available());
}

#[test]
fn f64_widths() {
    assert_eq!(F64SimdConfig::from_features(true, true, true).optimal_width, 8);
    assert_eq!(F64SimdConfig::from_features(false, true, true).optimal_width, 4);
    assert_eq!(F64SimdConfig::from_features(false, false, true).optimal_width, 2);
}

#[test]
fn noise_generator_steps() {
    let mut rng = SimdNoiseGenerator::<4>::new(12345);
    let raw = rng.next_raw();
    for i in 0..4u64 {
        let seed = 12345u64.wrapping_add(i.wrapping_mul(0x9E37_79B9_7F4A_7C15));
        let next = seed.wrapping_mul(1664525).wrapping_add(1013904223);
        assert_eq!(raw[i as usize], next & 0x7FFF_FFFF);
    }
}

#[test]
fn test_precision_auto_selection() {
    let config = PrecisionConfig::default();

    // An FM oscillator needs f64.
    assert!(auto_select_precision(&config, "fm_oscillator"));

    // A plain sine oscillator can use f32.
    assert!(!auto_select_precision(&config, "sine_oscillator"));

    // An elliptic filter needs f64.
    assert!(auto_select_precision(&config, "elliptic_filter"));
}

#[test]
fn precision_follows_mode_and_oversampling() {
    let config = PrecisionConfig::default();
    assert_eq!(f64::from_bits(config.min_dynamic_range_bits), 120.0);
    assert_eq!(f64::from_bits(config.max_error_allowed_bits), -144.0);
    assert!(!auto_select_precision(&config, "reverb"));
    let oversampled = PrecisionConfig { enable_oversampling: true, ..config };
    assert!(auto_select_precision(&oversampled, "reverb"));
    assert!(!auto_select_precision(&oversampled, "biquad_filter"));
    let forced = PrecisionConfig { mode: PrecisionMode::F32, ..config };
    assert!(!auto_select_precision(&forced, "fm_oscillator"));
    let wide = PrecisionConfig { mode: PrecisionMode::F64, ..config };
    assert!(auto_select_precision(&wide, "sine_oscillator"));
}

#[test]
fn noise_raw_values_scale_below_one() {
    let mut edge = SimdNoiseGenerator::<4>::new(653637408);
    let first = edge.next_raw();
    assert_eq!(first[0], 0x7FFF_FFFF);
    assert!((first[0] as f64 / 2_147_483_648.0) < 1.0);

    let mut rng = SimdNoiseGenerator::<4>::new(12345);
    let mut sum = 0.0f64;
    for _ in 0..2500 {
        let raw = rng.next_raw();
        for v in raw {
            assert!(v < 1u64 << 31);
            let sample = v as f64 / 2_147_483_648.0;
            assert!((0.0..1.0).contains(&sample));
            sum += sample;
        }
    }
    let mean = sum / 10000.0;
    assert!((mean - 0.5).abs() < 0.01, "mean {}", mean);
}
